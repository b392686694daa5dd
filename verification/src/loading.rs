//! Generational resource handles: storages issue cheap copyable tickets
//! whose staleness is checked at dereference time, so scenes may cache them
//! across frames while storages are torn down and rebuilt.

use vstd::prelude::*;
use vstd::string::StringExecFns;

pub mod resources;
pub mod utility2d;

verus! {

/// Generational handle to a stored resource: the slot it was issued for,
/// the identity of the storage that issued it, and the storage's epoch at
/// issuance. It only dereferences while that storage is locked and still in
/// the same epoch.
#[derive(Clone, Copy, PartialEq, Eq, Structural, Debug)]
pub struct Ticket {
    pub index: usize,
    pub storage_identity: u128,
    pub epoch: u32,
}

/// Capability of an aggregate that owns several typed storages and resolves
/// (storage category, resource key) to a ticket.
pub trait TicketManager {
    /// How the aggregate's storage categories are named.
    type StorageKey;

    fn get_ticket_with_key(
        &self,
        storage_key: &Self::StorageKey,
        resource_key: &str,
    ) -> Result<Ticket, ResourceError>;
}

/// Failures of resource lookup and ticket dereference.
#[derive(Debug)]
pub enum ResourceError {
    NotStored(String),
    StorageUnlocked,
    TicketOutdated,
    UnknownStorage(String),
    WrongStorage,
}

impl ResourceError {
    /// The log line that describes this failure.
    pub open spec fn spec_message(self) -> Seq<char> {
        match self {
            ResourceError::NotStored(key) => "Missing resource with key: "@ + key@,
            ResourceError::StorageUnlocked => "Attempting to access unlocked storage."@,
            ResourceError::TicketOutdated =>
                "Attempting to access storage with outdated ticket."@,
            ResourceError::UnknownStorage(key) =>
                "Attempting to access storage with unknown key: "@ + key@,
            ResourceError::WrongStorage =>
                "Attempting to access storage with ticket corresponding to the wrong resource type."@,
        }
    }

    /// Renders the failure as the line a host hands to its logger.
    pub fn log_failure(e: ResourceError) -> (m: String)
        ensures
            m@ == e.spec_message(),
    {
        match e {
            ResourceError::NotStored(key) => "Missing resource with key: ".to_owned().concat(
                key.as_str(),
            ),
            ResourceError::StorageUnlocked =>
                "Attempting to access unlocked storage.".to_owned(),
            ResourceError::TicketOutdated =>
                "Attempting to access storage with outdated ticket.".to_owned(),
            ResourceError::UnknownStorage(key) =>
                "Attempting to access storage with unknown key: ".to_owned().concat(key.as_str()),
            ResourceError::WrongStorage =>
                "Attempting to access storage with ticket corresponding to the wrong resource type.".to_owned(),
        }
    }
}

} // verus!
