//! Ticketed resource storage: a keyed, append-only collection of
//! reference-counted resources loaded through a pluggable loader, issuing
//! generation-checked tickets.

use vstd::prelude::*;
use vstd::hash_map::StringHashMap;
use std::rc::Rc;
use crate::loading::{ResourceError, Ticket};

verus! {

/// Loader capability a storage is built over: turns load arguments into a
/// resource, or reports why it could not.
pub trait ResourceLoader<R> {
    type Arguments;

    fn load(&self, args: &Self::Arguments) -> Result<R, ResourceLoadError>;
}

/// Failures of [`ResourceStorage::load`].
#[derive(Debug)]
pub enum ResourceLoadError {
    AlreadyExists(String),
    LoadFailure(String),
}

/// Ghost image of a [`ResourceStorage`]: the stored resources in load
/// order, the key-to-slot lookup, and the generation state.
pub struct StorageView<R> {
    pub resources: Seq<Rc<R>>,
    pub keys: Map<Seq<char>, usize>,
    pub locked: bool,
    pub epoch: u32,
    pub identity: u128,
}

impl<R> StorageView<R> {
    /// Every key names a live slot, and no two keys share one. Slots never
    /// move: the collection is append-only and keys are never overwritten.
    pub open spec fn wf(self) -> bool {
        &&& forall|k: Seq<char>| #[trigger] self.keys.contains_key(k) ==> self.keys[k]
            < self.resources.len()
        &&& forall|k1: Seq<char>, k2: Seq<char>|
            #![trigger self.keys[k1], self.keys[k2]]
            self.keys.contains_key(k1) && self.keys.contains_key(k2) && self.keys[k1]
                == self.keys[k2] ==> k1 == k2
    }

    /// After `lock`: stable, safe to dereference; the epoch is kept.
    pub open spec fn spec_lock(self) -> StorageView<R> {
        StorageView { locked: true, ..self }
    }

    /// After `unlock`: resource identities are about to change, so the
    /// epoch advances and outstanding tickets go stale.
    pub open spec fn spec_unlock(self) -> StorageView<R> {
        StorageView { locked: false, epoch: (self.epoch + 1) as u32, ..self }
    }

    /// The ticket issued for `key` in the current epoch.
    pub open spec fn ticket_for(self, key: Seq<char>) -> Ticket
        recommends
            self.keys.contains_key(key),
    {
        Ticket { index: self.keys[key], storage_identity: self.identity, epoch: self.epoch }
    }

    /// What dereferencing `ticket` yields: each guard in order, then the
    /// shared resource at the ticket's slot.
    pub open spec fn spec_get_by_ticket(self, ticket: Ticket) -> Result<Rc<R>, ResourceError> {
        if !self.locked {
            Err(ResourceError::StorageUnlocked)
        } else if self.identity != ticket.storage_identity {
            Err(ResourceError::WrongStorage)
        } else if self.epoch != ticket.epoch {
            Err(ResourceError::TicketOutdated)
        } else {
            Ok(self.resources[ticket.index as int])
        }
    }

    /// A ticket is genuine if, whenever it would pass all staleness guards,
    /// it was issued by this storage in the current epoch — and slots never
    /// move in an append-only store, so its index is still live. Presenting
    /// only tickets the storage issued satisfies this.
    pub open spec fn genuine(self, ticket: Ticket) -> bool {
        self.locked && ticket.storage_identity == self.identity && ticket.epoch == self.epoch
            ==> ticket.index < self.resources.len()
    }
}

/// A ticket issued before an `unlock` is outdated once the storage is
/// locked again — the epoch moved on — while lookup by the same key still
/// succeeds and yields the same shared resource.
pub proof fn lemma_ticket_outdated_after_unlock<R>(v: StorageView<R>, key: Seq<char>)
    requires
        v.wf(),
        v.keys.contains_key(key),
        v.epoch < u32::MAX,
    ensures
        ({
            let relocked = v.spec_unlock().spec_lock();
            &&& relocked.spec_get_by_ticket(v.ticket_for(key)) == Err::<Rc<R>, ResourceError>(
                ResourceError::TicketOutdated,
            )
            &&& relocked.keys.contains_key(key)
            &&& relocked.resources[relocked.keys[key] as int] == v.resources[v.keys[key] as int]
        }),
{
}

/// A ticket from one storage, presented to a differently-identified locked
/// storage of the same resource type, is rejected as `WrongStorage`.
pub proof fn lemma_wrong_storage<R>(issuer: StorageView<R>, other: StorageView<R>, key: Seq<char>)
    requires
        issuer.keys.contains_key(key),
        other.locked,
        other.identity != issuer.identity,
    ensures
        other.spec_get_by_ticket(issuer.ticket_for(key)) == Err::<Rc<R>, ResourceError>(
            ResourceError::WrongStorage,
        ),
{
}

/// Loading never overwrites: after a successful load of a fresh key, that
/// key is present (so a second load of it is rejected unchanged, by
/// `load`'s contract), and every resource loaded earlier keeps its slot and
/// its value under its own key.
pub proof fn lemma_load_never_overwrites<R>(
    before: StorageView<R>,
    after: StorageView<R>,
    key: Seq<char>,
)
    requires
        before.wf(),
        !before.keys.contains_key(key),
        after.keys == before.keys.insert(key, before.resources.len() as usize),
        after.resources.len() == before.resources.len() + 1,
        forall|i: int| 0 <= i < before.resources.len() ==> after.resources[i]
            == #[trigger] before.resources[i],
    ensures
        after.keys.contains_key(key),
        forall|k: Seq<char>| #[trigger] before.keys.contains_key(k) ==> after.keys.contains_key(k)
            && after.keys[k] == before.keys[k] && after.resources[after.keys[k] as int]
            == before.resources[before.keys[k] as int],
{
}

/// Relies on `Rc::clone`: the returned handle is the very same shared
/// resource, reference-counted rather than copied.
#[verifier::external_body]
fn share<R>(resource: &Rc<R>) -> (r: Rc<R>)
    ensures
        r == *resource,
{
    Rc::clone(resource)
}

/// Relies on `uuid::Uuid::new_v4`: a freshly drawn random 128-bit storage
/// identity. Nothing is promised of the value; distinctness of two storages
/// is probabilistic, and the contracts only ever compare identities.
#[verifier::external_body]
fn fresh_identity() -> u128 {
    uuid::Uuid::new_v4().as_u128()
}

/// Keyed, append-only collection of reference-counted resources. Slots of
/// inserted resources never change and `load` never overwrites an existing
/// key; the locked flag and epoch counter drive ticket staleness.
pub struct ResourceStorage<R, L: ResourceLoader<R>> {
    loader: L,
    store: Vec<Rc<R>>,
    map: StringHashMap<usize>,
    epoch: u32,
    locked: bool,
    identity: u128,
}

impl<R, L: ResourceLoader<R>> View for ResourceStorage<R, L> {
    type V = StorageView<R>;

    closed spec fn view(&self) -> StorageView<R> {
        StorageView {
            resources: self.store@,
            keys: self.map@,
            locked: self.locked,
            epoch: self.epoch,
            identity: self.identity,
        }
    }
}

impl<R, L: ResourceLoader<R>> ResourceStorage<R, L> {
    /// A fresh, unlocked, empty storage in epoch zero, with a new identity.
    pub fn new(loader: L) -> (r: ResourceStorage<R, L>)
        ensures
            r@.wf(),
            r@.resources == Seq::<Rc<R>>::empty(),
            r@.keys == Map::<Seq<char>, usize>::empty(),
            !r@.locked,
            r@.epoch == 0,
    {
        ResourceStorage {
            loader,
            store: Vec::new(),
            map: StringHashMap::new(),
            epoch: 0,
            locked: false,
            identity: fresh_identity(),
        }
    }

    /// Marks the storage stable: dereferencing is safe, the epoch is kept.
    pub fn lock(&mut self)
        ensures
            final(self)@ == old(self)@.spec_lock(),
    {
        self.locked = true;
    }

    /// Marks the storage unstable and advances the epoch, so every
    /// outstanding ticket goes stale.
    pub fn unlock(&mut self)
        requires
            old(self)@.epoch < u32::MAX,
        ensures
            final(self)@ == old(self)@.spec_unlock(),
    {
        self.locked = false;
        self.epoch = self.epoch + 1;
    }

    /// Loads a resource under a fresh key through the loader capability.
    /// An existing key is rejected unchanged before the loader is asked;
    /// otherwise the call hands the loader's verdict to [`Self::store_loaded`],
    /// whose contract fixes the outcome for each verdict. Only the loader —
    /// a capability the application implements — decides between the two
    /// verdicts, so this contract leaves that choice open.
    pub fn load(&mut self, key: String, args: &L::Arguments) -> (r: Result<(), ResourceLoadError>)
        requires
            old(self)@.wf(),
        ensures
            final(self)@.wf(),
            old(self)@.keys.contains_key(key@) ==> (r matches Err(e) && e matches
                ResourceLoadError::AlreadyExists(k) && k@ == key@ && final(self)@ == old(self)@),
            !old(self)@.keys.contains_key(key@) ==> ({
                &&& final(self)@.locked == old(self)@.locked
                &&& final(self)@.epoch == old(self)@.epoch
                &&& final(self)@.identity == old(self)@.identity
                &&& match r {
                    Ok(()) => final(self)@.resources.len() == old(self)@.resources.len() + 1
                        && (forall|i: int| 0 <= i < old(self)@.resources.len() ==> final(self)@.resources[i] == old(self)@.resources[i]) && final(self)@.keys == old(self)@.keys.insert(key@, old(self)@.resources.len() as usize),
                    Err(_) => final(self)@ == old(self)@,
                }
            }),
    {
        if self.map.contains_key(key.as_str()) {
            return Err(ResourceLoadError::AlreadyExists(key));
        }
        let loaded = self.loader.load(args);
        self.store_loaded(key, loaded)
    }

    /// Folds a loader's verdict for a fresh key into the storage. A loaded
    /// resource is shared, appended — earlier slots untouched — and bound
    /// to the key at the new slot; a load failure is handed back unchanged
    /// and mutates nothing. The lock state, epoch and identity are never
    /// touched.
    pub fn store_loaded(&mut self, key: String, loaded: Result<R, ResourceLoadError>) -> (r:
        Result<(), ResourceLoadError>)
        requires
            old(self)@.wf(),
            !old(self)@.keys.contains_key(key@),
        ensures
            final(self)@.wf(),
            final(self)@.locked == old(self)@.locked,
            final(self)@.epoch == old(self)@.epoch,
            final(self)@.identity == old(self)@.identity,
            loaded matches Ok(resource) ==> (r matches Ok(())
                && final(self)@.resources.len() == old(self)@.resources.len() + 1
                && final(self)@.resources.last() == resource
                && (forall|i: int| 0 <= i < old(self)@.resources.len() ==> final(self)@.resources[i] == old(self)@.resources[i])
                && final(self)@.keys == old(self)@.keys.insert(key@, old(self)@.resources.len() as usize)),
            loaded matches Err(e) ==> (r matches Err(e2) && e2 == e && final(self)@ == old(
                self,
            )@),
    {
        match loaded {
            Ok(resource) => {
                self.store.push(Rc::new(resource));
                let slot = self.store.len() - 1;
                self.map.insert(key, slot);
                proof {
                    assert forall|k: Seq<char>| #[trigger] self@.keys.contains_key(k)
                        implies self@.keys[k] < self@.resources.len() by {
                        if k != key@ {
                            assert(old(self)@.keys.contains_key(k));
                        }
                    }
                    assert forall|k1: Seq<char>, k2: Seq<char>|
                        self@.keys.contains_key(k1) && self@.keys.contains_key(k2)
                            && #[trigger] self@.keys[k1] == #[trigger] self@.keys[k2]
                        implies k1 == k2 by {
                        if k1 != key@ && k2 != key@ {
                            assert(old(self)@.keys.contains_key(k1));
                            assert(old(self)@.keys.contains_key(k2));
                        } else if k1 == key@ && k2 != key@ {
                            assert(old(self)@.keys.contains_key(k2));
                        } else if k1 != key@ && k2 == key@ {
                            assert(old(self)@.keys.contains_key(k1));
                        }
                    }
                }
                Ok(())
            },
            Err(failure) => Err(failure),
        }
    }

    /// Looks the resource up by key directly, bypassing tickets.
    pub fn get_by_key(&self, key: &str) -> (r: Result<Rc<R>, ResourceError>)
        requires
            self@.wf(),
        ensures
            match r {
                Ok(resource) => self@.keys.contains_key(key@) && resource == self@.resources[
                    self@.keys[key@] as int
                ],
                Err(e) => !self@.keys.contains_key(key@) && (e matches ResourceError::NotStored(
                    k,
                ) && k@ == key@),
            },
    {
        match self.map.get(key) {
            Some(slot) => {
                proof {
                    assert(self@.keys.contains_key(key@));
                }
                Ok(share(&self.store[*slot]))
            },
            None => Err(ResourceError::NotStored(key.to_owned())),
        }
    }

    /// Issues a ticket for `key` in the current epoch. Issuance is allowed
    /// in any state; staleness is checked at dereference.
    pub fn take_ticket(&self, key: &str) -> (r: Result<Ticket, ResourceError>)
        requires
            self@.wf(),
        ensures
            match r {
                Ok(ticket) => self@.keys.contains_key(key@) && ticket == self@.ticket_for(key@),
                Err(e) => !self@.keys.contains_key(key@) && (e matches ResourceError::NotStored(
                    k,
                ) && k@ == key@),
            },
    {
        match self.map.get(key) {
            Some(slot) => Ok(
                Ticket { index: *slot, storage_identity: self.identity, epoch: self.epoch },
            ),
            None => Err(ResourceError::NotStored(key.to_owned())),
        }
    }

    /// Dereferences a ticket, checking every staleness guard in order:
    /// the storage must be locked, the ticket must come from this storage,
    /// and its epoch must still be current.
    pub fn get_by_ticket(&self, ticket: Ticket) -> (r: Result<Rc<R>, ResourceError>)
        requires
            self@.wf(),
            self@.genuine(ticket),
        ensures
            r == self@.spec_get_by_ticket(ticket),
    {
        if !self.locked {
            return Err(ResourceError::StorageUnlocked);
        }
        if self.identity != ticket.storage_identity {
            return Err(ResourceError::WrongStorage);
        }
        if self.epoch != ticket.epoch {
            return Err(ResourceError::TicketOutdated);
        }
        Ok(share(&self.store[ticket.index]))
    }

    /// Dereferences a ticket with no validation: the explicit trust-boundary
    /// escape hatch for hot paths, so the caller vouches that the slot is
    /// live.
    pub fn get_by_ticket_unchecked(&self, ticket: Ticket) -> (r: Rc<R>)
        requires
            ticket.index < self@.resources.len(),
        ensures
            r == self@.resources[ticket.index as int],
    {
        share(&self.store[ticket.index])
    }
}

} // verus!

