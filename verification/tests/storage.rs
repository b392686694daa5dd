//! Ticketed resource storage: loading, lookup, and generational staleness.

use stagecraft::loading::resources::{ResourceLoadError, ResourceLoader, ResourceStorage};
use stagecraft::loading::utility2d::StorageType;
use stagecraft::loading::ResourceError;

/// Parses its argument as a number, or fails on demand.
struct NumberLoader;

impl ResourceLoader<u32> for NumberLoader {
    type Arguments = String;

    fn load(&self, args: &String) -> Result<u32, ResourceLoadError> {
        match args.parse::<u32>() {
            Ok(n) => Ok(n),
            Err(_) => Err(ResourceLoadError::LoadFailure(format!("not a number: {}", args))),
        }
    }
}

#[test]
fn load_then_get_by_key() {
    let mut storage: ResourceStorage<u32, NumberLoader> = ResourceStorage::new(NumberLoader);
    storage.load("seven".to_string(), &"7".to_string()).unwrap();
    let resource = storage.get_by_key("seven").unwrap();
    assert_eq!(*resource, 7);
}

#[test]
fn load_twice_returns_already_exists_and_keeps_first() {
    let mut storage: ResourceStorage<u32, NumberLoader> = ResourceStorage::new(NumberLoader);
    storage.load("value".to_string(), &"1".to_string()).unwrap();
    let second = storage.load("value".to_string(), &"2".to_string());
    match second {
        Err(ResourceLoadError::AlreadyExists(key)) => assert_eq!(key, "value"),
        other => panic!("expected AlreadyExists, got {:?}", other),
    }
    assert_eq!(*storage.get_by_key("value").unwrap(), 1);
}

#[test]
fn loader_failure_leaves_storage_unchanged() {
    let mut storage: ResourceStorage<u32, NumberLoader> = ResourceStorage::new(NumberLoader);
    let result = storage.load("bad".to_string(), &"oops".to_string());
    match result {
        Err(ResourceLoadError::LoadFailure(detail)) => {
            // the loader's own error, handed back unchanged
            assert_eq!(detail, "not a number: oops");
        }
        other => panic!("expected LoadFailure, got {:?}", other),
    }
    assert!(matches!(
        storage.get_by_key("bad"),
        Err(ResourceError::NotStored(_))
    ));
}

#[test]
fn store_loaded_appends_the_loaded_resource() {
    let mut storage: ResourceStorage<u32, NumberLoader> = ResourceStorage::new(NumberLoader);
    storage.store_loaded("five".to_string(), Ok(5)).unwrap();
    assert_eq!(*storage.get_by_key("five").unwrap(), 5);
    let ticket = storage.take_ticket("five").unwrap();
    storage.lock();
    assert_eq!(*storage.get_by_ticket(ticket).unwrap(), 5);
}

#[test]
fn store_loaded_hands_a_failure_back_unchanged() {
    let mut storage: ResourceStorage<u32, NumberLoader> = ResourceStorage::new(NumberLoader);
    let verdict = Err(ResourceLoadError::LoadFailure("decoder choked".to_string()));
    match storage.store_loaded("five".to_string(), verdict) {
        Err(ResourceLoadError::LoadFailure(detail)) => assert_eq!(detail, "decoder choked"),
        other => panic!("expected LoadFailure, got {:?}", other),
    }
    assert!(matches!(
        storage.get_by_key("five"),
        Err(ResourceError::NotStored(_))
    ));
}

#[test]
fn get_by_key_missing_is_not_stored() {
    let storage: ResourceStorage<u32, NumberLoader> = ResourceStorage::new(NumberLoader);
    match storage.get_by_key("missing") {
        Err(ResourceError::NotStored(key)) => assert_eq!(key, "missing"),
        other => panic!("expected NotStored, got {:?}", other),
    }
}

#[test]
fn take_ticket_missing_is_not_stored() {
    let storage: ResourceStorage<u32, NumberLoader> = ResourceStorage::new(NumberLoader);
    match storage.take_ticket("missing") {
        Err(ResourceError::NotStored(key)) => assert_eq!(key, "missing"),
        other => panic!("expected NotStored, got {:?}", other),
    }
}

#[test]
fn ticket_resolves_while_locked() {
    let mut storage: ResourceStorage<u32, NumberLoader> = ResourceStorage::new(NumberLoader);
    storage.load("logo".to_string(), &"42".to_string()).unwrap();
    let ticket = storage.take_ticket("logo").unwrap();
    storage.lock();
    assert_eq!(*storage.get_by_ticket(ticket).unwrap(), 42);
    assert_eq!(*storage.get_by_ticket_unchecked(ticket), 42);
}

#[test]
fn unlocked_storage_rejects_tickets() {
    let mut storage: ResourceStorage<u32, NumberLoader> = ResourceStorage::new(NumberLoader);
    storage.load("logo".to_string(), &"42".to_string()).unwrap();
    let ticket = storage.take_ticket("logo").unwrap();
    assert!(matches!(
        storage.get_by_ticket(ticket),
        Err(ResourceError::StorageUnlocked)
    ));
}

#[test]
fn ticket_outdated_after_unlock_lock_cycle() {
    let mut storage: ResourceStorage<u32, NumberLoader> = ResourceStorage::new(NumberLoader);
    storage.load("logo".to_string(), &"42".to_string()).unwrap();
    storage.lock();
    let ticket = storage.take_ticket("logo").unwrap();
    assert_eq!(*storage.get_by_ticket(ticket).unwrap(), 42);

    storage.unlock();
    storage.lock();
    assert!(matches!(
        storage.get_by_ticket(ticket),
        Err(ResourceError::TicketOutdated)
    ));
    // key lookup is unaffected by the epoch change
    assert_eq!(*storage.get_by_key("logo").unwrap(), 42);
}

#[test]
fn ticket_from_another_storage_is_wrong_storage() {
    let mut first: ResourceStorage<u32, NumberLoader> = ResourceStorage::new(NumberLoader);
    let mut second: ResourceStorage<u32, NumberLoader> = ResourceStorage::new(NumberLoader);
    first.load("logo".to_string(), &"1".to_string()).unwrap();
    second.load("logo".to_string(), &"2".to_string()).unwrap();
    let foreign = first.take_ticket("logo").unwrap();
    second.lock();
    assert!(matches!(
        second.get_by_ticket(foreign),
        Err(ResourceError::WrongStorage)
    ));
}

#[test]
fn log_failure_renders_each_message() {
    assert_eq!(
        ResourceError::log_failure(ResourceError::NotStored("Logo.png".to_string())),
        "Missing resource with key: Logo.png"
    );
    assert_eq!(
        ResourceError::log_failure(ResourceError::StorageUnlocked),
        "Attempting to access unlocked storage."
    );
    assert_eq!(
        ResourceError::log_failure(ResourceError::TicketOutdated),
        "Attempting to access storage with outdated ticket."
    );
    assert_eq!(
        ResourceError::log_failure(ResourceError::UnknownStorage("Font".to_string())),
        "Attempting to access storage with unknown key: Font"
    );
    assert_eq!(
        ResourceError::log_failure(ResourceError::WrongStorage),
        "Attempting to access storage with ticket corresponding to the wrong resource type."
    );
}

#[test]
fn storage_type_labels() {
    assert_eq!(StorageType::Music.label(), "Music");
    assert_eq!(StorageType::Sound.label(), "Sound");
    assert_eq!(StorageType::Texture.label(), "Texture");
}
