use oapp_registry::identity::{Address, Identity};
use oapp_registry::record::RegistrationRecord;
use oapp_registry::storage::{AlreadyExists, Storage};

fn record(owner: u8, delegate: Option<u8>, disambiguator: u8) -> RegistrationRecord {
    RegistrationRecord {
        owner_identity: Identity::new([owner; 32]),
        delegate_identity: delegate.map(|d| Identity::new([d; 32])),
        address_disambiguator: disambiguator,
        namespace_tag: b"OApp".to_vec(),
    }
}

#[test]
fn new_storage_is_empty() {
    let storage = Storage::new();
    assert_eq!(storage.len(), 0);
    assert!(!storage.is_occupied(&Address::new([0u8; 32])));
    assert_eq!(storage.get(&Address::new([0u8; 32])), None);
}

#[test]
fn try_create_fills_an_empty_slot() {
    let mut storage = Storage::new();
    let address = Address::new([4u8; 32]);
    assert_eq!(storage.try_create(address, record(1, None, 7)), Ok(()));
    assert_eq!(storage.len(), 1);
    assert!(storage.is_occupied(&address));
    assert_eq!(storage.get(&address), Some(&record(1, None, 7)));
}

#[test]
fn try_create_refuses_an_occupied_slot() {
    let mut storage = Storage::new();
    let address = Address::new([4u8; 32]);
    assert_eq!(storage.try_create(address, record(1, None, 7)), Ok(()));
    assert_eq!(
        storage.try_create(address, record(2, Some(3), 8)),
        Err(AlreadyExists {})
    );
    assert_eq!(storage.len(), 1);
    assert_eq!(storage.get(&address), Some(&record(1, None, 7)));
}

#[test]
fn slots_are_independent() {
    let mut storage = Storage::new();
    let first = Address::new([4u8; 32]);
    let mut bytes = [4u8; 32];
    bytes[31] = 5;
    let second = Address::new(bytes);
    assert_eq!(storage.try_create(first, record(1, None, 7)), Ok(()));
    assert!(!storage.is_occupied(&second));
    assert_eq!(storage.try_create(second, record(2, Some(9), 0)), Ok(()));
    assert_eq!(storage.len(), 2);
    assert_eq!(storage.get(&first), Some(&record(1, None, 7)));
    assert_eq!(storage.get(&second), Some(&record(2, Some(9), 0)));
}
