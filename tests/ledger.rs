use linkdrop::{same_key, Ledger, LinkDropError, PublicKey};

fn key(bytes: &[u8]) -> PublicKey {
    PublicKey { data: bytes.to_vec() }
}

#[test]
fn ledger_insert_get_remove() {
    let mut ledger = Ledger::new();
    assert_eq!(ledger.get(&key(&[0, 1])), None);
    assert_eq!(ledger.insert(key(&[0, 1]), 10), None);
    assert_eq!(ledger.insert(key(&[0, 2]), 20), None);
    assert_eq!(ledger.insert(key(&[0, 1]), 15), Some(10));
    assert_eq!(ledger.get(&key(&[0, 1])), Some(15));
    assert_eq!(ledger.get(&key(&[0, 2])), Some(20));
    assert_eq!(ledger.remove(&key(&[0, 1])), Some(15));
    assert_eq!(ledger.remove(&key(&[0, 1])), None);
    assert_eq!(ledger.get(&key(&[0, 1])), None);
    assert_eq!(ledger.get(&key(&[0, 2])), Some(20));
}

#[test]
fn keys_compare_by_every_byte() {
    assert!(same_key(&key(&[1, 2, 3]), &key(&[1, 2, 3])));
    assert!(!same_key(&key(&[1, 2, 3]), &key(&[1, 2, 4])));
    assert!(!same_key(&key(&[1, 2]), &key(&[1, 2, 3])));
    assert!(same_key(&key(&[]), &key(&[])));
}

#[test]
fn error_messages() {
    assert_eq!(LinkDropError::UnauthorizedCallback.message(), "Callback can only be called from the contract");
    assert_eq!(LinkDropError::MalformedCallback.message(), "Contract expected a result on the callback");
    assert!(LinkDropError::InvalidConfiguration.message().starts_with("Cannot create account with no options."));
}
