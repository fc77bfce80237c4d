use fnv::FnvHashMap;
use payments_machine::client::balance::Account;
use payments_machine::client::store::ClientStore;
use payments_machine::client::ClientState;
use payments_machine::codec::Record;
use payments_machine::data::mem_store;
use payments_machine::db::mem::MemStore;
use payments_machine::db::{StoreEngine, StoreError};
use payments_machine::keyspace::{Keyspace, CLIENTS_KS, TRANSACTIONS_KS};
use payments_machine::transaction::Transaction;

#[test]
fn keyspaces_have_their_names() {
    assert_eq!(Keyspace::Clients.name(), "clients");
    assert_eq!(Keyspace::Transactions.name(), "transactions");
    assert_eq!(CLIENTS_KS, "clients");
    assert_eq!(TRANSACTIONS_KS, "transactions");
}

#[test]
fn mem_store_returns_what_was_put() {
    let mut engine = MemStore::default();
    assert_eq!(engine.get(Keyspace::Clients, b"a"), Ok(None));
    assert_eq!(engine.put(Keyspace::Clients, b"a", b"one"), Ok(()));
    assert_eq!(engine.put(Keyspace::Clients, b"b", b"two"), Ok(()));
    assert_eq!(engine.get(Keyspace::Clients, b"a"), Ok(Some(b"one".to_vec())));
    assert_eq!(engine.get(Keyspace::Clients, b"b"), Ok(Some(b"two".to_vec())));
    assert_eq!(engine.get(Keyspace::Clients, b"c"), Ok(None));
}

#[test]
fn mem_store_put_replaces_the_value() {
    let mut engine = MemStore::default();
    engine.put(Keyspace::Transactions, b"a", b"one").unwrap();
    engine.put(Keyspace::Transactions, b"a", b"other").unwrap();
    assert_eq!(
        engine.get(Keyspace::Transactions, b"a"),
        Ok(Some(b"other".to_vec()))
    );
    assert_eq!(engine.scan(Keyspace::Transactions).unwrap().len(), 1);
}

#[test]
fn mem_store_keeps_keyspaces_apart() {
    let mut engine = MemStore::default();
    engine.put(Keyspace::Clients, b"a", b"client").unwrap();
    assert_eq!(engine.get(Keyspace::Transactions, b"a"), Ok(None));
    engine.put(Keyspace::Transactions, b"a", b"transaction").unwrap();
    assert_eq!(engine.get(Keyspace::Clients, b"a"), Ok(Some(b"client".to_vec())));
    assert_eq!(
        engine.get(Keyspace::Transactions, b"a"),
        Ok(Some(b"transaction".to_vec()))
    );
}

#[test]
fn mem_store_creates_a_keyspace_on_put() {
    let mut engine = MemStore::default();
    assert!(!engine.has_keyspace(Keyspace::Clients));
    assert!(engine.scan(Keyspace::Clients).is_none());
    engine.put(Keyspace::Clients, b"a", b"one").unwrap();
    assert!(engine.has_keyspace(Keyspace::Clients));
    assert!(!engine.has_keyspace(Keyspace::Transactions));
}

#[test]
fn mem_store_starts_from_given_keyspaces() {
    let mut rows = FnvHashMap::default();
    rows.insert(b"k".to_vec(), b"v".to_vec());
    let mut keyspaces = FnvHashMap::default();
    keyspaces.insert(CLIENTS_KS.to_string(), rows);
    let engine = MemStore::new(keyspaces);
    assert_eq!(engine.get(Keyspace::Clients, b"k"), Ok(Some(b"v".to_vec())));
    assert!(!engine.has_keyspace(Keyspace::Transactions));
}

#[test]
fn mem_store_with_keyspace_replaces_the_rows() {
    let mut engine = MemStore::default();
    engine.put(Keyspace::Clients, b"old", b"row").unwrap();
    let mut rows = FnvHashMap::default();
    rows.insert(b"new".to_vec(), b"row".to_vec());
    let engine = engine.with_keyspace(Keyspace::Clients, rows);
    assert_eq!(engine.get(Keyspace::Clients, b"old"), Ok(None));
    assert_eq!(engine.get(Keyspace::Clients, b"new"), Ok(Some(b"row".to_vec())));
}

#[test]
fn mem_store_scan_lists_every_row_once() {
    let mut engine = MemStore::default();
    for i in 0..50u8 {
        engine.put(Keyspace::Clients, &[i], &[i, i]).unwrap();
    }
    let mut rows = engine.scan(Keyspace::Clients).unwrap();
    rows.sort();
    let expected: Vec<(Vec<u8>, Vec<u8>)> = (0..50u8).map(|i| (vec![i], vec![i, i])).collect();
    assert_eq!(rows, expected);
}

#[test]
fn default_mem_store_has_both_keyspaces() {
    let store = mem_store();
    assert!(store.inner().has_keyspace(Keyspace::Clients));
    assert!(store.inner().has_keyspace(Keyspace::Transactions));
    assert_eq!(store.inner().scan(Keyspace::Clients), Some(vec![]));
    assert_eq!(store.inner().scan(Keyspace::Transactions), Some(vec![]));
}

#[test]
fn transfers_are_stored_under_their_number() {
    let mut store = ClientStore::new(MemStore::default());
    let tx = Transaction::deposit(1, 0x0102_0304, 10);
    store.put_transaction(tx).unwrap();
    assert_eq!(store.get_transaction(0x0102_0304), Ok(Some(tx)));
    assert_eq!(store.get_transaction(0x0102_0305), Ok(None));
    // the key is the number's four bytes, least significant first
    assert_eq!(
        store.inner().get(Keyspace::Transactions, &[4, 3, 2, 1]),
        Ok(Some(tx.encode()))
    );
    assert_eq!(store.inner().get(Keyspace::Clients, &[4, 3, 2, 1]), Ok(None));
}

#[test]
fn client_states_are_stored_under_their_number() {
    let mut store = ClientStore::new(MemStore::default());
    let state = ClientState::from_parts(0x0102, Account::from_lanes(5, 6).unwrap(), false);
    store.put_client_state(&state).unwrap();
    assert_eq!(store.get_client_state(0x0102), Ok(Some(ClientState::from_parts(
        0x0102,
        Account::from_lanes(5, 6).unwrap(),
        false
    ))));
    assert_eq!(store.get_client_state(0x0103), Ok(None));
    // the key is the number's two bytes, least significant first
    assert_eq!(
        store.inner().get(Keyspace::Clients, &[2, 1]),
        Ok(Some(state.encode()))
    );
    assert_eq!(store.inner().get(Keyspace::Transactions, &[2, 1]), Ok(None));
}

#[test]
fn a_row_that_does_not_decode_is_a_deserialize_error() {
    let mut engine = MemStore::default();
    engine.put(Keyspace::Transactions, &[1, 0, 0, 0], b"junk").unwrap();
    engine.put(Keyspace::Clients, &[1, 0], b"junk").unwrap();
    let store = ClientStore::new(engine);
    assert!(matches!(store.get_transaction(1), Err(StoreError::Deserialize(_))));
    assert!(matches!(store.get_client_state(1), Err(StoreError::Deserialize(_))));
}

/// An engine that fails every operation.
struct Broken {
    missing: bool,
}

impl StoreEngine for Broken {
    fn put(&mut self, _keyspace: Keyspace, _key: &[u8], _value: &[u8]) -> Result<(), StoreError> {
        if self.missing {
            Err(StoreError::KeyspaceNotFound)
        } else {
            Err(StoreError::Write("disk full".to_string()))
        }
    }

    fn get(&self, _keyspace: Keyspace, _key: &[u8]) -> Result<Option<Vec<u8>>, StoreError> {
        if self.missing {
            Err(StoreError::KeyspaceNotFound)
        } else {
            Err(StoreError::Read("disk gone".to_string()))
        }
    }
}

#[test]
fn engine_failures_pass_through_the_facade() {
    let mut store = ClientStore::new(Broken { missing: false });
    assert_eq!(
        store.get_transaction(1),
        Err(StoreError::Read("disk gone".to_string()))
    );
    assert_eq!(
        store.get_client_state(1),
        Err(StoreError::Read("disk gone".to_string()))
    );
    assert_eq!(
        store.put_transaction(Transaction::dispute(1, 1)),
        Err(StoreError::Write("disk full".to_string()))
    );
    assert_eq!(
        store.put_client_state(&ClientState::new(1)),
        Err(StoreError::Write("disk full".to_string()))
    );
    let mut store = ClientStore::new(Broken { missing: true });
    assert_eq!(store.get_transaction(1), Err(StoreError::KeyspaceNotFound));
    assert_eq!(
        store.put_transaction(Transaction::dispute(1, 1)),
        Err(StoreError::KeyspaceNotFound)
    );
}

#[test]
fn store_errors_compare_by_kind_and_text() {
    let text = |s: &str| s.to_string();
    assert_eq!(StoreError::Read(text("a")), StoreError::Read(text("a")));
    assert_ne!(StoreError::Read(text("a")), StoreError::Read(text("b")));
    assert_eq!(StoreError::Write(text("a")), StoreError::Write(text("a")));
    assert_ne!(StoreError::Write(text("a")), StoreError::Write(text("b")));
    assert_ne!(StoreError::Read(text("a")), StoreError::Write(text("a")));
    assert_eq!(StoreError::KeyspaceNotFound, StoreError::KeyspaceNotFound);
    assert_ne!(StoreError::KeyspaceNotFound, StoreError::Read(text("a")));
    assert_ne!(StoreError::Serialize(text("a")), StoreError::Serialize(text("a")));
    assert_ne!(StoreError::Deserialize(text("a")), StoreError::Deserialize(text("a")));
}

#[test]
fn a_transaction_under_another_number_is_a_deserialize_error() {
    let mut engine = MemStore::default();
    let row = Transaction::deposit(1, 1, 10).encode();
    engine.put(Keyspace::Transactions, &[2, 0, 0, 0], &row).unwrap();
    engine.put(Keyspace::Transactions, &[1, 0, 0, 0], &row).unwrap();
    let store = ClientStore::new(engine);
    assert_eq!(store.get_transaction(1), Ok(Some(Transaction::deposit(1, 1, 10))));
    assert!(matches!(store.get_transaction(2), Err(StoreError::Deserialize(_))));
    assert_eq!(store.get_transaction(3), Ok(None));
}
