use payments_machine::client::balance::Account;
use payments_machine::client::store::ClientStore;
use payments_machine::client::{
    ClientError, ClientState, ALREADY_DISPUTED, DISPUTE_FOREIGN, DISPUTE_MISMATCH, DISPUTE_NOT_HELD,
    DISPUTE_RESOLVED, DISPUTE_WITHDRAWAL, NOT_DISPUTED,
};
use payments_machine::codec::Record;
use payments_machine::db::mem::MemStore;
use payments_machine::db::{StoreEngine, StoreError};
use payments_machine::keyspace::Keyspace;
use payments_machine::transaction::{
    DisputeStatus, Transaction, TransferTransaction, TransferTransactionKind,
};

const UNIT: i64 = 100_000_000;

fn store() -> ClientStore<MemStore> {
    ClientStore::new(MemStore::default())
}

fn lanes(client: &ClientState) -> (i64, i64, i64, bool) {
    (
        client.balance().get_available(),
        client.balance().get_frozen(),
        client.balance().get_total(),
        client.is_frozen(),
    )
}

fn stored(store: &ClientStore<MemStore>, tx: u32) -> TransferTransaction {
    match store.get_transaction(tx) {
        Ok(Some(Transaction::Transfer(row))) => row,
        other => panic!("Expected a transfer, found `{:?}`", other),
    }
}

fn dispute_error(text: &str) -> Result<(), ClientError> {
    Err(ClientError::DisputeError(text.to_string()))
}

fn snapshot(store: &ClientStore<MemStore>) -> (Vec<(Vec<u8>, Vec<u8>)>, Vec<(Vec<u8>, Vec<u8>)>) {
    let mut clients = store.inner().scan(Keyspace::Clients).unwrap_or_default();
    let mut transactions = store.inner().scan(Keyspace::Transactions).unwrap_or_default();
    clients.sort();
    transactions.sort();
    (clients, transactions)
}

#[test]
fn a_deposit_is_available() {
    let mut store = store();
    let mut client = ClientState::new(1);
    assert_eq!(client.execute_transaction(Transaction::deposit(1, 1, 100 * UNIT), &mut store), Ok(()));
    assert_eq!(lanes(&client), (100 * UNIT, 0, 100 * UNIT, false));
    assert_eq!(store.get_client_state(1), Ok(Some(ClientState::from_parts(
        1,
        Account::from_lanes(100 * UNIT, 0).unwrap(),
        false
    ))));
    assert_eq!(stored(&store, 1).amount, 100 * UNIT);
    assert_eq!(stored(&store, 1).disputed, DisputeStatus::NotDisputed);
}

#[test]
fn a_withdrawal_leaves_the_rest() {
    let mut store = store();
    let mut client = ClientState::new(1);
    client.execute_transaction(Transaction::deposit(1, 1, 100 * UNIT), &mut store).unwrap();
    assert_eq!(client.execute_transaction(Transaction::withdrawal(1, 2, 50 * UNIT), &mut store), Ok(()));
    assert_eq!(lanes(&client), (50 * UNIT, 0, 50 * UNIT, false));
    assert_eq!(stored(&store, 2).kind, TransferTransactionKind::Withdrawal);
}

#[test]
fn a_withdrawal_from_nothing_changes_nothing() {
    let mut store = store();
    let mut client = ClientState::new(1);
    assert_eq!(
        client.execute_transaction(Transaction::withdrawal(1, 1, 100 * UNIT), &mut store),
        Err(ClientError::InsufficientFunds)
    );
    assert_eq!(lanes(&client), (0, 0, 0, false));
    assert_eq!(store.get_client_state(1), Ok(None));
    assert_eq!(store.get_transaction(1), Ok(None));
}

#[test]
fn a_resolved_dispute_gives_the_funds_back() {
    let mut store = store();
    let mut client = ClientState::new(1);
    client.execute_transaction(Transaction::deposit(1, 1, 10 * UNIT), &mut store).unwrap();
    client.execute_transaction(Transaction::dispute(1, 1), &mut store).unwrap();
    assert_eq!(client.execute_transaction(Transaction::resolve(1, 1), &mut store), Ok(()));
    assert_eq!(lanes(&client), (10 * UNIT, 0, 10 * UNIT, false));
    assert_eq!(stored(&store, 1).disputed, DisputeStatus::NotDisputed);
}

#[test]
fn a_dispute_of_withdrawn_funds_leaves_available_negative() {
    let mut store = store();
    let mut client = ClientState::new(1);
    client.execute_transaction(Transaction::deposit(1, 1, 10 * UNIT), &mut store).unwrap();
    client.execute_transaction(Transaction::withdrawal(1, 2, 10 * UNIT), &mut store).unwrap();
    assert_eq!(client.execute_transaction(Transaction::dispute(1, 1), &mut store), Ok(()));
    assert_eq!(lanes(&client), (-10 * UNIT, 10 * UNIT, 0, false));
    assert_eq!(
        client.execute_transaction(Transaction::withdrawal(1, 3, 10 * UNIT), &mut store),
        Err(ClientError::InsufficientFunds)
    );
    assert_eq!(lanes(&client), (-10 * UNIT, 10 * UNIT, 0, false));
}

#[test]
fn a_chargeback_takes_the_funds_and_locks_the_client() {
    let mut store = store();
    let mut client = ClientState::new(1);
    client.execute_transaction(Transaction::deposit(1, 1, 10 * UNIT), &mut store).unwrap();
    client.execute_transaction(Transaction::dispute(1, 1), &mut store).unwrap();
    assert_eq!(client.execute_transaction(Transaction::chargeback(1, 1), &mut store), Ok(()));
    assert_eq!(lanes(&client), (0, 0, 0, true));
    assert_eq!(stored(&store, 1).disputed, DisputeStatus::Resolved);
    for later in [
        Transaction::deposit(1, 2, UNIT),
        Transaction::withdrawal(1, 3, UNIT),
        Transaction::dispute(1, 1),
        Transaction::resolve(1, 1),
        Transaction::chargeback(1, 1),
    ] {
        assert_eq!(client.execute_transaction(later, &mut store), Err(ClientError::AccountFrozen));
    }
}

#[test]
fn a_frozen_client_changes_nothing_in_the_store() {
    let mut store = store();
    let mut client = ClientState::new(1);
    client.execute_transaction(Transaction::deposit(1, 1, 10 * UNIT), &mut store).unwrap();
    client.execute_transaction(Transaction::deposit(1, 2, 5 * UNIT), &mut store).unwrap();
    client.execute_transaction(Transaction::dispute(1, 1), &mut store).unwrap();
    client.execute_transaction(Transaction::chargeback(1, 1), &mut store).unwrap();
    let before = snapshot(&store);
    let state = lanes(&client);
    for later in [
        Transaction::deposit(1, 9, UNIT),
        Transaction::withdrawal(1, 10, UNIT),
        Transaction::dispute(1, 2),
        Transaction::resolve(1, 1),
        Transaction::chargeback(1, 2),
    ] {
        assert_eq!(client.execute_transaction(later, &mut store), Err(ClientError::AccountFrozen));
        assert_eq!(snapshot(&store), before);
        assert_eq!(lanes(&client), state);
    }
}

#[test]
fn a_deposit_of_nothing_is_accepted_and_stored() {
    let mut store = store();
    let mut client = ClientState::new(1);
    client.execute_transaction(Transaction::deposit(1, 1, 7 * UNIT), &mut store).unwrap();
    assert_eq!(client.execute_transaction(Transaction::deposit(1, 2, 0), &mut store), Ok(()));
    assert_eq!(lanes(&client), (7 * UNIT, 0, 7 * UNIT, false));
    assert_eq!(store.get_transaction(2), Ok(Some(Transaction::deposit(1, 2, 0))));
}

#[test]
fn a_withdrawal_of_everything_leaves_nothing() {
    let mut store = store();
    let mut client = ClientState::new(1);
    client.execute_transaction(Transaction::deposit(1, 1, 7 * UNIT), &mut store).unwrap();
    assert_eq!(client.execute_transaction(Transaction::withdrawal(1, 2, 7 * UNIT), &mut store), Ok(()));
    assert_eq!(lanes(&client), (0, 0, 0, false));
}

#[test]
fn a_second_dispute_is_refused() {
    let mut store = store();
    let mut client = ClientState::new(1);
    client.execute_transaction(Transaction::deposit(1, 1, 7 * UNIT), &mut store).unwrap();
    client.execute_transaction(Transaction::dispute(1, 1), &mut store).unwrap();
    assert_eq!(
        client.execute_transaction(Transaction::dispute(1, 1), &mut store),
        dispute_error("Transaction is already disputed")
    );
    assert_eq!(ALREADY_DISPUTED, "Transaction is already disputed");
    assert_eq!(lanes(&client), (0, 7 * UNIT, 7 * UNIT, false));
}

#[test]
fn a_resolve_without_dispute_is_refused() {
    let mut store = store();
    let mut client = ClientState::new(1);
    client.execute_transaction(Transaction::deposit(1, 1, 7 * UNIT), &mut store).unwrap();
    assert_eq!(
        client.execute_transaction(Transaction::resolve(1, 1), &mut store),
        dispute_error("Transaction is not disputed")
    );
    assert_eq!(
        client.execute_transaction(Transaction::chargeback(1, 1), &mut store),
        dispute_error("Transaction is not disputed")
    );
    assert_eq!(NOT_DISPUTED, "Transaction is not disputed");
    assert_eq!(lanes(&client), (7 * UNIT, 0, 7 * UNIT, false));
    assert_eq!(stored(&store, 1).disputed, DisputeStatus::NotDisputed);
}

#[test]
fn events_on_a_charged_back_transfer_are_refused() {
    let mut store = store();
    let mut charged = ClientState::new(1);
    charged.execute_transaction(Transaction::deposit(1, 1, 7 * UNIT), &mut store).unwrap();
    charged.execute_transaction(Transaction::dispute(1, 1), &mut store).unwrap();
    charged.execute_transaction(Transaction::chargeback(1, 1), &mut store).unwrap();

    // a client that is not frozen meets the charged-back transfer
    let mut client = ClientState::from_parts(1, Account::from_lanes(0, 7 * UNIT).unwrap(), false);
    assert_eq!(
        client.execute_transaction(Transaction::chargeback(1, 1), &mut store),
        dispute_error("Dispute already resolved")
    );
    assert_eq!(DISPUTE_RESOLVED, "Dispute already resolved");
    assert_eq!(
        client.execute_transaction(Transaction::dispute(1, 1), &mut store),
        dispute_error("Transaction is already disputed")
    );
    assert_eq!(lanes(&client), (0, 7 * UNIT, 7 * UNIT, false));
    assert_eq!(stored(&store, 1).disputed, DisputeStatus::Resolved);
}

#[test]
fn only_a_transfer_can_be_disputed() {
    let mut store = store();
    store.put_transaction(Transaction::resolve(1, 1)).unwrap();
    let mut client = ClientState::new(1);
    for event in [
        Transaction::dispute(1, 1),
        Transaction::resolve(1, 1),
        Transaction::chargeback(1, 1),
    ] {
        assert_eq!(
            client.execute_transaction(event, &mut store),
            dispute_error("Only a transfer can be disputed")
        );
    }
    assert_eq!(DISPUTE_MISMATCH, "Only a transfer can be disputed");
}

#[test]
fn a_withdrawal_cannot_be_disputed() {
    let mut store = store();
    let mut client = ClientState::new(1);
    client.execute_transaction(Transaction::deposit(1, 1, 7 * UNIT), &mut store).unwrap();
    client.execute_transaction(Transaction::withdrawal(1, 2, 3 * UNIT), &mut store).unwrap();
    assert_eq!(
        client.execute_transaction(Transaction::dispute(1, 2), &mut store),
        dispute_error("Cannot dispute a withdrawal")
    );
    assert_eq!(DISPUTE_WITHDRAWAL, "Cannot dispute a withdrawal");
    assert_eq!(
        client.execute_transaction(Transaction::resolve(1, 2), &mut store),
        dispute_error("Transaction is not disputed")
    );
    assert_eq!(
        client.execute_transaction(Transaction::chargeback(1, 2), &mut store),
        dispute_error("Transaction is not disputed")
    );
    assert_eq!(lanes(&client), (4 * UNIT, 0, 4 * UNIT, false));
}

#[test]
fn an_event_for_an_unknown_transfer_is_refused() {
    let mut store = store();
    let mut client = ClientState::new(1);
    for event in [
        Transaction::dispute(1, 1),
        Transaction::resolve(1, 1),
        Transaction::chargeback(1, 1),
    ] {
        assert_eq!(
            client.execute_transaction(event, &mut store),
            Err(ClientError::TransactionNotFound)
        );
    }
}

#[test]
fn more_than_is_held_is_neither_released_nor_charged() {
    let mut store = store();
    let mut holder = ClientState::new(1);
    holder.execute_transaction(Transaction::deposit(1, 1, 7 * UNIT), &mut store).unwrap();
    holder.execute_transaction(Transaction::dispute(1, 1), &mut store).unwrap();

    // a state of the same client that holds less than the transfer under dispute
    let mut client = ClientState::from_parts(1, Account::from_lanes(3 * UNIT, 6 * UNIT).unwrap(), false);
    let before = snapshot(&store);
    assert_eq!(
        client.execute_transaction(Transaction::resolve(1, 1), &mut store),
        dispute_error("Held funds do not cover the transaction")
    );
    assert_eq!(
        client.execute_transaction(Transaction::chargeback(1, 1), &mut store),
        dispute_error("Held funds do not cover the transaction")
    );
    assert_eq!(DISPUTE_NOT_HELD, "Held funds do not cover the transaction");
    assert_eq!(lanes(&client), (3 * UNIT, 6 * UNIT, 9 * UNIT, false));
    assert_eq!(snapshot(&store), before);
}

#[test]
fn a_transfer_of_another_client_is_not_disputed() {
    let mut store = store();
    let mut other = ClientState::new(2);
    other.execute_transaction(Transaction::deposit(2, 1, 7 * UNIT), &mut store).unwrap();

    let mut client = ClientState::new(1);
    client.execute_transaction(Transaction::deposit(1, 2, 9 * UNIT), &mut store).unwrap();
    let before = snapshot(&store);
    assert_eq!(
        client.execute_transaction(Transaction::dispute(1, 1), &mut store),
        dispute_error("Transaction belongs to another client")
    );
    assert_eq!(DISPUTE_FOREIGN, "Transaction belongs to another client");
    assert_eq!(lanes(&client), (9 * UNIT, 0, 9 * UNIT, false));
    assert_eq!(snapshot(&store), before);
    assert_eq!(stored(&store, 1).disputed, DisputeStatus::NotDisputed);
}

#[test]
fn a_dispute_of_another_client_is_neither_resolved_nor_charged_back() {
    let mut store = store();
    let mut other = ClientState::new(2);
    other.execute_transaction(Transaction::deposit(2, 1, 7 * UNIT), &mut store).unwrap();
    other.execute_transaction(Transaction::dispute(2, 1), &mut store).unwrap();

    // a client that holds enough of its own refers to the other client's dispute
    let mut client = ClientState::new(1);
    client.execute_transaction(Transaction::deposit(1, 2, 9 * UNIT), &mut store).unwrap();
    client.execute_transaction(Transaction::dispute(1, 2), &mut store).unwrap();
    let before = snapshot(&store);
    for event in [Transaction::resolve(1, 1), Transaction::chargeback(1, 1)] {
        assert_eq!(
            client.execute_transaction(event, &mut store),
            dispute_error("Transaction belongs to another client")
        );
        assert_eq!(lanes(&client), (0, 9 * UNIT, 9 * UNIT, false));
        assert_eq!(snapshot(&store), before);
    }
    assert_eq!(stored(&store, 1).disputed, DisputeStatus::Disputed);
    assert_eq!(other.execute_transaction(Transaction::resolve(2, 1), &mut store), Ok(()));
    assert_eq!(lanes(&other), (7 * UNIT, 0, 7 * UNIT, false));
}

#[test]
fn a_dispute_of_a_negative_amount_changes_nothing() {
    let mut store = store();
    store.put_transaction(Transaction::deposit(1, 1, -5)).unwrap();
    let mut client = ClientState::new(1);
    let before = snapshot(&store);
    assert_eq!(
        client.execute_transaction(Transaction::dispute(1, 1), &mut store),
        Err(ClientError::NegativeValue)
    );
    assert_eq!(stored(&store, 1).disputed, DisputeStatus::NotDisputed);
    assert_eq!(lanes(&client), (0, 0, 0, false));
    assert_eq!(snapshot(&store), before);
}

#[test]
fn a_dispute_out_of_range_changes_nothing() {
    let mut store = store();
    store.put_transaction(Transaction::deposit(1, 1, 6)).unwrap();
    let mut client = ClientState::from_parts(1, Account::from_lanes(i64::MIN + 5, 10).unwrap(), false);
    let before = snapshot(&store);
    assert_eq!(
        client.execute_transaction(Transaction::dispute(1, 1), &mut store),
        Err(ClientError::Overflow)
    );
    assert_eq!(stored(&store, 1).disputed, DisputeStatus::NotDisputed);
    assert_eq!(lanes(&client), (i64::MIN + 5, 10, i64::MIN + 15, false));
    assert_eq!(snapshot(&store), before);

    let mut client = ClientState::from_parts(1, Account::from_lanes(-5, i64::MAX - 1).unwrap(), false);
    assert_eq!(
        client.execute_transaction(Transaction::dispute(1, 1), &mut store),
        Err(ClientError::Overflow)
    );
    assert_eq!(snapshot(&store), before);
}

#[test]
fn a_refused_event_leaves_the_status_as_it_was() {
    let mut store = store();
    let mut client = ClientState::new(1);
    client.execute_transaction(Transaction::deposit(1, 1, 3 * UNIT), &mut store).unwrap();
    client.execute_transaction(Transaction::withdrawal(1, 2, UNIT), &mut store).unwrap();
    client.execute_transaction(Transaction::deposit(1, 3, UNIT), &mut store).unwrap();
    client.execute_transaction(Transaction::dispute(1, 3), &mut store).unwrap();
    let refused = [
        Transaction::resolve(1, 1),
        Transaction::chargeback(1, 1),
        Transaction::dispute(1, 2),
        Transaction::resolve(1, 2),
        Transaction::dispute(1, 3),
        Transaction::dispute(1, 9),
        Transaction::dispute(2, 1),
    ];
    let before = snapshot(&store);
    let state = lanes(&client);
    for event in refused {
        assert!(client.execute_transaction(event, &mut store).is_err());
        assert_eq!(snapshot(&store), before);
        assert_eq!(lanes(&client), state);
    }
}

#[test]
fn a_deposit_out_of_range_is_refused() {
    let mut store = store();
    let mut client = ClientState::new(1);
    client.execute_transaction(Transaction::deposit(1, 1, i64::MAX), &mut store).unwrap();
    assert_eq!(
        client.execute_transaction(Transaction::deposit(1, 2, 1), &mut store),
        Err(ClientError::Overflow)
    );
    assert_eq!(lanes(&client), (i64::MAX, 0, i64::MAX, false));
    assert_eq!(store.get_transaction(2), Ok(None));
}

#[test]
fn a_transfer_is_stored_as_not_disputed() {
    let mut store = store();
    let mut client = ClientState::new(1);
    let marked = Transaction::Transfer(TransferTransaction {
        kind: TransferTransactionKind::Deposit,
        client: 1,
        tx: 1,
        amount: 5,
        disputed: DisputeStatus::Disputed,
    });
    assert_eq!(client.execute_transaction(marked, &mut store), Ok(()));
    assert_eq!(store.get_transaction(1), Ok(Some(Transaction::deposit(1, 1, 5))));
}

#[test]
fn dispute_events_never_change_an_amount() {
    let mut store = store();
    let mut client = ClientState::new(1);
    client.execute_transaction(Transaction::deposit(1, 1, 10 * UNIT), &mut store).unwrap();
    client.execute_transaction(Transaction::deposit(1, 2, 20 * UNIT), &mut store).unwrap();
    let events = [
        (Transaction::dispute(1, 1), DisputeStatus::Disputed),
        (Transaction::resolve(1, 1), DisputeStatus::NotDisputed),
        (Transaction::dispute(1, 1), DisputeStatus::Disputed),
        (Transaction::chargeback(1, 1), DisputeStatus::Resolved),
    ];
    for (event, status) in events {
        assert_eq!(client.execute_transaction(event, &mut store), Ok(()));
        let row = stored(&store, 1);
        assert_eq!((row.kind, row.client, row.tx, row.amount), (TransferTransactionKind::Deposit, 1, 1, 10 * UNIT));
        assert_eq!(row.disputed, status);
        assert_eq!(store.get_transaction(2), Ok(Some(Transaction::deposit(1, 2, 20 * UNIT))));
    }
}

#[test]
fn the_lanes_stay_valid() {
    let mut store = store();
    let mut client = ClientState::new(1);
    let stream = [
        Transaction::deposit(1, 1, 10 * UNIT),
        Transaction::withdrawal(1, 2, 4 * UNIT),
        Transaction::dispute(1, 1),
        Transaction::withdrawal(1, 3, UNIT),
        Transaction::deposit(1, 4, 2 * UNIT),
        Transaction::resolve(1, 1),
        Transaction::dispute(1, 4),
        Transaction::dispute(1, 2),
        Transaction::chargeback(1, 4),
        Transaction::deposit(1, 5, UNIT),
    ];
    for tx in stream {
        let _ = client.execute_transaction(tx, &mut store);
        let (available, held, total, _) = lanes(&client);
        assert!(held >= 0);
        assert_eq!(total, available + held);
    }
    assert_eq!(lanes(&client), (6 * UNIT, 0, 6 * UNIT, true));
}

#[test]
fn the_store_holds_what_the_client_has() {
    let mut store = store();
    let mut client = ClientState::new(1);
    let stream = [
        Transaction::withdrawal(1, 1, UNIT),
        Transaction::deposit(1, 2, 10 * UNIT),
        Transaction::dispute(1, 7),
        Transaction::dispute(1, 2),
        Transaction::resolve(1, 2),
        Transaction::deposit(2, 3, UNIT),
    ];
    for tx in stream {
        let before = store.get_client_state(1).unwrap();
        let result = client.execute_transaction(tx, &mut store);
        let after = store.get_client_state(1).unwrap();
        match result {
            Ok(()) => assert_eq!(after.as_ref(), Some(&client)),
            Err(_) => assert_eq!(after, before),
        }
    }
}

/// An engine whose writes start to fail after a number of them.
struct Failing {
    inner: MemStore,
    writes_left: usize,
    reads_fail: bool,
}

impl StoreEngine for Failing {
    fn put(&mut self, keyspace: Keyspace, key: &[u8], value: &[u8]) -> Result<(), StoreError> {
        if self.writes_left == 0 {
            return Err(StoreError::Write("no space".to_string()));
        }
        self.writes_left -= 1;
        self.inner.put(keyspace, key, value)
    }

    fn get(&self, keyspace: Keyspace, key: &[u8]) -> Result<Option<Vec<u8>>, StoreError> {
        if self.reads_fail {
            return Err(StoreError::Read("no disk".to_string()));
        }
        self.inner.get(keyspace, key)
    }
}

fn failing(writes_left: usize, reads_fail: bool) -> ClientStore<Failing> {
    ClientStore::new(Failing { inner: MemStore::default(), writes_left, reads_fail })
}

#[test]
fn a_failed_first_write_persists_nothing() {
    let mut store = failing(0, false);
    let mut client = ClientState::new(1);
    let result = client.execute_transaction(Transaction::deposit(1, 1, UNIT), &mut store);
    assert_eq!(
        result,
        Err(ClientError::StoreError(StoreError::Write("no space".to_string())))
    );
    assert!(result.unwrap_err().is_fatal());
    assert_eq!(store.get_transaction(1), Ok(None));
    assert_eq!(store.get_client_state(1), Ok(None));
}

#[test]
fn a_failed_second_write_leaves_the_transfer_and_the_old_client_row() {
    let mut store = failing(3, false);
    let mut client = ClientState::new(1);
    client.execute_transaction(Transaction::deposit(1, 1, UNIT), &mut store).unwrap();
    let result = client.execute_transaction(Transaction::deposit(1, 2, 2 * UNIT), &mut store);
    assert_eq!(
        result,
        Err(ClientError::StoreError(StoreError::Write("no space".to_string())))
    );
    assert_eq!(store.get_transaction(2), Ok(Some(Transaction::deposit(1, 2, 2 * UNIT))));
    assert_eq!(
        store.get_client_state(1),
        Ok(Some(ClientState::from_parts(1, Account::from_lanes(UNIT, 0).unwrap(), false)))
    );
}

#[test]
fn a_failed_read_stops_a_dispute() {
    let mut store = failing(9, true);
    let mut client = ClientState::new(1);
    client.execute_transaction(Transaction::deposit(1, 1, UNIT), &mut store).unwrap();
    assert_eq!(
        client.execute_transaction(Transaction::dispute(1, 1), &mut store),
        Err(ClientError::StoreError(StoreError::Read("no disk".to_string())))
    );
    assert_eq!(lanes(&client), (UNIT, 0, UNIT, false));
}

#[test]
fn refusals_before_the_store_do_not_touch_a_failing_store() {
    let mut store = failing(0, true);
    let mut client = ClientState::new(1);
    assert_eq!(
        client.execute_transaction(Transaction::deposit(2, 1, UNIT), &mut store),
        Err(ClientError::MismatchedClientId)
    );
    assert_eq!(
        client.execute_transaction(Transaction::deposit(1, 1, -UNIT), &mut store),
        Err(ClientError::NegativeValue)
    );
    assert_eq!(
        client.execute_transaction(Transaction::withdrawal(1, 1, UNIT), &mut store),
        Err(ClientError::InsufficientFunds)
    );
    let mut frozen = ClientState::from_parts(1, Account::default(), true);
    assert_eq!(
        frozen.execute_transaction(Transaction::dispute(1, 1), &mut store),
        Err(ClientError::AccountFrozen)
    );
}

#[test]
fn a_stored_row_that_does_not_decode_is_fatal() {
    let mut engine = MemStore::default();
    engine.put(Keyspace::Transactions, &[1, 0, 0, 0], &[7]).unwrap();
    let mut store = ClientStore::new(engine);
    let mut client = ClientState::new(1);
    let result = client.execute_transaction(Transaction::dispute(1, 1), &mut store);
    assert!(matches!(
        result,
        Err(ClientError::StoreError(StoreError::Deserialize(_)))
    ));
    assert!(result.unwrap_err().is_fatal());
}

#[test]
fn only_store_errors_are_fatal() {
    let text = "x".to_string();
    assert!(!ClientError::NegativeValue.is_fatal());
    assert!(!ClientError::InsufficientFunds.is_fatal());
    assert!(!ClientError::Overflow.is_fatal());
    assert!(!ClientError::MismatchedClientId.is_fatal());
    assert!(!ClientError::AccountFrozen.is_fatal());
    assert!(!ClientError::TransactionNotFound.is_fatal());
    assert!(!ClientError::DisputeError(text.clone()).is_fatal());
    assert!(ClientError::StoreError(StoreError::KeyspaceNotFound).is_fatal());
    assert!(ClientError::StoreError(StoreError::Read(text)).is_fatal());
}

#[test]
fn a_client_splits_into_its_parts() {
    let state = ClientState::from_parts(9, Account::from_lanes(4, 5).unwrap(), true);
    assert_eq!(state.id(), 9);
    let (id, balance, frozen) = state.split();
    assert_eq!(id, 9);
    assert_eq!(balance, Account::from_lanes(4, 5).unwrap());
    assert!(frozen);
    assert_eq!(ClientState::new(3).split(), (3, Account::default(), false));
    assert_eq!(ClientState::new(3).encode().len(), 19);
}
