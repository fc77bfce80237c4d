use payments_machine::client::balance::Account;
use payments_machine::client::store::ClientStore;
use payments_machine::client::{ClientError, ClientState};
use payments_machine::db::mem::MemStore;
use payments_machine::db::{StoreEngine, StoreError};
use payments_machine::io::{on_result, process, rehydrate, serve, Dispatcher, Route, MAX_CLIENTS};
use payments_machine::keyspace::Keyspace;
use payments_machine::transaction::Transaction;

const UNIT: i64 = 100_000_000;

fn store() -> ClientStore<MemStore> {
    ClientStore::new(MemStore::default())
}

fn clients(store: &ClientStore<MemStore>) -> Vec<(Vec<u8>, Vec<u8>)> {
    let mut rows = store.inner().scan(Keyspace::Clients).unwrap_or_default();
    rows.sort();
    rows
}

#[test]
fn a_new_client_is_spawned_and_then_live() {
    let mut dispatcher = Dispatcher::with_capacity(2);
    assert_eq!(dispatcher.route(7), Route::Spawn);
    assert_eq!(dispatcher.route(7), Route::Spawn);
    assert_eq!(dispatcher.let_in(7), None);
    assert_eq!(dispatcher.route(7), Route::Live);
    assert_eq!(dispatcher.route(8), Route::Spawn);
}

#[test]
fn the_least_recently_served_client_leaves() {
    let mut dispatcher = Dispatcher::with_capacity(2);
    assert_eq!(dispatcher.let_in(1), None);
    assert_eq!(dispatcher.let_in(2), None);
    assert_eq!(dispatcher.let_in(3), Some(1));
    assert_eq!(dispatcher.route(1), Route::Spawn);
    assert_eq!(dispatcher.route(2), Route::Live);
    assert_eq!(dispatcher.route(3), Route::Live);
}

#[test]
fn serving_a_client_keeps_it_live() {
    let mut dispatcher = Dispatcher::with_capacity(2);
    dispatcher.let_in(1);
    dispatcher.let_in(2);
    assert_eq!(dispatcher.route(1), Route::Live);
    assert_eq!(dispatcher.let_in(3), Some(2));
    assert_eq!(dispatcher.route(1), Route::Live);
    assert_eq!(dispatcher.route(2), Route::Spawn);
    assert_eq!(dispatcher.let_in(2), Some(3));
}

#[test]
fn letting_in_a_live_client_evicts_nobody() {
    let mut dispatcher = Dispatcher::with_capacity(2);
    dispatcher.let_in(1);
    dispatcher.let_in(2);
    assert_eq!(dispatcher.let_in(1), None);
    assert_eq!(dispatcher.let_in(3), Some(2));
    assert_eq!(dispatcher.route(1), Route::Live);
}

#[test]
fn a_dispatcher_without_room_keeps_nobody_live() {
    let mut dispatcher = Dispatcher::with_capacity(0);
    assert_eq!(dispatcher.let_in(1), None);
    assert_eq!(dispatcher.route(1), Route::Spawn);
}

#[test]
fn the_default_dispatcher_keeps_the_default_number_live() {
    assert_eq!(MAX_CLIENTS, 2048);
    let mut dispatcher = Dispatcher::new();
    for client in 0..2048u16 {
        assert_eq!(dispatcher.let_in(client), None);
    }
    assert_eq!(dispatcher.let_in(2048), Some(0));
    assert_eq!(dispatcher.let_in(2049), Some(1));
    assert_eq!(dispatcher.route(2), Route::Live);
    assert_eq!(dispatcher.let_in(2050), Some(3));
}

#[test]
fn a_store_error_stops_the_machine() {
    assert_eq!(on_result(Ok(())), Ok(()));
    assert_eq!(on_result(Err(ClientError::NegativeValue)), Ok(()));
    assert_eq!(on_result(Err(ClientError::AccountFrozen)), Ok(()));
    assert_eq!(on_result(Err(ClientError::DisputeError("x".to_string()))), Ok(()));
    assert_eq!(
        on_result(Err(ClientError::StoreError(StoreError::KeyspaceNotFound))),
        Err(StoreError::KeyspaceNotFound)
    );
    assert_eq!(
        on_result(Err(ClientError::StoreError(StoreError::Write("w".to_string())))),
        Err(StoreError::Write("w".to_string()))
    );
}

#[test]
fn an_unknown_client_starts_fresh() {
    let store = store();
    assert_eq!(rehydrate(5, &store), Ok(ClientState::new(5)));
}

#[test]
fn an_evicted_client_resumes_exactly() {
    let mut store = store();
    let mut client = ClientState::new(5);
    let stream = [
        Transaction::deposit(5, 1, 10 * UNIT),
        Transaction::withdrawal(5, 2, 20 * UNIT),
        Transaction::dispute(5, 1),
        Transaction::dispute(5, 1),
        Transaction::deposit(5, 3, UNIT),
        Transaction::chargeback(5, 1),
        Transaction::deposit(5, 4, UNIT),
    ];
    for tx in stream {
        let _ = client.execute_transaction(tx, &mut store);
        assert_eq!(rehydrate(5, &store).as_ref(), Ok(&client));
    }
    assert_eq!(
        client,
        ClientState::from_parts(5, Account::from_lanes(UNIT, 0).unwrap(), true)
    );
}

#[test]
fn a_client_row_that_does_not_decode_stops_rehydration() {
    let mut engine = MemStore::default();
    engine.put(Keyspace::Clients, &[5, 0], &[1, 2, 3]).unwrap();
    let store = ClientStore::new(engine);
    assert!(matches!(rehydrate(5, &store), Err(StoreError::Deserialize(_))));
}

#[test]
fn serving_without_an_actor_gives_the_actors_result() {
    let stream = [
        Transaction::deposit(1, 1, 10 * UNIT),
        Transaction::deposit(2, 2, 5 * UNIT),
        Transaction::withdrawal(1, 3, 4 * UNIT),
        Transaction::dispute(2, 2),
        Transaction::withdrawal(2, 4, UNIT),
        Transaction::resolve(2, 2),
        Transaction::dispute(1, 1),
        Transaction::chargeback(1, 1),
        Transaction::deposit(1, 5, UNIT),
    ];
    let mut served = store();
    for tx in stream {
        assert_eq!(serve(tx, &mut served), Ok(()));
    }
    let mut with_actors = store();
    let mut one = ClientState::new(1);
    let mut two = ClientState::new(2);
    for tx in stream {
        let actor = if tx.client_id() == 1 { &mut one } else { &mut two };
        let _ = actor.execute_transaction(tx, &mut with_actors);
    }
    assert_eq!(clients(&served), clients(&with_actors));
    assert_eq!(
        served.get_client_state(1),
        Ok(Some(ClientState::from_parts(1, Account::from_lanes(-4 * UNIT, 0).unwrap(), true)))
    );
    assert_eq!(
        served.get_client_state(2),
        Ok(Some(ClientState::from_parts(2, Account::from_lanes(5 * UNIT, 0).unwrap(), false)))
    );
}

#[test]
fn a_stream_is_processed_in_order() {
    let mut store = store();
    let stream = vec![
        Transaction::withdrawal(1, 1, UNIT),
        Transaction::deposit(1, 2, UNIT),
        Transaction::withdrawal(1, 3, UNIT),
        Transaction::withdrawal(1, 4, UNIT),
    ];
    assert_eq!(process(&stream, &mut store), Ok(()));
    assert_eq!(store.get_client_state(1), Ok(Some(ClientState::new(1))));
    assert_eq!(store.get_transaction(1), Ok(None));
    assert_eq!(store.get_transaction(3), Ok(Some(Transaction::withdrawal(1, 3, UNIT))));
    assert_eq!(store.get_transaction(4), Ok(None));
}

#[test]
fn processing_stops_at_a_row_that_does_not_decode() {
    let mut engine = MemStore::default();
    engine.put(Keyspace::Transactions, &[9, 0, 0, 0], &[0]).unwrap();
    let mut store = ClientStore::new(engine);
    let stream = vec![
        Transaction::deposit(1, 1, UNIT),
        Transaction::dispute(1, 9),
        Transaction::deposit(1, 2, UNIT),
    ];
    assert!(matches!(process(&stream, &mut store), Err(StoreError::Deserialize(_))));
    assert_eq!(store.get_transaction(1), Ok(Some(Transaction::deposit(1, 1, UNIT))));
    assert_eq!(store.get_transaction(2), Ok(None));
}

#[test]
fn replaying_against_a_populated_store_leaves_the_same_clients() {
    let stream = vec![
        Transaction::deposit(1, 1, 10 * UNIT),
        Transaction::deposit(2, 2, 5 * UNIT),
        Transaction::withdrawal(1, 3, 50 * UNIT),
        Transaction::dispute(1, 1),
        Transaction::dispute(1, 3),
        Transaction::dispute(2, 8),
        Transaction::withdrawal(2, 4, UNIT),
        Transaction::resolve(1, 1),
        Transaction::dispute(2, 2),
        Transaction::chargeback(2, 2),
        Transaction::deposit(2, 5, UNIT),
    ];
    let mut empty = store();
    assert_eq!(process(&stream, &mut empty), Ok(()));

    let mut populated = store();
    for tx in &stream {
        if let Transaction::Transfer(_) = tx {
            populated.put_transaction(*tx).unwrap();
        }
    }
    assert_eq!(process(&stream, &mut populated), Ok(()));

    assert_eq!(clients(&empty), clients(&populated));
    assert_eq!(clients(&empty).len(), 2);
}

#[test]
fn replaying_a_dispute_that_comes_before_its_deposit_differs() {
    let stream = vec![Transaction::dispute(1, 1), Transaction::deposit(1, 1, 10 * UNIT)];
    let mut empty = store();
    process(&stream, &mut empty).unwrap();
    let mut populated = store();
    populated.put_transaction(stream[1]).unwrap();
    process(&stream, &mut populated).unwrap();
    assert_eq!(
        empty.get_client_state(1),
        Ok(Some(ClientState::from_parts(1, Account::from_lanes(10 * UNIT, 0).unwrap(), false)))
    );
    assert_eq!(
        populated.get_client_state(1),
        Ok(Some(ClientState::from_parts(1, Account::from_lanes(0, 10 * UNIT).unwrap(), false)))
    );
}
