use payments_machine::client::balance::Account;
use payments_machine::client::store::ClientStore;
use payments_machine::client::ClientState;
use payments_machine::codec::Record;
use payments_machine::data::mem_store;
use payments_machine::db::mem::MemStore;
use payments_machine::db::{StoreEngine, StoreError};
use payments_machine::keyspace::Keyspace;
use payments_machine::parser::writer::{format_amount, report, report_lines, State, HEADERS};
use payments_machine::transaction::{Transaction, AMOUNT_SCALE};

const UNIT: i64 = 100_000_000;

#[test]
fn amounts_are_written_to_four_decimals() {
    assert_eq!(AMOUNT_SCALE, UNIT);
    assert_eq!(format_amount(0), "0.0000");
    assert_eq!(format_amount(UNIT), "1.0000");
    assert_eq!(format_amount(100 * UNIT), "100.0000");
    assert_eq!(format_amount(123_456_789), "1.2346");
    assert_eq!(format_amount(150_000_000), "1.5000");
    assert_eq!(format_amount(12_345 * UNIT + 67_890_000), "12345.6789");
    assert_eq!(format_amount(10_000), "0.0001");
    assert_eq!(format_amount(7_050_000), "0.0705");
}

#[test]
fn amounts_are_rounded_to_the_nearest_ten_thousandth() {
    assert_eq!(format_amount(4_999), "0.0000");
    assert_eq!(format_amount(5_000), "0.0001");
    assert_eq!(format_amount(14_999), "0.0001");
    assert_eq!(format_amount(15_000), "0.0002");
    assert_eq!(format_amount(99_995_000), "1.0000");
    assert_eq!(format_amount(99_994_999), "0.9999");
}

#[test]
fn negative_amounts_carry_a_sign() {
    assert_eq!(format_amount(-UNIT), "-1.0000");
    assert_eq!(format_amount(-10 * UNIT - 50_000_000), "-10.5000");
    assert_eq!(format_amount(-5_000), "-0.0001");
    assert_eq!(format_amount(-4_999), "0.0000");
}

#[test]
fn the_ends_of_the_range_are_written() {
    assert_eq!(format_amount(i64::MAX), "92233720368.5478");
    assert_eq!(format_amount(i64::MIN), "-92233720368.5478");
}

#[test]
fn a_line_has_five_columns() {
    let state = ClientState::from_parts(7, Account::from_lanes(-5 * UNIT, 15 * UNIT).unwrap(), true);
    let line = State::of(&state);
    assert_eq!(
        line,
        State { client: 7, available: -5 * UNIT, held: 15 * UNIT, total: 10 * UNIT, locked: true }
    );
    assert_eq!(line.to_line(), "7, -5.0000, 15.0000, 10.0000, true");
    assert_eq!(State::of(&ClientState::new(65535)).to_line(), "65535, 0.0000, 0.0000, 0.0000, false");
    assert_eq!(State::of(&ClientState::new(0)).to_line(), "0, 0.0000, 0.0000, 0.0000, false");
}

#[test]
fn the_header_names_the_columns() {
    assert_eq!(HEADERS, "client, available, held, total, locked");
}

#[test]
fn the_report_has_a_line_for_each_client() {
    let mut store = mem_store();
    let mut one = ClientState::new(1);
    let mut two = ClientState::new(2);
    one.execute_transaction(Transaction::deposit(1, 1, 15 * UNIT / 10), &mut store).unwrap();
    two.execute_transaction(Transaction::deposit(2, 2, 2 * UNIT), &mut store).unwrap();
    two.execute_transaction(Transaction::dispute(2, 2), &mut store).unwrap();
    two.execute_transaction(Transaction::chargeback(2, 2), &mut store).unwrap();
    let mut lines = report(&store).unwrap();
    lines.sort();
    assert_eq!(
        lines,
        vec![
            "1, 1.5000, 0.0000, 1.5000, false".to_string(),
            "2, 0.0000, 0.0000, 0.0000, true".to_string(),
        ]
    );
}

#[test]
fn the_report_of_an_empty_store_is_empty() {
    assert_eq!(report(&mem_store()), Ok(vec![]));
}

#[test]
fn the_report_needs_the_client_keyspace() {
    let store = ClientStore::new(MemStore::default());
    assert_eq!(report(&store), Err(StoreError::KeyspaceNotFound));
}

#[test]
fn the_report_fails_on_a_row_that_does_not_decode() {
    let mut engine = MemStore::default();
    engine.put(Keyspace::Clients, &[1, 0], &[1]).unwrap();
    assert!(matches!(
        report(&ClientStore::new(engine)),
        Err(StoreError::Deserialize(_))
    ));
}

#[test]
fn lines_follow_the_order_of_the_rows() {
    let rows: Vec<(Vec<u8>, Vec<u8>)> = [3u16, 1, 2]
        .iter()
        .map(|id| (vec![], ClientState::new(*id).encode()))
        .collect();
    assert_eq!(
        report_lines(&rows),
        Ok(vec![
            "3, 0.0000, 0.0000, 0.0000, false".to_string(),
            "1, 0.0000, 0.0000, 0.0000, false".to_string(),
            "2, 0.0000, 0.0000, 0.0000, false".to_string(),
        ])
    );
    let broken = vec![(vec![], ClientState::new(1).encode()), (vec![], vec![0u8; 4])];
    assert!(matches!(report_lines(&broken), Err(StoreError::Deserialize(_))));
}
