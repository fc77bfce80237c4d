//! The report: one line per client, with the lanes to four decimals.

use crate::client::store::ClientStore;
use crate::client::{ClientState, ClientView};
use crate::codec::Record;
use crate::db::mem::{lists_rows, MemStore};
use crate::db::StoreError;
use crate::keyspace::Keyspace;
use crate::parser::{record_of, CsvTransaction};
use crate::transaction::{Amount, ClientId, Transaction, TransactionType};
use vstd::prelude::*;
use vstd::string::StringExecFns;

verus! {

/// The first line of the report.
pub const HEADERS: &'static str = "client, available, held, total, locked";

/// How many units of an amount make one ten-thousandth.
pub const UNITS_PER_TEN_THOUSANDTH: u64 = 10_000;

/// The character for the digit `d`.
pub open spec fn digit_char(d: int) -> char {
    if d == 0 {
        '0'
    } else if d == 1 {
        '1'
    } else if d == 2 {
        '2'
    } else if d == 3 {
        '3'
    } else if d == 4 {
        '4'
    } else if d == 5 {
        '5'
    } else if d == 6 {
        '6'
    } else if d == 7 {
        '7'
    } else if d == 8 {
        '8'
    } else {
        '9'
    }
}

/// The decimal digits of `n`, most significant first, without leading zeros.
pub open spec fn decimal(n: nat) -> Seq<char>
    decreases n,
{
    if n < 10 {
        seq![digit_char(n as int)]
    } else {
        decimal(n / 10).push(digit_char((n % 10) as int))
    }
}

/// An amount in ten-thousandths, rounded to the nearest, halves away from zero.
pub open spec fn ten_thousandths(units: int) -> int {
    if units >= 0 {
        (units + 5_000) / 10_000
    } else {
        -((-units + 5_000) / 10_000)
    }
}

/// The text of an amount: a minus sign where its ten-thousandths are negative,
/// the whole part, a point, and four decimals.
pub open spec fn amount_text(units: int) -> Seq<char> {
    let scaled = ten_thousandths(units);
    let size = if scaled < 0 {
        -scaled
    } else {
        scaled
    };
    let sign = if scaled < 0 {
        seq!['-']
    } else {
        Seq::<char>::empty()
    };
    sign + decimal((size / 10_000) as nat) + seq![
        '.',
        digit_char(size / 1_000 % 10),
        digit_char(size / 100 % 10),
        digit_char(size / 10 % 10),
        digit_char(size % 10),
    ]
}

/// The text of a lock flag.
pub open spec fn flag_text(flag: bool) -> Seq<char> {
    if flag {
        seq!['t', 'r', 'u', 'e']
    } else {
        seq!['f', 'a', 'l', 's', 'e']
    }
}

/// The separator between the columns of a line.
pub open spec fn separator() -> Seq<char> {
    seq![',', ' ']
}

/// Appends the character of a digit.
fn push_digit(out: &mut String, d: u64)
    requires
        d < 10,
    ensures
        final(out)@ == old(out)@.push(digit_char(d as int)),
{
    proof {
        reveal_strlit("0");
        reveal_strlit("1");
        reveal_strlit("2");
        reveal_strlit("3");
        reveal_strlit("4");
        reveal_strlit("5");
        reveal_strlit("6");
        reveal_strlit("7");
        reveal_strlit("8");
        reveal_strlit("9");
    }
    let text = if d == 0 {
        "0"
    } else if d == 1 {
        "1"
    } else if d == 2 {
        "2"
    } else if d == 3 {
        "3"
    } else if d == 4 {
        "4"
    } else if d == 5 {
        "5"
    } else if d == 6 {
        "6"
    } else if d == 7 {
        "7"
    } else if d == 8 {
        "8"
    } else {
        "9"
    };
    out.append(text);
    assert(out@ =~= old(out)@.push(digit_char(d as int)));
}

/// Appends the decimal digits of a number.
fn push_decimal(out: &mut String, n: u64)
    ensures
        final(out)@ == old(out)@ + decimal(n as nat),
    decreases n,
{
    if n >= 10 {
        push_decimal(out, n / 10);
    }
    push_digit(out, n % 10);
    assert(out@ =~= old(out)@ + decimal(n as nat));
}

/// Appends an amount to four decimals.
fn push_amount(out: &mut String, units: Amount)
    ensures
        final(out)@ == old(out)@ + amount_text(units as int),
{
    let negative = units < 0;
    let size: u64 = if negative {
        (-(units + 1)) as u64 + 1
    } else {
        units as u64
    };
    let scaled: u64 = (size + 5_000) / UNITS_PER_TEN_THOUSANDTH;
    if negative && scaled > 0 {
        proof {
            reveal_strlit("-");
        }
        out.append("-");
    }
    push_decimal(out, scaled / 10_000);
    proof {
        reveal_strlit(".");
    }
    out.append(".");
    push_digit(out, scaled / 1_000 % 10);
    push_digit(out, scaled / 100 % 10);
    push_digit(out, scaled / 10 % 10);
    push_digit(out, scaled % 10);
    assert(out@ =~= old(out)@ + amount_text(units as int));
}

/// Appends a lock flag.
fn push_flag(out: &mut String, flag: bool)
    ensures
        final(out)@ == old(out)@ + flag_text(flag),
{
    proof {
        reveal_strlit("true");
        reveal_strlit("false");
    }
    if flag {
        out.append("true");
    } else {
        out.append("false");
    }
    assert(out@ =~= old(out)@ + flag_text(flag));
}

/// Appends the separator between two columns.
fn push_separator(out: &mut String)
    ensures
        final(out)@ == old(out)@ + separator(),
{
    proof {
        reveal_strlit(", ");
    }
    out.append(", ");
    assert(out@ =~= old(out)@ + separator());
}

/// The text of an amount, to four decimals.
pub fn format_amount(units: Amount) -> (r: String)
    ensures
        r@ == amount_text(units as int),
{
    let mut out = String::new();
    push_amount(&mut out, units);
    assert(out@ =~= amount_text(units as int));
    out
}

/// The text of an amount in full: a minus sign where it is negative, the whole
/// part, a point, and all eight decimals.
pub open spec fn exact_text(units: int) -> Seq<char> {
    let size = if units < 0 {
        -units
    } else {
        units
    };
    let sign = if units < 0 {
        seq!['-']
    } else {
        Seq::<char>::empty()
    };
    sign + decimal((size / 100_000_000) as nat) + seq![
        '.',
        digit_char(size / 10_000_000 % 10),
        digit_char(size / 1_000_000 % 10),
        digit_char(size / 100_000 % 10),
        digit_char(size / 10_000 % 10),
        digit_char(size / 1_000 % 10),
        digit_char(size / 100 % 10),
        digit_char(size / 10 % 10),
        digit_char(size % 10),
    ]
}

/// The text of an amount in full, as the input format takes it.
pub fn format_exact(units: Amount) -> (r: String)
    ensures
        r@ == exact_text(units as int),
{
    let negative = units < 0;
    let size: u64 = if negative {
        (-(units + 1)) as u64 + 1
    } else {
        units as u64
    };
    let mut out = String::new();
    if negative {
        proof {
            reveal_strlit("-");
        }
        out.append("-");
    }
    push_decimal(&mut out, size / 100_000_000);
    proof {
        reveal_strlit(".");
    }
    out.append(".");
    push_digit(&mut out, size / 10_000_000 % 10);
    push_digit(&mut out, size / 1_000_000 % 10);
    push_digit(&mut out, size / 100_000 % 10);
    push_digit(&mut out, size / 10_000 % 10);
    push_digit(&mut out, size / 1_000 % 10);
    push_digit(&mut out, size / 100 % 10);
    push_digit(&mut out, size / 10 % 10);
    push_digit(&mut out, size % 10);
    assert(out@ =~= exact_text(units as int));
    out
}

/// The names of the columns of the input format, in their usual order.
pub open spec fn header_fields() -> Seq<Seq<char>> {
    seq!["type"@, "client"@, "tx"@, "amount"@]
}

/// The name of a record type in the input format.
pub open spec fn type_text(tx_type: TransactionType) -> Seq<char> {
    match tx_type {
        TransactionType::Deposit => "deposit"@,
        TransactionType::Withdrawal => "withdrawal"@,
        TransactionType::Dispute => "dispute"@,
        TransactionType::Resolve => "resolve"@,
        TransactionType::Chargeback => "chargeback"@,
    }
}

/// The fields of a record in the input format: type, client, transaction
/// number, and the amount in full, or an empty field where there is none.
pub open spec fn record_text(record: CsvTransaction) -> Seq<Seq<char>> {
    seq![
        type_text(record.tx_type),
        decimal(record.client as nat),
        decimal(record.tx as nat),
        match record.amount {
            Some(amount) => exact_text(amount as int),
            None => Seq::<char>::empty(),
        },
    ]
}

/// The header record of the input format.
pub fn record_headers() -> (r: Vec<String>)
    ensures
        r.deep_view() == header_fields(),
{
    let mut fields: Vec<String> = Vec::new();
    fields.push("type".to_owned());
    fields.push("client".to_owned());
    fields.push("tx".to_owned());
    fields.push("amount".to_owned());
    assert(fields.deep_view() =~= header_fields());
    fields
}

/// Writes a transaction as the fields of a record of the input format.
pub fn record_fields(transaction: Transaction) -> (r: Vec<String>)
    ensures
        r.deep_view() == record_text(record_of(transaction)),
{
    let record = CsvTransaction::from(transaction);
    let name = match record.tx_type {
        TransactionType::Deposit => "deposit",
        TransactionType::Withdrawal => "withdrawal",
        TransactionType::Dispute => "dispute",
        TransactionType::Resolve => "resolve",
        TransactionType::Chargeback => "chargeback",
    };
    let mut client = String::new();
    push_decimal(&mut client, record.client as u64);
    let mut tx = String::new();
    push_decimal(&mut tx, record.tx as u64);
    let amount = match record.amount {
        Some(amount) => format_exact(amount),
        None => String::new(),
    };
    let mut fields: Vec<String> = Vec::new();
    fields.push(name.to_owned());
    fields.push(client);
    fields.push(tx);
    fields.push(amount);
    proof {
        assert(client@ =~= decimal(record.client as nat));
        assert(tx@ =~= decimal(record.tx as nat));
        assert(fields.deep_view() =~= record_text(record_of(transaction)));
    }
    fields
}

/// One line of the report: a client's number, lanes and lock flag.
#[derive(Clone, Copy, Debug, PartialEq, Eq, Structural)]
pub struct State {
    pub client: ClientId,
    pub available: Amount,
    pub held: Amount,
    pub total: Amount,
    pub locked: bool,
}

/// The line that the report has for a client.
pub open spec fn state_of(c: ClientView) -> State {
    State {
        client: c.id,
        available: c.balance.available as i64,
        held: c.balance.held as i64,
        total: c.balance.total() as i64,
        locked: c.frozen,
    }
}

impl State {
    /// The text of this line: the five columns, separated by a comma and a space.
    pub open spec fn text(self) -> Seq<char> {
        decimal(self.client as nat) + separator() + amount_text(self.available as int) + separator()
            + amount_text(self.held as int) + separator() + amount_text(self.total as int)
            + separator() + flag_text(self.locked)
    }

    /// The line for a client.
    pub fn of(client: &ClientState) -> (r: State)
        ensures
            r == state_of(client@),
    {
        let balance = client.balance();
        proof {
            use_type_invariant(balance);
        }
        State {
            client: client.id(),
            available: client.balance().get_available(),
            held: client.balance().get_frozen(),
            total: client.balance().get_total(),
            locked: client.is_frozen(),
        }
    }

    /// Writes this line out.
    pub fn to_line(&self) -> (r: String)
        ensures
            r@ == self.text(),
    {
        let mut out = String::new();
        push_decimal(&mut out, self.client as u64);
        push_separator(&mut out);
        push_amount(&mut out, self.available);
        push_separator(&mut out);
        push_amount(&mut out, self.held);
        push_separator(&mut out);
        push_amount(&mut out, self.total);
        push_separator(&mut out);
        push_flag(&mut out, self.locked);
        assert(out@ =~= self.text());
        out
    }
}

/// Whether `line` is the report line of the client that the row `row` decodes to.
pub open spec fn line_of(line: Seq<char>, row: Seq<u8>) -> bool {
    ClientState::decoding(row) matches Some(state) && line == state_of(state@).text()
}

/// Whether `lines` are the report lines of the client rows `rows`, in order.
pub open spec fn lines_of(lines: Seq<Seq<char>>, rows: Seq<(Seq<u8>, Seq<u8>)>) -> bool {
    &&& lines.len() == rows.len()
    &&& forall|i: int| 0 <= i < rows.len() ==> line_of(lines[i], (#[trigger] rows[i]).1)
}

/// Writes one line for each of the client rows `rows`, in order. Fails where a
/// row does not decode.
pub fn report_lines(rows: &Vec<(Vec<u8>, Vec<u8>)>) -> (r: Result<Vec<String>, StoreError>)
    ensures
        match r {
            Ok(lines) => lines_of(lines.deep_view(), rows.deep_view()),
            Err(e) => e is Deserialize && exists|i: int|
                0 <= i < rows.len() && ClientState::decoding((#[trigger] rows.deep_view()[i]).1)
                    is None,
        },
{
    let mut lines: Vec<String> = Vec::new();
    let mut i: usize = 0;
    while i < rows.len()
        invariant
            i <= rows.len(),
            lines.len() == i,
            forall|j: int|
                0 <= j < i ==> line_of(lines.deep_view()[j], (#[trigger] rows.deep_view()[j]).1),
        decreases rows.len() - i,
    {
        assert(rows.deep_view()[i as int].1 == rows[i as int].1@);
        let state = match crate::client::store::deserialize::<ClientState>(rows[i].1.as_slice()) {
            Ok(state) => state,
            Err(e) => {
                return Err(e);
            },
        };
        let ghost before = lines.deep_view();
        lines.push(State::of(&state).to_line());
        assert forall|j: int| 0 <= j < i + 1 implies line_of(
            lines.deep_view()[j],
            (#[trigger] rows.deep_view()[j]).1,
        ) by {
            if j < i {
                assert(lines.deep_view()[j] == before[j]);
            }
        }
        i = i + 1;
    }
    Ok(lines)
}

/// Writes the report of a store in memory: one line for each row of its client
/// keyspace, in the order in which the keyspace is walked, which is not fixed.
/// Fails where the keyspace has not been created, or a row does not decode.
pub fn report(store: &ClientStore<MemStore>) -> (r: Result<Vec<String>, StoreError>)
    ensures
        match r {
            Ok(lines) => store.engine()@.contains_key(Keyspace::Clients.spec_name()) && exists|
                rows: Seq<(Seq<u8>, Seq<u8>)>,
            |
                lists_rows(rows, store.engine()@[Keyspace::Clients.spec_name()]) && lines_of(
                    lines.deep_view(),
                    rows,
                ),
            Err(StoreError::KeyspaceNotFound) => !store.engine()@.contains_key(
                Keyspace::Clients.spec_name(),
            ),
            Err(e) => e is Deserialize && store.engine()@.contains_key(
                Keyspace::Clients.spec_name(),
            ) && exists|key: Seq<u8>|
                store@.clients.contains_key(key) && ClientState::decoding(
                    #[trigger] store@.clients[key],
                ) is None,
        },
{
    let rows = match store.inner().scan(Keyspace::Clients) {
        Some(rows) => rows,
        None => {
            return Err(StoreError::KeyspaceNotFound);
        },
    };
    let r = report_lines(&rows);
    proof {
        if r is Err {
            let i = choose|i: int|
                0 <= i < rows.len() && ClientState::decoding((#[trigger] rows.deep_view()[i]).1)
                    is None;
            let key = rows.deep_view()[i].0;
            assert(store@.clients.contains_key(key));
            assert(store@.clients[key] == rows.deep_view()[i].1);
        }
    }
    r
}

} // verus!
