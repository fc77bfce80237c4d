//! Reading the input: a table of comma-separated records whose first record
//! names the columns `type`, `client`, `tx` and `amount`.

use crate::parser::text::{amount_of, parse_amount, parse_unsigned, unsigned_of};
use crate::parser::{transaction_of, CsvParseError, CsvTransaction};
use crate::transaction::{Amount, Transaction, TransactionType};
use vstd::prelude::*;
use vstd::string::{StrSliceExecFns, StringSliceAdditionalSpecFns};

verus! {

/// Why reading the input failed. Each variant carries the text of the failure.
#[derive(Debug)]
pub enum ReaderError {
    /// The transactions could not be handed on.
    Io(String),
    /// A record was read, but it stands for no transaction.
    Parse(String),
    /// A record could not be read.
    Csv(String),
}

/// What the `csv` crate reads from an input with the settings of this format:
/// the header record, where it is valid text; the records that follow it, up to
/// the first that cannot be read; and the text of that failure, if there is one.
pub uninterp spec fn csv_table(input: Seq<u8>) -> (
    Option<Seq<Seq<u8>>>,
    Seq<Seq<Seq<u8>>>,
    Option<Seq<char>>,
);

/// Reads `input` with a `csv::Reader` built to trim all fields, to accept
/// records of any length and to take the first record as headers: `headers`,
/// then `records` until one fails. The fields are handed out as bytes.
#[verifier::external_body]
fn csv_read(input: &[u8]) -> (r: (Option<Vec<Vec<u8>>>, Vec<Vec<Vec<u8>>>, Option<String>))
    ensures
        r.deep_view() == csv_table(input@),
{
    let mut reader = csv::ReaderBuilder::new().trim(csv::Trim::All).flexible(true).has_headers(
        true,
    ).from_reader(input);
    let headers = reader.headers().ok().map(|h| h.iter().map(|f| f.as_bytes().to_vec()).collect());
    let mut rows = Vec::new();
    for record in reader.records() {
        match record {
            Ok(fields) => rows.push(fields.iter().map(|f| f.as_bytes().to_vec()).collect()),
            Err(e) => return (headers, rows, Some(e.to_string())),
        }
    }
    (headers, rows, None)
}

/// The name of the column that holds the record type.
pub open spec fn type_column() -> Seq<u8> {
    "type".spec_bytes()
}

/// The name of the column that holds the client.
pub open spec fn client_column() -> Seq<u8> {
    "client".spec_bytes()
}

/// The name of the column that holds the transaction number.
pub open spec fn tx_column() -> Seq<u8> {
    "tx".spec_bytes()
}

/// The name of the column that holds the amount.
pub open spec fn amount_column() -> Seq<u8> {
    "amount".spec_bytes()
}

/// Whether `name` is one of the four columns of the format.
pub open spec fn known_column(name: Seq<u8>) -> bool {
    name == type_column() || name == client_column() || name == tx_column() || name
        == amount_column()
}

/// The record type that a field names, in lower case.
pub open spec fn type_of(field: Seq<u8>) -> Option<TransactionType> {
    if field == "deposit".spec_bytes() {
        Some(TransactionType::Deposit)
    } else if field == "withdrawal".spec_bytes() {
        Some(TransactionType::Withdrawal)
    } else if field == "dispute".spec_bytes() {
        Some(TransactionType::Dispute)
    } else if field == "resolve".spec_bytes() {
        Some(TransactionType::Resolve)
    } else if field == "chargeback".spec_bytes() {
        Some(TransactionType::Chargeback)
    } else {
        None
    }
}

/// What a record holds for a column.
pub enum Cell {
    /// No header names the column.
    Absent,
    /// More than one header names the column.
    Repeated,
    /// One header names the column, and the record ends before it.
    Short,
    /// One header names the column, and this is the record's field under it.
    Field(Seq<u8>),
}

/// What the record `fields` holds for the column `name`, under `headers`.
pub open spec fn cell(headers: Seq<Seq<u8>>, fields: Seq<Seq<u8>>, name: Seq<u8>) -> Cell {
    match (headers.index_of_first(name), headers.index_of_last(name)) {
        (Some(first), Some(last)) => if first != last {
            Cell::Repeated
        } else if first >= fields.len() {
            Cell::Short
        } else {
            Cell::Field(fields[first])
        },
        _ => Cell::Absent,
    }
}

/// The amount that a record holds: none where the column is absent, the record
/// ends before it, or the field is empty. Nothing where the column is repeated
/// or the field is no amount.
pub open spec fn amount_in(c: Cell) -> Option<Option<Amount>> {
    match c {
        Cell::Absent => Some(None),
        Cell::Short => Some(None),
        Cell::Repeated => None,
        Cell::Field(field) => if field.len() == 0 {
            Some(None)
        } else {
            match amount_of(field) {
                Some(amount) => Some(Some(amount as i64)),
                None => None,
            }
        },
    }
}

/// Whether the record has a field under every header that names no column of
/// the format.
pub open spec fn others_covered(headers: Seq<Seq<u8>>, fields: Seq<Seq<u8>>) -> bool {
    forall|i: int| fields.len() <= i < headers.len() ==> known_column(#[trigger] headers[i])
}

/// The record that `fields` stand for under `headers`. The type, the client and
/// the transaction number must each be named by one header and have a field
/// that reads as what it is; the amount is optional.
pub open spec fn named_record(headers: Seq<Seq<u8>>, fields: Seq<Seq<u8>>) -> Option<
    CsvTransaction,
> {
    match (
        cell(headers, fields, type_column()),
        cell(headers, fields, client_column()),
        cell(headers, fields, tx_column()),
    ) {
        (Cell::Field(a), Cell::Field(b), Cell::Field(c)) => match (
            type_of(a),
            unsigned_of(b, 0xffff),
            unsigned_of(c, 0xffff_ffff),
            amount_in(cell(headers, fields, amount_column())),
        ) {
            (Some(tx_type), Some(client), Some(tx), Some(amount)) => if others_covered(
                headers,
                fields,
            ) {
                Some(CsvTransaction { tx_type, client: client as u16, tx: tx as u32, amount })
            } else {
                None
            },
            _ => None,
        },
        _ => None,
    }
}

/// The headers that stand in where the input's own cannot be used.
pub open spec fn default_headers() -> Seq<Seq<u8>> {
    seq![type_column(), client_column(), tx_column(), amount_column()]
}

/// The record that `fields` stand for. Without headers the four columns are
/// taken in the order type, client, transaction number, amount, and all four
/// fields must be there.
pub open spec fn record_in(headers: Option<Seq<Seq<u8>>>, fields: Seq<Seq<u8>>) -> Option<
    CsvTransaction,
> {
    match headers {
        Some(names) => named_record(names, fields),
        None => if fields.len() < 4 {
            None
        } else {
            named_record(default_headers(), fields)
        },
    }
}

/// What reading one record gives: the transaction it stands for, or which rule
/// it breaks, or nothing where its fields cannot be read.
pub open spec fn reading(headers: Option<Seq<Seq<u8>>>, fields: Seq<Seq<u8>>) -> Option<
    Result<Transaction, CsvParseError>,
> {
    match record_in(headers, fields) {
        Some(record) => Some(transaction_of(record)),
        None => None,
    }
}

/// Whether the result `r` of reading a record says what `expected` says.
pub open spec fn reads_as(
    r: Result<Transaction, ReaderError>,
    expected: Option<Result<Transaction, CsvParseError>>,
) -> bool {
    match expected {
        Some(Ok(tx)) => r matches Ok(got) && got == tx,
        Some(Err(e)) => r matches Err(ReaderError::Parse(text)) && text@ == e.spec_message(),
        None => r matches Err(ReaderError::Csv(_)),
    }
}

/// Whether two byte strings are the same.
fn same_bytes(a: &[u8], b: &[u8]) -> (r: bool)
    ensures
        r == (a@ == b@),
{
    if a.len() != b.len() {
        return false;
    }
    let mut i: usize = 0;
    while i < a.len()
        invariant
            a@.len() == b@.len(),
            i <= a@.len(),
            forall|j: int| 0 <= j < i ==> a@[j] == b@[j],
        decreases a.len() - i,
    {
        if a[i] != b[i] {
            return false;
        }
        i = i + 1;
    }
    assert(a@ =~= b@);
    true
}

/// Whether `name` is one of the four columns of the format.
fn is_known_column(name: &[u8]) -> (r: bool)
    ensures
        r == known_column(name@),
{
    same_bytes(name, "type".as_bytes()) || same_bytes(name, "client".as_bytes()) || same_bytes(
        name,
        "tx".as_bytes(),
    ) || same_bytes(name, "amount".as_bytes())
}

/// The record type that a field names.
fn transaction_type(field: &[u8]) -> (r: Option<TransactionType>)
    ensures
        r == type_of(field@),
{
    if same_bytes(field, "deposit".as_bytes()) {
        Some(TransactionType::Deposit)
    } else if same_bytes(field, "withdrawal".as_bytes()) {
        Some(TransactionType::Withdrawal)
    } else if same_bytes(field, "dispute".as_bytes()) {
        Some(TransactionType::Dispute)
    } else if same_bytes(field, "resolve".as_bytes()) {
        Some(TransactionType::Resolve)
    } else if same_bytes(field, "chargeback".as_bytes()) {
        Some(TransactionType::Chargeback)
    } else {
        None
    }
}

/// The byte strings of a list of fields.
pub open spec fn fields_of(v: &Vec<Vec<u8>>) -> Seq<Seq<u8>> {
    v.deep_view()
}

/// Where a column stands among the headers.
enum Place {
    Absent,
    Repeated,
    At(usize),
}

/// Finds the header that names the column `name`.
fn find_column(headers: &Vec<Vec<u8>>, name: &[u8]) -> (r: Place)
    ensures
        match r {
            Place::Absent => fields_of(headers).index_of_first(name@) is None,
            Place::Repeated => fields_of(headers).index_of_first(name@) is Some && fields_of(
                headers,
            ).index_of_last(name@) is Some && fields_of(headers).index_of_first(name@)
                != fields_of(headers).index_of_last(name@),
            Place::At(i) => fields_of(headers).index_of_first(name@) == Some(i as int)
                && fields_of(headers).index_of_last(name@) == Some(i as int),
        },
{
    let ghost names = fields_of(headers);
    let mut first: Option<usize> = None;
    let mut repeated = false;
    let mut i: usize = 0;
    while i < headers.len()
        invariant
            names == fields_of(headers),
            i <= headers.len(),
            match first {
                None => !repeated && forall|j: int| 0 <= j < i ==> names[j] != name@,
                Some(f) => f < i && names[f as int] == name@ && (forall|j: int|
                    0 <= j < f ==> names[j] != name@) && (repeated <==> exists|j: int|
                    f < j < i && names[j] == name@),
            },
        decreases headers.len() - i,
    {
        assert(names[i as int] == headers[i as int]@);
        if same_bytes(headers[i].as_slice(), name) {
            match first {
                None => {
                    first = Some(i);
                },
                Some(f) => {
                    repeated = true;
                },
            }
        }
        i = i + 1;
    }
    proof {
        names.index_of_first_ensures(name@);
        names.index_of_last_ensures(name@);
    }
    match first {
        None => Place::Absent,
        Some(f) => {
            assert(names.contains(name@));
            if repeated {
                Place::Repeated
            } else {
                Place::At(f)
            }
        },
    }
}

/// Checks that every header from the end of the record on names a column of
/// the format.
fn check_others(headers: &Vec<Vec<u8>>, fields: &Vec<Vec<u8>>) -> (r: bool)
    ensures
        r == others_covered(fields_of(headers), fields_of(fields)),
{
    let mut i: usize = fields.len();
    while i < headers.len()
        invariant
            fields.len() <= i,
            forall|j: int|
                fields.len() <= j < i && j < headers.len() ==> known_column(
                    #[trigger] fields_of(headers)[j],
                ),
        decreases headers.len() - i,
    {
        assert(fields_of(headers)[i as int] == headers[i as int]@);
        if !is_known_column(headers[i].as_slice()) {
            return false;
        }
        i = i + 1;
    }
    true
}

/// The field of a record under a column that must be there.
fn required_field<'a>(headers: &Vec<Vec<u8>>, fields: &'a Vec<Vec<u8>>, name: &[u8]) -> (r: Option<
    &'a Vec<u8>,
>)
    ensures
        match r {
            Some(field) => cell(fields_of(headers), fields_of(fields), name@) == Cell::Field(
                field@,
            ),
            None => !(cell(fields_of(headers), fields_of(fields), name@) is Field),
        },
{
    match find_column(headers, name) {
        Place::At(i) => if i < fields.len() {
            assert(fields_of(fields)[i as int] == fields[i as int]@);
            Some(&fields[i])
        } else {
            None
        },
        _ => None,
    }
}

/// The amount of a record.
fn optional_amount(headers: &Vec<Vec<u8>>, fields: &Vec<Vec<u8>>) -> (r: Option<Option<Amount>>)
    ensures
        r == amount_in(cell(fields_of(headers), fields_of(fields), amount_column())),
{
    match find_column(headers, "amount".as_bytes()) {
        Place::Absent => Some(None),
        Place::Repeated => None,
        Place::At(i) => if i < fields.len() {
            assert(fields_of(fields)[i as int] == fields[i as int]@);
            if fields[i].len() == 0 {
                Some(None)
            } else {
                match parse_amount(fields[i].as_slice()) {
                    Some(amount) => Some(Some(amount)),
                    None => None,
                }
            }
        } else {
            Some(None)
        },
    }
}

/// Reported where a record does not have the fields of a transaction.
pub const UNREADABLE_RECORD: &'static str = "the record does not have the format's fields";

/// Reads a record under headers.
fn parse_named(headers: &Vec<Vec<u8>>, fields: &Vec<Vec<u8>>) -> (r: Option<CsvTransaction>)
    ensures
        r == named_record(fields_of(headers), fields_of(fields)),
{
    let tx_type = match required_field(headers, fields, "type".as_bytes()) {
        Some(field) => transaction_type(field.as_slice()),
        None => {
            return None;
        },
    };
    let client = match required_field(headers, fields, "client".as_bytes()) {
        Some(field) => parse_unsigned(field.as_slice(), 0xffff),
        None => {
            return None;
        },
    };
    let tx = match required_field(headers, fields, "tx".as_bytes()) {
        Some(field) => parse_unsigned(field.as_slice(), 0xffff_ffff),
        None => {
            return None;
        },
    };
    let amount = optional_amount(headers, fields);
    match (tx_type, client, tx, amount) {
        (Some(tx_type), Some(client), Some(tx), Some(amount)) => if check_others(headers, fields) {
            Some(CsvTransaction { tx_type, client: client as u16, tx: tx as u32, amount })
        } else {
            None
        },
        _ => None,
    }
}

/// Reads one record of the input as the fields of a transaction. Without
/// headers the columns are taken in their usual order.
pub fn parse_record(headers: &Option<Vec<Vec<u8>>>, fields: &Vec<Vec<u8>>) -> (r: Result<
    CsvTransaction,
    ReaderError,
>)
    ensures
        match record_in(headers.deep_view(), fields_of(fields)) {
            Some(record) => r matches Ok(got) && got == record,
            None => r matches Err(ReaderError::Csv(_)),
        },
{
    let record = match headers {
        Some(names) => parse_named(names, fields),
        None => if fields.len() < 4 {
            None
        } else {
            let mut names: Vec<Vec<u8>> = Vec::new();
            names.push("type".as_bytes_vec());
            names.push("client".as_bytes_vec());
            names.push("tx".as_bytes_vec());
            names.push("amount".as_bytes_vec());
            assert(fields_of(&names) =~~= default_headers());
            parse_named(&names, fields)
        },
    };
    match record {
        Some(record) => Ok(record),
        None => Err(ReaderError::Csv(UNREADABLE_RECORD.to_owned())),
    }
}

/// Reads one record of the input as a transaction.
pub fn read_record(headers: &Option<Vec<Vec<u8>>>, fields: &Vec<Vec<u8>>) -> (r: Result<
    Transaction,
    ReaderError,
>)
    ensures
        reads_as(r, reading(headers.deep_view(), fields_of(fields))),
{
    match parse_record(headers, fields) {
        Ok(record) => match Transaction::try_from(record) {
            Ok(tx) => Ok(tx),
            Err(e) => Err(ReaderError::Parse(e.message().to_owned())),
        },
        Err(e) => Err(e),
    }
}

/// Whether `transactions` and `failure` are what a table gives: the
/// transactions of its records in order, up to the first record that cannot be
/// read or stands for none, with that record's failure; or of all records, with
/// the failure that ended the table, if one did.
pub open spec fn table_gives(
    transactions: Seq<Transaction>,
    failure: Option<ReaderError>,
    headers: Option<Seq<Seq<u8>>>,
    rows: Seq<Seq<Seq<u8>>>,
    ending: Option<Seq<char>>,
) -> bool {
    &&& transactions.len() <= rows.len()
    &&& forall|i: int|
        0 <= i < transactions.len() ==> reading(headers, #[trigger] rows[i]) == Some(
            Ok::<Transaction, CsvParseError>(transactions[i]),
        )
    &&& if transactions.len() < rows.len() {
        let bad = reading(headers, rows[transactions.len() as int]);
        &&& !(bad matches Some(Ok(_)))
        &&& failure matches Some(e) && reads_as(Err(e), bad)
    } else {
        match ending {
            Some(text) => failure matches Some(ReaderError::Csv(got)) && got@ == text,
            None => failure is None,
        }
    }
}

/// Reads the records of a table as transactions, in order, and stops at the
/// first that fails.
pub fn read_table(
    headers: &Option<Vec<Vec<u8>>>,
    rows: &Vec<Vec<Vec<u8>>>,
    ending: Option<String>,
) -> (r: (Vec<Transaction>, Option<ReaderError>))
    ensures
        table_gives(r.0@, r.1, headers.deep_view(), rows.deep_view(), ending.deep_view()),
{
    let mut transactions: Vec<Transaction> = Vec::new();
    let mut i: usize = 0;
    while i < rows.len()
        invariant
            i <= rows.len(),
            transactions@.len() == i,
            forall|j: int|
                0 <= j < i ==> reading(headers.deep_view(), #[trigger] rows.deep_view()[j]) == Some(
                    Ok::<Transaction, CsvParseError>(transactions@[j]),
                ),
        decreases rows.len() - i,
    {
        assert(rows.deep_view()[i as int] == fields_of(&rows[i as int]));
        match read_record(headers, &rows[i]) {
            Ok(tx) => {
                transactions.push(tx);
            },
            Err(e) => {
                return (transactions, Some(e));
            },
        }
        i = i + 1;
    }
    let failure = match ending {
        Some(text) => Some(ReaderError::Csv(text)),
        None => None,
    };
    (transactions, failure)
}

/// Reads an input as transactions, in order, and stops at the first record
/// that fails.
pub fn read_transactions(input: &[u8]) -> (r: (Vec<Transaction>, Option<ReaderError>))
    ensures
        table_gives(r.0@, r.1, csv_table(input@).0, csv_table(input@).1, csv_table(input@).2),
{
    let (headers, rows, ending) = csv_read(input);
    read_table(&headers, &rows, ending)
}

} // verus!
