//! What is written in the input format reads back as what it was.

use crate::parser::reader::{
    amount_column, amount_in, cell, client_column, others_covered, reading, record_in, tx_column,
    type_column, type_of, Cell,
};
use crate::parser::text::{
    all_digits, amount_body, amount_of, digit_of, digits_value, has_hex_prefix, lemma_parts,
    lemma_value_push, padded, unsigned_body, unsigned_of,
};
use crate::parser::writer::{decimal, digit_char, exact_text, header_fields, record_text, type_text};
use crate::parser::{record_of, record_round_trip, CsvParseError, CsvTransaction};
use crate::transaction::{DisputeStatus, Transaction, TransactionType};
use vstd::arithmetic::div_mod::lemma_div_denominator;
use vstd::prelude::*;
use vstd::utf8::{encode_utf8, encode_utf8_decode_utf8, is_ascii_chars, is_ascii_chars_encode_utf8};

verus! {

/// The bytes of the fields `fields`.
pub open spec fn field_bytes(fields: Seq<Seq<char>>) -> Seq<Seq<u8>> {
    Seq::new(fields.len(), |i: int| encode_utf8(fields[i]))
}

/// The byte of the digit `d`.
proof fn lemma_digit_byte(d: int)
    requires
        0 <= d <= 9,
    ensures
        '\0' <= digit_char(d) <= '\u{7f}',
        digit_char(d) as u8 == 0x30 + d,
        digit_of(digit_char(d) as u8, 10) == Some(d as nat),
{
}

/// The decimal digits of a number are digits, and stand for the number.
pub proof fn decimal_reads_back(n: nat)
    ensures
        is_ascii_chars(decimal(n)),
        encode_utf8(decimal(n)).len() == decimal(n).len(),
        decimal(n).len() >= 1,
        all_digits(encode_utf8(decimal(n)), 10),
        digits_value(encode_utf8(decimal(n)), 10) == n,
    decreases n,
{
    let text = decimal(n);
    if n < 10 {
        lemma_digit_byte(n as int);
        assert(is_ascii_chars(text));
        is_ascii_chars_encode_utf8(text);
        let b = encode_utf8(text);
        assert(b[0] == text[0] as u8);
        assert(b.drop_last() =~= Seq::<u8>::empty());
        assert(digits_value(b.drop_last(), 10) == 0);
    } else {
        let head = decimal(n / 10);
        decimal_reads_back(n / 10);
        lemma_digit_byte((n % 10) as int);
        assert forall|i: int| 0 <= i < text.len() implies '\0' <= #[trigger] text[i] <= '\u{7f}' by {
            if i < head.len() {
                assert(text[i] == head[i]);
            }
        }
        is_ascii_chars_encode_utf8(text);
        is_ascii_chars_encode_utf8(head);
        let b = encode_utf8(text);
        let hb = encode_utf8(head);
        let last = (0x30 + n % 10) as u8;
        assert(b =~= hb.push(last)) by {
            assert forall|i: int| 0 <= i < b.len() implies b[i] == hb.push(last)[i] by {
                assert(b[i] == text[i] as u8);
                if i < head.len() {
                    assert(text[i] == head[i]);
                    assert(hb[i] == head[i] as u8);
                }
            }
        }
        lemma_value_push(hb, last, 10);
        assert forall|i: int| 0 <= i < b.len() implies (#[trigger] digit_of(b[i], 10)) is Some by {
            if i < hb.len() {
                assert(b[i] == hb[i]);
            }
        }
    }
}

/// A number that is written in decimal digits is read as itself.
pub proof fn written_number_reads_back(n: nat, max: nat)
    requires
        n <= max,
    ensures
        unsigned_of(encode_utf8(decimal(n)), max) == Some(n),
{
    decimal_reads_back(n);
    let b = encode_utf8(decimal(n));
    assert(digit_of(b[0], 10) is Some);
    if b.len() >= 2 {
        assert(digit_of(b[1], 10) is Some);
    }
    assert(!has_hex_prefix(b));
    assert(unsigned_body(b) == b);
}

/// The eight digits after the point of an amount, as bytes.
spec fn decimals(size: int) -> Seq<u8> {
    seq![
        (0x30 + size / 10_000_000 % 10) as u8,
        (0x30 + size / 1_000_000 % 10) as u8,
        (0x30 + size / 100_000 % 10) as u8,
        (0x30 + size / 10_000 % 10) as u8,
        (0x30 + size / 1_000 % 10) as u8,
        (0x30 + size / 100 % 10) as u8,
        (0x30 + size / 10 % 10) as u8,
        (0x30 + size % 10) as u8,
    ]
}

/// The digits of the whole part of a number followed by its eight decimals
/// stand for the number.
proof fn lemma_whole_and_decimals(size: int)
    requires
        0 <= size,
    ensures
        all_digits(decimals(size), 10),
        digits_value(encode_utf8(decimal((size / 100_000_000) as nat)) + decimals(size), 10) == size,
{
    let w = encode_utf8(decimal((size / 100_000_000) as nat));
    let f = decimals(size);
    decimal_reads_back((size / 100_000_000) as nat);
    lemma_div_denominator(size, 10_000_000, 10);
    lemma_div_denominator(size, 1_000_000, 10);
    lemma_div_denominator(size, 100_000, 10);
    lemma_div_denominator(size, 10_000, 10);
    lemma_div_denominator(size, 1_000, 10);
    lemma_div_denominator(size, 100, 10);
    lemma_div_denominator(size, 10, 10);
    let s0 = w;
    let s1 = s0.push(f[0]);
    let s2 = s1.push(f[1]);
    let s3 = s2.push(f[2]);
    let s4 = s3.push(f[3]);
    let s5 = s4.push(f[4]);
    let s6 = s5.push(f[5]);
    let s7 = s6.push(f[6]);
    let s8 = s7.push(f[7]);
    lemma_value_push(s0, f[0], 10);
    lemma_value_push(s1, f[1], 10);
    lemma_value_push(s2, f[2], 10);
    lemma_value_push(s3, f[3], 10);
    lemma_value_push(s4, f[4], 10);
    lemma_value_push(s5, f[5], 10);
    lemma_value_push(s6, f[6], 10);
    lemma_value_push(s7, f[7], 10);
    assert(digits_value(s1, 10) == size / 10_000_000);
    assert(digits_value(s2, 10) == size / 1_000_000);
    assert(digits_value(s3, 10) == size / 100_000);
    assert(digits_value(s4, 10) == size / 10_000);
    assert(digits_value(s5, 10) == size / 1_000);
    assert(digits_value(s6, 10) == size / 100);
    assert(digits_value(s7, 10) == size / 10);
    assert(digits_value(s8, 10) == size);
    assert(s8 =~= w + f);
}

/// The bytes of an amount that is written in full.
proof fn lemma_exact_bytes(units: int)
    requires
        i64::MIN < units <= i64::MAX,
    ensures
        ({
            let size = if units < 0 {
                -units
            } else {
                units
            };
            let sign = if units < 0 {
                seq![0x2du8]
            } else {
                Seq::<u8>::empty()
            };
            encode_utf8(exact_text(units)) == sign + encode_utf8(
                decimal((size / 100_000_000) as nat),
            ) + seq![0x2eu8] + decimals(size)
        }),
{
    let size = if units < 0 {
        -units
    } else {
        units
    };
    let whole = decimal((size / 100_000_000) as nat);
    let text = exact_text(units);
    decimal_reads_back((size / 100_000_000) as nat);
    is_ascii_chars_encode_utf8(whole);
    lemma_digit_byte(size / 10_000_000 % 10);
    lemma_digit_byte(size / 1_000_000 % 10);
    lemma_digit_byte(size / 100_000 % 10);
    lemma_digit_byte(size / 10_000 % 10);
    lemma_digit_byte(size / 1_000 % 10);
    lemma_digit_byte(size / 100 % 10);
    lemma_digit_byte(size / 10 % 10);
    lemma_digit_byte(size % 10);
    let start: int = if units < 0 {
        1
    } else {
        0
    };
    assert forall|i: int| 0 <= i < text.len() implies '\0' <= #[trigger] text[i] <= '\u{7f}' by {
        if start <= i < start + whole.len() {
            assert(text[i] == whole[i - start]);
        }
    }
    is_ascii_chars_encode_utf8(text);
    let sign = if units < 0 {
        seq![0x2du8]
    } else {
        Seq::<u8>::empty()
    };
    let expected = sign + encode_utf8(whole) + seq![0x2eu8] + decimals(size);
    let b = encode_utf8(text);
    assert(b.len() == expected.len());
    assert forall|i: int| 0 <= i < b.len() implies b[i] == expected[i] by {
        assert(b[i] == text[i] as u8);
        if start <= i < start + whole.len() {
            assert(text[i] == whole[i - start]);
            assert(encode_utf8(whole)[i - start] == whole[i - start] as u8);
        }
    }
    assert(b =~= expected);
}

/// An amount that is written in full is read as itself. The least amount of
/// all has no counterpart above zero, and is not read.
pub proof fn written_amount_reads_back(units: int)
    requires
        i64::MIN < units <= i64::MAX,
    ensures
        amount_of(encode_utf8(exact_text(units))) == Some(units),
        encode_utf8(exact_text(units)).len() > 0,
{
    let size = if units < 0 {
        -units
    } else {
        units
    };
    let w = encode_utf8(decimal((size / 100_000_000) as nat));
    let f = decimals(size);
    let b = encode_utf8(exact_text(units));
    lemma_exact_bytes(units);
    decimal_reads_back((size / 100_000_000) as nat);
    lemma_whole_and_decimals(size);
    assert(digit_of(w[0], 10) is Some);
    let body = w + seq![0x2eu8] + f;
    assert(amount_body(b) =~= body);
    assert forall|j: int| 0 <= j < w.len() implies body[j] != 0x2e by {
        assert(digit_of(w[j], 10) is Some);
    }
    lemma_parts(body, w.len() as int);
    assert(body.subrange(0, w.len() as int) =~= w);
    assert(body.subrange(w.len() as int + 1, body.len() as int) =~= f);
    assert(padded(f) =~= f);
}

/// Texts that differ have bytes that differ.
proof fn lemma_bytes_differ(a: Seq<char>, b: Seq<char>)
    requires
        a != b,
    ensures
        encode_utf8(a) != encode_utf8(b),
{
    encode_utf8_decode_utf8(a);
    encode_utf8_decode_utf8(b);
}

/// The four columns of the format have four names.
proof fn lemma_columns_differ()
    ensures
        type_column() != client_column(),
        type_column() != tx_column(),
        type_column() != amount_column(),
        client_column() != tx_column(),
        client_column() != amount_column(),
        tx_column() != amount_column(),
{
    reveal_strlit("type");
    reveal_strlit("client");
    reveal_strlit("tx");
    reveal_strlit("amount");
    assert("client"@[0] != "amount"@[0]);
    assert("type"@.len() != "client"@.len());
    assert("type"@.len() != "tx"@.len());
    assert("type"@.len() != "amount"@.len());
    assert("client"@.len() != "tx"@.len());
    assert("tx"@.len() != "amount"@.len());
    lemma_bytes_differ("type"@, "client"@);
    lemma_bytes_differ("type"@, "tx"@);
    lemma_bytes_differ("type"@, "amount"@);
    lemma_bytes_differ("client"@, "tx"@);
    lemma_bytes_differ("client"@, "amount"@);
    lemma_bytes_differ("tx"@, "amount"@);
}

/// The name of a record type is read as the type.
pub proof fn written_type_reads_back(tx_type: TransactionType)
    ensures
        type_of(encode_utf8(type_text(tx_type))) == Some(tx_type),
{
    reveal_strlit("deposit");
    reveal_strlit("withdrawal");
    reveal_strlit("dispute");
    reveal_strlit("resolve");
    reveal_strlit("chargeback");
    assert("deposit"@[1] != "dispute"@[1]);
    assert("deposit"@[0] != "resolve"@[0]);
    assert("dispute"@[0] != "resolve"@[0]);
    assert("withdrawal"@[0] != "chargeback"@[0]);
    assert("deposit"@.len() != "withdrawal"@.len());
    assert("dispute"@.len() != "withdrawal"@.len());
    assert("resolve"@.len() != "withdrawal"@.len());
    assert("deposit"@.len() != "chargeback"@.len());
    assert("dispute"@.len() != "chargeback"@.len());
    assert("resolve"@.len() != "chargeback"@.len());
    lemma_bytes_differ("deposit"@, "withdrawal"@);
    lemma_bytes_differ("deposit"@, "dispute"@);
    lemma_bytes_differ("deposit"@, "resolve"@);
    lemma_bytes_differ("deposit"@, "chargeback"@);
    lemma_bytes_differ("withdrawal"@, "dispute"@);
    lemma_bytes_differ("withdrawal"@, "resolve"@);
    lemma_bytes_differ("withdrawal"@, "chargeback"@);
    lemma_bytes_differ("dispute"@, "resolve"@);
    lemma_bytes_differ("dispute"@, "chargeback"@);
    lemma_bytes_differ("resolve"@, "chargeback"@);
}

/// Under the usual headers, a record's field for a column is the field at the
/// column's place.
proof fn lemma_cell_at(fields: Seq<Seq<u8>>, place: int)
    requires
        fields.len() == 4,
        0 <= place < 4,
    ensures
        cell(field_bytes(header_fields()), fields, field_bytes(header_fields())[place])
            == Cell::Field(fields[place]),
        field_bytes(header_fields()) =~= seq![
            type_column(),
            client_column(),
            tx_column(),
            amount_column(),
        ],
{
    let headers = field_bytes(header_fields());
    let name = headers[place];
    lemma_columns_differ();
    assert(headers =~= seq![type_column(), client_column(), tx_column(), amount_column()]);
    headers.index_of_first_ensures(name);
    headers.index_of_last_ensures(name);
    assert(headers.contains(name));
    let first = headers.index_of_first(name)->0;
    let last = headers.index_of_last(name)->0;
    assert(headers[0] == type_column() && headers[1] == client_column() && headers[2]
        == tx_column() && headers[3] == amount_column());
    assert(first == place);
    assert(last == place);
}

/// A record that is written as fields, under the usual headers, is read as
/// itself. The least amount of all is not read.
pub proof fn written_record_reads_back(record: CsvTransaction)
    requires
        record.amount matches Some(amount) ==> amount > i64::MIN,
    ensures
        record_in(Some(field_bytes(header_fields())), field_bytes(record_text(record))) == Some(
            record,
        ),
{
    let headers = field_bytes(header_fields());
    let fields = field_bytes(record_text(record));
    lemma_cell_at(fields, 0);
    lemma_cell_at(fields, 1);
    lemma_cell_at(fields, 2);
    lemma_cell_at(fields, 3);
    written_type_reads_back(record.tx_type);
    written_number_reads_back(record.client as nat, 0xffff);
    written_number_reads_back(record.tx as nat, 0xffff_ffff);
    match record.amount {
        Some(amount) => {
            written_amount_reads_back(amount as int);
        },
        None => {
            assert(is_ascii_chars(Seq::<char>::empty()));
            is_ascii_chars_encode_utf8(Seq::<char>::empty());
        },
    }
    assert(others_covered(headers, fields));
    assert(fields[0] == encode_utf8(type_text(record.tx_type)));
    assert(fields[1] == encode_utf8(decimal(record.client as nat)));
    assert(fields[2] == encode_utf8(decimal(record.tx as nat)));
    assert(amount_in(cell(headers, fields, amount_column())) == Some(record.amount));
}

/// A transaction that is written as a record, under the usual headers, is read
/// as itself, with its dispute status cleared. A transfer of the least amount
/// of all is not read.
pub proof fn written_transaction_reads_back(transaction: Transaction)
    requires
        transaction matches Transaction::Transfer(x) ==> x.amount > i64::MIN,
    ensures
        reading(
            Some(field_bytes(header_fields())),
            field_bytes(record_text(record_of(transaction))),
        ) == Some(
            Ok::<Transaction, CsvParseError>(
                match transaction {
                    Transaction::Transfer(x) => Transaction::Transfer(
                        x.with_status(DisputeStatus::NotDisputed),
                    ),
                    Transaction::Disputed(_) => transaction,
                },
            ),
        ),
{
    written_record_reads_back(record_of(transaction));
    record_round_trip(transaction);
}

} // verus!
