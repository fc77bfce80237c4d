//! The binary form of keys and rows.
//!
//! Integers are written with a fixed width, least significant byte first; an enum
//! is written as the 32-bit index of its variant, followed by the variant's
//! fields; a struct is its fields in declaration order.

use crate::transaction::{
    DisputeStatus, DisputedTransaction, DisputedTransactionKind, Transaction, TransferTransaction,
    TransferTransactionKind,
};
use vstd::prelude::*;

verus! {

/// The two bytes of `v`, least significant first.
#[verifier::opaque]
pub open spec fn u16_le(v: u16) -> Seq<u8> {
    seq![(v % 0x100) as u8, (v / 0x100) as u8]
}

/// The four bytes of `v`, least significant first.
#[verifier::opaque]
pub open spec fn u32_le(v: u32) -> Seq<u8> {
    u16_le((v % 0x1_0000) as u16) + u16_le((v / 0x1_0000) as u16)
}

/// The eight bytes of `v`, least significant first.
#[verifier::opaque]
pub open spec fn u64_le(v: u64) -> Seq<u8> {
    u32_le((v % 0x1_0000_0000) as u32) + u32_le((v / 0x1_0000_0000) as u32)
}

/// The unsigned number with the same 64 bits as `v` in two's complement.
pub open spec fn i64_bits(v: i64) -> u64 {
    if v >= 0 {
        v as u64
    } else {
        (v + 0x1_0000_0000_0000_0000) as u64
    }
}

/// The signed number whose two's complement form is `u`.
pub open spec fn bits_i64(u: u64) -> i64 {
    if u < 0x8000_0000_0000_0000 {
        u as i64
    } else {
        (u - 0x1_0000_0000_0000_0000) as i64
    }
}

/// The eight bytes of `v` in two's complement, least significant first.
pub open spec fn i64_le(v: i64) -> Seq<u8> {
    u64_le(i64_bits(v))
}

/// The byte that stands for `v`.
pub open spec fn bool_byte(v: bool) -> Seq<u8> {
    seq![if v { 1u8 } else { 0u8 }]
}

/// The number that the two bytes of `s` from `at` on stand for.
pub open spec fn le_u16(s: Seq<u8>, at: int) -> u16 {
    (s[at] as int + 0x100 * (s[at + 1] as int)) as u16
}

/// The number that the four bytes of `s` from `at` on stand for.
pub open spec fn le_u32(s: Seq<u8>, at: int) -> u32 {
    (le_u16(s, at) as int + 0x1_0000 * (le_u16(s, at + 2) as int)) as u32
}

/// The number that the eight bytes of `s` from `at` on stand for.
pub open spec fn le_u64(s: Seq<u8>, at: int) -> u64 {
    (le_u32(s, at) as int + 0x1_0000_0000 * (le_u32(s, at + 4) as int)) as u64
}

/// The signed number that the eight bytes of `s` from `at` on stand for.
pub open spec fn le_i64(s: Seq<u8>, at: int) -> i64 {
    bits_i64(le_u64(s, at))
}

/// What is read at `at` depends only on the bytes there: two sequences that agree
/// on `n` bytes from `at` and from `bt` on give the same numbers for widths up to `n`.
pub proof fn lemma_read_local(s: Seq<u8>, at: int, t: Seq<u8>, bt: int, n: int)
    requires
        0 <= at,
        0 <= bt,
        at + n <= s.len(),
        bt + n <= t.len(),
        forall|i: int| at <= i < at + n ==> #[trigger] s[i] == t[i - at + bt],
    ensures
        n >= 2 ==> le_u16(s, at) == le_u16(t, bt),
        n >= 4 ==> le_u32(s, at) == le_u32(t, bt),
        n >= 8 ==> le_u64(s, at) == le_u64(t, bt),
        n >= 8 ==> le_i64(s, at) == le_i64(t, bt),
{
    if n >= 2 {
        assert(s[at] == t[bt]);
        assert(s[at + 1] == t[bt + 1]);
    }
    if n >= 4 {
        assert(s[at + 2] == t[bt + 2]);
        assert(s[at + 3] == t[bt + 3]);
    }
    if n >= 8 {
        assert(s[at + 4] == t[bt + 4]);
        assert(s[at + 5] == t[bt + 5]);
        assert(s[at + 6] == t[bt + 6]);
        assert(s[at + 7] == t[bt + 7]);
    }
}

/// Reading a 16-bit number back from its bytes gives the number.
pub proof fn lemma_u16_round_trip(v: u16)
    ensures
        u16_le(v).len() == 2,
        le_u16(u16_le(v), 0) == v,
{
    reveal(u16_le);
}

/// Reading a 32-bit number back from its bytes gives the number.
pub proof fn lemma_u32_round_trip(v: u32)
    ensures
        u32_le(v).len() == 4,
        le_u32(u32_le(v), 0) == v,
{
    reveal(u32_le);
    let lo = (v % 0x1_0000) as u16;
    let hi = (v / 0x1_0000) as u16;
    lemma_u16_round_trip(lo);
    lemma_u16_round_trip(hi);
    let s = u32_le(v);
    lemma_read_local(s, 0, u16_le(lo), 0, 2);
    lemma_read_local(s, 2, u16_le(hi), 0, 2);
}

/// Reading a 64-bit number back from its bytes gives the number.
pub proof fn lemma_u64_round_trip(v: u64)
    ensures
        u64_le(v).len() == 8,
        le_u64(u64_le(v), 0) == v,
{
    reveal(u64_le);
    let lo = (v % 0x1_0000_0000) as u32;
    let hi = (v / 0x1_0000_0000) as u32;
    lemma_u32_round_trip(lo);
    lemma_u32_round_trip(hi);
    let s = u64_le(v);
    lemma_read_local(s, 0, u32_le(lo), 0, 4);
    lemma_read_local(s, 4, u32_le(hi), 0, 4);
}

/// Reading a signed 64-bit number back from its bytes gives the number.
pub proof fn lemma_i64_round_trip(v: i64)
    ensures
        i64_le(v).len() == 8,
        le_i64(i64_le(v), 0) == v,
{
    lemma_u64_round_trip(i64_bits(v));
}

/// Appends the two bytes of `v` to `buf`.
pub fn put_u16(buf: &mut Vec<u8>, v: u16)
    ensures
        final(buf)@ == old(buf)@ + u16_le(v),
{
    buf.push((v % 0x100) as u8);
    buf.push((v / 0x100) as u8);
    proof {
        reveal(u16_le);
    }
    assert(buf@ =~= old(buf)@ + u16_le(v));
}

/// Appends the four bytes of `v` to `buf`.
pub fn put_u32(buf: &mut Vec<u8>, v: u32)
    ensures
        final(buf)@ == old(buf)@ + u32_le(v),
{
    put_u16(buf, (v % 0x1_0000) as u16);
    put_u16(buf, (v / 0x1_0000) as u16);
    proof {
        reveal(u32_le);
    }
    assert(buf@ =~= old(buf)@ + u32_le(v));
}

/// Appends the eight bytes of `v` to `buf`.
pub fn put_u64(buf: &mut Vec<u8>, v: u64)
    ensures
        final(buf)@ == old(buf)@ + u64_le(v),
{
    put_u32(buf, (v % 0x1_0000_0000) as u32);
    put_u32(buf, (v / 0x1_0000_0000) as u32);
    proof {
        reveal(u64_le);
    }
    assert(buf@ =~= old(buf)@ + u64_le(v));
}

/// Appends the eight bytes of `v`, in two's complement, to `buf`.
pub fn put_i64(buf: &mut Vec<u8>, v: i64)
    ensures
        final(buf)@ == old(buf)@ + i64_le(v),
{
    let bits: u64 = if v >= 0 {
        v as u64
    } else {
        (v - i64::MIN) as u64 + 0x8000_0000_0000_0000
    };
    put_u64(buf, bits);
}

/// Appends the byte that stands for `v` to `buf`.
pub fn put_bool(buf: &mut Vec<u8>, v: bool)
    ensures
        final(buf)@ == old(buf)@ + bool_byte(v),
{
    buf.push(if v { 1 } else { 0 });
    assert(buf@ =~= old(buf)@ + bool_byte(v));
}

/// Reads a 16-bit number at `at`.
pub fn get_u16(bytes: &[u8], at: usize) -> (v: u16)
    requires
        at + 2 <= bytes@.len(),
    ensures
        v == le_u16(bytes@, at as int),
{
    bytes[at] as u16 + 0x100 * (bytes[at + 1] as u16)
}

/// Reads a 32-bit number at `at`.
pub fn get_u32(bytes: &[u8], at: usize) -> (v: u32)
    requires
        at + 4 <= bytes@.len(),
    ensures
        v == le_u32(bytes@, at as int),
{
    let len: usize = bytes.len();
    get_u16(bytes, at) as u32 + 0x1_0000 * (get_u16(bytes, at + 2) as u32)
}

/// Reads a 64-bit number at `at`.
pub fn get_u64(bytes: &[u8], at: usize) -> (v: u64)
    requires
        at + 8 <= bytes@.len(),
    ensures
        v == le_u64(bytes@, at as int),
{
    let len: usize = bytes.len();
    get_u32(bytes, at) as u64 + 0x1_0000_0000 * (get_u32(bytes, at + 4) as u64)
}

/// Reads a signed 64-bit number at `at`.
pub fn get_i64(bytes: &[u8], at: usize) -> (v: i64)
    requires
        at + 8 <= bytes@.len(),
    ensures
        v == le_i64(bytes@, at as int),
{
    let bits: u64 = get_u64(bytes, at);
    if bits < 0x8000_0000_0000_0000 {
        bits as i64
    } else {
        (bits - 0x8000_0000_0000_0000) as i64 + i64::MIN
    }
}

/// A value that the store keeps as a row.
pub trait Record: Sized {
    /// Whether the value is one that the machine can hold.
    spec fn valid(&self) -> bool;

    /// The bytes that stand for the value.
    spec fn encoding(&self) -> Seq<u8>;

    /// The value that a sequence of bytes starts with, if it starts with one.
    /// Bytes after the value are ignored.
    spec fn decoding(bytes: Seq<u8>) -> Option<Self>;

    /// Writes the value as bytes.
    fn encode(&self) -> (bytes: Vec<u8>)
        requires
            self.valid(),
        ensures
            bytes@ == self.encoding(),
    ;

    /// Reads a value from the front of `bytes`.
    fn decode(bytes: &[u8]) -> (r: Option<Self>)
        ensures
            r == Self::decoding(bytes@),
            r matches Some(v) ==> v.valid(),
    ;

    /// Decoding the bytes of a value, with anything after them, gives the value back.
    proof fn round_trip(&self, rest: Seq<u8>)
        requires
            self.valid(),
        ensures
            Self::decoding(self.encoding() + rest) == Some(*self),
    ;
}

/// The index under which a transfer kind is written.
pub open spec fn transfer_kind_index(kind: TransferTransactionKind) -> u32 {
    match kind {
        TransferTransactionKind::Deposit => 0,
        TransferTransactionKind::Withdrawal => 1,
    }
}

/// The transfer kind written under `index`.
pub open spec fn transfer_kind_at(index: u32) -> Option<TransferTransactionKind> {
    if index == 0 {
        Some(TransferTransactionKind::Deposit)
    } else if index == 1 {
        Some(TransferTransactionKind::Withdrawal)
    } else {
        None
    }
}

/// The index under which a kind of dispute event is written.
pub open spec fn disputed_kind_index(kind: DisputedTransactionKind) -> u32 {
    match kind {
        DisputedTransactionKind::Dispute => 0,
        DisputedTransactionKind::Resolve => 1,
        DisputedTransactionKind::Chargeback => 2,
    }
}

/// The kind of dispute event written under `index`.
pub open spec fn disputed_kind_at(index: u32) -> Option<DisputedTransactionKind> {
    if index == 0 {
        Some(DisputedTransactionKind::Dispute)
    } else if index == 1 {
        Some(DisputedTransactionKind::Resolve)
    } else if index == 2 {
        Some(DisputedTransactionKind::Chargeback)
    } else {
        None
    }
}

/// The index under which a dispute status is written.
pub open spec fn status_index(status: DisputeStatus) -> u32 {
    match status {
        DisputeStatus::NotDisputed => 0,
        DisputeStatus::Disputed => 1,
        DisputeStatus::Resolved => 2,
    }
}

/// The dispute status written under `index`.
pub open spec fn status_at(index: u32) -> Option<DisputeStatus> {
    if index == 0 {
        Some(DisputeStatus::NotDisputed)
    } else if index == 1 {
        Some(DisputeStatus::Disputed)
    } else if index == 2 {
        Some(DisputeStatus::Resolved)
    } else {
        None
    }
}

/// The length of a transfer row.
pub const TRANSFER_ROW_LEN: usize = 26;

/// The length of the row of a dispute event.
pub const DISPUTED_ROW_LEN: usize = 14;

/// The bytes of a transfer: variant index 0, kind, client, number, amount, status.
pub open spec fn transfer_bytes(t: TransferTransaction) -> Seq<u8> {
    u32_le(0) + u32_le(transfer_kind_index(t.kind)) + u16_le(t.client) + u32_le(t.tx) + i64_le(
        t.amount,
    ) + u32_le(status_index(t.disputed))
}

/// The bytes of a dispute event: variant index 1, kind, client, number.
pub open spec fn disputed_bytes(d: DisputedTransaction) -> Seq<u8> {
    u32_le(1) + u32_le(disputed_kind_index(d.kind)) + u16_le(d.client) + u32_le(d.tx)
}

/// The transfer that the fields of `s` after the variant index stand for.
pub open spec fn transfer_from(s: Seq<u8>) -> Option<Transaction> {
    if s.len() < TRANSFER_ROW_LEN {
        None
    } else {
        match (transfer_kind_at(le_u32(s, 4)), status_at(le_u32(s, 22))) {
            (Some(kind), Some(disputed)) => Some(
                Transaction::Transfer(
                    TransferTransaction {
                        kind,
                        client: le_u16(s, 8),
                        tx: le_u32(s, 10),
                        amount: le_i64(s, 14),
                        disputed,
                    },
                ),
            ),
            _ => None,
        }
    }
}

/// The dispute event that the fields of `s` after the variant index stand for.
pub open spec fn disputed_from(s: Seq<u8>) -> Option<Transaction> {
    if s.len() < DISPUTED_ROW_LEN {
        None
    } else {
        match disputed_kind_at(le_u32(s, 4)) {
            Some(kind) => Some(
                Transaction::Disputed(
                    DisputedTransaction { kind, client: le_u16(s, 8), tx: le_u32(s, 10) },
                ),
            ),
            None => None,
        }
    }
}

/// The index under which a transfer kind is written.
fn transfer_kind_code(kind: TransferTransactionKind) -> (r: u32)
    ensures
        r == transfer_kind_index(kind),
{
    match kind {
        TransferTransactionKind::Deposit => 0,
        TransferTransactionKind::Withdrawal => 1,
    }
}

/// The index under which a kind of dispute event is written.
fn disputed_kind_code(kind: DisputedTransactionKind) -> (r: u32)
    ensures
        r == disputed_kind_index(kind),
{
    match kind {
        DisputedTransactionKind::Dispute => 0,
        DisputedTransactionKind::Resolve => 1,
        DisputedTransactionKind::Chargeback => 2,
    }
}

/// The index under which a dispute status is written.
fn status_code(status: DisputeStatus) -> (r: u32)
    ensures
        r == status_index(status),
{
    match status {
        DisputeStatus::NotDisputed => 0,
        DisputeStatus::Disputed => 1,
        DisputeStatus::Resolved => 2,
    }
}

/// The transfer kind written under `index`.
fn transfer_kind_of(index: u32) -> (r: Option<TransferTransactionKind>)
    ensures
        r == transfer_kind_at(index),
{
    if index == 0 {
        Some(TransferTransactionKind::Deposit)
    } else if index == 1 {
        Some(TransferTransactionKind::Withdrawal)
    } else {
        None
    }
}

/// The kind of dispute event written under `index`.
fn disputed_kind_of(index: u32) -> (r: Option<DisputedTransactionKind>)
    ensures
        r == disputed_kind_at(index),
{
    if index == 0 {
        Some(DisputedTransactionKind::Dispute)
    } else if index == 1 {
        Some(DisputedTransactionKind::Resolve)
    } else if index == 2 {
        Some(DisputedTransactionKind::Chargeback)
    } else {
        None
    }
}

/// The dispute status written under `index`.
fn status_of(index: u32) -> (r: Option<DisputeStatus>)
    ensures
        r == status_at(index),
{
    if index == 0 {
        Some(DisputeStatus::NotDisputed)
    } else if index == 1 {
        Some(DisputeStatus::Disputed)
    } else if index == 2 {
        Some(DisputeStatus::Resolved)
    } else {
        None
    }
}

/// What is read at `at` in a sequence is what is read at the start of `part`,
/// where `part` lies in the sequence from `at` on.
pub proof fn lemma_read_part(s: Seq<u8>, at: int, part: Seq<u8>)
    requires
        0 <= at,
        at + part.len() <= s.len(),
        s.subrange(at, at + part.len()) == part,
    ensures
        part.len() >= 2 ==> le_u16(s, at) == le_u16(part, 0),
        part.len() >= 4 ==> le_u32(s, at) == le_u32(part, 0),
        part.len() >= 8 ==> le_i64(s, at) == le_i64(part, 0),
{
    assert forall|i: int| at <= i < at + part.len() implies #[trigger] s[i] == part[i - at + 0] by {
        assert(s.subrange(at, at + part.len())[i - at] == s[i]);
    }
    lemma_read_local(s, at, part, 0, part.len() as int);
}

impl Record for Transaction {
    open spec fn valid(&self) -> bool {
        true
    }

    open spec fn encoding(&self) -> Seq<u8> {
        match *self {
            Transaction::Transfer(t) => transfer_bytes(t),
            Transaction::Disputed(d) => disputed_bytes(d),
        }
    }

    open spec fn decoding(bytes: Seq<u8>) -> Option<Self> {
        if bytes.len() < 4 {
            None
        } else if le_u32(bytes, 0) == 0 {
            transfer_from(bytes)
        } else if le_u32(bytes, 0) == 1 {
            disputed_from(bytes)
        } else {
            None
        }
    }

    fn encode(&self) -> (bytes: Vec<u8>) {
        let mut buf: Vec<u8> = Vec::new();
        match self {
            Transaction::Transfer(t) => {
                put_u32(&mut buf, 0);
                put_u32(&mut buf, transfer_kind_code(t.kind));
                put_u16(&mut buf, t.client);
                put_u32(&mut buf, t.tx);
                put_i64(&mut buf, t.amount);
                put_u32(&mut buf, status_code(t.disputed));
                assert(buf@ =~= transfer_bytes(*t));
            },
            Transaction::Disputed(d) => {
                put_u32(&mut buf, 1);
                put_u32(&mut buf, disputed_kind_code(d.kind));
                put_u16(&mut buf, d.client);
                put_u32(&mut buf, d.tx);
                assert(buf@ =~= disputed_bytes(*d));
            },
        }
        buf
    }

    fn decode(bytes: &[u8]) -> (r: Option<Self>) {
        if bytes.len() < 4 {
            return None;
        }
        let tag: u32 = get_u32(bytes, 0);
        if tag == 0 {
            if bytes.len() < TRANSFER_ROW_LEN {
                return None;
            }
            match (transfer_kind_of(get_u32(bytes, 4)), status_of(get_u32(bytes, 22))) {
                (Some(kind), Some(disputed)) => Some(
                    Transaction::Transfer(
                        TransferTransaction {
                            kind,
                            client: get_u16(bytes, 8),
                            tx: get_u32(bytes, 10),
                            amount: get_i64(bytes, 14),
                            disputed,
                        },
                    ),
                ),
                _ => None,
            }
        } else if tag == 1 {
            if bytes.len() < DISPUTED_ROW_LEN {
                return None;
            }
            match disputed_kind_of(get_u32(bytes, 4)) {
                Some(kind) => Some(
                    Transaction::Disputed(
                        DisputedTransaction {
                            kind,
                            client: get_u16(bytes, 8),
                            tx: get_u32(bytes, 10),
                        },
                    ),
                ),
                None => None,
            }
        } else {
            None
        }
    }

    proof fn round_trip(&self, rest: Seq<u8>) {
        let s = self.encoding() + rest;
        match *self {
            Transaction::Transfer(t) => {
                lemma_u32_round_trip(0);
                lemma_u32_round_trip(transfer_kind_index(t.kind));
                lemma_u16_round_trip(t.client);
                lemma_u32_round_trip(t.tx);
                lemma_i64_round_trip(t.amount);
                lemma_u32_round_trip(status_index(t.disputed));
                assert(s.subrange(0, 4) =~= u32_le(0));
                assert(s.subrange(4, 8) =~= u32_le(transfer_kind_index(t.kind)));
                assert(s.subrange(8, 10) =~= u16_le(t.client));
                assert(s.subrange(10, 14) =~= u32_le(t.tx));
                assert(s.subrange(14, 22) =~= i64_le(t.amount));
                assert(s.subrange(22, 26) =~= u32_le(status_index(t.disputed)));
                lemma_read_part(s, 0, u32_le(0));
                lemma_read_part(s, 4, u32_le(transfer_kind_index(t.kind)));
                lemma_read_part(s, 8, u16_le(t.client));
                lemma_read_part(s, 10, u32_le(t.tx));
                lemma_read_part(s, 14, i64_le(t.amount));
                lemma_read_part(s, 22, u32_le(status_index(t.disputed)));
            },
            Transaction::Disputed(d) => {
                lemma_u32_round_trip(1);
                lemma_u32_round_trip(disputed_kind_index(d.kind));
                lemma_u16_round_trip(d.client);
                lemma_u32_round_trip(d.tx);
                assert(s.subrange(0, 4) =~= u32_le(1));
                assert(s.subrange(4, 8) =~= u32_le(disputed_kind_index(d.kind)));
                assert(s.subrange(8, 10) =~= u16_le(d.client));
                assert(s.subrange(10, 14) =~= u32_le(d.tx));
                lemma_read_part(s, 0, u32_le(1));
                lemma_read_part(s, 4, u32_le(disputed_kind_index(d.kind)));
                lemma_read_part(s, 8, u16_le(d.client));
                lemma_read_part(s, 10, u32_le(d.tx));
            },
        }
    }
}

} // verus!
