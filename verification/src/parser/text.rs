//! Numbers as text: the digits of the input fields, and the digits of the report.

use crate::transaction::Amount;
use vstd::prelude::*;

verus! {

/// The value of the byte `b` as a digit in the given radix, if it is one: `0` to
/// `9` in any radix, and `a` to `f` in either case in radix 16.
pub open spec fn digit_of(b: u8, radix: nat) -> Option<nat> {
    if 0x30 <= b <= 0x39 {
        Some((b - 0x30) as nat)
    } else if radix == 16 && 0x61 <= b <= 0x66 {
        Some((b - 0x61 + 10) as nat)
    } else if radix == 16 && 0x41 <= b <= 0x46 {
        Some((b - 0x41 + 10) as nat)
    } else {
        None
    }
}

/// Whether every byte of `s` is a digit in the given radix.
pub open spec fn all_digits(s: Seq<u8>, radix: nat) -> bool {
    forall|i: int| 0 <= i < s.len() ==> (#[trigger] digit_of(s[i], radix)) is Some
}

/// The number that the digits `s` stand for, most significant digit first.
pub open spec fn digits_value(s: Seq<u8>, radix: nat) -> nat
    decreases s.len(),
{
    if s.len() == 0 {
        0
    } else {
        digits_value(s.drop_last(), radix) * radix + match digit_of(s.last(), radix) {
            Some(d) => d,
            None => 0,
        }
    }
}

/// A number is at least the number that any of its leading digits stand for.
pub proof fn lemma_value_grows(s: Seq<u8>, i: int, radix: nat)
    requires
        0 <= i <= s.len(),
        radix >= 1,
    ensures
        digits_value(s.subrange(0, i), radix) <= digits_value(s, radix),
    decreases s.len(),
{
    if i == s.len() {
        assert(s.subrange(0, i) =~= s);
    } else {
        lemma_value_grows(s.drop_last(), i, radix);
        assert(s.drop_last().subrange(0, i) =~= s.subrange(0, i));
        let head = digits_value(s.drop_last(), radix);
        assert(head * radix >= head) by (nonlinear_arith)
            requires
                radix >= 1,
                head >= 0,
        ;
    }
}

/// The number that `s` stands for, after one more digit.
pub proof fn lemma_value_push(s: Seq<u8>, b: u8, radix: nat)
    requires
        digit_of(b, radix) is Some,
    ensures
        digits_value(s.push(b), radix) == digits_value(s, radix) * radix + digit_of(b, radix)->0,
{
    assert(s.push(b).drop_last() =~= s);
}

/// The value of a byte as a digit in the given radix.
fn digit(b: u8, radix: u8) -> (r: Option<u8>)
    requires
        radix == 10 || radix == 16,
    ensures
        match r {
            Some(d) => digit_of(b, radix as nat) == Some(d as nat) && d < radix,
            None => digit_of(b, radix as nat) is None,
        },
{
    if 0x30 <= b && b <= 0x39 {
        Some(b - 0x30)
    } else if radix == 16 && 0x61 <= b && b <= 0x66 {
        Some(b - 0x61 + 10)
    } else if radix == 16 && 0x41 <= b && b <= 0x46 {
        Some(b - 0x41 + 10)
    } else {
        None
    }
}

/// Reads the digits of `field` from `from` up to `to` onto the number `acc`,
/// which stands for the digits `before`. Gives nothing where a byte is no digit
/// or the number exceeds `max`.
fn fold_digits(
    field: &[u8],
    from: usize,
    to: usize,
    radix: u8,
    max: u64,
    acc: u64,
    Ghost(before): Ghost<Seq<u8>>,
) -> (r: Option<u64>)
    requires
        radix == 10 || radix == 16,
        from <= to <= field@.len(),
        acc == digits_value(before, radix as nat),
        acc <= max,
    ensures
        match r {
            Some(v) => all_digits(field@.subrange(from as int, to as int), radix as nat) && v
                == digits_value(before + field@.subrange(from as int, to as int), radix as nat) && v
                <= max,
            None => !all_digits(field@.subrange(from as int, to as int), radix as nat)
                || digits_value(before + field@.subrange(from as int, to as int), radix as nat)
                > max,
        },
{
    let ghost part = field@.subrange(from as int, to as int);
    let mut acc: u64 = acc;
    let mut i: usize = from;
    proof {
        assert(before + part.subrange(0, 0) =~= before);
    }
    while i < to
        invariant
            radix == 10 || radix == 16,
            from <= i <= to <= field@.len(),
            part == field@.subrange(from as int, to as int),
            acc == digits_value(before + part.subrange(0, i - from), radix as nat),
            acc <= max,
            all_digits(part.subrange(0, i - from), radix as nat),
        decreases to - i,
    {
        let ghost seen = before + part.subrange(0, i - from);
        proof {
            assert(part[i - from] == field@[i as int]);
            assert(seen.push(field@[i as int]) =~= before + part.subrange(0, i - from + 1));
        }
        match digit(field[i], radix) {
            None => {
                return None;
            },
            Some(d) => {
                proof {
                    lemma_value_push(seen, field@[i as int], radix as nat);
                }
                if d as u64 > max || acc > (max - d as u64) / (radix as u64) {
                    proof {
                        let r = radix as int;
                        let a = acc as int;
                        let m = max as int;
                        let dd = d as int;
                        assert(a * r + dd > m) by (nonlinear_arith)
                            requires
                                r >= 1,
                                a >= 0,
                                dd >= 0,
                                dd > m || a > (m - dd) / r,
                        ;
                        if all_digits(part, radix as nat) {
                            let whole = before + part;
                            lemma_value_grows(whole, before.len() + (i - from) + 1, radix as nat);
                            assert(whole.subrange(0, before.len() + (i - from) + 1) =~= seen.push(
                                field@[i as int],
                            ));
                        }
                    }
                    return None;
                }
                proof {
                    let r = radix as int;
                    let a = acc as int;
                    let m = max as int;
                    let dd = d as int;
                    assert(a * r + dd <= m) by (nonlinear_arith)
                        requires
                            r >= 1,
                            a >= 0,
                            0 <= dd <= m,
                            a <= (m - dd) / r,
                    ;
                    assert forall|j: int| 0 <= j < i - from + 1 implies (#[trigger] digit_of(
                        part.subrange(0, i - from + 1)[j],
                        radix as nat,
                    )) is Some by {
                        if j < i - from {
                            assert(part.subrange(0, i - from)[j] == part.subrange(
                                0,
                                i - from + 1,
                            )[j]);
                        }
                    }
                }
                acc = acc * (radix as u64) + d as u64;
                i = i + 1;
            },
        }
    }
    proof {
        assert(part.subrange(0, to - from) =~= part);
    }
    Some(acc)
}

/// Whether `s` starts with `0x`.
pub open spec fn has_hex_prefix(s: Seq<u8>) -> bool {
    s.len() >= 2 && s[0] == 0x30 && s[1] == 0x78
}

/// The digits of an unsigned number field: what is left of `s` after an optional
/// `0x` and an optional `+`.
pub open spec fn unsigned_body(s: Seq<u8>) -> Seq<u8> {
    let unprefixed = if has_hex_prefix(s) {
        s.skip(2)
    } else {
        s
    };
    if unprefixed.len() > 0 && unprefixed[0] == 0x2b {
        unprefixed.skip(1)
    } else {
        unprefixed
    }
}

/// The radix of an unsigned number field: 16 after `0x`, else 10.
pub open spec fn unsigned_radix(s: Seq<u8>) -> nat {
    if has_hex_prefix(s) {
        16
    } else {
        10
    }
}

/// The number that the field `s` stands for, where it is at most `max`: an
/// optional `0x`, an optional `+`, then one digit or more.
pub open spec fn unsigned_of(s: Seq<u8>, max: nat) -> Option<nat> {
    let body = unsigned_body(s);
    let radix = unsigned_radix(s);
    if body.len() > 0 && all_digits(body, radix) && digits_value(body, radix) <= max {
        Some(digits_value(body, radix))
    } else {
        None
    }
}

/// Reads an unsigned number of at most `max` from a field.
pub fn parse_unsigned(field: &[u8], max: u64) -> (r: Option<u64>)
    ensures
        match r {
            Some(v) => unsigned_of(field@, max as nat) == Some(v as nat),
            None => unsigned_of(field@, max as nat) is None,
        },
{
    let len: usize = field.len();
    let hex = len >= 2 && field[0] == 0x30 && field[1] == 0x78;
    let mut start: usize = if hex { 2 } else { 0 };
    if start < len && field[start] == 0x2b {
        start = start + 1;
    }
    if start == len {
        return None;
    }
    proof {
        assert(field@.subrange(start as int, len as int) =~= unsigned_body(field@));
        assert(Seq::<u8>::empty() + unsigned_body(field@) =~= unsigned_body(field@));
    }
    fold_digits(field, start, len, if hex { 16 } else { 10 }, max, 0, Ghost(Seq::empty()))
}

/// How many digits after the point an amount can have.
pub const AMOUNT_DECIMALS: usize = 8;

/// The digits `fraction`, filled up with zeros to the full number of decimals.
pub open spec fn padded(fraction: Seq<u8>) -> Seq<u8> {
    fraction + Seq::new((AMOUNT_DECIMALS - fraction.len()) as nat, |i: int| 0x30u8)
}

/// What is left of an amount field after an optional sign.
pub open spec fn amount_body(s: Seq<u8>) -> Seq<u8> {
    if s.len() > 0 && (s[0] == 0x2d || s[0] == 0x2b) {
        s.skip(1)
    } else {
        s
    }
}

/// The digits before the first point of `body`.
pub open spec fn whole_part(body: Seq<u8>) -> Seq<u8> {
    match body.index_of_first(0x2e) {
        Some(p) => body.subrange(0, p),
        None => body,
    }
}

/// The digits after the first point of `body`.
pub open spec fn fraction_part(body: Seq<u8>) -> Seq<u8> {
    match body.index_of_first(0x2e) {
        Some(p) => body.subrange(p + 1, body.len() as int),
        None => Seq::empty(),
    }
}

/// The amount that the field `s` stands for: an optional sign, digits, and
/// optionally a point and at most eight more digits, with a digit on at least
/// one side of the point. The amount must fit its range.
pub open spec fn amount_of(s: Seq<u8>) -> Option<int> {
    let body = amount_body(s);
    let whole = whole_part(body);
    let fraction = fraction_part(body);
    if whole.len() + fraction.len() > 0 && fraction.len() <= AMOUNT_DECIMALS && all_digits(whole, 10)
        && all_digits(fraction, 10) && digits_value(whole + padded(fraction), 10) <= i64::MAX {
        let units = digits_value(whole + padded(fraction), 10) as int;
        Some(if s[0] == 0x2d { -units } else { units })
    } else {
        None
    }
}

/// Where the first point of `body` is decides its two parts.
pub proof fn lemma_parts(body: Seq<u8>, point: int)
    requires
        0 <= point <= body.len(),
        forall|j: int| 0 <= j < point ==> body[j] != 0x2e,
        point < body.len() ==> body[point] == 0x2e,
    ensures
        whole_part(body) == body.subrange(0, point),
        point < body.len() ==> fraction_part(body) == body.subrange(point + 1, body.len() as int),
        point == body.len() ==> fraction_part(body) == Seq::<u8>::empty(),
{
    body.index_of_first_ensures(0x2e);
    if point < body.len() {
        assert(body.contains(0x2e));
        let p = body.index_of_first(0x2e)->0;
        assert(p == point);
    } else {
        assert(!body.contains(0x2e));
        assert(body.subrange(0, point) =~= body);
    }
}

/// Fills the number `units`, which stands for `digits`, up with `count` zeros.
/// Gives nothing where the number exceeds `max`.
fn fill_zeros(units: u64, count: usize, max: u64, Ghost(digits): Ghost<Seq<u8>>) -> (r: Option<u64>)
    requires
        units == digits_value(digits, 10),
        units <= max,
    ensures
        match r {
            Some(v) => v == digits_value(digits + Seq::new(count as nat, |i: int| 0x30u8), 10) && v
                <= max,
            None => digits_value(digits + Seq::new(count as nat, |i: int| 0x30u8), 10) > max,
        },
{
    let ghost full = digits + Seq::new(count as nat, |i: int| 0x30u8);
    let mut units: u64 = units;
    let mut filled: usize = 0;
    proof {
        assert(full.subrange(0, digits.len() as int) =~= digits);
    }
    while filled < count
        invariant
            filled <= count,
            full == digits + Seq::new(count as nat, |i: int| 0x30u8),
            units == digits_value(full.subrange(0, digits.len() + filled), 10),
            units <= max,
        decreases count - filled,
    {
        let ghost seen = full.subrange(0, digits.len() + filled);
        proof {
            assert(full[digits.len() + filled] == 0x30);
            assert(seen.push(0x30) =~= full.subrange(0, digits.len() + filled + 1));
            lemma_value_push(seen, 0x30, 10);
        }
        if units > max / 10 {
            proof {
                lemma_value_grows(full, digits.len() + filled + 1, 10);
            }
            return None;
        }
        units = units * 10;
        filled = filled + 1;
    }
    proof {
        assert(full.subrange(0, digits.len() + filled) =~= full);
    }
    Some(units)
}

/// Reads the digits of an amount: those from `start` up to `point`, then those
/// from `after` on, then zeros up to the full number of decimals.
fn amount_units(field: &[u8], start: usize, point: usize, after: usize) -> (r: Option<u64>)
    requires
        start <= point <= after <= field@.len(),
        field@.len() - after <= AMOUNT_DECIMALS,
    ensures
        ({
            let whole = field@.subrange(start as int, point as int);
            let fraction = field@.subrange(after as int, field@.len() as int);
            match r {
                Some(v) => all_digits(whole, 10) && all_digits(fraction, 10) && v == digits_value(
                    whole + padded(fraction),
                    10,
                ) && v <= i64::MAX,
                None => !all_digits(whole, 10) || !all_digits(fraction, 10) || digits_value(
                    whole + padded(fraction),
                    10,
                ) > i64::MAX,
            }
        }),
{
    let len: usize = field.len();
    let max: u64 = 0x7fff_ffff_ffff_ffff;
    let ghost whole = field@.subrange(start as int, point as int);
    let ghost fraction = field@.subrange(after as int, len as int);
    let ghost full = whole + padded(fraction);
    proof {
        assert(Seq::<u8>::empty() + whole =~= whole);
        assert(full =~= (whole + fraction) + Seq::new(
            (AMOUNT_DECIMALS - fraction.len()) as nat,
            |i: int| 0x30u8,
        ));
        assert(full.subrange(0, whole.len() as int) =~= whole);
        assert(full.subrange(0, (whole + fraction).len() as int) =~= whole + fraction);
        lemma_value_grows(full, whole.len() as int, 10);
        lemma_value_grows(full, (whole + fraction).len() as int, 10);
    }
    let units = match fold_digits(field, start, point, 10, max, 0, Ghost(Seq::empty())) {
        None => {
            return None;
        },
        Some(units) => units,
    };
    let units = match fold_digits(field, after, len, 10, max, units, Ghost(whole)) {
        None => {
            return None;
        },
        Some(units) => units,
    };
    fill_zeros(units, AMOUNT_DECIMALS - (len - after), max, Ghost(whole + fraction))
}

/// Reads an amount from a field.
pub fn parse_amount(field: &[u8]) -> (r: Option<Amount>)
    ensures
        match r {
            Some(v) => amount_of(field@) == Some(v as int),
            None => amount_of(field@) is None,
        },
{
    let len: usize = field.len();
    let negative = len > 0 && field[0] == 0x2d;
    let start: usize = if len > 0 && (field[0] == 0x2d || field[0] == 0x2b) { 1 } else { 0 };
    let ghost body = amount_body(field@);
    let mut point: usize = start;
    while point < len && field[point] != 0x2e
        invariant
            start <= point <= len == field@.len(),
            forall|j: int| start <= j < point ==> field@[j] != 0x2e,
        decreases len - point,
    {
        point = point + 1;
    }
    let after: usize = if point < len { point + 1 } else { len };
    proof {
        assert(body =~= field@.subrange(start as int, len as int));
        lemma_parts(body, point - start);
        assert(body.subrange(0, point - start) =~= field@.subrange(start as int, point as int));
        if point < len {
            assert(body.subrange(point - start + 1, body.len() as int) =~= field@.subrange(
                after as int,
                len as int,
            ));
        } else {
            assert(field@.subrange(after as int, len as int) =~= Seq::<u8>::empty());
        }
    }
    if (point - start) + (len - after) == 0 || len - after > AMOUNT_DECIMALS {
        return None;
    }
    match amount_units(field, start, point, after) {
        Some(units) => if negative {
            Some(-(units as i64))
        } else {
            Some(units as i64)
        },
        None => None,
    }
}

} // verus!
