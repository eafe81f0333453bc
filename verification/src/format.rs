//! Numbers and sizes as text, and the shortening of long texts.

use crate::precision::{divide_to_nearest, nearest_quotient, round_to, rounded, DOUBLE_LIMIT};
use crate::text::{chars_of, slice_of, string_of};
use vstd::prelude::*;
use vstd::string::*;

verus! {

/// The digit for a value below sixteen: `0` to `9`, then `a` to `f`.
pub open spec fn digit(d: int) -> char {
    if d < 10 {
        (('0' as int) + d) as char
    } else {
        (('a' as int) + d - 10) as char
    }
}

/// A number written in the given radix, most significant digit first,
/// without leading zeros; zero is `0`.
pub open spec fn numeral(n: nat, radix: nat) -> Seq<char>
    recommends
        2 <= radix <= 16,
    decreases n,
    via numeral_decreases
{
    if n < radix || radix < 2 {
        seq![digit(n as int)]
    } else {
        numeral(n / radix, radix).push(digit((n % radix) as int))
    }
}

#[via_fn]
proof fn numeral_decreases(n: nat, radix: nat) {
    if !(n < radix || radix < 2) {
        assert(n / radix < n) by (nonlinear_arith)
            requires
                n >= radix,
                radix >= 2,
        ;
    }
}

/// A number in decimal.
pub open spec fn decimal(n: nat) -> Seq<char> {
    numeral(n, 10)
}

/// The digit for a value below sixteen.
fn digit_char(d: u8) -> (c: char)
    requires
        d < 16,
    ensures
        c == digit(d as int),
{
    if d < 10 {
        (48u8 + d) as char
    } else {
        (97u8 + (d - 10)) as char
    }
}

/// Writes a number in the given radix.
pub fn write_numeral(n: u128, radix: u8) -> (out: Vec<char>)
    requires
        2 <= radix <= 16,
    ensures
        out@ == numeral(n as nat, radix as nat),
{
    // Digits are produced from the least significant end and then reversed.
    let base = radix as u128;
    let mut reversed: Vec<char> = Vec::new();
    let mut rest: u128 = n;
    while rest >= base
        invariant
            base == radix,
            2 <= radix <= 16,
            numeral(n as nat, radix as nat) == numeral(rest as nat, radix as nat)
                + reversed@.reverse(),
        decreases rest,
    {
        let d = (rest % base) as u8;
        let ghost before = reversed@;
        reversed.push(digit_char(d));
        assert(reversed@.reverse() =~= seq![digit(d as int)] + before.reverse());
        assert(numeral(rest as nat, radix as nat) == numeral(
            (rest / base) as nat,
            radix as nat,
        ).push(digit(d as int)));
        rest = rest / base;
        assert(numeral(n as nat, radix as nat) =~= numeral(rest as nat, radix as nat)
            + reversed@.reverse());
    }
    let ghost before = reversed@;
    reversed.push(digit_char(rest as u8));
    assert(reversed@.reverse() =~= seq![digit(rest as int)] + before.reverse());
    let mut digits: Vec<char> = Vec::new();
    let mut i: usize = reversed.len();
    while i > 0
        invariant
            i <= reversed.len(),
            digits@ == reversed@.reverse().take(reversed.len() - i),
        decreases i,
    {
        i -= 1;
        digits.push(reversed[i]);
        assert(digits@ =~= reversed@.reverse().take(reversed.len() - i));
    }
    assert(digits@ =~= numeral(n as nat, radix as nat));
    digits
}

/// Writes a number in decimal.
pub fn to_decimal(n: u64) -> (out: String)
    ensures
        out@ == decimal(n as nat),
{
    string_of(&write_numeral(n as u128, 10))
}

/// A quantity in tenths of a unit, rounded to the nearest tenth; a quantity
/// exactly halfway between two tenths goes to the even one.
pub open spec fn tenths(amount: nat, unit: nat) -> nat
    recommends
        unit > 0,
{
    nearest_quotient(amount * 10, unit)
}

/// A quantity in units with one decimal place, as in `1.5`.
pub open spec fn one_decimal(amount: nat, unit: nat) -> Seq<char> {
    decimal(tenths(amount, unit) / 10) + seq!['.'] + decimal(tenths(amount, unit) % 10)
}

/// Writes a quantity in units with one decimal place.
pub fn to_one_decimal(amount: u128, unit: u128) -> (out: String)
    requires
        unit > 0,
        amount <= u128::MAX / 16,
    ensures
        out@ == one_decimal(amount as nat, unit as nat),
{
    let rounded = divide_to_nearest(amount * 10, unit);
    let mut chars = write_numeral(rounded / 10, 10);
    let mut last = write_numeral(rounded % 10, 10);
    chars.push('.');
    chars.append(&mut last);
    string_of(&chars)
}

/// Bytes in a kilobyte.
pub const KILOBYTE: u64 = 1024;

/// Bytes in a megabyte.
pub const MEGABYTE: u64 = 1_048_576;

/// A size in units with one decimal place, computed in double precision:
/// the number of bytes is rounded to double precision and then divided by
/// the unit, which is exact for the units in use, the powers of two.
pub open spec fn size_in_units(bytes: nat, unit: nat) -> Seq<char> {
    one_decimal(rounded(bytes, DOUBLE_LIMIT as nat), unit)
}

/// Writes a size in units with one decimal place.
pub fn write_size(bytes: u64, unit: u64) -> (out: String)
    requires
        unit > 0,
    ensures
        out@ == size_in_units(bytes as nat, unit as nat),
{
    to_one_decimal(round_to(bytes as u128, DOUBLE_LIMIT), unit as u128)
}

/// The marker that stands for what a shortened text leaves out.
pub open spec fn ellipsis() -> Seq<char> {
    seq!['.', '.', '.']
}

/// A text cut to its first `cap` characters, with the ellipsis in place of
/// the rest; a text of at most `cap` characters is left as it is.
pub open spec fn shortened(text: Seq<char>, cap: nat) -> Seq<char> {
    if text.len() <= cap {
        text
    } else {
        text.take(cap as int) + ellipsis()
    }
}

/// Shortens a text to `cap` characters and the ellipsis.
pub fn shorten(text: &str, cap: usize) -> (out: String)
    ensures
        out@ == shortened(text@, cap as nat),
{
    let chars = chars_of(text);
    if chars.len() <= cap {
        string_of(&chars)
    } else {
        let mut head = slice_of(&chars, 0, cap);
        head.push('.');
        head.push('.');
        head.push('.');
        assert(head@ =~= text@.take(cap as int) + ellipsis());
        string_of(&head)
    }
}

/// Joins two texts.
pub fn join(a: &str, b: &str) -> (out: String)
    ensures
        out@ == a@ + b@,
{
    let mut out = String::from_str(a);
    out.append(b);
    out
}

/// The texts of a list joined with a separator between neighbours.
pub open spec fn joined(parts: Seq<Seq<char>>, separator: Seq<char>) -> Seq<char>
    decreases parts.len(),
{
    if parts.len() == 0 {
        Seq::<char>::empty()
    } else if parts.len() == 1 {
        parts[0]
    } else {
        joined(parts.drop_last(), separator) + separator + parts.last()
    }
}

/// Joins texts with a separator between neighbours.
pub fn join_all(parts: &Vec<String>, separator: &str) -> (out: String)
    ensures
        out@ == joined(crate::item::texts(parts@), separator@),
{
    let ghost list = crate::item::texts(parts@);
    let mut out = String::new();
    let mut i: usize = 0;
    assert(list.take(0) =~= Seq::<Seq<char>>::empty());
    while i < parts.len()
        invariant
            list == crate::item::texts(parts@),
            i <= parts.len(),
            out@ == joined(list.take(i as int), separator@),
        decreases parts.len() - i,
    {
        if i > 0 {
            out.append(separator);
        }
        out.append(parts[i].as_str());
        proof {
            let next = list.take(i + 1);
            assert(next.drop_last() =~= list.take(i as int));
            assert(next.last() == parts@[i as int]@);
            if i == 0 {
                assert(out@ =~= next[0]);
            }
        }
        i += 1;
    }
    assert(list.take(parts.len() as int) =~= list);
    out
}

} // verus!
