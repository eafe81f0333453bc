//! Arithmetic at limited precision, carried out on whole numbers: what
//! binary floating-point arithmetic of single or double precision gives for
//! the few operations that sizes and proportions need.
//!
//! A number of limited precision has so many significant binary digits and
//! no more. A result that needs more digits is rounded to the nearest such
//! number; of two that are equally near, the one with an even last digit is
//! taken.

use vstd::prelude::*;

verus! {

/// Numbers below this bound are whole numbers of single precision: two to
/// the power of 24.
pub const SINGLE_LIMIT: u128 = 0x100_0000;

/// Numbers below this bound are whole numbers of double precision: two to
/// the power of 53.
pub const DOUBLE_LIMIT: u128 = 0x20_0000_0000_0000;

/// The distance between neighbouring numbers of limited precision at `n`:
/// one below the limit, and doubling with every doubling of `n` from there.
pub open spec fn spacing(n: nat, limit: nat) -> nat
    decreases n,
{
    if n < limit || limit == 0 {
        1
    } else {
        2 * spacing(n / 2, limit)
    }
}

/// The quotient of `n` by `unit`, rounded to the nearest whole number; a
/// quotient halfway between two whole numbers goes to the even one.
pub open spec fn nearest_quotient(n: nat, unit: nat) -> nat
    recommends
        unit > 0,
{
    let whole = n / unit;
    let rest = n % unit;
    if 2 * rest > unit || (2 * rest == unit && whole % 2 == 1) {
        whole + 1
    } else {
        whole
    }
}

/// `n` rounded to the precision whose whole numbers end at `limit`.
pub open spec fn rounded(n: nat, limit: nat) -> nat {
    nearest_quotient(n, spacing(n, limit)) * spacing(n, limit)
}

/// How far `a` is below `bound`.
pub open spec fn gap(a: nat, bound: nat) -> nat {
    if a < bound {
        (bound - a) as nat
    } else {
        0
    }
}

/// `a` doubled until it reaches `bound`, with the factor by which it grew.
/// Nothing is done to zero.
pub open spec fn scaled_up(a: nat, bound: nat) -> (nat, nat)
    decreases gap(a, bound),
{
    if a >= bound || a == 0 {
        (a, 1)
    } else {
        let (scaled, factor) = scaled_up(2 * a, bound);
        (scaled, 2 * factor)
    }
}

/// The whole part of `times * (part / whole)`, where the quotient and the
/// product are each computed in single precision from operands in single
/// precision. Nothing of nothing counts as zero.
pub open spec fn single_share(times: nat, part: nat, whole: nat) -> nat {
    let a = rounded(part, SINGLE_LIMIT as nat);
    let b = rounded(whole, SINGLE_LIMIT as nat);
    if a == 0 || b == 0 {
        0
    } else {
        // The quotient a / b has 24 significant digits once a is scaled to
        // lie between 2^23 * b and 2^24 * b; it stands for mantissa / factor.
        let (scaled, factor) = scaled_up(a, 0x80_0000 * b);
        let mantissa = nearest_quotient(scaled, b);
        rounded(times * mantissa, SINGLE_LIMIT as nat) / factor
    }
}

/// The quotient of two numbers, rounded to the nearest whole number, halves
/// to the even one.
pub fn divide_to_nearest(n: u128, unit: u128) -> (out: u128)
    requires
        unit > 0,
        n < u128::MAX,
    ensures
        out == nearest_quotient(n as nat, unit as nat),
        n / unit <= out <= n / unit + 1,
{
    let whole = n / unit;
    let rest = n % unit;
    // `rest` is compared with half of `unit` without doubling it.
    let half = unit / 2;
    let above = rest > half;
    let halfway = unit % 2 == 0 && rest == half;
    if above || (halfway && whole % 2 == 1) {
        whole + 1
    } else {
        whole
    }
}

/// The distance between neighbouring numbers of limited precision at `n`.
pub fn spacing_at(n: u128, limit: u128) -> (unit: u128)
    requires
        limit >= 2,
    ensures
        unit == spacing(n as nat, limit as nat),
        unit >= 1,
        unit <= n || unit == 1,
{
    let mut unit: u128 = 1;
    let mut rest: u128 = n;
    while rest >= limit
        invariant
            limit >= 2,
            unit >= 1,
            unit * rest <= n,
            unit <= n || unit == 1,
            spacing(n as nat, limit as nat) == unit * spacing(rest as nat, limit as nat),
        decreases rest,
    {
        let ghost before = unit;
        let ghost old_rest = rest;
        assert(2 * unit <= n) by (nonlinear_arith)
            requires
                unit * rest <= n,
                rest >= 2,
                unit >= 1,
        ;
        rest = rest / 2;
        unit = unit * 2;
        assert(unit * rest <= n) by (nonlinear_arith)
            requires
                before * old_rest <= n,
                unit == 2 * before,
                rest == old_rest / 2,
                before >= 1,
        ;
        assert(spacing(old_rest as nat, limit as nat) == 2 * spacing(rest as nat, limit as nat));
        assert(before * (2 * spacing(rest as nat, limit as nat)) == unit * spacing(
            rest as nat,
            limit as nat,
        )) by (nonlinear_arith)
            requires
                unit == 2 * before,
        ;
    }
    assert(spacing(rest as nat, limit as nat) == 1);
    assert(unit * 1 == unit);
    unit
}

/// Rounds a number to limited precision.
pub fn round_to(n: u128, limit: u128) -> (out: u128)
    requires
        limit >= 2,
        n <= u128::MAX / 4,
    ensures
        out == rounded(n as nat, limit as nat),
        out <= 2 * n,
{
    let unit = spacing_at(n, limit);
    let nearest = divide_to_nearest(n, unit);
    let ghost whole = n / unit;
    assert(whole * unit <= n) by (nonlinear_arith)
        requires
            whole == n / unit,
            unit >= 1,
    ;
    assert(nearest * unit <= whole * unit + unit) by (nonlinear_arith)
        requires
            nearest <= whole + 1,
            unit >= 1,
    ;
    assert(unit == 1 ==> nearest == n) by {
        if unit == 1 {
            assert(n % 1 == 0);
            assert(n / 1 == n);
        }
    }
    assert(nearest * unit <= 2 * n) by (nonlinear_arith)
        requires
            nearest * unit <= whole * unit + unit,
            whole * unit <= n,
            unit <= n || (unit == 1 && nearest == n),
    ;
    nearest * unit
}

/// The whole part of `times * (part / whole)` in single precision.
pub fn share_in_single(times: u32, part: u32, whole: u32) -> (out: u128)
    ensures
        out == single_share(times as nat, part as nat, whole as nat),
{
    let a = round_to(part as u128, SINGLE_LIMIT);
    let b = round_to(whole as u128, SINGLE_LIMIT);
    if a == 0 || b == 0 {
        return 0;
    }
    let bound: u128 = 0x80_0000 * b;
    let mut scaled: u128 = a;
    let mut factor: u128 = 1;
    while scaled < bound
        invariant
            bound == 0x80_0000 * b,
            b <= 0x2_0000_0000,
            a <= 0x2_0000_0000,
            1 <= factor <= scaled,
            scaled <= 2 * bound || scaled == a,
            scaled_up(a as nat, bound as nat).0 == scaled_up(scaled as nat, bound as nat).0,
            scaled_up(a as nat, bound as nat).1 == scaled_up(scaled as nat, bound as nat).1
                * factor,
        decreases gap(scaled as nat, bound as nat),
    {
        let ghost before = factor;
        let ghost rest = scaled_up((2 * scaled) as nat, bound as nat).1;
        assert(scaled_up(scaled as nat, bound as nat).1 == 2 * rest);
        scaled = scaled * 2;
        factor = factor * 2;
        assert((2 * rest) * before == rest * factor) by (nonlinear_arith)
            requires
                factor == 2 * before,
        ;
    }
    assert(scaled_up(scaled as nat, bound as nat) == (scaled as nat, 1nat));
    assert(scaled_up(a as nat, bound as nat).1 == factor) by (nonlinear_arith)
        requires
            scaled_up(a as nat, bound as nat).1 == 1 * factor,
    ;
    let mantissa = divide_to_nearest(scaled, b);
    assert(mantissa <= scaled + 1) by (nonlinear_arith)
        requires
            mantissa <= scaled / b + 1,
            b >= 1,
            scaled >= 0,
    ;
    assert((times as u128) * mantissa <= 0xffff_ffff * 0x2_0000_0000_0000_0000) by (nonlinear_arith)
        requires
            times <= 0xffff_ffff,
            mantissa <= 0x2_0000_0000_0000_0000,
    ;
    let product = round_to((times as u128) * mantissa, SINGLE_LIMIT);
    product / factor
}

} // verus!
