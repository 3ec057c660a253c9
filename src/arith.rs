//! Fixed-point fractions (parts per hundred, per million, per billion) as the
//! per-thing types of `sp_arithmetic` compute them.

use vstd::prelude::*;
use sp_arithmetic::PerThing;

verus! {

/// Parts of a whole in a `Percent`.
pub const PERCENT_ONE: u32 = 100;

/// Parts of a whole in a `Permill`.
pub const PERMILL_ONE: u32 = 1_000_000;

/// Parts of a whole in a `Perbill`.
pub const PERBILL_ONE: u32 = 1_000_000_000;

/// `x` percent of a whole of `acc` parts, `x` saturating at 100.
pub open spec fn per_from_percent(acc: int, x: int) -> int {
    (if x > 100 { 100 } else { x }) * acc / 100
}

/// The fraction `p / q` rounded down to parts of `acc`; a whole when `q` is
/// zero or `p` exceeds `q`.
pub open spec fn per_from_rational(acc: int, p: int, q: int) -> int {
    if q == 0 || p > q {
        acc
    } else {
        p * acc / q
    }
}

/// `x` scaled by `part / acc`, rounded to the nearest integer, halves down.
pub open spec fn per_mul(acc: int, part: int, x: int) -> int {
    x * part / acc + if (x * part) % acc > acc / 2 { 1int } else { 0int }
}

/// A fraction never exceeds its whole.
pub proof fn lemma_from_rational_bounded(acc: int, p: int, q: int)
    requires
        acc > 0,
        p >= 0,
        q >= 0,
    ensures
        0 <= per_from_rational(acc, p, q) <= acc,
{
    if q != 0 && p <= q {
        assert(p * acc <= q * acc) by (nonlinear_arith)
            requires
                p <= q,
                acc > 0,
        ;
        assert(p * acc / q <= acc) by (nonlinear_arith)
            requires
                p * acc <= q * acc,
                q > 0,
                p >= 0,
                acc > 0,
        ;
        assert(p * acc / q >= 0) by (nonlinear_arith)
            requires
                q > 0,
                p >= 0,
                acc > 0,
        ;
    }
}

/// A value equal to its bound is a whole.
pub proof fn lemma_from_rational_self(acc: int, p: int)
    requires
        acc > 0,
        p > 0,
    ensures
        per_from_rational(acc, p, p) == acc,
{
    assert(p * acc / p == acc) by (nonlinear_arith)
        requires
            p > 0,
    ;
}

/// Scaling by a fraction of at most a whole never increases a value.
pub proof fn lemma_per_mul_bounded(acc: int, part: int, x: int)
    requires
        acc > 1,
        acc % 2 == 0,
        0 <= part <= acc,
        x >= 0,
    ensures
        0 <= per_mul(acc, part, x) <= x,
{
    let q = x * part / acc;
    let r = (x * part) % acc;
    assert(x * part == acc * q + r && 0 <= r < acc) by (nonlinear_arith)
        requires
            acc > 0,
            q == x * part / acc,
            r == (x * part) % acc,
    ;
    assert(x * part <= x * acc) by (nonlinear_arith)
        requires
            part <= acc,
            x >= 0,
    ;
    assert(0 <= x * part) by (nonlinear_arith)
        requires
            part >= 0,
            x >= 0,
    ;
    assert(q <= x) by (nonlinear_arith)
        requires
            x * part == acc * q + r,
            0 <= r,
            x * part <= x * acc,
            acc > 0,
    ;
    assert(q >= 0) by (nonlinear_arith)
        requires
            x * part == acc * q + r,
            r < acc,
            0 <= x * part,
            acc > 0,
    ;
    if r > acc / 2 {
        assert(q < x) by (nonlinear_arith)
            requires
                x * part == acc * q + r,
                r > 0,
                x * part <= x * acc,
                acc > 0,
        ;
    }
}

/// Relies on `Permill::from_percent`: `x` percent, saturating at 100.
#[verifier::external_body]
pub(crate) fn permill_from_percent(x: u32) -> (r: u32)
    ensures
        r == per_from_percent(PERMILL_ONE as int, x as int),
{
    sp_arithmetic::Permill::from_percent(x).deconstruct()
}

/// Relies on `Permill::from_rational`: `p / q` rounded down, a whole when
/// `q` is zero or `p > q`.
#[verifier::external_body]
pub(crate) fn permill_from_rational(p: u64, q: u64) -> (r: u32)
    ensures
        r == per_from_rational(PERMILL_ONE as int, p as int, q as int),
{
    sp_arithmetic::Permill::from_rational(p, q).deconstruct()
}

/// Relies on `Permill`'s `Mul<u64>`: the product rounded to nearest, halves down.
#[verifier::external_body]
pub(crate) fn permill_mul(part: u32, x: u64) -> (r: u64)
    requires
        part <= PERMILL_ONE,
    ensures
        r == per_mul(PERMILL_ONE as int, part as int, x as int),
{
    sp_arithmetic::Permill::from_parts(part) * x
}

/// Relies on `Permill`'s `Mul<u128>`: the product rounded to nearest, halves down.
#[verifier::external_body]
pub(crate) fn permill_mul_balance(part: u32, x: u128) -> (r: u128)
    requires
        part <= PERMILL_ONE,
    ensures
        r == per_mul(PERMILL_ONE as int, part as int, x as int),
{
    sp_arithmetic::Permill::from_parts(part) * x
}

/// Relies on `Percent::from_percent`: `x` percent, saturating at 100.
#[verifier::external_body]
pub(crate) fn percent_from_percent(x: u8) -> (r: u8)
    ensures
        r == per_from_percent(PERCENT_ONE as int, x as int),
{
    sp_arithmetic::Percent::from_percent(x).deconstruct()
}

/// Relies on `Percent::from_rational`: `p / q` rounded down, a whole when
/// `q` is zero or `p > q`.
#[verifier::external_body]
pub(crate) fn percent_from_rational(p: u64, q: u64) -> (r: u8)
    ensures
        r == per_from_rational(PERCENT_ONE as int, p as int, q as int),
{
    sp_arithmetic::Percent::from_rational(p, q).deconstruct()
}

/// Relies on `Percent`'s `Mul<u64>`: the product rounded to nearest, halves down.
#[verifier::external_body]
pub(crate) fn percent_mul(part: u8, x: u64) -> (r: u64)
    requires
        part <= PERCENT_ONE,
    ensures
        r == per_mul(PERCENT_ONE as int, part as int, x as int),
{
    sp_arithmetic::Percent::from_parts(part) * x
}

/// Relies on `Perbill::from_rational`: `p / q` rounded down, a whole when
/// `q` is zero or `p > q`.
#[verifier::external_body]
pub(crate) fn perbill_from_rational(p: u128, q: u128) -> (r: u32)
    ensures
        r == per_from_rational(PERBILL_ONE as int, p as int, q as int),
{
    sp_arithmetic::Perbill::from_rational(p, q).deconstruct()
}

/// Relies on `Perbill`'s `Mul<u128>`: the product rounded to nearest, halves down.
#[verifier::external_body]
pub(crate) fn perbill_mul(part: u32, x: u128) -> (r: u128)
    requires
        part <= PERBILL_ONE,
    ensures
        r == per_mul(PERBILL_ONE as int, part as int, x as int),
{
    sp_arithmetic::Perbill::from_parts(part) * x
}

/// `Permill` scaling of a power value, never above the value scaled.
pub fn scale_power(part: u32, x: u64) -> (r: u64)
    requires
        part <= PERMILL_ONE,
    ensures
        r == per_mul(PERMILL_ONE as int, part as int, x as int),
        r <= x,
{
    proof {
        lemma_per_mul_bounded(PERMILL_ONE as int, part as int, x as int);
    }
    permill_mul(part, x)
}

} // verus!
