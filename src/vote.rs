//! Conversion of stake into voting weight by account power: linear below a
//! power threshold, a decreasing rational factor above it.

use vstd::prelude::*;
use crate::arith::{per_from_rational, per_mul, perbill_from_rational, perbill_mul, lemma_from_rational_bounded, PERBILL_ONE};
use crate::exchange::Balance;
use crate::power::PowerSize;

verus! {

/// A power factor: a whole multiplier, a fraction in parts per billion, and
/// a multiplier of that fraction.
pub type PowerRatioType = (u32, u32, u32);

/// The factor of an account power: `1 + (3/200000) * p` up to a power of
/// 100000, `16 * (p + 170000) / (p + 1620000)` above.
pub open spec fn power_factor_spec(p: u128) -> PowerRatioType {
    if p <= 100000 {
        (1, per_from_rational(PERBILL_ONE as int, 3, 200000) as u32, p as u32)
    } else {
        (0, per_from_rational(PERBILL_ONE as int, p + 170000, p + 1620000) as u32, 16)
    }
}

/// The factor of an account power.
pub fn power_factor(p: u128) -> (r: PowerRatioType)
    requires
        p + 1_620_000 <= u128::MAX,
    ensures
        r == power_factor_spec(p),
        r.1 <= PERBILL_ONE,
{
    if p <= 100000 {
        proof {
            lemma_from_rational_bounded(PERBILL_ONE as int, 3, 200000);
        }
        (1u32, perbill_from_rational(3, 200000), p as u32)
    } else {
        proof {
            lemma_from_rational_bounded(PERBILL_ONE as int, p + 170000, p + 1620000);
        }
        (0u32, perbill_from_rational(p + 170000, p + 1620000), 16u32)
    }
}

/// A balance scaled by a factor.
pub open spec fn apply_spec(b: Balance, f: PowerRatioType) -> int {
    b * f.0 + per_mul(PERBILL_ONE as int, f.1 as int, b as int) * f.2
}

/// A balance scaled by a factor.
pub fn balance_apply_power(b: Balance, factor: PowerRatioType) -> (r: Balance)
    requires
        factor.1 <= PERBILL_ONE,
        apply_spec(b, factor) <= u128::MAX,
    ensures
        r == apply_spec(b, factor),
{
    let (num, frac, frac_cond) = factor;
    let divided = perbill_mul(frac, b);
    proof {
        crate::arith::lemma_per_mul_bounded(PERBILL_ONE as int, frac as int, b as int);
        assert(b * num <= apply_spec(b, factor)) by (nonlinear_arith)
            requires
                apply_spec(b, factor) == b * num + divided * frac_cond,
                divided >= 0,
                frac_cond >= 0,
        ;
        assert(divided * frac_cond <= apply_spec(b, factor)) by (nonlinear_arith)
            requires
                apply_spec(b, factor) == b * num + divided * frac_cond,
                b >= 0,
                num >= 0,
        ;
    }
    let converted = b * (num as u128);
    converted + divided * (frac_cond as u128)
}

/// The factor of an account of the given power.
pub fn kp_account_power_ratio(account_power: PowerSize) -> (r: PowerRatioType)
    ensures
        r == power_factor_spec(account_power as u128),
        r.1 <= PERBILL_ONE,
{
    power_factor(account_power as u128)
}

/// The voting weight of a stake held by an account of the given power.
pub fn kp_staking_to_vote(account_power: PowerSize, stake: Balance) -> (r: Balance)
    requires
        apply_spec(stake, power_factor_spec(account_power as u128)) <= u128::MAX,
    ensures
        r == apply_spec(stake, power_factor_spec(account_power as u128)),
{
    balance_apply_power(stake, kp_account_power_ratio(account_power))
}

/// What one minimal balance converts to for an account, saturated to `u64`.
pub fn kp_account_power_ratio_by_mini(account_power: PowerSize, minimum_balance: Balance) -> (r: u64)
    requires
        apply_spec(minimum_balance, power_factor_spec(account_power as u128)) <= u128::MAX,
    ensures
        r == if apply_spec(minimum_balance, power_factor_spec(account_power as u128)) > u64::MAX {
            u64::MAX as int
        } else {
            apply_spec(minimum_balance, power_factor_spec(account_power as u128))
        },
{
    let converted = kp_staking_to_vote(account_power, minimum_balance);
    if converted > u64::MAX as u128 {
        u64::MAX
    } else {
        converted as u64
    }
}

/// An account's relative power: its power, at least one.
pub fn account_power_relative(account_power: PowerSize) -> (r: u64)
    ensures
        r == if account_power > 0 { account_power } else { 1 },
{
    if account_power > 1 {
        account_power
    } else {
        1
    }
}

} // verus!
