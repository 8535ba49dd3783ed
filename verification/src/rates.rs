//! Amounts at a rate in basis points, and quotients rounded toward zero.
use vstd::prelude::*;
use vstd::arithmetic::div_mod::{lemma_fundamental_div_mod, lemma_hoist_over_denominator};

verus! {

/// `amount` at `factor` basis points: their product over ten thousand,
/// rounded toward zero.
pub open spec fn scaled(amount: i128, factor: u64) -> int {
    amount * factor / 10000
}

/// The product over ten thousand, from the quotient and the remainder of the
/// amount by ten thousand.
pub proof fn lemma_scaled_split(amount: int, factor: int)
    requires
        amount >= 0,
        factor >= 0,
    ensures
        amount * factor / 10000 == (amount / 10000) * factor + ((amount % 10000) * factor) / 10000,
{
    let q = amount / 10000;
    let r = amount % 10000;
    lemma_fundamental_div_mod(amount, 10000);
    assert(amount * factor == r * factor + (q * factor) * 10000) by (nonlinear_arith)
        requires
            amount == 10000 * q + r,
    ;
    lemma_hoist_over_denominator(r * factor, q * factor, 10000);
}

/// A rate of at most ten thousand basis points gives at most the amount.
pub proof fn lemma_scaled_at_most_amount(amount: i128, factor: u64)
    requires
        amount >= 0,
        factor <= 10000,
    ensures
        0 <= scaled(amount, factor) <= amount,
{
    assert(0 <= amount * factor <= amount * 10000) by (nonlinear_arith)
        requires
            amount >= 0,
            0 <= factor <= 10000,
    ;
    assert(0 <= (amount * factor) / 10000 <= amount) by (nonlinear_arith)
        requires
            0 <= amount * factor <= amount * 10000,
    ;
}

/// Computes `amount` at `factor` basis points without overflow on the way;
/// `None` when the result itself does not fit.
pub fn scale(amount: i128, factor: u64) -> (r: Option<i128>)
    requires
        amount >= 0,
    ensures
        match r {
            Some(v) => v == scaled(amount, factor),
            None => scaled(amount, factor) > i128::MAX,
        },
{
    let q: i128 = amount / 10000;
    let rem: i128 = amount % 10000;
    let f: i128 = factor as i128;
    proof {
        lemma_scaled_split(amount as int, factor as int);
        assert(0 <= rem * f <= 9999 * 0xffff_ffff_ffff_ffff) by (nonlinear_arith)
            requires
                0 <= rem <= 9999,
                0 <= f <= 0xffff_ffff_ffff_ffff,
        ;
        assert(0 <= q * f) by (nonlinear_arith)
            requires
                0 <= q,
                0 <= f,
        ;
    }
    let low: i128 = (rem * f) / 10000;
    match q.checked_mul(f) {
        None => None,
        Some(high) => high.checked_add(low),
    }
}


/// The quotient of `x` by `d`, which is not zero, rounded toward zero.
pub open spec fn quotient(x: int, d: int) -> int {
    if x >= 0 && d > 0 {
        x / d
    } else if x < 0 && d < 0 {
        (-x) / (-d)
    } else if x < 0 {
        -((-x) / d)
    } else {
        -(x / (-d))
    }
}

/// Divides, rounding toward zero; `None` when the divisor is zero or the
/// quotient does not fit.
pub fn divide(x: i128, d: i128) -> (r: Option<i128>)
    ensures
        match r {
            Some(q) => d != 0 && q == quotient(x as int, d as int),
            None => d == 0 || quotient(x as int, d as int) > i128::MAX,
        },
{
    x.checked_div(d)
}

} // verus!
