use vstd::arithmetic::div_mod::{
    lemma_div_is_ordered, lemma_div_multiples_vanish, lemma_fundamental_div_mod, lemma_mod_bound,
};
use vstd::prelude::*;

verus! {

/// One unit ("1.0") in 32.32 fixed point: the scale factor 2^32.
pub const FP_32_ONE: u64 = 0x1_0000_0000;

/// Mathematical value of a 32.32 fixed-point multiplication:
/// `floor(amount * rate / 2^32)`.
pub open spec fn fp32_mul_spec(amount: int, rate: int) -> int {
    (amount * rate) / (FP_32_ONE as int)
}

/// Mathematical value of a 32.32 fixed-point division:
/// `floor(amount * 2^32 / rate)`.
pub open spec fn fp32_div_spec(amount: int, rate: int) -> int {
    (amount * (FP_32_ONE as int)) / rate
}

/// `floor(amount * rate / 2^32)`, computed through a 128-bit intermediate so
/// the product itself cannot overflow; the caller guarantees the scaled
/// result fits back into 64 bits.
pub fn fp32_mul(amount: u64, rate: u64) -> (r: u64)
    requires
        fp32_mul_spec(amount as int, rate as int) <= u64::MAX,
    ensures
        r == fp32_mul_spec(amount as int, rate as int),
{
    proof {
        assert((amount as int) * (rate as int) <= (u64::MAX as int) * (u64::MAX as int))
            by (nonlinear_arith)
            requires
                amount <= u64::MAX,
                rate <= u64::MAX,
        ;
    }
    let wide: u128 = (amount as u128) * (rate as u128);
    let shifted: u128 = wide >> 32;
    proof {
        assert(wide >> 32 == wide / 0x1_0000_0000) by (bit_vector);
    }
    shifted as u64
}

/// `floor(amount * 2^32 / rate)`, computed through a 128-bit intermediate.
/// A zero rate is an input-contract violation, not handled here; the caller
/// also guarantees the quotient fits back into 64 bits.
pub fn fp32_div(amount: u64, rate: u64) -> (r: u64)
    requires
        rate != 0,
        fp32_div_spec(amount as int, rate as int) <= u64::MAX,
    ensures
        r == fp32_div_spec(amount as int, rate as int),
{
    let wide: u128 = (amount as u128) << 32;
    proof {
        assert((amount as u128) << 32 == (amount as u128) * 0x1_0000_0000) by (bit_vector);
    }
    let q: u128 = wide / (rate as u128);
    q as u64
}

/// Scaling by a rate below one never increases the amount, so the fixed-point
/// product of a 64-bit amount and such a rate always fits in 64 bits.
pub proof fn lemma_fp32_mul_below_one(amount: u64, rate: u64)
    requires
        rate < FP_32_ONE,
    ensures
        0 <= fp32_mul_spec(amount as int, rate as int) <= amount,
{
    let one = FP_32_ONE as int;
    assert((amount as int) * (rate as int) <= (amount as int) * one) by (nonlinear_arith)
        requires
            0 <= amount,
            0 <= rate < one,
    ;
    lemma_div_is_ordered((amount as int) * (rate as int), (amount as int) * one, one);
    lemma_div_multiples_vanish(amount as int, one);
    assert((amount as int) * one == one * (amount as int)) by (nonlinear_arith);
    assert((amount as int) * (rate as int) >= 0) by (nonlinear_arith)
        requires
            0 <= amount,
            0 <= rate,
    ;
    lemma_div_is_ordered(0, (amount as int) * (rate as int), one);
}

/// Dividing by a rate of at least one never increases the amount, so the
/// fixed-point quotient of a 64-bit amount and such a rate fits in 64 bits.
pub proof fn lemma_fp32_div_at_least_one(amount: u64, rate: u64)
    requires
        rate >= FP_32_ONE,
    ensures
        0 <= fp32_div_spec(amount as int, rate as int) <= amount,
{
    let one = FP_32_ONE as int;
    assert((amount as int) * one <= (amount as int) * (rate as int)) by (nonlinear_arith)
        requires
            0 <= amount,
            one <= rate,
    ;
    lemma_div_is_ordered((amount as int) * one, (amount as int) * (rate as int), rate as int);
    assert((amount as int) * (rate as int) == (rate as int) * (amount as int))
        by (nonlinear_arith);
    lemma_div_multiples_vanish(amount as int, rate as int);
    assert((amount as int) * one >= 0) by (nonlinear_arith)
        requires
            0 <= amount,
            0 <= one,
    ;
    lemma_div_is_ordered(0, (amount as int) * one, rate as int);
}

/// Multiplying by the fixed-point unit is the identity.
pub proof fn lemma_fp32_mul_one(amount: u64)
    ensures
        fp32_mul_spec(amount as int, FP_32_ONE as int) == amount,
{
    let one = FP_32_ONE as int;
    assert((amount as int) * one == one * (amount as int)) by (nonlinear_arith);
    lemma_div_multiples_vanish(amount as int, one);
}

/// Rounding-safe round trip: for a rate of at least one, dividing the
/// fixed-point product back by the same rate recovers the amount up to one
/// unit of floor truncation. For rates below one unit the product may discard
/// low bits that no division can recover, so those rates are excluded.
pub proof fn lemma_fp32_round_trip(amount: u64, rate: u64)
    requires
        rate >= FP_32_ONE,
        fp32_mul_spec(amount as int, rate as int) <= u64::MAX,
    ensures
        amount - 1 <= fp32_div_spec(fp32_mul_spec(amount as int, rate as int), rate as int),
        fp32_div_spec(fp32_mul_spec(amount as int, rate as int), rate as int) <= amount,
{
    let one = FP_32_ONE as int;
    let x = amount as int;
    let rt = rate as int;
    let p = x * rt;
    let m = p / one;
    let e = p % one;
    lemma_fundamental_div_mod(p, one);
    lemma_mod_bound(p, one);
    assert(p == one * m + e);
    assert(m * one == p - e) by (nonlinear_arith)
        requires
            p == one * m + e,
    ;
    // Upper bound: m * one <= x * rt, so the quotient is at most x.
    lemma_div_is_ordered(m * one, p, rt);
    assert(p == rt * x) by (nonlinear_arith)
        requires
            p == x * rt,
    ;
    lemma_div_multiples_vanish(x, rt);
    // Lower bound: m * one >= (x - 1) * rt since the lost remainder e < one <= rt.
    assert((x - 1) * rt <= p - e) by (nonlinear_arith)
        requires
            0 <= e < one,
            one <= rt,
            0 <= x,
            p == x * rt,
    ;
    lemma_div_is_ordered((x - 1) * rt, m * one, rt);
    assert((x - 1) * rt == rt * (x - 1)) by (nonlinear_arith);
    lemma_div_multiples_vanish(x - 1, rt);
}

} // verus!
