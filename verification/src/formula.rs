//! The formula evaluators.
//!
//! `evaluate_precise` computes
//! `a * (1 - (b / (b + amount)) ^ (weight1 / weight2))` entirely in
//! extended precision (a 128-bit significand), with every step rounded
//! toward negative infinity, and truncates the final value to an
//! integer.  `calc_n` / `evaluate_naive` is the comparison baseline: it
//! evaluates the same chain at a narrow significand (a single 64-bit
//! word) with nearest rounding, the way native floating point would,
//! and makes no precision promise beyond being the deterministic result
//! of that narrow evaluation.

use crate::bridge::raw_floor_to_u128;
use crate::extended::RoundingPolicy;
use crate::extended::add_val;
use crate::extended::div_val;
use crate::extended::ext_add;
use crate::extended::ext_div;
use crate::extended::ext_floor_parts;
use crate::extended::ext_from_u128;
use crate::extended::ext_mul;
use crate::extended::ext_pow;
use crate::extended::ext_sub;
use crate::extended::float_val;
use crate::extended::floor_val;
use crate::extended::int_val;
use crate::extended::mul_val;
use crate::extended::pow_val;
use crate::extended::sub_val;
use crate::extended::val_ge;
use crate::extended::val_le;
use vstd::arithmetic::power2::lemma2_to64;
use vstd::arithmetic::power2::lemma_pow2_adds;
use vstd::prelude::*;

verus! {

/// Failures of a formula evaluation, all recoverable at the call
/// boundary.
#[derive(Clone, Copy, Debug, PartialEq, Eq, Structural)]
pub enum FormulaError {
    /// `weight2` is zero, or `b` and `amount` are both zero, so one of
    /// the two divisions of the formula has a zero divisor.
    DivisionByZero,
    /// An integer could not be brought into extended precision.  The
    /// exact direct construction this crate uses cannot fail for any
    /// `u128`, so this outcome is reserved in the taxonomy but never
    /// produced.
    ConversionError,
    /// The floored result does not fit in 128 bits.  The precise result
    /// is proved to be at most `a`, so this outcome too is reserved but
    /// never produced.
    RangeError,
}

/// The inputs on which the formula divides by zero: a zero
/// `weight2` (step `weight1 / weight2`), or `b` and `amount` both zero
/// (step `b / (b + amount)`).  The all-zero input falls under both
/// tests and always reports this failure — the `0^0 = 1` convention of
/// the power step is never reached.
pub open spec fn division_by_zero(b: u128, amount: u128, weight2: u128) -> bool {
    weight2 == 0 || (b == 0 && amount == 0)
}

/// Identity of the extended-precision value the evaluation chain
/// produces at precision `p` under rounding `rnd`, before truncation:
/// `a * (1 - (b / (amount + b)) ^ (weight1 / weight2))`, every step
/// rounded.
pub open spec fn chain_val(
    p: nat,
    rnd: RoundingPolicy,
    a: u128,
    b: u128,
    amount: u128,
    weight1: u128,
    weight2: u128,
) -> int {
    mul_val(
        p,
        rnd,
        int_val(a as int),
        sub_val(
            p,
            rnd,
            int_val(1),
            pow_val(
                p,
                rnd,
                div_val(p, rnd, int_val(b as int), add_val(p, rnd, int_val(amount as int), int_val(b as int))),
                div_val(p, rnd, int_val(weight1 as int), int_val(weight2 as int)),
            ),
        ),
    )
}

/// The integer the precise evaluator returns on inputs that do not
/// divide by zero: the 128-bit, round-toward-negative-infinity chain,
/// truncated toward negative infinity.
pub open spec fn precise_value(a: u128, b: u128, amount: u128, weight1: u128, weight2: u128) -> int {
    floor_val(chain_val(128, RoundingPolicy::TowardNegative, a, b, amount, weight1, weight2))
}

/// Identity of the value the naive baseline computes: the same chain at
/// a single-word significand with nearest rounding.
pub open spec fn naive_value(a: u128, b: u128, amount: u128, weight1: u128, weight2: u128) -> int {
    chain_val(64, RoundingPolicy::ToNearest, a, b, amount, weight1, weight2)
}

/// What the naive baseline reports for a finite evaluation: the floored
/// value when it fits, and a saturated `u128::MAX` otherwise.
pub open spec fn naive_reported(
    r: u128,
    a: u128,
    b: u128,
    amount: u128,
    weight1: u128,
    weight2: u128,
) -> bool {
    &&& floor_val(naive_value(a, b, amount, weight1, weight2)) <= u128::MAX as int ==> r as int
        == floor_val(naive_value(a, b, amount, weight1, weight2))
    &&& floor_val(naive_value(a, b, amount, weight1, weight2)) > u128::MAX as int ==> r
        == u128::MAX
}

/// Computes `a * (1 - (b / (b + amount)) ^ (weight1 / weight2))` in
/// extended precision and returns the result truncated to an integer.
///
/// Divisions by zero are rejected exactly on the inputs
/// `division_by_zero` describes; every other input yields the floored
/// 128-bit chain value, which never exceeds `a` (so the range failure
/// the taxonomy reserves cannot arise).  Two identities follow from the
/// exact-arithmetic facts and are stated here: a zero `weight1` gives
/// `ratio = 0`, `powered = 1`, `complement = 0` and hence result `0`;
/// and a zero `amount` (with `b > 0`) gives `base = b / b = 1`,
/// `powered = 1` and hence result `0`.  The result is also monotone
/// nondecreasing in `a`: the complement is computed from the other four
/// inputs alone, and the rounded-down product and its floor grow with
/// the integer factor.
pub fn evaluate_precise(
    a: u128,
    b: u128,
    amount: u128,
    weight1: u128,
    weight2: u128,
) -> (r: Result<u128, FormulaError>)
    ensures
        division_by_zero(b, amount, weight2) <==> r == Err::<u128, FormulaError>(
            FormulaError::DivisionByZero,
        ),
        !division_by_zero(b, amount, weight2) ==> (r matches Ok(v) && v as int == precise_value(
            a,
            b,
            amount,
            weight1,
            weight2,
        ) && v <= a),
        !division_by_zero(b, amount, weight2) && weight1 == 0 ==> r == Ok::<u128, FormulaError>(
            0u128,
        ),
        !division_by_zero(b, amount, weight2) && amount == 0 ==> r == Ok::<u128, FormulaError>(
            0u128,
        ),
        !division_by_zero(b, amount, weight2) ==> (forall|a2: u128|
            a <= a2 ==> #[trigger] precise_value(a2, b, amount, weight1, weight2)
                >= precise_value(a, b, amount, weight1, weight2)),
{
    if weight2 == 0 {
        return Err(FormulaError::DivisionByZero);
    }
    if b == 0 && amount == 0 {
        return Err(FormulaError::DivisionByZero);
    }
    let rnd = RoundingPolicy::TowardNegative;
    let af = ext_from_u128(a);
    let bf = ext_from_u128(b);
    let amountf = ext_from_u128(amount);
    let w1f = ext_from_u128(weight1);
    let w2f = ext_from_u128(weight2);
    let onef = ext_from_u128(1u128);
    let ratio = ext_div(&w1f, &w2f, 128, rnd);
    let denom = ext_add(&amountf, &bf, 128, rnd);
    let base = ext_div(&bf, &denom, 128, rnd);
    let powered = ext_pow(&base, &ratio, 128, rnd);
    let complement = ext_sub(&onef, &powered, 128, rnd);
    let product = ext_mul(&af, &complement, 128, rnd);
    proof {
        lemma_pow2_adds(64, 64);
        lemma2_to64();
        assert(val_ge(int_val(weight2 as int), 1));
        assert(val_ge(int_val(b as int), 0) && val_le(int_val(b as int), b as int));
        assert(val_ge(int_val(1), 1) && val_le(int_val(1), 1));
        // the weight ratio is nonnegative
        assert(val_ge(float_val(ratio), 0));
        // the denominator is at least each addend, hence at least one
        assert(val_ge(float_val(denom), amount as int) && val_ge(float_val(denom), b as int));
        assert(val_ge(float_val(denom), 1));
        // the base lies in [0, 1]
        assert(val_ge(float_val(base), 0) && val_le(float_val(base), 1));
        // so does the power, and the complement
        assert(val_ge(float_val(powered), 0) && val_le(float_val(powered), 1));
        assert(val_ge(float_val(complement), 0) && val_le(float_val(complement), 1));
        // the product lies in [0, a]
        assert(val_ge(float_val(product), 0) && val_le(float_val(product), a as int));
        // the floored product grows with the integer factor
        assert forall|a2: u128| a <= a2 implies #[trigger] precise_value(
            a2,
            b,
            amount,
            weight1,
            weight2,
        ) >= precise_value(a, b, amount, weight1, weight2) by {
            assert(floor_val(
                mul_val(128, RoundingPolicy::TowardNegative, int_val(a as int), float_val(complement)),
            ) <= floor_val(
                mul_val(
                    128,
                    RoundingPolicy::TowardNegative,
                    int_val(a2 as int),
                    float_val(complement),
                ),
            ));
        };
        if weight1 == 0 {
            // ratio = 0 / weight2 is an exact zero, so powered = base^0 = 1
            assert(float_val(ratio) == int_val(0));
            assert(float_val(powered) == int_val(1));
            assert(val_ge(float_val(complement), 0) && val_le(float_val(complement), 0));
            assert(val_ge(float_val(product), 0) && val_le(float_val(product), 0));
        }
        if amount == 0 {
            // denom = 0 + b is exact, so base = b / b = 1 and powered = 1
            assert(float_val(denom) == int_val(b as int));
            assert(float_val(base) == int_val(1));
            assert(float_val(powered) == int_val(1));
            assert(val_ge(float_val(complement), 0) && val_le(float_val(complement), 0));
            assert(val_ge(float_val(product), 0) && val_le(float_val(product), 0));
        }
    }
    let parts = ext_floor_parts(&product);
    match parts {
        None => {
            proof {
                assert(false);
            }
            Err(FormulaError::RangeError)
        },
        Some((w, _neg, e)) => {
            let (k, _saturated) = raw_floor_to_u128(&w, e);
            Ok(k)
        },
    }
}

/// The naive baseline: evaluates the identical formula at a narrow,
/// single-word significand with nearest rounding — the way a native
/// double-precision evaluation would — and reports the truncated
/// result, saturating on overflow.  Inputs whose chain is not a number
/// (both divisors zero in one of the two divisions) report `0`, as a
/// native float-to-integer cast of NaN would.  No precision is
/// promised: the contract pins the result to the narrow evaluation for
/// a numerator `b` within the narrow significand's integer range
/// (beyond it the base of the power can round above one and the narrow
/// evaluation may blow up entirely, so the baseline promises nothing
/// there), and the test suite exhibits its divergence from
/// `evaluate_precise`.
pub fn calc_n(a: u128, b: u128, amount: u128, weight1: u128, weight2: u128) -> (r: u128)
    ensures
        (b == 0 && amount == 0) || (weight1 == 0 && weight2 == 0) ==> r == 0,
        !((b == 0 && amount == 0) || (weight1 == 0 && weight2 == 0)) && b
            < 0x10000000000000000u128 ==> naive_reported(r, a, b, amount, weight1, weight2),
{
    if b == 0 && amount == 0 {
        return 0;
    }
    if weight1 == 0 && weight2 == 0 {
        return 0;
    }
    let rnd = RoundingPolicy::ToNearest;
    let af = ext_from_u128(a);
    let bf = ext_from_u128(b);
    let amountf = ext_from_u128(amount);
    let w1f = ext_from_u128(weight1);
    let w2f = ext_from_u128(weight2);
    let onef = ext_from_u128(1u128);
    let ratio = ext_div(&w1f, &w2f, 64, rnd);
    let denom = ext_add(&amountf, &bf, 64, rnd);
    let base = ext_div(&bf, &denom, 64, rnd);
    let powered = ext_pow(&base, &ratio, 64, rnd);
    let complement = ext_sub(&onef, &powered, 64, rnd);
    let product = ext_mul(&af, &complement, 64, rnd);
    proof {
        if b < 0x10000000000000000u128 {
            lemma2_to64();
            assert(val_ge(int_val(b as int), 0));
            // the weight ratio is nonnegative: an ordinary quotient when
            // weight2 > 0, positive infinity when weight2 = 0 < weight1
            if weight2 > 0 {
                assert(val_ge(int_val(weight2 as int), 1));
                assert(val_ge(float_val(ratio), 0));
            } else {
                assert(weight1 >= 1);
                assert(val_ge(float_val(ratio), 0));
            }
            // b is representable at the narrow significand, so the
            // denominator is at least b, and at least one
            assert(val_ge(float_val(denom), b as int));
            assert(val_ge(float_val(denom), 1));
            assert(val_ge(float_val(base), 0) && val_le(float_val(base), 1));
            assert(val_ge(float_val(powered), 0) && val_le(float_val(powered), 1));
            assert(val_ge(float_val(complement), 0) && val_le(float_val(complement), 1));
            // under nearest rounding the product can round above a, but
            // not above twice a
            assert(val_ge(float_val(product), 0) && val_le(float_val(product), 2 * (a as int)));
        }
    }
    let parts = ext_floor_parts(&product);
    match parts {
        None => {
            proof {
                if b < 0x10000000000000000u128 {
                    assert(false);
                }
            }
            0
        },
        Some((w, _neg, e)) => {
            let (k, saturated) = raw_floor_to_u128(&w, e);
            if saturated {
                u128::MAX
            } else {
                k
            }
        },
    }
}

/// The public naive entry point, mirroring `evaluate_precise`'s
/// signature: a best-effort integer with no error taxonomy.
pub fn evaluate_naive(a: u128, b: u128, amount: u128, weight1: u128, weight2: u128) -> (r: u128)
    ensures
        (b == 0 && amount == 0) || (weight1 == 0 && weight2 == 0) ==> r == 0,
        !((b == 0 && amount == 0) || (weight1 == 0 && weight2 == 0)) && b
            < 0x10000000000000000u128 ==> naive_reported(r, a, b, amount, weight1, weight2),
{
    calc_n(a, b, amount, weight1, weight2)
}

} // verus!
