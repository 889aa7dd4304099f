//! Trusted boundary around the `astro_float` arbitrary-precision
//! floating-point facility.
//!
//! Each wrapper below performs exactly one arithmetic operation of
//! `astro_float::BigFloat` and states, over an abstract value model,
//! what that operation returns.  The model assigns every float an
//! abstract identity (`float_val`); `int_val(n)` is the identity of the
//! state that holds the integer `n` exactly, and `val_ge` / `val_le`
//! compare the numeric value of a state with an integer (both are false
//! for the not-a-number state, so a two-sided bound implies the value
//! is finite).  Since every `astro_float` operation is a deterministic
//! function of the operand values, the target precision and the
//! rounding mode, each operation also gets a name (`add_val`, …) for
//! the identity of its result.  The general facts about those names are
//! stated beside the operation they describe, conjoined with the clause
//! about its result; they are the exact-result and bracketing
//! properties of correctly rounded arithmetic: a result representable
//! at the target precision is returned exactly whatever the rounding
//! mode, a rounded result never crosses a representable integer bound,
//! and rounding toward negative infinity never exceeds the exact
//! result.
//!
//! The facility reports a failed internal allocation as a NaN result
//! (or an error value); like the standard library's collections, these
//! wrappers treat allocation as infallible.

use vstd::arithmetic::power2::pow2;
use vstd::prelude::*;

verus! {

/// Rounding rule applied whenever an arithmetic step produces a new
/// extended-precision value.
#[derive(Clone, Copy, Debug, PartialEq, Eq, Structural)]
pub enum RoundingPolicy {
    /// Round toward negative infinity: the single policy of the precise
    /// evaluator.
    TowardNegative,
    /// Round to the nearest representable value, ties to even: the rule
    /// native floating point applies, used only by the naive baseline.
    ToNearest,
}

#[verifier::external_type_specification]
#[verifier::external_body]
pub struct ExBigFloat(astro_float::BigFloat);

/// Abstract identity of the numeric state an extended-precision value
/// holds: two floats have equal `float_val` exactly when they hold the
/// same number and sign (the two signed zeros are distinct states, as
/// are the two infinities), or are both NaN.
pub uninterp spec fn float_val(f: astro_float::BigFloat) -> int;

/// Identity of the state that holds the integer `n` exactly — for
/// zero, the positively signed one, which is the only zero the facts
/// below ever produce: a `u128` conversion, a zero dividend over a
/// positive divisor, and a sum of two such zeros all carry the
/// positive sign.
pub uninterp spec fn int_val(n: int) -> int;

/// The numeric value of state `v` is defined and at least `n`.
pub uninterp spec fn val_ge(v: int, n: int) -> bool;

/// The numeric value of state `v` is defined and at most `n`.
pub uninterp spec fn val_le(v: int, n: int) -> bool;

/// The integer obtained by rounding the (finite) value of state `v`
/// toward negative infinity.
pub uninterp spec fn floor_val(v: int) -> int;

/// Identity of the sum of `x` and `y` rounded to `p` bits under `rnd`.
pub uninterp spec fn add_val(p: nat, rnd: RoundingPolicy, x: int, y: int) -> int;

/// Identity of the difference of `x` and `y` rounded to `p` bits under `rnd`.
pub uninterp spec fn sub_val(p: nat, rnd: RoundingPolicy, x: int, y: int) -> int;

/// Identity of the product of `x` and `y` rounded to `p` bits under `rnd`.
pub uninterp spec fn mul_val(p: nat, rnd: RoundingPolicy, x: int, y: int) -> int;

/// Identity of the quotient of `x` and `y` rounded to `p` bits under `rnd`.
pub uninterp spec fn div_val(p: nat, rnd: RoundingPolicy, x: int, y: int) -> int;

/// Identity of `x` raised to `y`, rounded to `p` bits under `rnd`.
pub uninterp spec fn pow_val(p: nat, rnd: RoundingPolicy, x: int, y: int) -> int;

/// Integer encoded by two little-endian 64-bit mantissa words.
pub open spec fn useq2(w: Seq<u64>) -> int {
    w[0] + w[1] * pow2(64)
}

/// The floor of the value a normalized 128-bit mantissa `w` with binary
/// exponent `e` denotes, namely `useq2(w) * 2^(e - 128)`.
pub open spec fn raw_floor(w: Seq<u64>, e: int) -> int {
    if e <= 0 {
        0
    } else if e <= 128 {
        useq2(w) / (pow2((128 - e) as nat) as int)
    } else {
        useq2(w) * (pow2((e - 128) as nat) as int)
    }
}

/// Relies on `astro_float::BigFloat::from_u128`: construction at a
/// 128-bit significand is exact for every `u128`, so the result holds
/// the integer `value` exactly.  The general facts about `int_val`,
/// `val_ge` and `val_le` stated here are immediate from the model: a
/// state holding the integer `n` exactly is at least / at most any
/// integer `n` is, and the bounds are monotone.
#[verifier::external_body]
pub(crate) fn ext_from_u128(value: u128) -> (r: astro_float::BigFloat)
    ensures
        float_val(r) == int_val(value as int),
        float_val(r) == int_val(value as int) ==> (forall|n: int, m: int| m <= n ==> #[trigger] val_ge(int_val(n), m)),
        float_val(r) == int_val(value as int)
            ==> (forall|n: int, m: int| n <= m ==> #[trigger] val_le(int_val(n), m)),
        float_val(r) == int_val(value as int)
            ==> (forall|v: int, n: int, m: int|
                #![trigger val_ge(v, n), val_ge(v, m)]
                val_ge(v, n) && m <= n ==> val_ge(v, m)),
        float_val(r) == int_val(value as int)
            ==> (forall|v: int, n: int, m: int|
                #![trigger val_le(v, n), val_le(v, m)]
                val_le(v, n) && n <= m ==> val_le(v, m)),
{
    astro_float::BigFloat::from_u128(value, 128)
}

/// Relies on `astro_float::BigFloat::add`: correctly rounded addition.
/// An integer sum below `2^p` is representable at precision `p` and is
/// returned exactly under every rounding mode.  A correctly rounded
/// result never falls below the largest representable value under the
/// exact sum, so the sum of two nonnegative integers is at least one
/// when the exact sum is (one is representable at every precision),
/// and at least either addend that is itself representable — which an
/// integer below `2^p` always is.  (An addend at or above `2^p` is no
/// lower bound: rounding the sum to `p` bits can fall below it.)
#[verifier::external_body]
pub(crate) fn ext_add(
    x: &astro_float::BigFloat,
    y: &astro_float::BigFloat,
    p: usize,
    rnd: RoundingPolicy,
) -> (r: astro_float::BigFloat)
    requires
        p == 64 || p == 128,
    ensures
        float_val(r) == add_val(p as nat, rnd, float_val(*x), float_val(*y)),
        float_val(r) == add_val(p as nat, rnd, float_val(*x), float_val(*y))
            ==> (forall|p2: nat, r2: RoundingPolicy, m: int, n: int|
                0 <= m && 0 <= n && m + n < pow2(p2)
                    ==> #[trigger] add_val(p2, r2, int_val(m), int_val(n)) == int_val(m + n)),
        float_val(r) == add_val(p as nat, rnd, float_val(*x), float_val(*y))
            ==> (forall|p2: nat, r2: RoundingPolicy, m: int, n: int|
                0 <= m && 0 <= n && 1 <= m + n
                    ==> val_ge(#[trigger] add_val(p2, r2, int_val(m), int_val(n)), 1)),
        float_val(r) == add_val(p as nat, rnd, float_val(*x), float_val(*y))
            ==> (forall|p2: nat, r2: RoundingPolicy, m: int, n: int|
                0 <= m && 0 <= n && m < pow2(p2)
                    ==> val_ge(#[trigger] add_val(p2, r2, int_val(m), int_val(n)), m)),
        float_val(r) == add_val(p as nat, rnd, float_val(*x), float_val(*y))
            ==> (forall|p2: nat, r2: RoundingPolicy, m: int, n: int|
                0 <= m && 0 <= n && n < pow2(p2)
                    ==> val_ge(#[trigger] add_val(p2, r2, int_val(m), int_val(n)), n)),
{
    let rm = match rnd {
        RoundingPolicy::TowardNegative => astro_float::RoundingMode::Down,
        RoundingPolicy::ToNearest => astro_float::RoundingMode::ToEven,
    };
    x.add(y, p, rm)
}

/// Relies on `astro_float::BigFloat::sub`: correctly rounded
/// subtraction.  When the minuend holds the integer `m` exactly and the
/// subtrahend's value is exactly the integer `n`, the exact difference
/// `m - n` is an integer below `2^p`, hence representable and returned
/// exactly under every mode; and `1 - t` for `t` in `[0, 1]` lies in
/// `[0, 1]`, an interval with representable endpoints that rounding
/// therefore cannot leave.
#[verifier::external_body]
pub(crate) fn ext_sub(
    x: &astro_float::BigFloat,
    y: &astro_float::BigFloat,
    p: usize,
    rnd: RoundingPolicy,
) -> (r: astro_float::BigFloat)
    requires
        p == 64 || p == 128,
    ensures
        float_val(r) == sub_val(p as nat, rnd, float_val(*x), float_val(*y)),
        float_val(r) == sub_val(p as nat, rnd, float_val(*x), float_val(*y))
            ==> (forall|p2: nat, r2: RoundingPolicy, m: int, n: int, y0: int|
                #![trigger sub_val(p2, r2, int_val(m), y0), val_ge(y0, n)]
                val_ge(y0, n) && val_le(y0, n) && 0 <= m - n && m - n < pow2(p2)
                    ==> val_ge(sub_val(p2, r2, int_val(m), y0), m - n)
                        && val_le(sub_val(p2, r2, int_val(m), y0), m - n)),
        float_val(r) == sub_val(p as nat, rnd, float_val(*x), float_val(*y))
            ==> (forall|p2: nat, r2: RoundingPolicy, y0: int|
                val_ge(y0, 0) && val_le(y0, 1)
                    ==> val_ge(#[trigger] sub_val(p2, r2, int_val(1), y0), 0)
                        && val_le(sub_val(p2, r2, int_val(1), y0), 1)),
{
    let rm = match rnd {
        RoundingPolicy::TowardNegative => astro_float::RoundingMode::Down,
        RoundingPolicy::ToNearest => astro_float::RoundingMode::ToEven,
    };
    x.sub(y, p, rm)
}

/// Relies on `astro_float::BigFloat::mul`: correctly rounded
/// multiplication.  For an exact integer factor `m >= 0` and a cofactor
/// in `[0, 1]` the exact product lies in `[0, m]`: rounding toward
/// negative infinity keeps it there; any mode keeps it nonnegative and,
/// because the rounding error of a correctly rounded product is below
/// the product itself, below `2 * m`.  A cofactor whose value is zero
/// gives an exactly zero product under every mode.  And because the
/// exact product is monotone in a nonnegative integer factor and every
/// rounding mode is a monotone map, the rounded product — and hence the
/// floor of its value — is monotone nondecreasing in that factor, for
/// one fixed mode and precision and a cofactor in `[0, 1]`.
#[verifier::external_body]
pub(crate) fn ext_mul(
    x: &astro_float::BigFloat,
    y: &astro_float::BigFloat,
    p: usize,
    rnd: RoundingPolicy,
) -> (r: astro_float::BigFloat)
    requires
        p == 64 || p == 128,
    ensures
        float_val(r) == mul_val(p as nat, rnd, float_val(*x), float_val(*y)),
        float_val(r) == mul_val(p as nat, rnd, float_val(*x), float_val(*y))
            ==> (forall|p2: nat, r2: RoundingPolicy, m: int, y0: int|
                r2 == RoundingPolicy::TowardNegative && 0 <= m && val_ge(y0, 0) && val_le(y0, 1)
                    ==> val_ge(#[trigger] mul_val(p2, r2, int_val(m), y0), 0)
                        && val_le(mul_val(p2, r2, int_val(m), y0), m)),
        float_val(r) == mul_val(p as nat, rnd, float_val(*x), float_val(*y))
            ==> (forall|p2: nat, r2: RoundingPolicy, m: int, y0: int|
                0 <= m && val_ge(y0, 0) && val_le(y0, 0)
                    ==> val_ge(#[trigger] mul_val(p2, r2, int_val(m), y0), 0)
                        && val_le(mul_val(p2, r2, int_val(m), y0), 0)),
        float_val(r) == mul_val(p as nat, rnd, float_val(*x), float_val(*y))
            ==> (forall|p2: nat, r2: RoundingPolicy, m: int, y0: int|
                0 <= m && val_ge(y0, 0) && val_le(y0, 1)
                    ==> val_ge(#[trigger] mul_val(p2, r2, int_val(m), y0), 0)
                        && val_le(mul_val(p2, r2, int_val(m), y0), 2 * m)),
        float_val(r) == mul_val(p as nat, rnd, float_val(*x), float_val(*y))
            ==> (forall|p2: nat, r2: RoundingPolicy, m1: int, m2: int, y0: int|
                #![trigger mul_val(p2, r2, int_val(m1), y0), mul_val(p2, r2, int_val(m2), y0)]
                0 <= m1 && m1 <= m2 && val_ge(y0, 0) && val_le(y0, 1)
                    ==> floor_val(mul_val(p2, r2, int_val(m1), y0)) <= floor_val(
                        mul_val(p2, r2, int_val(m2), y0),
                    )),
{
    let rm = match rnd {
        RoundingPolicy::TowardNegative => astro_float::RoundingMode::Down,
        RoundingPolicy::ToNearest => astro_float::RoundingMode::ToEven,
    };
    x.mul(y, p, rm)
}

/// Relies on `astro_float::BigFloat::div`: correctly rounded division.
/// A zero dividend over a value at least one gives an exact zero; a
/// finite value divided by itself gives an exact one; a nonnegative
/// integer dividend over a value at least one gives a nonnegative
/// quotient under every mode, at most one when the divisor is at least
/// the dividend (one is representable at every precision); and a
/// positive integer divided by an exact zero is positive infinity,
/// which the model orders above every integer.
#[verifier::external_body]
pub(crate) fn ext_div(
    x: &astro_float::BigFloat,
    y: &astro_float::BigFloat,
    p: usize,
    rnd: RoundingPolicy,
) -> (r: astro_float::BigFloat)
    requires
        p == 64 || p == 128,
    ensures
        float_val(r) == div_val(p as nat, rnd, float_val(*x), float_val(*y)),
        float_val(r) == div_val(p as nat, rnd, float_val(*x), float_val(*y))
            ==> (forall|p2: nat, r2: RoundingPolicy, y0: int|
                val_ge(y0, 1) ==> #[trigger] div_val(p2, r2, int_val(0), y0) == int_val(0)),
        float_val(r) == div_val(p as nat, rnd, float_val(*x), float_val(*y))
            ==> (forall|p2: nat, r2: RoundingPolicy, x0: int, n: int|
                #![trigger div_val(p2, r2, x0, x0), val_le(x0, n)]
                val_ge(x0, 1) && val_le(x0, n) ==> div_val(p2, r2, x0, x0) == int_val(1)),
        float_val(r) == div_val(p as nat, rnd, float_val(*x), float_val(*y))
            ==> (forall|p2: nat, r2: RoundingPolicy, m: int, y0: int|
                0 <= m && val_ge(y0, 1)
                    ==> val_ge(#[trigger] div_val(p2, r2, int_val(m), y0), 0)),
        float_val(r) == div_val(p as nat, rnd, float_val(*x), float_val(*y))
            ==> (forall|p2: nat, r2: RoundingPolicy, m: int, y0: int|
                0 <= m && val_ge(y0, 1) && val_ge(y0, m)
                    ==> val_le(#[trigger] div_val(p2, r2, int_val(m), y0), 1)),
        float_val(r) == div_val(p as nat, rnd, float_val(*x), float_val(*y))
            ==> (forall|p2: nat, r2: RoundingPolicy, m: int|
                1 <= m ==> val_ge(#[trigger] div_val(p2, r2, int_val(m), int_val(0)), 0)),
{
    let rm = match rnd {
        RoundingPolicy::TowardNegative => astro_float::RoundingMode::Down,
        RoundingPolicy::ToNearest => astro_float::RoundingMode::ToEven,
    };
    x.div(y, p, rm)
}

/// Relies on `astro_float::BigFloat::pow` and
/// `astro_float::BigFloat::set_precision`: the power `x^y` is computed
/// once, with 64 guard bits and the facility's no-rounding mode, and
/// then rounded to the target precision in a single step.  (Asking
/// `pow` itself for a directed rounding would enter its
/// correct-rounding retry loop, which cannot terminate when the exact
/// power is representable at the target precision — for instance
/// `0.5^2` — because the roundability test never accepts an inexact
/// approximation of a representable value; the no-rounding mode skips
/// that test and returns the guarded approximation at once.)  A fresh
/// constants cache is created for each call, so the result is a
/// function of the operands, the precision and the mode alone.
///
/// The stated facts hold of this two-step procedure.  Any value with a
/// defined lower bound — that is, any value other than NaN and negative
/// infinity — raised to an exact zero gives an exact one, and an exact
/// one raised to such a value gives an exact one: both come from
/// `pow`'s constant fast paths, and rounding an exact one is exact.
/// For a base in `[0, 1]` and a nonnegative exponent the exact power
/// lies in `[0, 1]`; the approximation carries at least 64 correct
/// guard bits (an underflowing power is returned as an exact zero), so
/// its error is far smaller than the spacing of representable values at
/// one, and neither the truncation of the guard bits nor the final
/// rounding can leave `[0, 1]`, whose endpoints are representable at
/// every precision.
#[verifier::external_body]
pub(crate) fn ext_pow(
    x: &astro_float::BigFloat,
    y: &astro_float::BigFloat,
    p: usize,
    rnd: RoundingPolicy,
) -> (r: astro_float::BigFloat)
    requires
        p == 64 || p == 128,
    ensures
        float_val(r) == pow_val(p as nat, rnd, float_val(*x), float_val(*y)),
        float_val(r) == pow_val(p as nat, rnd, float_val(*x), float_val(*y))
            ==> (forall|p2: nat, r2: RoundingPolicy, x0: int, m: int|
                #![trigger pow_val(p2, r2, x0, int_val(0)), val_ge(x0, m)]
                val_ge(x0, m) ==> pow_val(p2, r2, x0, int_val(0)) == int_val(1)),
        float_val(r) == pow_val(p as nat, rnd, float_val(*x), float_val(*y))
            ==> (forall|p2: nat, r2: RoundingPolicy, y0: int, m: int|
                #![trigger pow_val(p2, r2, int_val(1), y0), val_ge(y0, m)]
                val_ge(y0, m) ==> pow_val(p2, r2, int_val(1), y0) == int_val(1)),
        float_val(r) == pow_val(p as nat, rnd, float_val(*x), float_val(*y))
            ==> (forall|p2: nat, r2: RoundingPolicy, x0: int, y0: int|
                val_ge(x0, 0) && val_le(x0, 1) && val_ge(y0, 0)
                    ==> val_ge(#[trigger] pow_val(p2, r2, x0, y0), 0)
                        && val_le(pow_val(p2, r2, x0, y0), 1)),
{
    let rm = match rnd {
        RoundingPolicy::TowardNegative => astro_float::RoundingMode::Down,
        RoundingPolicy::ToNearest => astro_float::RoundingMode::ToEven,
    };
    let mut cc = match astro_float::Consts::new() {
        Ok(c) => c,
        Err(_) => return astro_float::BigFloat::nan(None),
    };
    let mut g = x.pow(y, p + 64, astro_float::RoundingMode::None, &mut cc);
    if g.set_precision(p, rm).is_err() {
        return astro_float::BigFloat::nan(None);
    }
    g
}

/// Relies on `astro_float::BigFloat::add` (with an exact zero, which
/// rounds the value to a 128-bit significand toward negative infinity —
/// a step that cannot cross an integer below a nonnegative value, so
/// its floor is unchanged) and on `as_raw_parts`, which exposes a
/// finite value as little-endian mantissa words, significant-bit count,
/// sign and binary exponent, denoting `mantissa_fraction * 2^e`.  A
/// finite value — in the model, one with both bounds defined — always
/// yields parts; at a 128-bit significand the mantissa is exactly two
/// words, normalized (top bit set) or zero whenever the exponent is
/// positive, since subnormal values exist only at the very bottom of
/// the exponent range.  The parts reproduce the floor of a nonnegative
/// value exactly when that floor is a representable 128-bit integer;
/// a floor beyond `u128::MAX` keeps the rounded value at or above
/// `2^128`, so the reconstruction stays beyond `u128::MAX` as well.
/// A value that holds an integer exactly floors to that integer.
#[verifier::external_body]
pub(crate) fn ext_floor_parts(f: &astro_float::BigFloat) -> (r: Option<(Vec<u64>, bool, i32)>)
    ensures
        forall|m: int, n: int|
            #![trigger val_ge(float_val(*f), m), val_le(float_val(*f), n)]
            val_ge(float_val(*f), m) && val_le(float_val(*f), n) ==> r is Some,
        r is Some
            ==> (forall|m: int, n: int|
                #![trigger val_ge(float_val(*f), m), val_le(float_val(*f), n)]
                val_ge(float_val(*f), m) && val_le(float_val(*f), n)
                    ==> m <= floor_val(float_val(*f)) && floor_val(float_val(*f)) <= n),
        r is Some ==> (forall|k: int| #[trigger] floor_val(int_val(k)) == k),
        r matches Some(t) ==> t.0@.len() == 2,
        r matches Some(t)
            ==> (val_ge(float_val(*f), 0) && floor_val(float_val(*f)) <= u128::MAX as int
                ==> floor_val(float_val(*f)) == raw_floor(t.0@, t.2 as int)),
        r matches Some(t)
            ==> (val_ge(float_val(*f), 0) && floor_val(float_val(*f)) > u128::MAX as int
                ==> raw_floor(t.0@, t.2 as int) > u128::MAX as int),
        r matches Some(t)
            ==> (t.2 >= 1 ==> useq2(t.0@) == 0 || useq2(t.0@) >= pow2(127)),
{
    let g = f.add(&astro_float::BigFloat::new(128), 128, astro_float::RoundingMode::Down);
    match g.as_raw_parts() {
        None => None,
        Some((w, _n, s, e, _inexact)) => Some((w.to_vec(), matches!(s, astro_float::Sign::Neg), e)),
    }
}

} // verus!
