//! The integer precision bridge: exact, round-trip-correct conversion
//! between 128-bit unsigned integers and extended-precision values.
//!
//! Conversion into extended precision constructs the 128-bit
//! significand directly from the integer, which is exact for the whole
//! `u128` domain.  Conversion back reads the mantissa words and binary
//! exponent of the floored value and reassembles the integer with
//! verified shifts.
//!
//! Round trip: `to_extended` ensures its result holds `int_val(x)`, and
//! `to_integer` ensures it returns `n` for any value that holds
//! `int_val(n)` with `n` in range — so `to_integer(&to_extended(x))`
//! always returns `x`.

use crate::extended::ext_floor_parts;
use crate::extended::ext_from_u128;
use crate::extended::float_val;
use crate::extended::floor_val;
use crate::extended::int_val;
use crate::extended::raw_floor;
use crate::extended::useq2;
use crate::extended::val_ge;
use crate::extended::val_le;
use vstd::arithmetic::power2::lemma2_to64;
use vstd::arithmetic::power2::lemma_pow2_adds;
use vstd::arithmetic::power2::lemma_pow2_pos;
use vstd::arithmetic::power2::lemma_pow2_strictly_increases;
use vstd::arithmetic::power2::pow2;
use vstd::bits::lemma_u128_shr_is_div;
use vstd::prelude::*;

verus! {

/// An extended-precision value as produced by the bridge: it always
/// holds a finite, nonnegative value of at most `u128::MAX`, because
/// its only constructor is the exact conversion of a `u128`.
pub struct ExtendedPrecisionValue {
    f: astro_float::BigFloat,
}

impl ExtendedPrecisionValue {
    /// Abstract identity of the numeric state this value holds.
    pub closed spec fn model(self) -> int {
        float_val(self.f)
    }

    #[verifier::type_invariant]
    spec fn in_range(self) -> bool {
        val_ge(float_val(self.f), 0) && val_le(float_val(self.f), u128::MAX as int)
    }
}

/// Converts a 128-bit unsigned integer to an extended-precision value
/// whose numeric value equals the integer exactly: the 128-bit
/// significand is wide enough for every representable input, so no
/// low-order bits can be lost, even near `2^128`.
pub fn to_extended(value: u128) -> (r: ExtendedPrecisionValue)
    ensures
        r.model() == int_val(value as int),
{
    let f = ext_from_u128(value);
    proof {
        assert(val_ge(int_val(value as int), 0));
        assert(val_le(int_val(value as int), u128::MAX as int));
    }
    ExtendedPrecisionValue { f }
}

/// Converts an extended-precision value back to a 128-bit unsigned
/// integer, truncating the fractional part toward negative infinity.
/// Every bridge value is in `[0, 2^128 - 1]` by construction, so the
/// floored value always fits and the range failure the error taxonomy
/// reserves cannot arise here; in particular a value that holds an
/// integer exactly comes back unchanged (the round-trip identity).
pub fn to_integer(value: &ExtendedPrecisionValue) -> (r: u128)
    ensures
        r as int == floor_val(value.model()),
        forall|n: int|
            value.model() == int_val(n) && 0 <= n <= u128::MAX as int ==> r as int == n,
{
    proof {
        use_type_invariant(value);
    }
    let parts = ext_floor_parts(&value.f);
    match parts {
        None => {
            proof {
                assert(false);
            }
            0
        },
        Some((w, _neg, e)) => {
            let (k, _saturated) = raw_floor_to_u128(&w, e);
            k
        },
    }
}

/// The round-trip law: converting any 128-bit unsigned integer into
/// extended precision and back returns the integer unchanged — the
/// conversion loses no bits anywhere in `[0, 2^128 - 1]`.
pub fn round_trip(x: u128) -> (r: u128)
    ensures
        r == x,
{
    let v = to_extended(x);
    to_integer(&v)
}

/// Reassembles the integer `useq2(w) * 2^(e - 128)` (the floor of a
/// nonnegative extended-precision value, as exposed by its two mantissa
/// words and binary exponent) and saturates at `u128::MAX` when it does
/// not fit.
pub(crate) fn raw_floor_to_u128(w: &Vec<u64>, e: i32) -> (r: (u128, bool))
    requires
        w@.len() == 2,
        e >= 1 ==> useq2(w@) == 0 || useq2(w@) >= pow2(127),
    ensures
        raw_floor(w@, e as int) <= u128::MAX as int ==> !r.1 && r.0 as int == raw_floor(
            w@,
            e as int,
        ),
        raw_floor(w@, e as int) > u128::MAX as int ==> r.1 && r.0 == u128::MAX,
{
    if e <= 0 {
        return (0u128, false);
    }
    let lo = w[0];
    let hi = w[1];
    let u: u128 = (lo as u128) | ((hi as u128) << 64u128);
    proof {
        lemma2_to64();
        assert(((lo as u128) | ((hi as u128) << 64u128)) == (lo as u128) + (hi as u128)
            * 0x10000000000000000u128) by (bit_vector);
        assert(u as int == useq2(w@));
    }
    if e <= 128 {
        let s: u128 = (128 - e) as u128;
        let k: u128 = u >> s;
        proof {
            lemma_u128_shr_is_div(u, s);
            lemma_pow2_pos((128 - e) as nat);
            assert(k as int == useq2(w@) / (pow2((128 - e) as nat) as int));
        }
        (k, false)
    } else {
        if u == 0 {
            (0u128, false)
        } else {
            proof {
                lemma_pow2_strictly_increases(0, (e - 128) as nat);
                lemma_pow2_adds(64, 64);
                lemma_pow2_adds(127, 1);
                lemma2_to64();
                assert(useq2(w@) * (pow2((e - 128) as nat) as int) >= pow2(127) * 2) by (nonlinear_arith)
                    requires
                        useq2(w@) >= pow2(127),
                        pow2((e - 128) as nat) >= 2,
                ;
            }
            (u128::MAX, true)
        }
    }
}

} // verus!
