//! Evaluation of the balance-adjustment formula
//! `a * (1 - (b / (b + amount)) ^ (weight1 / weight2))` over unsigned
//! 128-bit integers.
//!
//! The precise evaluator carries every intermediate step in
//! extended-precision floating point (a 128-bit significand, wider than
//! the whole input domain) with one fixed rounding policy, rounding
//! toward negative infinity, and truncates the final value to an
//! integer.  A naive baseline evaluates the same formula at a narrow
//! significand with nearest rounding, the way native floating point
//! would, and exists only to exhibit the precision gap the precise
//! evaluator closes.
//!
//! The extended-precision arithmetic itself is performed by the
//! `astro_float` crate behind the trusted boundary in [`extended`];
//! everything around it — the integer bridge, the evaluation order, the
//! error taxonomy and the identities the formula obeys — is verified.

pub mod bridge;
pub mod extended;
pub mod formula;

pub use bridge::ExtendedPrecisionValue;
pub use bridge::to_extended;
pub use bridge::to_integer;
pub use formula::FormulaError;
pub use formula::calc_n;
pub use formula::evaluate_naive;
pub use formula::evaluate_precise;
