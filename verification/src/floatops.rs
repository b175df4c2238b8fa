//! Host floating-point operations, abstracted behind a trait.
//!
//! The value tower stores its floating-point order as a raw IEEE-754 binary64
//! bit pattern (`u64`). Everything the library can decide by looking at the
//! bits alone (ordering, equality, integral tests, narrowing) is implemented
//! and verified in [`crate::fbits`]. Genuine floating-point computation —
//! rounding arithmetic, transcendental functions, decimal conversion — is not
//! something this library implements; an embedder supplies it by implementing
//! [`FloatOps`] on the host's floating-point unit, and every method here is
//! deliberately left without a contract: nothing in the library's proofs
//! depends on what these return.
use vstd::prelude::*;

verus! {

/// Floating-point computation on IEEE-754 binary64 bit patterns.
///
/// Each method takes and returns bit patterns (`u64`). A conforming
/// implementation interprets the bits as a binary64 value, performs the
/// correspondingly named host floating-point operation and returns the
/// resulting bit pattern.
pub trait FloatOps {
    /// Nearest binary64 value to the given unsigned integer.
    fn from_u128(&self, v: u128) -> u64;

    /// Nearest binary64 value to the given signed integer.
    fn from_i128(&self, v: i128) -> u64;

    /// IEEE-754 addition.
    fn float_add(&self, a: u64, b: u64) -> u64;

    /// IEEE-754 subtraction.
    fn float_sub(&self, a: u64, b: u64) -> u64;

    /// IEEE-754 multiplication.
    fn float_mul(&self, a: u64, b: u64) -> u64;

    /// IEEE-754 division.
    fn float_div(&self, a: u64, b: u64) -> u64;

    /// IEEE-754 remainder.
    fn float_rem(&self, a: u64, b: u64) -> u64;

    /// `a` raised to the floating-point power `b`.
    fn float_powf(&self, a: u64, b: u64) -> u64;

    /// `a` raised to the integer power `e`.
    fn float_powi(&self, a: u64, e: i32) -> u64;

    /// Sine.
    fn float_sin(&self, a: u64) -> u64;

    /// Cosine.
    fn float_cos(&self, a: u64) -> u64;

    /// Tangent.
    fn float_tan(&self, a: u64) -> u64;

    /// Hyperbolic sine.
    fn float_sinh(&self, a: u64) -> u64;

    /// Hyperbolic cosine.
    fn float_cosh(&self, a: u64) -> u64;

    /// Hyperbolic tangent.
    fn float_tanh(&self, a: u64) -> u64;

    /// Arcsine.
    fn float_asin(&self, a: u64) -> u64;

    /// Arccosine.
    fn float_acos(&self, a: u64) -> u64;

    /// Arctangent.
    fn float_atan(&self, a: u64) -> u64;

    /// Inverse hyperbolic sine.
    fn float_asinh(&self, a: u64) -> u64;

    /// Inverse hyperbolic cosine.
    fn float_acosh(&self, a: u64) -> u64;

    /// Inverse hyperbolic tangent.
    fn float_atanh(&self, a: u64) -> u64;

    /// Square root.
    fn float_sqrt(&self, a: u64) -> u64;

    /// Cube root.
    fn float_cbrt(&self, a: u64) -> u64;

    /// Base-10 logarithm.
    fn float_log10(&self, a: u64) -> u64;

    /// Base-2 logarithm.
    fn float_log2(&self, a: u64) -> u64;

    /// Natural logarithm.
    fn float_ln(&self, a: u64) -> u64;

    /// Natural exponential.
    fn float_exp(&self, a: u64) -> u64;

    /// Degrees to radians: multiplication by pi / 180.
    fn float_rad(&self, a: u64) -> u64;

    /// Radians to degrees: multiplication by 180 / pi.
    fn float_deg(&self, a: u64) -> u64;

    /// Parse a decimal literal (digits, optional sign, point, exponent) as a
    /// binary64 value; `None` when the host cannot parse it.
    fn parse_float(&self, s: &str) -> Option<u64>;

    /// Render the value under a format specification in the format adapter's
    /// grammar; an error is reported as a message string.
    fn format_float(&self, a: u64, spec: &str) -> Result<String, String>;
}

} // verus!
