//! Verified reasoning about IEEE-754 binary64 bit patterns.
//!
//! The value tower carries its floating-point order as a raw bit pattern
//! (`u64`). A finite pattern encodes the number `(-1)^sign * mant * 2^bexp`,
//! where `mant` and `bexp` are the decoded mantissa and binary exponent. That
//! decoding is pure integer arithmetic, so everything the tower has to
//! *decide* about a float — its total order, equality, sign, whether it is
//! integral, and the exact integer it truncates, floors, ceils or rounds to —
//! is implemented here as verified integer code, with no floating-point unit
//! involved.
use vstd::prelude::*;
use vstd::arithmetic::div_mod::{lemma_basic_div, lemma_fundamental_div_mod, lemma_small_mod};
use vstd::arithmetic::mul::{lemma_mul_inequality, lemma_mul_strict_upper_bound};
use vstd::arithmetic::power2::{
    lemma2_to64, lemma2_to64_rest, lemma_pow2_adds, lemma_pow2_pos, lemma_pow2_strictly_increases,
    pow2,
};
use core::cmp::Ordering;

verus! {

/// Sign field: 0 for positive patterns, 1 for negative ones.
pub open spec fn sign_of(b: u64) -> int {
    b as int / 0x8000000000000000
}

/// Biased exponent field (11 bits).
pub open spec fn exp_of(b: u64) -> int {
    (b as int / 0x10000000000000) % 0x800
}

/// Fraction field (52 bits).
pub open spec fn frac_of(b: u64) -> int {
    b as int % 0x10000000000000
}

/// Whether the pattern is a NaN.
pub open spec fn is_nan_bits(b: u64) -> bool {
    exp_of(b) == 0x7ff && frac_of(b) != 0
}

/// Whether the pattern is an infinity.
pub open spec fn is_inf_bits(b: u64) -> bool {
    exp_of(b) == 0x7ff && frac_of(b) == 0
}

/// Whether the pattern encodes a finite number.
pub open spec fn is_finite_bits(b: u64) -> bool {
    exp_of(b) < 0x7ff
}

/// Whether the pattern encodes (positive or negative) zero.
pub open spec fn is_zero_bits(b: u64) -> bool {
    exp_of(b) == 0 && frac_of(b) == 0
}

/// Whether the pattern encodes a strictly negative number.
pub open spec fn is_neg_val(b: u64) -> bool {
    sign_of(b) == 1 && !is_zero_bits(b)
}

/// Decoded mantissa: the fraction with the hidden bit restored for normal
/// numbers. A finite pattern encodes `(-1)^sign * mant * 2^bexp`.
pub open spec fn mant_of(b: u64) -> int {
    if exp_of(b) == 0 {
        frac_of(b)
    } else {
        frac_of(b) + 0x10000000000000
    }
}

/// Decoded binary exponent, such that a finite pattern encodes
/// `(-1)^sign * mant * 2^bexp`.
pub open spec fn bexp_of(b: u64) -> int {
    if exp_of(b) == 0 {
        -1074
    } else {
        exp_of(b) - 1075
    }
}

/// Whether a finite pattern encodes an integer.
pub open spec fn is_integral(b: u64) -> bool
    recommends
        is_finite_bits(b),
{
    bexp_of(b) >= 0 || mant_of(b) % pow2((0 - bexp_of(b)) as nat) as int == 0
}

/// The magnitude of a finite pattern, truncated toward zero.
pub open spec fn trunc_mag(b: u64) -> int
    recommends
        is_finite_bits(b),
{
    if bexp_of(b) >= 0 {
        mant_of(b) * pow2(bexp_of(b) as nat) as int
    } else {
        mant_of(b) / pow2((0 - bexp_of(b)) as nat) as int
    }
}

/// Whether rounding a finite pattern to the nearest integer, halfway cases
/// away from zero, bumps the truncated magnitude by one.
pub open spec fn round_up(b: u64) -> bool
    recommends
        is_finite_bits(b),
{
    bexp_of(b) < 0 && 2 * (mant_of(b) % pow2((0 - bexp_of(b)) as nat) as int) >= pow2(
        (0 - bexp_of(b)) as nat,
    ) as int
}

/// The magnitude of a finite pattern, rounded to the nearest integer with
/// halfway cases away from zero.
pub open spec fn round_mag(b: u64) -> int
    recommends
        is_finite_bits(b),
{
    trunc_mag(b) + if round_up(b) {
        1int
    } else {
        0int
    }
}

/// The encoded value truncated toward zero, as an integer.
pub open spec fn trunc_val(b: u64) -> int
    recommends
        is_finite_bits(b),
{
    if is_neg_val(b) {
        -trunc_mag(b)
    } else {
        trunc_mag(b)
    }
}

/// The floor of the encoded value, as an integer.
pub open spec fn floor_val(b: u64) -> int
    recommends
        is_finite_bits(b),
{
    if !is_neg_val(b) {
        trunc_mag(b)
    } else if is_integral(b) {
        -trunc_mag(b)
    } else {
        -trunc_mag(b) - 1
    }
}

/// The ceiling of the encoded value, as an integer.
pub open spec fn ceil_val(b: u64) -> int
    recommends
        is_finite_bits(b),
{
    if is_neg_val(b) {
        -trunc_mag(b)
    } else if is_integral(b) {
        trunc_mag(b)
    } else {
        trunc_mag(b) + 1
    }
}

/// The encoded value rounded to the nearest integer, halfway cases away from
/// zero.
pub open spec fn round_val(b: u64) -> int
    recommends
        is_finite_bits(b),
{
    if is_neg_val(b) {
        -round_mag(b)
    } else {
        round_mag(b)
    }
}

/// The pattern with its sign flipped: IEEE-754 negation.
pub open spec fn neg_bits(b: u64) -> u64 {
    if b >= 0x8000000000000000 {
        (b - 0x8000000000000000) as u64
    } else {
        (b + 0x8000000000000000) as u64
    }
}

/// The pattern with its sign cleared: IEEE-754 absolute value.
pub open spec fn abs_bits(b: u64) -> u64 {
    if b >= 0x8000000000000000 {
        (b - 0x8000000000000000) as u64
    } else {
        b
    }
}

/// Key realizing a total order on patterns: negative patterns map below all
/// positive ones in reversed bit order, negative zero just below positive
/// zero, and every NaN — whatever its sign or payload — collapses to one
/// class ranked above every number. This keeps equality lawful with the
/// ordering: two patterns are equal exactly when their keys are.
pub open spec fn total_key(b: u64) -> int {
    if is_nan_bits(b) {
        0x7fffffffffffffff
    } else if b < 0x8000000000000000 {
        b as int
    } else {
        -(b as int - 0x8000000000000000) - 1
    }
}

/// Equality under the total order on patterns: all NaNs are mutually equal,
/// and every other pattern — the two zeros included — equals exactly its own
/// pattern.
pub open spec fn float_eq_bits(a: u64, b: u64) -> bool {
    if is_nan_bits(a) || is_nan_bits(b) {
        is_nan_bits(a) && is_nan_bits(b)
    } else {
        a == b
    }
}

/// Biased exponent field of a pattern.
pub fn f_exp(b: u64) -> (e: u64)
    ensures
        e == exp_of(b),
{
    (b / 0x10000000000000) % 0x800
}

/// Fraction field of a pattern.
pub fn f_frac(b: u64) -> (f: u64)
    ensures
        f == frac_of(b),
{
    b % 0x10000000000000
}

/// Sign field of a pattern.
pub fn f_sign(b: u64) -> (s: u64)
    ensures
        s == sign_of(b),
{
    b / 0x8000000000000000
}

/// Decoded mantissa of a pattern.
pub fn f_mant(b: u64) -> (m: u64)
    ensures
        m == mant_of(b),
        m < 0x20000000000000,
{
    let e = f_exp(b);
    let f = f_frac(b);
    if e == 0 {
        f
    } else {
        f + 0x10000000000000
    }
}

/// Whether the pattern is a NaN.
pub fn f_is_nan(b: u64) -> (r: bool)
    ensures
        r == is_nan_bits(b),
{
    f_exp(b) == 0x7ff && f_frac(b) != 0
}

/// Whether the pattern encodes a finite number.
pub fn f_is_finite(b: u64) -> (r: bool)
    ensures
        r == is_finite_bits(b),
{
    f_exp(b) < 0x7ff
}

/// Whether the pattern encodes (positive or negative) zero.
pub fn f_is_zero(b: u64) -> (r: bool)
    ensures
        r == is_zero_bits(b),
{
    f_exp(b) == 0 && f_frac(b) == 0
}

/// Whether the pattern encodes a strictly negative number.
pub fn f_is_neg_val(b: u64) -> (r: bool)
    ensures
        r == is_neg_val(b),
{
    f_sign(b) == 1 && !f_is_zero(b)
}

/// The pattern with its sign flipped.
pub fn f_neg(b: u64) -> (r: u64)
    ensures
        r == neg_bits(b),
{
    if b >= 0x8000000000000000 {
        b - 0x8000000000000000
    } else {
        b + 0x8000000000000000
    }
}

/// The pattern with its sign cleared.
pub fn f_abs(b: u64) -> (r: u64)
    ensures
        r == abs_bits(b),
{
    if b >= 0x8000000000000000 {
        b - 0x8000000000000000
    } else {
        b
    }
}

/// `2^k` as a `u128`.
pub fn pow2_u128(k: u32) -> (r: u128)
    requires
        k <= 127,
    ensures
        r == pow2(k as nat),
{
    let mut r: u128 = 1;
    let mut i: u32 = 0;
    proof {
        lemma2_to64();
    }
    while i < k
        invariant
            i <= k,
            k <= 127,
            r == pow2(i as nat),
        decreases k - i,
    {
        proof {
            lemma2_to64();
            lemma2_to64_rest();
            lemma_pow2_adds(i as nat, 1);
            lemma_pow2_adds(64, 63);
            if ((i + 1) as nat) < 127 {
                lemma_pow2_strictly_increases((i + 1) as nat, 127);
            }
        }
        r = r * 2;
        i = i + 1;
    }
    r
}

/// `2^k` as a `u64`.
pub fn pow2_u64(k: u32) -> (r: u64)
    requires
        k <= 63,
    ensures
        r == pow2(k as nat),
{
    proof {
        lemma2_to64();
        lemma2_to64_rest();
        if (k as nat) < 63 {
            lemma_pow2_strictly_increases(k as nat, 63);
        }
    }
    let w = pow2_u128(k);
    w as u64
}

/// Whether a finite pattern encodes an integer.
pub fn f_is_integral(b: u64) -> (r: bool)
    requires
        is_finite_bits(b),
    ensures
        r == is_integral(b),
{
    let e = f_exp(b);
    let m = f_mant(b);
    if e >= 1075 {
        true
    } else if e == 0 {
        proof {
            lemma2_to64();
            lemma2_to64_rest();
            lemma_pow2_strictly_increases(53, 1074);
            lemma_small_mod(mant_of(b) as nat, pow2(1074));
        }
        f_frac(b) == 0
    } else if e < 1023 {
        proof {
            let r_sh = (0 - bexp_of(b)) as nat;
            lemma2_to64();
            lemma2_to64_rest();
            if r_sh > 53 {
                lemma_pow2_strictly_increases(53, r_sh);
            }
            lemma_small_mod(mant_of(b) as nat, pow2(r_sh));
        }
        false
    } else {
        let pw = pow2_u64((1075 - e) as u32);
        proof {
            lemma_pow2_pos((1075 - e) as nat);
        }
        m % pw == 0
    }
}

/// Magnitude of a finite pattern truncated toward zero, when it fits in a
/// `u128`; `None` means the magnitude exceeds `u128::MAX`.
pub fn f_trunc_mag(b: u64) -> (r: Option<u128>)
    requires
        is_finite_bits(b),
    ensures
        match r {
            Some(m) => m == trunc_mag(b) && m < u128::MAX,
            None => trunc_mag(b) > u128::MAX,
        },
{
    let e = f_exp(b);
    let m = f_mant(b);
    if e < 1023 {
        proof {
            let r_sh = (0 - bexp_of(b)) as nat;
            lemma2_to64();
            lemma2_to64_rest();
            if r_sh > 53 {
                lemma_pow2_strictly_increases(53, r_sh);
            }
            lemma_basic_div(mant_of(b), pow2(r_sh) as int);
        }
        Some(0)
    } else if e <= 1074 {
        let pw = pow2_u64((1075 - e) as u32);
        proof {
            lemma_pow2_pos((1075 - e) as nat);
        }
        Some((m / pw) as u128)
    } else {
        let ll = e - 1075;
        if ll <= 75 {
            let pw = pow2_u128(ll as u32);
            proof {
                lemma2_to64();
                lemma2_to64_rest();
                lemma_pow2_adds(53, 75);
                lemma_pow2_adds(64, 64);
                lemma_pow2_pos(ll as nat);
                if (ll as nat) < 75 {
                    lemma_pow2_strictly_increases(ll as nat, 75);
                }
                assert(mant_of(b) * pow2(ll as nat) < u128::MAX) by (nonlinear_arith)
                    requires
                        0 <= mant_of(b) < pow2(53),
                        0 < pow2(ll as nat) <= pow2(75),
                        2 <= pow2(75),
                        pow2(53) * pow2(75) == pow2(128),
                        pow2(128) == u128::MAX + 1,
                ;
            }
            Some((m as u128) * pw)
        } else {
            proof {
                lemma2_to64();
                lemma2_to64_rest();
                lemma_pow2_adds(52, 76);
                lemma_pow2_adds(64, 64);
                if 76 < ll as nat {
                    lemma_pow2_strictly_increases(76, ll as nat);
                }
                assert(mant_of(b) * pow2(ll as nat) > u128::MAX) by (nonlinear_arith)
                    requires
                        mant_of(b) >= pow2(52),
                        pow2(ll as nat) >= pow2(76),
                        pow2(52) > 0,
                        pow2(76) > 0,
                        pow2(52) * pow2(76) == pow2(128),
                        pow2(128) == u128::MAX + 1,
                ;
            }
            None
        }
    }
}

/// Whether rounding the finite pattern to the nearest integer, halfway cases
/// away from zero, bumps the truncated magnitude by one.
pub fn f_round_up(b: u64) -> (r: bool)
    requires
        is_finite_bits(b),
    ensures
        r == round_up(b),
{
    let e = f_exp(b);
    let m = f_mant(b);
    if e >= 1075 {
        false
    } else if e >= 1023 {
        let pw = pow2_u64((1075 - e) as u32);
        proof {
            lemma2_to64();
            lemma2_to64_rest();
            lemma_pow2_pos((1075 - e) as nat);
            if ((1075 - e) as nat) < 52 {
                lemma_pow2_strictly_increases((1075 - e) as nat, 52);
            }
        }
        (m % pw) * 2 >= pw
    } else if e == 1022 {
        proof {
            lemma2_to64();
            lemma2_to64_rest();
            lemma_small_mod(mant_of(b) as nat, pow2(53));
        }
        true
    } else {
        proof {
            let r_sh = (0 - bexp_of(b)) as nat;
            lemma2_to64();
            lemma2_to64_rest();
            if r_sh > 54 {
                lemma_pow2_strictly_increases(54, r_sh);
            }
            lemma_small_mod(mant_of(b) as nat, pow2(r_sh));
        }
        false
    }
}

/// Compare two patterns in the total order.
pub fn f_total_cmp(a: u64, b: u64) -> (r: Ordering)
    ensures
        (r == Ordering::Less) == (total_key(a) < total_key(b)),
        (r == Ordering::Equal) == (total_key(a) == total_key(b)),
        (r == Ordering::Greater) == (total_key(a) > total_key(b)),
{
    let an = f_is_nan(a);
    let bn = f_is_nan(b);
    if an || bn {
        proof {
            lemma_non_nan_key_below(a);
            lemma_non_nan_key_below(b);
        }
        if an && bn {
            Ordering::Equal
        } else if an {
            Ordering::Greater
        } else {
            Ordering::Less
        }
    } else {
        let na = a >= 0x8000000000000000;
        let nb = b >= 0x8000000000000000;
        if a == b {
            Ordering::Equal
        } else if na && !nb {
            Ordering::Less
        } else if !na && nb {
            Ordering::Greater
        } else if !na {
            if a < b {
                Ordering::Less
            } else {
                Ordering::Greater
            }
        } else {
            if a > b {
                Ordering::Less
            } else {
                Ordering::Greater
            }
        }
    }
}

/// A pattern that is no NaN ranks strictly below the NaN class.
proof fn lemma_non_nan_key_below(b: u64)
    ensures
        !is_nan_bits(b) ==> total_key(b) < 0x7fffffffffffffff,
{
}

/// Equality under the total order, on two patterns.
pub fn f_eq(a: u64, b: u64) -> (r: bool)
    ensures
        r == float_eq_bits(a, b),
{
    let an = f_is_nan(a);
    let bn = f_is_nan(b);
    if an || bn {
        an && bn
    } else {
        a == b
    }
}

/// A finite, nonzero, integral pattern truncates to a nonzero magnitude.
pub proof fn lemma_trunc_pos(b: u64)
    requires
        is_finite_bits(b),
        !is_zero_bits(b),
        is_integral(b),
    ensures
        trunc_mag(b) >= 1,
{
    lemma_pow2_pos((0 - bexp_of(b)) as nat);
    if bexp_of(b) >= 0 {
        lemma_pow2_pos(bexp_of(b) as nat);
        lemma_mul_inequality(1, mant_of(b), pow2(bexp_of(b) as nat) as int);
    } else {
        let p = pow2((0 - bexp_of(b)) as nat) as int;
        lemma_fundamental_div_mod(mant_of(b), p);
        if mant_of(b) / p == 0 {
            assert(mant_of(b) == 0);
        }
    }
}

/// Truncation, floor, ceiling, and rounding of a finite pattern agree on an
/// integral pattern and differ by at most one in general.
pub proof fn lemma_int_parts(b: u64)
    requires
        is_finite_bits(b),
    ensures
        floor_val(b) <= trunc_val(b) <= ceil_val(b),
        trunc_mag(b) >= 0,
        is_integral(b) ==> floor_val(b) == trunc_val(b) && ceil_val(b) == trunc_val(b)
            && round_val(b) == trunc_val(b),
        is_zero_bits(b) ==> trunc_val(b) == 0 && floor_val(b) == 0 && ceil_val(b) == 0,
{
    lemma_pow2_pos((0 - bexp_of(b)) as nat);
    if bexp_of(b) >= 0 {
        lemma_pow2_pos(bexp_of(b) as nat);
        lemma_mul_inequality(0, mant_of(b), pow2(bexp_of(b) as nat) as int);
    } else {
        let p = pow2((0 - bexp_of(b)) as nat) as int;
        lemma_fundamental_div_mod(mant_of(b), p);
        if is_zero_bits(b) {
            lemma_basic_div(0, p);
        }
    }
}

} // verus!
