//! Exponentiation, rounding, and transcendental functions on values.
//!
//! Exponentiation keeps integer bases exact with the same
//! checked-with-promotion retry as the arithmetic operations. The rounding
//! family (`abs`, `ceil`, `floor`, `round`) preserves integer orders
//! unchanged and, for floats, computes the rounded integer from the bit
//! pattern and demotes it; the transcendental functions force their operand
//! to float order and stay there.
use vstd::prelude::*;
use vstd::arithmetic::power::{lemma_pow0, lemma_pow_increases, pow};
use vstd::math::abs;
use crate::fbits;
use crate::floatops::FloatOps;
use crate::value::{
    demoted, fits_order, int_at_order, int_val, is_int, next_ord, ord_of, ArithmeticError, Error,
    Value,
};
use crate::value::arithmetic::float_bits_of;

verus! {

/// The conversion of a value to a 32-bit shift or exponent count: exact for
/// integer orders; a float must be non-negative and integral.
pub open spec fn as_u32_spec(v: Value) -> Result<u32, Error> {
    match v {
        Value::Float(b) => {
            if fbits::is_neg_val(b) && !fbits::is_nan_bits(b) {
                Err(Error::Arithmetic(ArithmeticError::Overflow))
            } else if !fbits::is_finite_bits(b) || !fbits::is_integral(b) {
                Err(Error::ImproperlyFloat)
            } else if fbits::trunc_mag(b) <= u32::MAX {
                Ok(fbits::trunc_mag(b) as u32)
            } else {
                Err(Error::Arithmetic(ArithmeticError::Overflow))
            }
        },
        _ => {
            if 0 <= int_val(v) <= u32::MAX {
                Ok(int_val(v) as u32)
            } else {
                Err(Error::Arithmetic(ArithmeticError::Overflow))
            }
        },
    }
}

/// The integer a float rounds to under a rounding mode, narrowed like
/// [`demoted`]: held at the first order whose range contains it, or the
/// original pattern when none does.
pub open spec fn demoted_int(k: int, b: u64) -> Value {
    if 0 <= k <= u64::MAX {
        Value::UnsignedInt(k as u64)
    } else if 0 <= k <= u128::MAX {
        Value::UnsignedBigInt(k as u128)
    } else if i64::MIN <= k <= i64::MAX {
        Value::SignedInt(k as i64)
    } else if i128::MIN <= k <= i128::MAX {
        Value::SignedBigInt(k as i128)
    } else {
        Value::Float(b)
    }
}

/// A rounding mode for a float-order value.
#[derive(Clone, Copy)]
pub(crate) enum RoundMode {
    Floor,
    Ceil,
    Nearest,
}

/// The integer a finite pattern rounds to under a mode.
pub(crate) open spec fn mode_val(mode: RoundMode, b: u64) -> int {
    match mode {
        RoundMode::Floor => fbits::floor_val(b),
        RoundMode::Ceil => fbits::ceil_val(b),
        RoundMode::Nearest => fbits::round_val(b),
    }
}

/// Round a float pattern to an integer under a mode and demote the result.
/// A NaN or infinity stays exactly as it came.
pub(crate) fn round_float(b: u64, mode: RoundMode) -> (r: Value)
    ensures
        fbits::is_finite_bits(b) ==> r == demoted_int(mode_val(mode, b), b),
        !fbits::is_finite_bits(b) ==> r == Value::Float(b),
{
    if !fbits::f_is_finite(b) {
        return Value::Float(b);
    }
    proof {
        fbits::lemma_int_parts(b);
    }
    let neg = fbits::f_is_neg_val(b);
    let integ = fbits::f_is_integral(b);
    let tm = fbits::f_trunc_mag(b);
    let up = fbits::f_round_up(b);
    match tm {
        Option::Some(t) => {
            proof {
                if fbits::is_integral(b) && !fbits::is_zero_bits(b) {
                    fbits::lemma_trunc_pos(b);
                }
            }
            let mag: u128 = match mode {
                RoundMode::Floor => if !neg || integ {
                    t
                } else {
                    t + 1
                },
                RoundMode::Ceil => if neg || integ {
                    t
                } else {
                    t + 1
                },
                RoundMode::Nearest => if up {
                    t + 1
                } else {
                    t
                },
            };
            if !neg {
                if mag <= u64::MAX as u128 {
                    Value::UnsignedInt(mag as u64)
                } else {
                    Value::UnsignedBigInt(mag)
                }
            } else {
                if mag == 0 {
                    Value::UnsignedInt(0)
                } else if mag <= 0x8000000000000000u128 {
                    let si: i64 = if mag == 0x8000000000000000u128 {
                        i64::MIN
                    } else {
                        -((mag as u64) as i64)
                    };
                    Value::SignedInt(si)
                } else if mag <= 0x80000000000000000000000000000000u128 {
                    let sbi: i128 = if mag == 0x80000000000000000000000000000000u128 {
                        i128::MIN
                    } else {
                        -(mag as i128)
                    };
                    Value::SignedBigInt(sbi)
                } else {
                    Value::Float(b)
                }
            }
        },
        Option::None => Value::Float(b),
    }
}

/// `base^e` at `u64`, or `None` when the result exceeds the order.
fn pow_mag_u64(b: u64, e: u32) -> (r: Option<u64>)
    ensures
        match r {
            Some(v) => v == pow(b as int, e as nat),
            None => pow(b as int, e as nat) > u64::MAX,
        },
{
    let mut acc: u64 = 1;
    let mut i: u32 = 0;
    proof {
        lemma_pow0(b as int);
    }
    while i < e
        invariant
            i <= e,
            acc == pow(b as int, i as nat),
        decreases e - i,
    {
        proof {
            reveal(pow);
            assert(pow(b as int, (i + 1) as nat) == b as int * pow(b as int, i as nat));
        }
        match acc.checked_mul(b) {
            Option::Some(v) => {
                proof {
                    assert(v as int == acc as int * b as int);
                    assert(acc as int * b as int == b as int * acc as int) by (nonlinear_arith);
                }
                acc = v;
            },
            Option::None => {
                proof {
                    if b <= 1 {
                        assert(acc as int * b as int <= acc as int) by (nonlinear_arith)
                            requires
                                0 <= acc as int,
                                0 <= b as int <= 1,
                        ;
                    }
                    assert(acc as int * b as int == b as int * acc as int) by (nonlinear_arith);
                    lemma_pow_increases(b as nat, (i + 1) as nat, e as nat);
                }
                return None;
            },
        }
        i = i + 1;
    }
    Some(acc)
}

/// `base^e` at `u128`, or `None` when the result exceeds the order.
fn pow_mag_u128(b: u128, e: u32) -> (r: Option<u128>)
    ensures
        match r {
            Some(v) => v == pow(b as int, e as nat),
            None => pow(b as int, e as nat) > u128::MAX,
        },
{
    let mut acc: u128 = 1;
    let mut i: u32 = 0;
    proof {
        lemma_pow0(b as int);
    }
    while i < e
        invariant
            i <= e,
            acc == pow(b as int, i as nat),
        decreases e - i,
    {
        proof {
            reveal(pow);
            assert(pow(b as int, (i + 1) as nat) == b as int * pow(b as int, i as nat));
        }
        match acc.checked_mul(b) {
            Option::Some(v) => {
                proof {
                    assert(v as int == acc as int * b as int);
                    assert(acc as int * b as int == b as int * acc as int) by (nonlinear_arith);
                }
                acc = v;
            },
            Option::None => {
                proof {
                    if b <= 1 {
                        assert(acc as int * b as int <= acc as int) by (nonlinear_arith)
                            requires
                                0 <= acc as int,
                                0 <= b as int <= 1,
                        ;
                    }
                    assert(acc as int * b as int == b as int * acc as int) by (nonlinear_arith);
                    lemma_pow_increases(b as nat, (i + 1) as nat, e as nat);
                }
                return None;
            },
        }
        i = i + 1;
    }
    Some(acc)
}

/// A power's sign follows the base's sign and the exponent's parity, and its
/// magnitude is the power of the base's magnitude.
proof fn lemma_pow_sign(b: int, e: nat)
    ensures
        b < 0 && e % 2 == 1 ==> pow(b, e) == -pow(abs(b) as int, e),
        !(b < 0 && e % 2 == 1) ==> pow(b, e) == pow(abs(b) as int, e),
    decreases e,
{
    reveal(pow);
    if e > 0 {
        lemma_pow_sign(b, (e - 1) as nat);
        let a = abs(b) as int;
        assert(pow(b, e) == b * pow(b, (e - 1) as nat));
        assert(pow(a, e) == a * pow(a, (e - 1) as nat));
        if b < 0 {
            if e % 2 == 1 {
                assert(b * pow(a, (e - 1) as nat) == -(a * pow(a, (e - 1) as nat)))
                    by (nonlinear_arith)
                    requires
                        b == -a,
                ;
            } else {
                assert(b * (-pow(a, (e - 1) as nat)) == a * pow(a, (e - 1) as nat))
                    by (nonlinear_arith)
                    requires
                        b == -a,
                ;
            }
        }
    }
}

/// `base^e` at `i64`, exact: `None` exactly when the result leaves the order.
fn pow_i64(b: i64, e: u32) -> (r: Option<i64>)
    ensures
        match r {
            Some(v) => v == pow(b as int, e as nat) && fits_order(2, pow(b as int, e as nat)),
            None => !fits_order(2, pow(b as int, e as nat)),
        },
{
    let m: u64 = if b < 0 {
        ((-1 - b) as u64) + 1
    } else {
        b as u64
    };
    let neg = b < 0 && e % 2 == 1;
    proof {
        lemma_pow_sign(b as int, e as nat);
    }
    match pow_mag_u64(m, e) {
        Option::Some(v) => {
            if neg {
                if v <= 0x8000000000000000u64 {
                    let si: i64 = if v == 0x8000000000000000u64 {
                        i64::MIN
                    } else {
                        -(v as i64)
                    };
                    Some(si)
                } else {
                    None
                }
            } else {
                if v <= i64::MAX as u64 {
                    Some(v as i64)
                } else {
                    None
                }
            }
        },
        Option::None => None,
    }
}

/// `base^e` at `i128`, exact: `None` exactly when the result leaves the
/// order.
fn pow_i128(b: i128, e: u32) -> (r: Option<i128>)
    ensures
        match r {
            Some(v) => v == pow(b as int, e as nat) && fits_order(3, pow(b as int, e as nat)),
            None => !fits_order(3, pow(b as int, e as nat)),
        },
{
    let m: u128 = if b < 0 {
        ((-1 - b) as u128) + 1
    } else {
        b as u128
    };
    let neg = b < 0 && e % 2 == 1;
    proof {
        lemma_pow_sign(b as int, e as nat);
    }
    match pow_mag_u128(m, e) {
        Option::Some(v) => {
            if neg {
                if v <= 0x80000000000000000000000000000000u128 {
                    let si: i128 = if v == 0x80000000000000000000000000000000u128 {
                        i128::MIN
                    } else {
                        -(v as i128)
                    };
                    Some(si)
                } else {
                    None
                }
            } else {
                if v <= i128::MAX as u128 {
                    Some(v as i128)
                } else {
                    None
                }
            }
        },
        Option::None => None,
    }
}

/// The order at which an integer power settles: the first order, from the
/// base's own upward, that represents the power; float when none does.
pub open spec fn pow_ord(o: int, v: int, e: nat) -> int
    recommends
        0 <= o <= 4,
    decreases 4 - o,
        when 0 <= o <= 4
{
    if o >= 4 {
        4
    } else if fits_order(o, pow(v, e)) {
        o
    } else {
        pow_ord(next_ord(o, v), v, e)
    }
}

/// One step of the exponentiation ladder, unfolded.
proof fn lemma_pow_ord_unfold(o: int, v: int, e: nat)
    requires
        0 <= o <= 4,
    ensures
        pow_ord(o, v, e) == (if o >= 4 {
            4int
        } else if fits_order(o, pow(v, e)) {
            o
        } else {
            pow_ord(next_ord(o, v), v, e)
        }),
{
    assert(0 <= next_ord(o, v) <= 4);
}

/// What exponentiation returns: the exponent's conversion errors propagate
/// exactly; an integer base yields the exact power at the first order from
/// its own upward that holds it, a float at worst; a float base yields a
/// float, except that an exponent past `i32` is an overflow error.
pub open spec fn pow_matches(a: Value, b: Value, r: Result<Value, Error>) -> bool {
    &&& (ord_of(a) == 4 && ord_of(b) == 4 ==> (r matches Ok(v) && ord_of(v) == 4))
    &&& (ord_of(a) == 4 && ord_of(b) < 4 ==> ({
        match as_u32_spec(b) {
            Ok(e32) => if e32 <= i32::MAX {
                r matches Ok(v) && ord_of(v) == 4
            } else {
                r == Err::<Value, Error>(Error::Arithmetic(ArithmeticError::Overflow))
            },
            Err(e) => r == Err::<Value, Error>(e),
        }
    }))
    &&& (is_int(a) ==> ({
        match as_u32_spec(b) {
            Ok(e32) => ({
                let po = pow_ord(ord_of(a), int_val(a), e32 as nat);
                &&& (po < 4 ==> r == Ok::<Value, Error>(
                    int_at_order(po, pow(int_val(a), e32 as nat)),
                ))
                &&& (po == 4 && e32 <= i32::MAX ==> (r matches Ok(v) && ord_of(v) == 4))
                &&& (po == 4 && e32 > i32::MAX ==> r == Err::<Value, Error>(
                    Error::Arithmetic(ArithmeticError::Overflow),
                ))
            }),
            Err(e) => r == Err::<Value, Error>(e),
        }
    }))
}

/// What the absolute value returns: integer orders preserved, a signed
/// minimum widened one order, a float with its sign bit cleared.
pub open spec fn abs_matches(a: Value, r: Value) -> bool {
    &&& (a != Value::SignedBigInt(i128::MIN) ==> r == (match a {
        Value::UnsignedInt(_) | Value::UnsignedBigInt(_) => a,
        Value::SignedInt(n) => if n >= 0 {
            a
        } else if n == i64::MIN {
            Value::SignedBigInt(0x8000000000000000i128)
        } else {
            Value::SignedInt((-(n as int)) as i64)
        },
        Value::SignedBigInt(n) => if n >= 0 {
            a
        } else {
            Value::SignedBigInt((-(n as int)) as i128)
        },
        Value::Float(b) => Value::Float(fbits::abs_bits(b)),
    }))
    &&& (a == Value::SignedBigInt(i128::MIN) ==> ord_of(r) == 4)
}

/// What the ceiling returns: integer orders unchanged; a finite float's
/// ceiling, demoted; a NaN or infinity unchanged.
pub open spec fn ceil_matches(a: Value, r: Value) -> bool {
    match a {
        Value::Float(b) => r == (if fbits::is_finite_bits(b) {
            demoted_int(fbits::ceil_val(b), b)
        } else {
            a
        }),
        _ => r == a,
    }
}

/// What the floor returns: integer orders unchanged; a finite float's
/// floor, demoted; a NaN or infinity unchanged.
pub open spec fn floor_matches(a: Value, r: Value) -> bool {
    match a {
        Value::Float(b) => r == (if fbits::is_finite_bits(b) {
            demoted_int(fbits::floor_val(b), b)
        } else {
            a
        }),
        _ => r == a,
    }
}

/// What rounding returns: integer orders unchanged; a finite float rounded
/// to the nearest integer, halfway cases away from zero, demoted; a NaN or
/// infinity unchanged.
pub open spec fn round_matches(a: Value, r: Value) -> bool {
    match a {
        Value::Float(b) => r == (if fbits::is_finite_bits(b) {
            demoted_int(fbits::round_val(b), b)
        } else {
            a
        }),
        _ => r == a,
    }
}

/// What floor division returns: division's reported error exactly for a
/// zero divisor at an integer matched order; otherwise the floored demotion
/// of the float quotient the division produced.
pub open spec fn trunc_div_matches(a: Value, b: Value, r: Result<Value, Error>) -> bool {
    let zero_div = crate::value::mord(ord_of(a), int_val(a), ord_of(b), int_val(b)) < 4 && int_val(
        b,
    ) == 0;
    &&& (zero_div <==> r == Err::<Value, Error>(Error::Arithmetic(ArithmeticError::DivideBy0)))
    &&& (!zero_div ==> (r matches Ok(v) && exists|qb: u64|
        v == #[trigger] demoted_floor(qb)))
}

/// The value a float quotient floors and demotes to.
pub open spec fn demoted_floor(qb: u64) -> Value {
    if fbits::is_finite_bits(qb) {
        demoted_int(fbits::floor_val(qb), qb)
    } else {
        Value::Float(qb)
    }
}

impl Value {
    /// Convert this value to a 32-bit count, as used for shift amounts and
    /// exponents. An integer outside `0..=u32::MAX` is an overflow error; a
    /// negative float is an overflow error and a non-integral one an
    /// integer-only error.
    pub fn as_u32(self) -> (r: Result<u32, Error>)
        ensures
            r == as_u32_spec(self),
    {
        match self {
            Value::UnsignedInt(n) => {
                if n <= u32::MAX as u64 {
                    Ok(n as u32)
                } else {
                    Err(Error::Arithmetic(ArithmeticError::Overflow))
                }
            },
            Value::UnsignedBigInt(n) => {
                if n <= u32::MAX as u128 {
                    Ok(n as u32)
                } else {
                    Err(Error::Arithmetic(ArithmeticError::Overflow))
                }
            },
            Value::SignedInt(n) => {
                if 0 <= n && n <= u32::MAX as i64 {
                    Ok(n as u32)
                } else {
                    Err(Error::Arithmetic(ArithmeticError::Overflow))
                }
            },
            Value::SignedBigInt(n) => {
                if 0 <= n && n <= u32::MAX as i128 {
                    Ok(n as u32)
                } else {
                    Err(Error::Arithmetic(ArithmeticError::Overflow))
                }
            },
            Value::Float(b) => {
                let nan = fbits::f_is_nan(b);
                if fbits::f_is_neg_val(b) && !nan {
                    return Err(Error::Arithmetic(ArithmeticError::Overflow));
                }
                if !fbits::f_is_finite(b) {
                    return Err(Error::ImproperlyFloat);
                }
                if !fbits::f_is_integral(b) {
                    return Err(Error::ImproperlyFloat);
                }
                match fbits::f_trunc_mag(b) {
                    Option::Some(t) => {
                        if t <= u32::MAX as u128 {
                            Ok(t as u32)
                        } else {
                            Err(Error::Arithmetic(ArithmeticError::Overflow))
                        }
                    },
                    Option::None => Err(Error::Arithmetic(ArithmeticError::Overflow)),
                }
            },
        }
    }

    /// Raise this value to another.
    ///
    /// The exponent converts to a 32-bit count, whose errors propagate. An
    /// integer base stays exact, settling at the first order from its own
    /// upward that represents the power, at worst float; a float base with a
    /// float exponent uses the host's float power directly.
    #[verifier::spinoff_prover]
    pub fn pow<F: FloatOps>(self, rhs: Value, fl: &F) -> (r: Result<Value, Error>)
        ensures
            pow_matches(self, rhs, r),
    {
        match (self, rhs) {
            (Value::Float(fb), Value::Float(eb)) => {
                return Ok(Value::Float(fl.float_powf(fb, eb)));
            },
            _ => {},
        }
        let e = match rhs.as_u32() {
            Ok(e) => e,
            Err(err) => {
                return Err(err);
            },
        };
        let ghost v0 = int_val(self);
        let ghost po = pow_ord(ord_of(self), v0, e as nat);
        let mut base = self;
        loop
            invariant
                is_int(self) ==> (is_int(base) ==> int_val(base) == v0) && pow_ord(
                    ord_of(base),
                    v0,
                    e as nat,
                ) == po,
                is_int(self) ==> po == pow_ord(ord_of(self), v0, e as nat),
                !is_int(self) ==> base == self,
                !(ord_of(self) == 4 && ord_of(rhs) == 4),
                as_u32_spec(rhs) == Ok::<u32, Error>(e),
                v0 == int_val(self),
                po == pow_ord(ord_of(self), int_val(self), e as nat),
            decreases 4 - ord_of(base),
        {
            proof {
                lemma_pow_ord_unfold(ord_of(base), v0, e as nat);
            }
            match base {
                Value::UnsignedInt(x) => {
                    match pow_mag_u64(x, e) {
                        Option::Some(v) => {
                            return Ok(Value::UnsignedInt(v));
                        },
                        Option::None => {},
                    }
                },
                Value::UnsignedBigInt(x) => {
                    match pow_mag_u128(x, e) {
                        Option::Some(v) => {
                            return Ok(Value::UnsignedBigInt(v));
                        },
                        Option::None => {},
                    }
                },
                Value::SignedInt(x) => {
                    match pow_i64(x, e) {
                        Option::Some(v) => {
                            return Ok(Value::SignedInt(v));
                        },
                        Option::None => {},
                    }
                },
                Value::SignedBigInt(x) => {
                    match pow_i128(x, e) {
                        Option::Some(v) => {
                            return Ok(Value::SignedBigInt(v));
                        },
                        Option::None => {},
                    }
                },
                Value::Float(fb) => {
                    if e <= i32::MAX as u32 {
                        return Ok(Value::Float(fl.float_powi(fb, e as i32)));
                    } else {
                        return Err(Error::Arithmetic(ArithmeticError::Overflow));
                    }
                },
            }
            base.promote(fl);
        }
    }

    /// Compute the absolute value of this value.
    ///
    /// Integer orders are preserved, except that negating a signed minimum
    /// needs the next order up; a float clears its sign bit exactly.
    pub fn abs<F: FloatOps>(self, fl: &F) -> (r: Value)
        ensures
            abs_matches(self, r),
    {
        match self {
            Value::UnsignedInt(_) | Value::UnsignedBigInt(_) => self,
            Value::SignedInt(n) => {
                if n >= 0 {
                    self
                } else if n == i64::MIN {
                    Value::SignedBigInt(0x8000000000000000i128)
                } else {
                    Value::SignedInt(-n)
                }
            },
            Value::SignedBigInt(n) => {
                if n >= 0 {
                    self
                } else if n == i128::MIN {
                    Value::Float(fl.from_u128(0x80000000000000000000000000000000u128))
                } else {
                    Value::SignedBigInt(-n)
                }
            },
            Value::Float(b) => Value::Float(fbits::f_abs(b)),
        }
    }

    /// Compute the smallest integer greater than or equal to self; a float
    /// result demotes to the narrowest integer order that holds it.
    pub fn ceil(self) -> (r: Value)
        ensures
            ceil_matches(self, r),
    {
        match self {
            Value::Float(b) => round_float(b, RoundMode::Ceil),
            _ => self,
        }
    }

    /// Compute the greatest integer less than or equal to self; a float
    /// result demotes to the narrowest integer order that holds it.
    pub fn floor(self) -> (r: Value)
        ensures
            floor_matches(self, r),
    {
        match self {
            Value::Float(b) => round_float(b, RoundMode::Floor),
            _ => self,
        }
    }

    /// Round self to the nearest integer, halfway cases away from zero; a
    /// float result demotes to the narrowest integer order that holds it.
    pub fn round(self) -> (r: Value)
        ensures
            round_matches(self, r),
    {
        match self {
            Value::Float(b) => round_float(b, RoundMode::Nearest),
            _ => self,
        }
    }

    /// Divide this value by another, flooring the result to the next lowest
    /// integer and demoting it. Division by zero at an integer order is the
    /// same reported error as for division.
    pub fn trunc_div<F: FloatOps>(self, rhs: Value, fl: &F) -> (r: Result<Value, Error>)
        ensures
            trunc_div_matches(self, rhs, r),
    {
        let q = match self.div(rhs, fl) {
            Ok(q) => q,
            Err(e) => {
                return Err(e);
            },
        };
        match q {
            Value::Float(b) => {
                let out = round_float(b, RoundMode::Floor);
                proof {
                    assert(out == demoted_floor(b));
                }
                Ok(out)
            },
            _ => unreached(),
        }
    }

    /// Compute the sine of self, as a float.
    pub fn sin<F: FloatOps>(self, fl: &F) -> (r: Value)
        ensures
            ord_of(r) == 4,
    {
        Value::Float(fl.float_sin(float_bits_of(self, fl)))
    }

    /// Compute the cosine of self, as a float.
    pub fn cos<F: FloatOps>(self, fl: &F) -> (r: Value)
        ensures
            ord_of(r) == 4,
    {
        Value::Float(fl.float_cos(float_bits_of(self, fl)))
    }

    /// Compute the tangent of self, as a float.
    pub fn tan<F: FloatOps>(self, fl: &F) -> (r: Value)
        ensures
            ord_of(r) == 4,
    {
        Value::Float(fl.float_tan(float_bits_of(self, fl)))
    }

    /// Compute the hyperbolic sine of self, as a float.
    pub fn sinh<F: FloatOps>(self, fl: &F) -> (r: Value)
        ensures
            ord_of(r) == 4,
    {
        Value::Float(fl.float_sinh(float_bits_of(self, fl)))
    }

    /// Compute the hyperbolic cosine of self, as a float.
    pub fn cosh<F: FloatOps>(self, fl: &F) -> (r: Value)
        ensures
            ord_of(r) == 4,
    {
        Value::Float(fl.float_cosh(float_bits_of(self, fl)))
    }

    /// Compute the hyperbolic tangent of self, as a float.
    pub fn tanh<F: FloatOps>(self, fl: &F) -> (r: Value)
        ensures
            ord_of(r) == 4,
    {
        Value::Float(fl.float_tanh(float_bits_of(self, fl)))
    }

    /// Compute the arcsine of self, as a float.
    pub fn asin<F: FloatOps>(self, fl: &F) -> (r: Value)
        ensures
            ord_of(r) == 4,
    {
        Value::Float(fl.float_asin(float_bits_of(self, fl)))
    }

    /// Compute the arccosine of self, as a float.
    pub fn acos<F: FloatOps>(self, fl: &F) -> (r: Value)
        ensures
            ord_of(r) == 4,
    {
        Value::Float(fl.float_acos(float_bits_of(self, fl)))
    }

    /// Compute the arctangent of self, as a float.
    pub fn atan<F: FloatOps>(self, fl: &F) -> (r: Value)
        ensures
            ord_of(r) == 4,
    {
        Value::Float(fl.float_atan(float_bits_of(self, fl)))
    }

    /// Compute the inverse hyperbolic sine of self, as a float.
    pub fn asinh<F: FloatOps>(self, fl: &F) -> (r: Value)
        ensures
            ord_of(r) == 4,
    {
        Value::Float(fl.float_asinh(float_bits_of(self, fl)))
    }

    /// Compute the inverse hyperbolic cosine of self, as a float.
    pub fn acosh<F: FloatOps>(self, fl: &F) -> (r: Value)
        ensures
            ord_of(r) == 4,
    {
        Value::Float(fl.float_acosh(float_bits_of(self, fl)))
    }

    /// Compute the inverse hyperbolic tangent of self, as a float.
    pub fn atanh<F: FloatOps>(self, fl: &F) -> (r: Value)
        ensures
            ord_of(r) == 4,
    {
        Value::Float(fl.float_atanh(float_bits_of(self, fl)))
    }

    /// Convert self as degrees to radians, as a float.
    pub fn rad<F: FloatOps>(self, fl: &F) -> (r: Value)
        ensures
            ord_of(r) == 4,
    {
        Value::Float(fl.float_rad(float_bits_of(self, fl)))
    }

    /// Convert self as radians to degrees, as a float.
    pub fn deg<F: FloatOps>(self, fl: &F) -> (r: Value)
        ensures
            ord_of(r) == 4,
    {
        Value::Float(fl.float_deg(float_bits_of(self, fl)))
    }

    /// Determine the square root of self, as a float.
    pub fn sqrt<F: FloatOps>(self, fl: &F) -> (r: Value)
        ensures
            ord_of(r) == 4,
    {
        Value::Float(fl.float_sqrt(float_bits_of(self, fl)))
    }

    /// Determine the cube root of self, as a float.
    pub fn cbrt<F: FloatOps>(self, fl: &F) -> (r: Value)
        ensures
            ord_of(r) == 4,
    {
        Value::Float(fl.float_cbrt(float_bits_of(self, fl)))
    }

    /// Determine the base-10 logarithm of self, as a float.
    pub fn log<F: FloatOps>(self, fl: &F) -> (r: Value)
        ensures
            ord_of(r) == 4,
    {
        Value::Float(fl.float_log10(float_bits_of(self, fl)))
    }

    /// Determine the base-2 logarithm of self, as a float.
    pub fn lg<F: FloatOps>(self, fl: &F) -> (r: Value)
        ensures
            ord_of(r) == 4,
    {
        Value::Float(fl.float_log2(float_bits_of(self, fl)))
    }

    /// Determine the natural logarithm of self, as a float.
    pub fn ln<F: FloatOps>(self, fl: &F) -> (r: Value)
        ensures
            ord_of(r) == 4,
    {
        Value::Float(fl.float_ln(float_bits_of(self, fl)))
    }

    /// Determine `e` raised to self, as a float.
    pub fn exp<F: FloatOps>(self, fl: &F) -> (r: Value)
        ensures
            ord_of(r) == 4,
    {
        Value::Float(fl.float_exp(float_bits_of(self, fl)))
    }
}

} // verus!
