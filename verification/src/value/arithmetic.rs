//! Arithmetic on values: addition, subtraction, multiplication, division,
//! remainder, and negation.
//!
//! Addition, subtraction and multiplication attempt a checked operation at
//! the matched order; on overflow both operands promote one step and the
//! operation retries, which terminates because the order ranking is finite
//! with float at the top, where nothing overflows. Division always produces
//! a float, after reporting division by zero at any integer order.
use vstd::prelude::*;
use vstd::arithmetic::mul::lemma_mul_nonnegative;
use crate::fbits;
use crate::floatops::FloatOps;
use crate::value::{
    fits_order, int_at_order, int_val, is_int, lemma_mord_bounds, lemma_mord_top_left,
    lemma_mord_comm, lemma_mord_top_right, mord, next_ord, ord_of, signed_ord, ArithmeticError,
    Error, Value,
};

verus! {

/// A checked arithmetic operation that the retry ladder can carry.
#[derive(Clone, Copy)]
pub(crate) enum ArithOp {
    Add,
    Sub,
    Mul,
}

/// The mathematical result of a ladder operation.
pub(crate) open spec fn op_val(op: ArithOp, x: int, y: int) -> int {
    match op {
        ArithOp::Add => x + y,
        ArithOp::Sub => x - y,
        ArithOp::Mul => x * y,
    }
}

/// The order at which the retry ladder settles: the first order, from the
/// matched one upward, that can represent the result `s`; float when none
/// can.
pub open spec fn ladder_ord(m: int, na: int, nb: int, s: int) -> int
    recommends
        0 <= m <= 4,
    decreases 4 - m,
        when 0 <= m <= 4
{
    if m >= 4 {
        4
    } else if fits_order(m, s) {
        m
    } else {
        proof {
            lemma_mord_bounds(next_ord(m, na), na, next_ord(m, nb), nb);
        }
        ladder_ord(mord(next_ord(m, na), na, next_ord(m, nb), nb), na, nb, s)
    }
}

/// One step of the retry ladder, unfolded.
proof fn lemma_ladder_step(m: int, na: int, nb: int, s: int)
    requires
        0 <= m < 4,
        !fits_order(m, s),
    ensures
        ladder_ord(m, na, nb, s) == ladder_ord(
            mord(next_ord(m, na), na, next_ord(m, nb), nb),
            na,
            nb,
            s,
        ),
{
    reveal_with_fuel(ladder_ord, 2);
    lemma_mord_bounds(next_ord(m, na), na, next_ord(m, nb), nb);
}

/// Remainder with truncated (toward-zero) semantics, following the sign of
/// the dividend.
pub open spec fn trunc_rem(x: int, d: int) -> int
    recommends
        d != 0,
{
    if x >= 0 && d > 0 {
        x % d
    } else if x < 0 && d < 0 {
        -((-x) % (-d))
    } else if x < 0 {
        -((-x) % d)
    } else {
        x % (-d)
    }
}

/// What addition returns: for integer operands, exactly the sum at the
/// first order from the matched one upward that holds it, or a float when
/// none does; with a float on either side, a float.
pub open spec fn add_matches(a: Value, b: Value, r: Value) -> bool {
    &&& (is_int(a) && is_int(b) ==> ({
        let s = int_val(a) + int_val(b);
        let lo = ladder_ord(
            mord(ord_of(a), int_val(a), ord_of(b), int_val(b)),
            int_val(a),
            int_val(b),
            s,
        );
        if lo < 4 {
            r == int_at_order(lo, s)
        } else {
            ord_of(r) == 4
        }
    }))
    &&& (!(is_int(a) && is_int(b)) ==> ord_of(r) == 4)
}

/// What multiplication returns, with the product in place of the sum.
pub open spec fn mul_matches(a: Value, b: Value, r: Value) -> bool {
    &&& (is_int(a) && is_int(b) ==> ({
        let s = int_val(a) * int_val(b);
        let lo = ladder_ord(
            mord(ord_of(a), int_val(a), ord_of(b), int_val(b)),
            int_val(a),
            int_val(b),
            s,
        );
        if lo < 4 {
            r == int_at_order(lo, s)
        } else {
            ord_of(r) == 4
        }
    }))
    &&& (!(is_int(a) && is_int(b)) ==> ord_of(r) == 4)
}

/// What subtraction returns: when the subtrahend compares greater, the
/// minuend first promotes until signed; the difference then settles like a
/// sum.
pub open spec fn sub_matches(a: Value, b: Value, r: Value) -> bool {
    &&& (is_int(a) && is_int(b) && mord(ord_of(a), int_val(a), ord_of(b), int_val(b)) < 4 ==> ({
        let s = int_val(a) - int_val(b);
        let oa = if int_val(b) > int_val(a) {
            signed_ord(ord_of(a), int_val(a))
        } else {
            ord_of(a)
        };
        let lo = ladder_ord(mord(oa, int_val(a), ord_of(b), int_val(b)), int_val(a), int_val(b), s);
        if lo < 4 {
            r == int_at_order(lo, s)
        } else {
            ord_of(r) == 4
        }
    }))
    &&& (!(is_int(a) && is_int(b)) ==> ord_of(r) == 4)
}

/// What division returns: a reported error exactly for a zero divisor at an
/// integer matched order, a float otherwise.
pub open spec fn div_matches(a: Value, b: Value, r: Result<Value, Error>) -> bool {
    let zero_div = mord(ord_of(a), int_val(a), ord_of(b), int_val(b)) < 4 && int_val(b) == 0;
    &&& (zero_div <==> r == Err::<Value, Error>(Error::Arithmetic(ArithmeticError::DivideBy0)))
    &&& (!zero_div ==> (r matches Ok(v) && ord_of(v) == 4))
}

/// What the remainder returns: a reported error exactly for a zero divisor
/// at an integer matched order; otherwise the truncated remainder at the
/// matched order, or a float at float order.
pub open spec fn rem_matches(a: Value, b: Value, r: Result<Value, Error>) -> bool {
    let m = mord(ord_of(a), int_val(a), ord_of(b), int_val(b));
    let zero_div = m < 4 && int_val(b) == 0;
    &&& (zero_div <==> r == Err::<Value, Error>(Error::Arithmetic(ArithmeticError::DivideBy0)))
    &&& (m < 4 && int_val(b) != 0 ==> r == Ok::<Value, Error>(
        int_at_order(m, trunc_rem(int_val(a), int_val(b))),
    ))
    &&& (m == 4 ==> (r matches Ok(v) && ord_of(v) == 4))
}

/// What negation returns: the exact negation at the order that promoting
/// until signed reaches, one order higher for a signed minimum, and a float
/// with its sign bit flipped.
pub open spec fn neg_matches(a: Value, r: Value) -> bool {
    let o2 = signed_ord(ord_of(a), int_val(a));
    let v = int_val(a);
    &&& (is_int(a) && o2 == 2 ==> (if v == i64::MIN {
        r == Value::SignedBigInt(0x8000000000000000i128)
    } else {
        r == Value::SignedInt((-v) as i64)
    }))
    &&& (is_int(a) && o2 == 3 && v != i128::MIN ==> r == Value::SignedBigInt((-v) as i128))
    &&& (is_int(a) && (o2 == 4 || (o2 == 3 && v == i128::MIN)) ==> ord_of(r) == 4)
    &&& (a matches Value::Float(b) ==> r == Value::Float(fbits::neg_bits(b)))
}

/// Run one checked-with-promotion ladder operation.
pub(crate) fn arith_ladder<F: FloatOps>(a0: Value, b0: Value, op: ArithOp, fl: &F) -> (r: Value)
    ensures
        is_int(a0) && is_int(b0) ==> ({
            let s = op_val(op, int_val(a0), int_val(b0));
            let lo = ladder_ord(
                mord(ord_of(a0), int_val(a0), ord_of(b0), int_val(b0)),
                int_val(a0),
                int_val(b0),
                s,
            );
            if lo < 4 {
                r == int_at_order(lo, s)
            } else {
                ord_of(r) == 4
            }
        }),
        !(is_int(a0) && is_int(b0)) ==> ord_of(r) == 4,
{
    let mut a = a0;
    let mut b = b0;
    let ghost va = int_val(a0);
    let ghost vb = int_val(b0);
    let ghost s = op_val(op, va, vb);
    let ghost bothint = is_int(a0) && is_int(b0);
    let ghost lo = ladder_ord(mord(ord_of(a0), va, ord_of(b0), vb), va, vb, s);
    loop
        invariant
            va == int_val(a0),
            vb == int_val(b0),
            s == op_val(op, va, vb),
            bothint == (is_int(a0) && is_int(b0)),
            lo == ladder_ord(mord(ord_of(a0), va, ord_of(b0), vb), va, vb, s),
            is_int(a) && is_int(b) ==> bothint && int_val(a) == va && int_val(b) == vb
                && ladder_ord(mord(ord_of(a), va, ord_of(b), vb), va, vb, s) == lo,
            bothint && !(is_int(a) && is_int(b)) ==> lo == 4,
        decreases 8 - ord_of(a) - ord_of(b),
    {
        let ghost in_a = a;
        let ghost in_b = b;
        a.match_orders(&mut b, fl);
        proof {
            lemma_mord_bounds(ord_of(in_a), int_val(in_a), ord_of(in_b), int_val(in_b));
        }
        let ghost ma = a;
        let ghost mb = b;
        match (a, b) {
            (Value::UnsignedInt(x), Value::UnsignedInt(y)) => {
                proof {
                    match op {
                        ArithOp::Mul => lemma_mul_nonnegative(x as int, y as int),
                        _ => (),
                    }
                }
                let attempt = match op {
                    ArithOp::Add => x.checked_add(y),
                    ArithOp::Sub => x.checked_sub(y),
                    ArithOp::Mul => x.checked_mul(y),
                };
                match attempt {
                    Option::Some(v) => {
                        return Value::UnsignedInt(v);
                    },
                    Option::None => {},
                }
            },
            (Value::UnsignedBigInt(x), Value::UnsignedBigInt(y)) => {
                proof {
                    match op {
                        ArithOp::Mul => lemma_mul_nonnegative(x as int, y as int),
                        _ => (),
                    }
                }
                let attempt = match op {
                    ArithOp::Add => x.checked_add(y),
                    ArithOp::Sub => x.checked_sub(y),
                    ArithOp::Mul => x.checked_mul(y),
                };
                match attempt {
                    Option::Some(v) => {
                        return Value::UnsignedBigInt(v);
                    },
                    Option::None => {},
                }
            },
            (Value::SignedInt(x), Value::SignedInt(y)) => {
                let attempt = match op {
                    ArithOp::Add => x.checked_add(y),
                    ArithOp::Sub => x.checked_sub(y),
                    ArithOp::Mul => x.checked_mul(y),
                };
                match attempt {
                    Option::Some(v) => {
                        return Value::SignedInt(v);
                    },
                    Option::None => {},
                }
            },
            (Value::SignedBigInt(x), Value::SignedBigInt(y)) => {
                let attempt = match op {
                    ArithOp::Add => x.checked_add(y),
                    ArithOp::Sub => x.checked_sub(y),
                    ArithOp::Mul => x.checked_mul(y),
                };
                match attempt {
                    Option::Some(v) => {
                        return Value::SignedBigInt(v);
                    },
                    Option::None => {},
                }
            },
            (Value::Float(x), Value::Float(y)) => {
                let bits = match op {
                    ArithOp::Add => fl.float_add(x, y),
                    ArithOp::Sub => fl.float_sub(x, y),
                    ArithOp::Mul => fl.float_mul(x, y),
                };
                return Value::Float(bits);
            },
            _ => {
                return unreached();
            },
        }
        // The checked operation overflowed: promote both operands one step
        // and retry at the rematched order.
        a.promote(fl);
        b.promote(fl);
        proof {
            let m = ord_of(ma);
            lemma_ladder_step(m, va, vb, s);
            if ord_of(a) == 4 || ord_of(b) == 4 {
                lemma_mord_top(ord_of(a), int_val(a), ord_of(b), int_val(b));
                lemma_mord_top(next_ord(m, va), va, next_ord(m, vb), vb);
            }
        }
    }
}

/// Either side at float order makes the pair match at float order.
proof fn lemma_mord_top(oa: int, na: int, ob: int, nb: int)
    requires
        0 <= oa <= 4,
        0 <= ob <= 4,
        oa == 4 || ob == 4,
    ensures
        mord(oa, na, ob, nb) == 4,
{
    if oa == 4 {
        lemma_mord_top_left(na, ob, nb);
    } else {
        lemma_mord_top_right(oa, na, nb);
    }
}

/// Promote a value to float order and hand back its bit pattern.
pub(crate) fn float_bits_of<F: FloatOps>(v: Value, fl: &F) -> (r: u64)
    ensures
        ord_of(v) == 4 ==> r == crate::value::float_bits(v),
{
    let mut x = v;
    x.promote_to_float(fl);
    match x {
        Value::Float(b) => b,
        _ => unreached(),
    }
}

impl Value {
    /// Divide this value by another.
    ///
    /// Both operands promote to a common order. Division by zero at any
    /// integer order is a reported error; otherwise both operands continue
    /// to float order and divide there, under IEEE-754 semantics — so a
    /// float division by zero yields an infinity or NaN, not an error. A
    /// successful division always yields a float.
    pub fn div<F: FloatOps>(self, rhs: Value, fl: &F) -> (r: Result<Value, Error>)
        ensures
            div_matches(self, rhs, r),
    {
        let mut a = self;
        let mut b = rhs;
        a.match_orders(&mut b, fl);
        proof {
            lemma_mord_bounds(ord_of(self), int_val(self), ord_of(rhs), int_val(rhs));
        }
        let zero = match b {
            Value::UnsignedInt(y) => y == 0,
            Value::UnsignedBigInt(y) => y == 0,
            Value::SignedInt(y) => y == 0,
            Value::SignedBigInt(y) => y == 0,
            Value::Float(_) => false,
        };
        if zero {
            Err(Error::Arithmetic(ArithmeticError::DivideBy0))
        } else {
            let xb = float_bits_of(a, fl);
            let yb = float_bits_of(b, fl);
            Ok(Value::Float(fl.float_div(xb, yb)))
        }
    }

    /// Compute the remainder of this value by another, with truncated
    /// semantics.
    ///
    /// Both operands promote to a common order. A zero divisor at any
    /// integer order is a reported error; at float order the remainder
    /// follows IEEE-754 semantics. The lone integer remainder the matched
    /// order cannot represent — the minimum signed value by minus one —
    /// has remainder zero, which is returned at the matched order.
    #[verifier::rlimit(50)]
    pub fn rem<F: FloatOps>(self, rhs: Value, fl: &F) -> (r: Result<Value, Error>)
        ensures
            rem_matches(self, rhs, r),
    {
        let mut a = self;
        let mut b = rhs;
        a.match_orders(&mut b, fl);
        proof {
            lemma_mord_bounds(ord_of(self), int_val(self), ord_of(rhs), int_val(rhs));
        }
        match (a, b) {
            (Value::UnsignedInt(x), Value::UnsignedInt(y)) => {
                if y == 0 {
                    Err(Error::Arithmetic(ArithmeticError::DivideBy0))
                } else {
                    let v = x % y;
                    proof {
                        assert(v as int == trunc_rem(x as int, y as int));
                    }
                    Ok(Value::UnsignedInt(v))
                }
            },
            (Value::UnsignedBigInt(x), Value::UnsignedBigInt(y)) => {
                if y == 0 {
                    Err(Error::Arithmetic(ArithmeticError::DivideBy0))
                } else {
                    let v = x % y;
                    proof {
                        assert(v as int == trunc_rem(x as int, y as int));
                    }
                    Ok(Value::UnsignedBigInt(v))
                }
            },
            (Value::SignedInt(x), Value::SignedInt(y)) => {
                if y == 0 {
                    Err(Error::Arithmetic(ArithmeticError::DivideBy0))
                } else {
                    let xm: u64 = if x < 0 {
                        ((-1 - x) as u64) + 1
                    } else {
                        x as u64
                    };
                    let ym: u64 = if y < 0 {
                        ((-1 - y) as u64) + 1
                    } else {
                        y as u64
                    };
                    let rm = xm % ym;
                    let v: i64 = if x < 0 {
                        -(rm as i64)
                    } else {
                        rm as i64
                    };
                    proof {
                        assert(v as int == trunc_rem(x as int, y as int));
                    }
                    Ok(Value::SignedInt(v))
                }
            },
            (Value::SignedBigInt(x), Value::SignedBigInt(y)) => {
                if y == 0 {
                    Err(Error::Arithmetic(ArithmeticError::DivideBy0))
                } else {
                    let xm: u128 = if x < 0 {
                        ((-1 - x) as u128) + 1
                    } else {
                        x as u128
                    };
                    let ym: u128 = if y < 0 {
                        ((-1 - y) as u128) + 1
                    } else {
                        y as u128
                    };
                    let rm = xm % ym;
                    let v: i128 = if x < 0 {
                        -(rm as i128)
                    } else {
                        rm as i128
                    };
                    proof {
                        assert(v as int == trunc_rem(x as int, y as int));
                    }
                    Ok(Value::SignedBigInt(v))
                }
            },
            (Value::Float(x), Value::Float(y)) => Ok(Value::Float(fl.float_rem(x, y))),
            _ => unreached(),
        }
    }

    /// Negate this value.
    ///
    /// The value first promotes until signed, so the result's order can
    /// represent the negation; a signed minimum, whose negation its own
    /// order cannot hold, promotes one step further. A float negates by
    /// flipping its sign bit exactly.
    pub fn neg<F: FloatOps>(self, fl: &F) -> (r: Value)
        ensures
            neg_matches(self, r),
    {
        let mut a = self;
        a.promote_to_signed(fl);
        match a {
            Value::SignedInt(n) => {
                if n == i64::MIN {
                    Value::SignedBigInt(0x8000000000000000i128)
                } else {
                    Value::SignedInt(-n)
                }
            },
            Value::SignedBigInt(n) => {
                if n == i128::MIN {
                    let fb = fl.from_i128(n);
                    Value::Float(fbits::f_neg(fb))
                } else {
                    Value::SignedBigInt(-n)
                }
            },
            Value::Float(b) => Value::Float(fbits::f_neg(b)),
            _ => unreached(),
        }
    }

    /// Add another value to this one.
    ///
    /// Both operands promote to a common order; the sum is computed checked
    /// at that order and, whenever it does not fit, at the next orders in
    /// turn, settling at the narrowest order from the matched one upward
    /// that represents it — at worst the float order, which cannot overflow.
    pub fn add<F: FloatOps>(self, rhs: Value, fl: &F) -> (r: Value)
        ensures
            add_matches(self, rhs, r),
    {
        arith_ladder(self, rhs, ArithOp::Add, fl)
    }

    /// Multiply this value by another, with the same checked-with-promotion
    /// retry as addition.
    pub fn mul<F: FloatOps>(self, rhs: Value, fl: &F) -> (r: Value)
        ensures
            mul_matches(self, rhs, r),
    {
        arith_ladder(self, rhs, ArithOp::Mul, fl)
    }

    /// Subtract another value from this one.
    ///
    /// When the subtrahend compares greater, this value first promotes until
    /// signed, so the result's order can always represent a negative number;
    /// the difference is then computed with the same checked-with-promotion
    /// retry as addition.
    pub fn sub<F: FloatOps>(self, rhs: Value, fl: &F) -> (r: Value)
        ensures
            sub_matches(self, rhs, r),
    {
        let mut left = self;
        let c = rhs.loose_cmp(left, fl);
        if matches!(c, core::cmp::Ordering::Greater) {
            left.promote_to_signed(fl);
        }
        proof {
            lemma_mord_comm(ord_of(rhs), int_val(rhs), ord_of(self), int_val(self));
            if is_int(self) && is_int(rhs) && !is_int(left) {
                lemma_mord_top_left(int_val(self), ord_of(rhs), int_val(rhs));
            }
        }
        arith_ladder(left, rhs, ArithOp::Sub, fl)
    }
}

} // verus!
