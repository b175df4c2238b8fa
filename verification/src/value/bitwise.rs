//! Bitwise operations on values: and, or, xor, not, shifts, and rotations.
//!
//! These are defined only on integer orders; invoking any of them on a
//! float-order value is a reported error, never a panic. Shift and rotate
//! amounts are validated to fit a 32-bit unsigned count.
use vstd::prelude::*;
use crate::value::numeric::as_u32_spec;
use crate::value::{
    int_at_order, int_val, is_int, lemma_mord_bounds, mord, next_ord, ord_of, ArithmeticError,
    Error, Value,
};

verus! {

/// A bitwise binary operation.
#[derive(Clone, Copy)]
pub enum BitOp {
    And,
    Or,
    Xor,
}

/// The result of a bitwise binary operation on two values of the same
/// integer order.
pub open spec fn bit_result(op: BitOp, a: Value, b: Value) -> Value {
    match (a, b) {
        (Value::UnsignedInt(x), Value::UnsignedInt(y)) => Value::UnsignedInt(
            match op {
                BitOp::And => x & y,
                BitOp::Or => x | y,
                BitOp::Xor => x ^ y,
            },
        ),
        (Value::UnsignedBigInt(x), Value::UnsignedBigInt(y)) => Value::UnsignedBigInt(
            match op {
                BitOp::And => x & y,
                BitOp::Or => x | y,
                BitOp::Xor => x ^ y,
            },
        ),
        (Value::SignedInt(x), Value::SignedInt(y)) => Value::SignedInt(
            match op {
                BitOp::And => x & y,
                BitOp::Or => x | y,
                BitOp::Xor => x ^ y,
            },
        ),
        (Value::SignedBigInt(x), Value::SignedBigInt(y)) => Value::SignedBigInt(
            match op {
                BitOp::And => x & y,
                BitOp::Or => x | y,
                BitOp::Xor => x ^ y,
            },
        ),
        _ => a,
    }
}

/// The value shifted left by `s` at its own order.
pub open spec fn shl_result(a: Value, s: u32) -> Value {
    match a {
        Value::UnsignedInt(x) => Value::UnsignedInt(x << s),
        Value::UnsignedBigInt(x) => Value::UnsignedBigInt(x << s),
        Value::SignedInt(x) => Value::SignedInt(x << s),
        Value::SignedBigInt(x) => Value::SignedBigInt(x << s),
        Value::Float(_) => a,
    }
}

/// The value shifted right by `s` at its own order; signed orders shift
/// arithmetically.
pub open spec fn shr_result(a: Value, s: u32) -> Value {
    match a {
        Value::UnsignedInt(x) => Value::UnsignedInt(x >> s),
        Value::UnsignedBigInt(x) => Value::UnsignedBigInt(x >> s),
        Value::SignedInt(x) => Value::SignedInt(x >> s),
        Value::SignedBigInt(x) => Value::SignedBigInt(x >> s),
        Value::Float(_) => a,
    }
}

/// A 64-bit left rotation.
pub open spec fn rotl_u64(x: u64, s: u32) -> u64 {
    if s % 64 == 0 {
        x
    } else {
        (x << (s % 64)) | (x >> ((64 - s % 64) as u32))
    }
}

/// A 128-bit left rotation.
pub open spec fn rotl_u128(x: u128, s: u32) -> u128 {
    if s % 128 == 0 {
        x
    } else {
        (x << (s % 128)) | (x >> ((128 - s % 128) as u32))
    }
}

/// A 64-bit right rotation.
pub open spec fn rotr_u64(x: u64, s: u32) -> u64 {
    if s % 64 == 0 {
        x
    } else {
        (x >> (s % 64)) | (x << ((64 - s % 64) as u32))
    }
}

/// A 128-bit right rotation.
pub open spec fn rotr_u128(x: u128, s: u32) -> u128 {
    if s % 128 == 0 {
        x
    } else {
        (x >> (s % 128)) | (x << ((128 - s % 128) as u32))
    }
}

/// The value rotated left by `s` at its own order, bits wrapping around.
pub open spec fn rotl_result(a: Value, s: u32) -> Value {
    match a {
        Value::UnsignedInt(x) => Value::UnsignedInt(rotl_u64(x, s)),
        Value::UnsignedBigInt(x) => Value::UnsignedBigInt(rotl_u128(x, s)),
        Value::SignedInt(x) => Value::SignedInt(rotl_u64(x as u64, s) as i64),
        Value::SignedBigInt(x) => Value::SignedBigInt(rotl_u128(x as u128, s) as i128),
        Value::Float(_) => a,
    }
}

/// The value rotated right by `s` at its own order, bits wrapping around.
pub open spec fn rotr_result(a: Value, s: u32) -> Value {
    match a {
        Value::UnsignedInt(x) => Value::UnsignedInt(rotr_u64(x, s)),
        Value::UnsignedBigInt(x) => Value::UnsignedBigInt(rotr_u128(x, s)),
        Value::SignedInt(x) => Value::SignedInt(rotr_u64(x as u64, s) as i64),
        Value::SignedBigInt(x) => Value::SignedBigInt(rotr_u128(x as u128, s) as i128),
        Value::Float(_) => a,
    }
}

/// What a bitwise binary operation returns: the integer-only error exactly
/// when the pair matches at float order; otherwise the exact bit-level
/// result at the matched order.
pub open spec fn bitop_matches(op: BitOp, a: Value, b: Value, r: Result<Value, Error>) -> bool {
    let m = mord(ord_of(a), int_val(a), ord_of(b), int_val(b));
    &&& (m == 4 ==> r == Err::<Value, Error>(Error::ImproperlyFloat))
    &&& (m < 4 ==> r == Ok::<Value, Error>(
        bit_result(op, int_at_order(m, int_val(a)), int_at_order(m, int_val(b))),
    ))
}

/// What a left shift returns: the integer-only error exactly when the pair
/// matches at float order; otherwise the amount converts to a 32-bit count
/// and must lie below the matched order's width, and the value shifts there.
pub open spec fn shl_matches(a: Value, b: Value, r: Result<Value, Error>) -> bool {
    let m = mord(ord_of(a), int_val(a), ord_of(b), int_val(b));
    &&& (m == 4 ==> r == Err::<Value, Error>(Error::ImproperlyFloat))
    &&& (m < 4 ==> r == (match as_u32_spec(int_at_order(m, int_val(b))) {
        Ok(s) => if s < width_of(m) {
            Ok::<Value, Error>(shl_result(int_at_order(m, int_val(a)), s))
        } else {
            Err::<Value, Error>(Error::Arithmetic(ArithmeticError::Overflow))
        },
        Err(e) => Err::<Value, Error>(e),
    }))
}

/// What a right shift returns, arithmetically at signed orders.
pub open spec fn shr_matches(a: Value, b: Value, r: Result<Value, Error>) -> bool {
    let m = mord(ord_of(a), int_val(a), ord_of(b), int_val(b));
    &&& (m == 4 ==> r == Err::<Value, Error>(Error::ImproperlyFloat))
    &&& (m < 4 ==> r == (match as_u32_spec(int_at_order(m, int_val(b))) {
        Ok(s) => if s < width_of(m) {
            Ok::<Value, Error>(shr_result(int_at_order(m, int_val(a)), s))
        } else {
            Err::<Value, Error>(Error::Arithmetic(ArithmeticError::Overflow))
        },
        Err(e) => Err::<Value, Error>(e),
    }))
}

/// What a left rotation returns: the amount's conversion errors propagate
/// exactly; a float value is the integer-only error; otherwise the exact
/// rotation at the value's own order.
pub open spec fn rotl_matches(a: Value, shift: Value, r: Result<Value, Error>) -> bool {
    match as_u32_spec(shift) {
        Ok(s) => if is_int(a) {
            r == Ok::<Value, Error>(rotl_result(a, s))
        } else {
            r == Err::<Value, Error>(Error::ImproperlyFloat)
        },
        Err(e) => r == Err::<Value, Error>(e),
    }
}

/// What a right rotation returns.
pub open spec fn rotr_matches(a: Value, shift: Value, r: Result<Value, Error>) -> bool {
    match as_u32_spec(shift) {
        Ok(s) => if is_int(a) {
            r == Ok::<Value, Error>(rotr_result(a, s))
        } else {
            r == Err::<Value, Error>(Error::ImproperlyFloat)
        },
        Err(e) => r == Err::<Value, Error>(e),
    }
}

/// What the bitwise complement returns: exact at each integer order, the
/// integer-only error on a float.
pub open spec fn not_matches(a: Value, r: Result<Value, Error>) -> bool {
    r == (match a {
        Value::UnsignedInt(n) => Ok::<Value, Error>(Value::UnsignedInt(!n)),
        Value::UnsignedBigInt(n) => Ok::<Value, Error>(Value::UnsignedBigInt(!n)),
        Value::SignedInt(n) => Ok::<Value, Error>(Value::SignedInt(!n)),
        Value::SignedBigInt(n) => Ok::<Value, Error>(Value::SignedBigInt(!n)),
        Value::Float(_) => Err::<Value, Error>(Error::ImproperlyFloat),
    })
}

/// Rotate a `u64` pattern left.
fn exec_rotl_u64(x: u64, s: u32) -> (r: u64)
    ensures
        r == rotl_u64(x, s),
{
    let sm = s % 64;
    if sm == 0 {
        x
    } else {
        (x << sm) | (x >> (64 - sm))
    }
}

/// Rotate a `u128` pattern left.
fn exec_rotl_u128(x: u128, s: u32) -> (r: u128)
    ensures
        r == rotl_u128(x, s),
{
    let sm = s % 128;
    if sm == 0 {
        x
    } else {
        (x << sm) | (x >> (128 - sm))
    }
}

/// Rotate a `u64` pattern right.
fn exec_rotr_u64(x: u64, s: u32) -> (r: u64)
    ensures
        r == rotr_u64(x, s),
{
    let sm = s % 64;
    if sm == 0 {
        x
    } else {
        (x >> sm) | (x << (64 - sm))
    }
}

/// Rotate a `u128` pattern right.
fn exec_rotr_u128(x: u128, s: u32) -> (r: u128)
    ensures
        r == rotr_u128(x, s),
{
    let sm = s % 128;
    if sm == 0 {
        x
    } else {
        (x >> sm) | (x << (128 - sm))
    }
}

impl Value {
    /// Promote one step within the integer orders; meaningful only when the
    /// promotion table stays below float.
    fn promote_int(&mut self)
        requires
            next_ord(ord_of(*old(self)), int_val(*old(self))) < 4,
        ensures
            ord_of(*final(self)) == next_ord(ord_of(*old(self)), int_val(*old(self))),
            int_val(*final(self)) == int_val(*old(self)),
            is_int(*final(self)),
    {
        match *self {
            Value::UnsignedInt(n) => {
                *self = Value::UnsignedBigInt(n as u128);
            },
            Value::UnsignedBigInt(n) => {
                if n <= i64::MAX as u128 {
                    *self = Value::SignedInt(n as i64);
                } else {
                    *self = Value::SignedBigInt(n as i128);
                }
            },
            Value::SignedInt(n) => {
                *self = Value::SignedBigInt(n as i128);
            },
            Value::SignedBigInt(_) => {
                proof {
                    assert(false);
                }
            },
            Value::Float(_) => {
                proof {
                    assert(false);
                }
            },
        }
    }

    /// Match orders within the integer orders alone: where matching would
    /// promote either side to float, report the integer-only error instead.
    fn match_orders_int(&mut self, other: &mut Value) -> (r: Result<(), Error>)
        ensures
            mord(
                ord_of(*old(self)),
                int_val(*old(self)),
                ord_of(*old(other)),
                int_val(*old(other)),
            ) < 4 ==> ({
                let m = mord(
                    ord_of(*old(self)),
                    int_val(*old(self)),
                    ord_of(*old(other)),
                    int_val(*old(other)),
                );
                &&& r == Ok::<(), Error>(())
                &&& *final(self) == int_at_order(m, int_val(*old(self)))
                &&& *final(other) == int_at_order(m, int_val(*old(other)))
            }),
            mord(
                ord_of(*old(self)),
                int_val(*old(self)),
                ord_of(*old(other)),
                int_val(*old(other)),
            ) == 4 ==> r == Err::<(), Error>(Error::ImproperlyFloat),
    {
        let ghost m0 = mord(
            ord_of(*old(self)),
            int_val(*old(self)),
            ord_of(*old(other)),
            int_val(*old(other)),
        );
        proof {
            lemma_mord_bounds(
                ord_of(*old(self)),
                int_val(*old(self)),
                ord_of(*old(other)),
                int_val(*old(other)),
            );
        }
        if self.order_rank() == 4 || other.order_rank() == 4 {
            proof {
                if ord_of(*self) == 4 {
                    crate::value::lemma_mord_top_left(int_val(*self), ord_of(*other), int_val(*other));
                } else {
                    crate::value::lemma_mord_top_right(ord_of(*self), int_val(*self), int_val(*other));
                }
            }
            return Err(Error::ImproperlyFloat);
        }
        while self.order_rank() != other.order_rank()
            invariant
                is_int(*self),
                is_int(*other),
                int_val(*self) == int_val(*old(self)),
                int_val(*other) == int_val(*old(other)),
                mord(ord_of(*self), int_val(*self), ord_of(*other), int_val(*other)) == m0,
                m0 == mord(
                    ord_of(*old(self)),
                    int_val(*old(self)),
                    ord_of(*old(other)),
                    int_val(*old(other)),
                ),
            decreases 8 - ord_of(*self) - ord_of(*other),
        {
            if self.order_rank() < other.order_rank() {
                let t = self.order_rank();
                let big = match *self {
                    Value::UnsignedBigInt(n) => n > i128::MAX as u128,
                    _ => false,
                };
                if big || t == 3 {
                    proof {
                        crate::value::lemma_mord_top_left(
                            int_val(*self),
                            ord_of(*other),
                            int_val(*other),
                        );
                    }
                    return Err(Error::ImproperlyFloat);
                }
                self.promote_int();
            } else {
                let big = match *other {
                    Value::UnsignedBigInt(n) => n > i128::MAX as u128,
                    _ => false,
                };
                if big || other.order_rank() == 3 {
                    proof {
                        crate::value::lemma_mord_top_right(
                            ord_of(*self),
                            int_val(*self),
                            int_val(*other),
                        );
                    }
                    return Err(Error::ImproperlyFloat);
                }
                other.promote_int();
            }
        }
        proof {
            if m0 == 4 {
                assert(ord_of(*self) == m0);
                assert(false);
            }
        }
        Ok(())
    }

    /// Compute this value bitwise and-ed with another, at the matched
    /// integer order; a float on either side is the integer-only error.
    pub fn bitand(self, rhs: Value) -> (r: Result<Value, Error>)
        ensures
            bitop_matches(BitOp::And, self, rhs, r),
    {
        self.bit_binop(rhs, BitOp::And)
    }

    /// Compute this value bitwise or-ed with another, at the matched integer
    /// order; a float on either side is the integer-only error.
    pub fn bitor(self, rhs: Value) -> (r: Result<Value, Error>)
        ensures
            bitop_matches(BitOp::Or, self, rhs, r),
    {
        self.bit_binop(rhs, BitOp::Or)
    }

    /// Compute this value bitwise xor-ed with another, at the matched
    /// integer order; a float on either side is the integer-only error.
    pub fn bitxor(self, rhs: Value) -> (r: Result<Value, Error>)
        ensures
            bitop_matches(BitOp::Xor, self, rhs, r),
    {
        self.bit_binop(rhs, BitOp::Xor)
    }

    /// Shared body of the bitwise binary operations.
    fn bit_binop(self, rhs: Value, op: BitOp) -> (r: Result<Value, Error>)
        ensures
            bitop_matches(op, self, rhs, r),
    {
        let mut a = self;
        let mut b = rhs;
        proof {
            lemma_mord_bounds(ord_of(self), int_val(self), ord_of(rhs), int_val(rhs));
        }
        match a.match_orders_int(&mut b) {
            Ok(()) => {},
            Err(e) => {
                return Err(e);
            },
        }
        match (a, b) {
            (Value::UnsignedInt(x), Value::UnsignedInt(y)) => Ok(
                Value::UnsignedInt(
                    match op {
                        BitOp::And => x & y,
                        BitOp::Or => x | y,
                        BitOp::Xor => x ^ y,
                    },
                ),
            ),
            (Value::UnsignedBigInt(x), Value::UnsignedBigInt(y)) => Ok(
                Value::UnsignedBigInt(
                    match op {
                        BitOp::And => x & y,
                        BitOp::Or => x | y,
                        BitOp::Xor => x ^ y,
                    },
                ),
            ),
            (Value::SignedInt(x), Value::SignedInt(y)) => Ok(
                Value::SignedInt(
                    match op {
                        BitOp::And => x & y,
                        BitOp::Or => x | y,
                        BitOp::Xor => x ^ y,
                    },
                ),
            ),
            (Value::SignedBigInt(x), Value::SignedBigInt(y)) => Ok(
                Value::SignedBigInt(
                    match op {
                        BitOp::And => x & y,
                        BitOp::Or => x | y,
                        BitOp::Xor => x ^ y,
                    },
                ),
            ),
            _ => unreached(),
        }
    }

    /// Compute the bitwise complement of this value at its own order; a
    /// float is the integer-only error.
    pub fn not(self) -> (r: Result<Value, Error>)
        ensures
            not_matches(self, r),
    {
        match self {
            Value::UnsignedInt(n) => Ok(Value::UnsignedInt(!n)),
            Value::UnsignedBigInt(n) => Ok(Value::UnsignedBigInt(!n)),
            Value::SignedInt(n) => Ok(Value::SignedInt(!n)),
            Value::SignedBigInt(n) => Ok(Value::SignedBigInt(!n)),
            Value::Float(_) => Err(Error::ImproperlyFloat),
        }
    }

    /// Shift this value left at the matched integer order. The amount must
    /// convert to a 32-bit count and lie below the matched order's width,
    /// else the shift is an overflow error; a float on either side is the
    /// integer-only error.
    pub fn shl(self, rhs: Value) -> (r: Result<Value, Error>)
        ensures
            shl_matches(self, rhs, r),
    {
        let mut a = self;
        let mut b = rhs;
        proof {
            lemma_mord_bounds(ord_of(self), int_val(self), ord_of(rhs), int_val(rhs));
        }
        match a.match_orders_int(&mut b) {
            Ok(()) => {},
            Err(e) => {
                return Err(e);
            },
        }
        let s = match b.as_u32() {
            Ok(s) => s,
            Err(e) => {
                return Err(e);
            },
        };
        match a {
            Value::UnsignedInt(x) => {
                if s < 64 {
                    Ok(Value::UnsignedInt(x << s))
                } else {
                    Err(Error::Arithmetic(ArithmeticError::Overflow))
                }
            },
            Value::UnsignedBigInt(x) => {
                if s < 128 {
                    Ok(Value::UnsignedBigInt(x << s))
                } else {
                    Err(Error::Arithmetic(ArithmeticError::Overflow))
                }
            },
            Value::SignedInt(x) => {
                if s < 64 {
                    Ok(Value::SignedInt(x << s))
                } else {
                    Err(Error::Arithmetic(ArithmeticError::Overflow))
                }
            },
            Value::SignedBigInt(x) => {
                if s < 128 {
                    Ok(Value::SignedBigInt(x << s))
                } else {
                    Err(Error::Arithmetic(ArithmeticError::Overflow))
                }
            },
            Value::Float(_) => unreached(),
        }
    }

    /// Shift this value right at the matched integer order, arithmetically
    /// for signed orders. The amount must convert to a 32-bit count and lie
    /// below the matched order's width, else the shift is an overflow error;
    /// a float on either side is the integer-only error.
    pub fn shr(self, rhs: Value) -> (r: Result<Value, Error>)
        ensures
            shr_matches(self, rhs, r),
    {
        let mut a = self;
        let mut b = rhs;
        proof {
            lemma_mord_bounds(ord_of(self), int_val(self), ord_of(rhs), int_val(rhs));
        }
        match a.match_orders_int(&mut b) {
            Ok(()) => {},
            Err(e) => {
                return Err(e);
            },
        }
        let s = match b.as_u32() {
            Ok(s) => s,
            Err(e) => {
                return Err(e);
            },
        };
        match a {
            Value::UnsignedInt(x) => {
                if s < 64 {
                    Ok(Value::UnsignedInt(x >> s))
                } else {
                    Err(Error::Arithmetic(ArithmeticError::Overflow))
                }
            },
            Value::UnsignedBigInt(x) => {
                if s < 128 {
                    Ok(Value::UnsignedBigInt(x >> s))
                } else {
                    Err(Error::Arithmetic(ArithmeticError::Overflow))
                }
            },
            Value::SignedInt(x) => {
                if s < 64 {
                    Ok(Value::SignedInt(x >> s))
                } else {
                    Err(Error::Arithmetic(ArithmeticError::Overflow))
                }
            },
            Value::SignedBigInt(x) => {
                if s < 128 {
                    Ok(Value::SignedBigInt(x >> s))
                } else {
                    Err(Error::Arithmetic(ArithmeticError::Overflow))
                }
            },
            Value::Float(_) => unreached(),
        }
    }

    /// Compute this value left-rotated by `shift` bits at its own order,
    /// wrapping the bits around. The amount must convert to a 32-bit count;
    /// a float value is the integer-only error.
    pub fn rotate_left(self, shift: Value) -> (r: Result<Value, Error>)
        ensures
            rotl_matches(self, shift, r),
    {
        let s = match shift.as_u32() {
            Ok(s) => s,
            Err(e) => {
                return Err(e);
            },
        };
        match self {
            Value::UnsignedInt(x) => Ok(Value::UnsignedInt(exec_rotl_u64(x, s))),
            Value::UnsignedBigInt(x) => Ok(Value::UnsignedBigInt(exec_rotl_u128(x, s))),
            Value::SignedInt(x) => Ok(Value::SignedInt(exec_rotl_u64(x as u64, s) as i64)),
            Value::SignedBigInt(x) => Ok(Value::SignedBigInt(exec_rotl_u128(x as u128, s) as i128)),
            Value::Float(_) => Err(Error::ImproperlyFloat),
        }
    }

    /// Compute this value right-rotated by `shift` bits at its own order,
    /// wrapping the bits around. The amount must convert to a 32-bit count;
    /// a float value is the integer-only error.
    pub fn rotate_right(self, shift: Value) -> (r: Result<Value, Error>)
        ensures
            rotr_matches(self, shift, r),
    {
        let s = match shift.as_u32() {
            Ok(s) => s,
            Err(e) => {
                return Err(e);
            },
        };
        match self {
            Value::UnsignedInt(x) => Ok(Value::UnsignedInt(exec_rotr_u64(x, s))),
            Value::UnsignedBigInt(x) => Ok(Value::UnsignedBigInt(exec_rotr_u128(x, s))),
            Value::SignedInt(x) => Ok(Value::SignedInt(exec_rotr_u64(x as u64, s) as i64)),
            Value::SignedBigInt(x) => Ok(Value::SignedBigInt(exec_rotr_u128(x as u128, s) as i128)),
            Value::Float(_) => Err(Error::ImproperlyFloat),
        }
    }
}

/// The bit width of an integer order.
pub open spec fn width_of(m: int) -> u32 {
    if m == 0 || m == 2 {
        64
    } else {
        128
    }
}

} // verus!
