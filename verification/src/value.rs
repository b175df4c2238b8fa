//! The numeric value tower.
//!
//! A [`Value`] is one of five concrete representations — two unsigned widths,
//! two signed widths, and an IEEE-754 binary64 floating-point value carried as
//! its bit pattern. The representations are ranked by [`Order`], and values
//! widen ("promote") deterministically along that ranking exactly as far as an
//! operation needs.
pub mod arithmetic;
pub mod bitwise;
pub mod comparison;
mod error;
pub mod numeric;
pub mod parsing;

use vstd::prelude::*;
use crate::floatops::FloatOps;
use crate::fbits;

pub use error::{ArithmeticError, Error, ParseValueError};

verus! {

/// The in-memory representation ("order") of a [`Value`], ranked from
/// narrowest to broadest.
#[derive(Debug, Clone, Copy, PartialEq, Eq, Structural)]
pub enum Order {
    UnsignedInt,
    UnsignedBigInt,
    SignedInt,
    SignedBigInt,
    Float,
}

/// A numeric value.
///
/// Every calculation is carried out on a common value type, concretely
/// represented by one of five memory formats: `u64`, `u128`, `i64`, `i128`,
/// or an IEEE-754 binary64 value held as its bit pattern.
///
/// Lower orders have a narrower range and higher orders a broader one, which
/// lets values promote to higher compatible orders exactly as needed.
#[derive(Debug, Clone, Copy, PartialEq, Eq)]
pub enum Value {
    UnsignedInt(u64),
    UnsignedBigInt(u128),
    SignedInt(i64),
    SignedBigInt(i128),
    /// IEEE-754 binary64, as its bit pattern.
    Float(u64),
}

/// Rank of a value's order, from 0 (`u64`) to 4 (float).
pub open spec fn ord_of(v: Value) -> int {
    match v {
        Value::UnsignedInt(_) => 0,
        Value::UnsignedBigInt(_) => 1,
        Value::SignedInt(_) => 2,
        Value::SignedBigInt(_) => 3,
        Value::Float(_) => 4,
    }
}

/// Rank of an order.
pub open spec fn rank_of(o: Order) -> int {
    match o {
        Order::UnsignedInt => 0,
        Order::UnsignedBigInt => 1,
        Order::SignedInt => 2,
        Order::SignedBigInt => 3,
        Order::Float => 4,
    }
}

/// Whether the value is held in one of the integer orders.
pub open spec fn is_int(v: Value) -> bool {
    ord_of(v) < 4
}

/// The mathematical value of an integer-order [`Value`].
pub open spec fn int_val(v: Value) -> int {
    match v {
        Value::UnsignedInt(n) => n as int,
        Value::UnsignedBigInt(n) => n as int,
        Value::SignedInt(n) => n as int,
        Value::SignedBigInt(n) => n as int,
        Value::Float(_) => 0,
    }
}

/// The bit pattern of a float-order [`Value`].
pub open spec fn float_bits(v: Value) -> u64 {
    match v {
        Value::Float(b) => b,
        _ => 0,
    }
}

/// Whether the integer `n` is representable at integer order `o`.
pub open spec fn fits_order(o: int, n: int) -> bool {
    if o == 0 {
        0 <= n <= u64::MAX
    } else if o == 1 {
        0 <= n <= u128::MAX
    } else if o == 2 {
        i64::MIN <= n <= i64::MAX
    } else if o == 3 {
        i128::MIN <= n <= i128::MAX
    } else {
        true
    }
}

/// The integer-order value holding `n` at order `o`.
pub open spec fn int_at_order(o: int, n: int) -> Value
    recommends
        0 <= o <= 3,
        fits_order(o, n),
{
    if o == 0 {
        Value::UnsignedInt(n as u64)
    } else if o == 1 {
        Value::UnsignedBigInt(n as u128)
    } else if o == 2 {
        Value::SignedInt(n as i64)
    } else {
        Value::SignedBigInt(n as i128)
    }
}

/// The order a value of order `o` and integer value `n` promotes to.
///
/// This is the promotion table: `u64` widens to `u128`; `u128` widens to the
/// narrowest signed order that holds the value, or to float when none does;
/// `i64` widens to `i128`; `i128` widens to float; float stays float.
pub open spec fn next_ord(o: int, n: int) -> int {
    if o == 0 {
        1
    } else if o == 1 {
        if n <= i64::MAX {
            2
        } else if n <= i128::MAX {
            3
        } else {
            4
        }
    } else if o == 2 {
        3
    } else {
        4
    }
}

/// The common order that `match_orders` drives a pair of values to: the
/// lower-ranked side promotes, one step at a time, until the ranks agree.
pub open spec fn mord(oa: int, na: int, ob: int, nb: int) -> int
    recommends
        0 <= oa <= 4,
        0 <= ob <= 4,
    decreases 8 - oa - ob,
        when 0 <= oa <= 4 && 0 <= ob <= 4
{
    if oa == ob {
        oa
    } else if oa < ob {
        mord(next_ord(oa, na), na, ob, nb)
    } else {
        mord(oa, na, next_ord(ob, nb), nb)
    }
}

/// The order that promoting until signed reaches, from order `o` and integer
/// value `n`.
pub open spec fn signed_ord(o: int, n: int) -> int {
    if o >= 2 {
        o
    } else if n <= i64::MAX {
        2
    } else if n <= i128::MAX {
        3
    } else {
        4
    }
}

/// The value a finite float pattern demotes to: the truncated value, held at
/// the first of the orders `u64`, `u128`, `i64`, `i128` whose closed range
/// contains the encoded number; the pattern itself when none does.
pub open spec fn demoted(b: u64) -> Value
    recommends
        fbits::is_finite_bits(b),
{
    let fl = fbits::floor_val(b);
    let ce = fbits::ceil_val(b);
    let tr = fbits::trunc_val(b);
    if fl >= 0 && ce <= u64::MAX {
        Value::UnsignedInt(tr as u64)
    } else if fl >= 0 && ce <= u128::MAX {
        Value::UnsignedBigInt(tr as u128)
    } else if fl >= i64::MIN && ce <= i64::MAX {
        Value::SignedInt(tr as i64)
    } else if fl >= i128::MIN && ce <= i128::MAX {
        Value::SignedBigInt(tr as i128)
    } else {
        Value::Float(b)
    }
}

/// How many times the promotion table has been applied to a starting order.
pub open spec fn iter_next(o: int, n: int, k: nat) -> int
    decreases k,
{
    if k == 0 {
        o
    } else {
        next_ord(iter_next(o, n, (k - 1) as nat), n)
    }
}

/// Promotion is strictly monotone below float order and stationary at it:
/// the order after a promotion never ranks below the one before, with
/// equality only at float.
pub proof fn lemma_promotion_monotone(o: int, n: int)
    requires
        0 <= o <= 4,
    ensures
        next_ord(o, n) >= o,
        o < 4 ==> next_ord(o, n) > o,
        o == 4 ==> next_ord(o, n) == o,
        next_ord(o, n) <= 4,
{
}

/// The promotion ranking is a finite ladder with float at the top: repeated
/// promotion from any starting order reaches float order in at most four
/// steps.
pub proof fn lemma_promotion_terminates(o: int, n: int)
    requires
        0 <= o <= 4,
    ensures
        iter_next(o, n, 4) == 4,
{
    reveal_with_fuel(iter_next, 5);
    let o1 = next_ord(o, n);
    let o2 = next_ord(o1, n);
    let o3 = next_ord(o2, n);
    assert(iter_next(o, n, 4) == next_ord(o3, n));
}

/// Demoting a float already known to be integral loses nothing: whenever
/// the encoded integer lies within some integer order's range, the demoted
/// value is an integer order holding exactly that integer.
pub proof fn lemma_demote_preserves_integral(b: u64)
    requires
        fbits::is_finite_bits(b),
        fbits::is_integral(b),
        i128::MIN <= fbits::trunc_val(b) <= u128::MAX,
    ensures
        is_int(demoted(b)),
        int_val(demoted(b)) == fbits::trunc_val(b),
{
    fbits::lemma_int_parts(b);
}

/// A pair whose left side is already at float order matches at float order.
pub proof fn lemma_mord_top_left(na: int, ob: int, nb: int)
    requires
        0 <= ob <= 4,
    ensures
        mord(4, na, ob, nb) == 4,
    decreases 4 - ob,
{
    if ob < 4 {
        lemma_mord_top_left(na, next_ord(ob, nb), nb);
    }
}

/// A pair whose right side is already at float order matches at float order.
pub proof fn lemma_mord_top_right(oa: int, na: int, nb: int)
    requires
        0 <= oa <= 4,
    ensures
        mord(oa, na, 4, nb) == 4,
    decreases 4 - oa,
{
    if oa < 4 {
        lemma_mord_top_right(next_ord(oa, na), na, nb);
    }
}

/// Matching is symmetric in its two sides.
pub proof fn lemma_mord_comm(oa: int, na: int, ob: int, nb: int)
    requires
        0 <= oa <= 4,
        0 <= ob <= 4,
    ensures
        mord(oa, na, ob, nb) == mord(ob, nb, oa, na),
    decreases 8 - oa - ob,
{
    if oa == ob {
    } else if oa < ob {
        lemma_mord_comm(next_ord(oa, na), na, ob, nb);
    } else {
        lemma_mord_comm(oa, na, next_ord(ob, nb), nb);
    }
}

/// The matched order never ranks below either side, and never above float.
pub proof fn lemma_mord_bounds(oa: int, na: int, ob: int, nb: int)
    requires
        0 <= oa <= 4,
        0 <= ob <= 4,
    ensures
        mord(oa, na, ob, nb) >= oa,
        mord(oa, na, ob, nb) >= ob,
        mord(oa, na, ob, nb) <= 4,
    decreases 8 - oa - ob,
{
    if oa == ob {
    } else if oa < ob {
        lemma_mord_bounds(next_ord(oa, na), na, ob, nb);
    } else {
        lemma_mord_bounds(oa, na, next_ord(ob, nb), nb);
    }
}

impl Order {
    /// Rank of this order, from 0 (`u64`) to 4 (float).
    pub fn rank(&self) -> (r: u8)
        ensures
            r == rank_of(*self),
    {
        match self {
            Order::UnsignedInt => 0,
            Order::UnsignedBigInt => 1,
            Order::SignedInt => 2,
            Order::SignedBigInt => 3,
            Order::Float => 4,
        }
    }
}

impl Value {
    /// The constant pi, as a float-order value.
    pub fn pi() -> (v: Value)
        ensures
            v == Value::Float(0x400921FB54442D18u64),
    {
        Value::Float(0x400921FB54442D18u64)
    }

    /// The constant e, as a float-order value.
    pub fn euler() -> (v: Value)
        ensures
            v == Value::Float(0x4005BF0A8B145769u64),
    {
        Value::Float(0x4005BF0A8B145769u64)
    }

    /// Get the order of this value.
    pub fn order(&self) -> (o: Order)
        ensures
            rank_of(o) == ord_of(*self),
    {
        match self {
            Value::UnsignedInt(_) => Order::UnsignedInt,
            Value::UnsignedBigInt(_) => Order::UnsignedBigInt,
            Value::SignedInt(_) => Order::SignedInt,
            Value::SignedBigInt(_) => Order::SignedBigInt,
            Value::Float(_) => Order::Float,
        }
    }

    /// Rank of this value's order, from 0 (`u64`) to 4 (float).
    pub fn order_rank(&self) -> (r: u8)
        ensures
            r == ord_of(*self),
    {
        match self {
            Value::UnsignedInt(_) => 0,
            Value::UnsignedBigInt(_) => 1,
            Value::SignedInt(_) => 2,
            Value::SignedBigInt(_) => 3,
            Value::Float(_) => 4,
        }
    }

    /// Promote this value one step along the order ranking, according to its
    /// value: the order strictly increases except at float, integer values
    /// are preserved whenever the target order is an integer order, and a
    /// float is left exactly as it was.
    pub fn promote<F: FloatOps>(&mut self, fl: &F)
        ensures
            ord_of(*final(self)) == next_ord(ord_of(*old(self)), int_val(*old(self))),
            ord_of(*old(self)) < 4 ==> ord_of(*final(self)) > ord_of(*old(self)),
            is_int(*final(self)) ==> int_val(*final(self)) == int_val(*old(self)),
            ord_of(*old(self)) == 4 ==> *final(self) == *old(self),
    {
        match *self {
            Value::UnsignedInt(n) => {
                *self = Value::UnsignedBigInt(n as u128);
            },
            Value::UnsignedBigInt(n) => {
                if n <= i64::MAX as u128 {
                    *self = Value::SignedInt(n as i64);
                } else if n <= i128::MAX as u128 {
                    *self = Value::SignedBigInt(n as i128);
                } else {
                    *self = Value::Float(fl.from_u128(n));
                }
            },
            Value::SignedInt(n) => {
                *self = Value::SignedBigInt(n as i128);
            },
            Value::SignedBigInt(n) => {
                *self = Value::Float(fl.from_i128(n));
            },
            Value::Float(_) => {},
        }
    }

    /// Promote this value until it is signed (or float), according to its
    /// value.
    pub fn promote_to_signed<F: FloatOps>(&mut self, fl: &F)
        ensures
            ord_of(*final(self)) == signed_ord(ord_of(*old(self)), int_val(*old(self))),
            is_int(*final(self)) ==> int_val(*final(self)) == int_val(*old(self)),
            ord_of(*old(self)) >= 2 ==> *final(self) == *old(self),
    {
        while self.order_rank() <= 1
            invariant
                is_int(*self) ==> int_val(*self) == int_val(*old(self)),
                ord_of(*old(self)) >= 2 ==> *self == *old(self),
                signed_ord(ord_of(*self), int_val(*self)) == signed_ord(
                    ord_of(*old(self)),
                    int_val(*old(self)),
                ),
                ord_of(*self) >= 2 ==> ord_of(*self) == signed_ord(
                    ord_of(*old(self)),
                    int_val(*old(self)),
                ),
            decreases 4 - ord_of(*self),
        {
            self.promote(fl);
        }
    }

    /// Promote this value until it is a float. A value already at float order
    /// is left exactly as it was.
    pub fn promote_to_float<F: FloatOps>(&mut self, fl: &F)
        ensures
            ord_of(*final(self)) == 4,
            ord_of(*old(self)) == 4 ==> *final(self) == *old(self),
    {
        while self.order_rank() < 4
            invariant
                ord_of(*old(self)) == 4 ==> *self == *old(self),
            decreases 4 - ord_of(*self),
        {
            self.promote(fl);
        }
    }

    /// Demote this value to the narrowest valid container type.
    ///
    /// A finite float is tested against the closed ranges of the orders
    /// `u64`, `u128`, `i64`, `i128`, in that sequence, and adopts the first
    /// order whose range contains it, truncated toward zero; demotion is only
    /// meant to be invoked on floats already known to be integral, for which
    /// truncation changes nothing. A NaN, an infinity, a float beyond every
    /// integer range, and a value already at an integer order are all left
    /// unchanged.
    pub fn demote(&mut self)
        ensures
            *final(self) == (match *old(self) {
                Value::Float(b) => if fbits::is_finite_bits(b) {
                    demoted(b)
                } else {
                    *old(self)
                },
                _ => *old(self),
            }),
    {
        let b = match *self {
            Value::Float(b) => b,
            _ => {
                return ;
            },
        };
        if !fbits::f_is_finite(b) {
            return ;
        }
        proof {
            fbits::lemma_int_parts(b);
        }
        let neg = fbits::f_is_neg_val(b);
        let integ = fbits::f_is_integral(b);
        let tm = fbits::f_trunc_mag(b);
        if !neg {
            match tm {
                Option::Some(t) => {
                    let ce: u128 = if integ {
                        t
                    } else {
                        t + 1
                    };
                    if ce <= u64::MAX as u128 {
                        *self = Value::UnsignedInt(t as u64);
                    } else {
                        *self = Value::UnsignedBigInt(t);
                    }
                },
                Option::None => {},
            }
        } else {
            match tm {
                Option::Some(t) => {
                    proof {
                        if fbits::is_integral(b) {
                            fbits::lemma_trunc_pos(b);
                        }
                    }
                    let flm: u128 = if integ {
                        t
                    } else {
                        t + 1
                    };
                    if flm <= 0x8000000000000000u128 {
                        let si: i64 = if t == 0x8000000000000000u128 {
                            i64::MIN
                        } else {
                            -((t as u64) as i64)
                        };
                        *self = Value::SignedInt(si);
                    } else if flm <= 0x80000000000000000000000000000000u128 {
                        let sbi: i128 = if t == 0x80000000000000000000000000000000u128 {
                            i128::MIN
                        } else {
                            -(t as i128)
                        };
                        *self = Value::SignedBigInt(sbi);
                    }
                },
                Option::None => {},
            }
        }
    }

    /// Find the minimum compatible order for `self` and `other` by promoting
    /// the lesser until they match.
    ///
    /// Matching is idempotent: when the orders already agree, both values are
    /// left exactly as they were.
    pub fn match_orders<F: FloatOps>(&mut self, other: &mut Value, fl: &F)
        ensures
            ord_of(*final(self)) == ord_of(*final(other)),
            ord_of(*final(self)) == mord(
                ord_of(*old(self)),
                int_val(*old(self)),
                ord_of(*old(other)),
                int_val(*old(other)),
            ),
            is_int(*final(self)) ==> int_val(*final(self)) == int_val(*old(self)),
            is_int(*final(other)) ==> int_val(*final(other)) == int_val(*old(other)),
            ord_of(*old(self)) == 4 ==> *final(self) == *old(self),
            ord_of(*old(other)) == 4 ==> *final(other) == *old(other),
            ord_of(*old(self)) == ord_of(*old(other)) ==> *final(self) == *old(self)
                && *final(other) == *old(other),
    {
        let ghost m0 = mord(
            ord_of(*old(self)),
            int_val(*old(self)),
            ord_of(*old(other)),
            int_val(*old(other)),
        );
        while self.order_rank() != other.order_rank()
            invariant
                mord(ord_of(*self), int_val(*self), ord_of(*other), int_val(*other)) == m0,
                is_int(*self) ==> int_val(*self) == int_val(*old(self)),
                is_int(*other) ==> int_val(*other) == int_val(*old(other)),
                ord_of(*old(self)) == 4 ==> *self == *old(self),
                ord_of(*old(other)) == 4 ==> *other == *old(other),
                ord_of(*old(self)) == ord_of(*old(other)) ==> *self == *old(self) && *other
                    == *old(other),
            decreases 8 - ord_of(*self) - ord_of(*other),
        {
            let ghost pre_s = *self;
            let ghost pre_o = *other;
            if self.order_rank() < other.order_rank() {
                self.promote(fl);
                proof {
                    if ord_of(*self) == 4 {
                        lemma_mord_top_left(int_val(pre_s), ord_of(pre_o), int_val(pre_o));
                        lemma_mord_top_left(int_val(*self), ord_of(pre_o), int_val(pre_o));
                    }
                }
            } else {
                other.promote(fl);
                proof {
                    if ord_of(*other) == 4 {
                        lemma_mord_top_right(ord_of(pre_s), int_val(pre_s), int_val(pre_o));
                        lemma_mord_top_right(ord_of(pre_s), int_val(pre_s), int_val(*other));
                    }
                }
            }
        }
    }
}

} // verus!
