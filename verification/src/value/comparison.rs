//! Equality and ordering on values.
//!
//! Loose comparison promotes both sides to a common order and compares the
//! numbers; strict comparison ranks first by order and only then by value,
//! with no promotion.
use vstd::prelude::*;
use core::cmp::Ordering;
use crate::fbits;
use crate::floatops::FloatOps;
use crate::value::{int_val, is_int, mord, ord_of, Value};

verus! {

/// Strict equality: same order, same value, no promotion. Floats compare
/// under the total order's equality: all NaNs are mutually equal, and the
/// two zeros are distinct.
pub open spec fn strict_eq_spec(a: Value, b: Value) -> bool {
    match (a, b) {
        (Value::UnsignedInt(l), Value::UnsignedInt(r)) => l == r,
        (Value::UnsignedBigInt(l), Value::UnsignedBigInt(r)) => l == r,
        (Value::SignedInt(l), Value::SignedInt(r)) => l == r,
        (Value::SignedBigInt(l), Value::SignedBigInt(r)) => l == r,
        (Value::Float(l), Value::Float(r)) => fbits::float_eq_bits(l, r),
        _ => false,
    }
}

/// Strict ordering: rank by order first, and by value only when the orders
/// agree. Floats order by the total order on patterns.
pub open spec fn strict_cmp_spec(a: Value, b: Value) -> Ordering {
    if ord_of(a) < ord_of(b) {
        Ordering::Less
    } else if ord_of(a) > ord_of(b) {
        Ordering::Greater
    } else if ord_of(a) < 4 {
        if int_val(a) < int_val(b) {
            Ordering::Less
        } else if int_val(a) == int_val(b) {
            Ordering::Equal
        } else {
            Ordering::Greater
        }
    } else {
        if fbits::total_key(crate::value::float_bits(a)) < fbits::total_key(
            crate::value::float_bits(b),
        ) {
            Ordering::Less
        } else if fbits::total_key(crate::value::float_bits(a)) == fbits::total_key(
            crate::value::float_bits(b),
        ) {
            Ordering::Equal
        } else {
            Ordering::Greater
        }
    }
}

/// Compare two integers as an `Ordering`.
fn cmp_ints(l: i128, r: i128) -> (o: Ordering)
    ensures
        (o == Ordering::Less) == (l < r),
        (o == Ordering::Equal) == (l == r),
        (o == Ordering::Greater) == (l > r),
{
    if l < r {
        Ordering::Less
    } else if l == r {
        Ordering::Equal
    } else {
        Ordering::Greater
    }
}

impl Value {
    /// Loose equality across representations: both sides promote to a common
    /// order, then the numbers compare. At float order this is the total
    /// order's equality — all NaNs are mutually equal and the two zeros are
    /// distinct — so equality stays lawful with the ordering.
    pub fn loose_eq<F: FloatOps>(self, other: Value, fl: &F) -> (r: bool)
        ensures
            is_int(self) && is_int(other) && mord(
                ord_of(self),
                int_val(self),
                ord_of(other),
                int_val(other),
            ) < 4 ==> r == (int_val(self) == int_val(other)),
            ord_of(self) == 4 && ord_of(other) == 4 ==> r == fbits::float_eq_bits(
                crate::value::float_bits(self),
                crate::value::float_bits(other),
            ),
    {
        let mut left = self;
        let mut right = other;
        left.match_orders(&mut right, fl);
        match (left, right) {
            (Value::UnsignedInt(l), Value::UnsignedInt(r2)) => l == r2,
            (Value::UnsignedBigInt(l), Value::UnsignedBigInt(r2)) => l == r2,
            (Value::SignedInt(l), Value::SignedInt(r2)) => l == r2,
            (Value::SignedBigInt(l), Value::SignedBigInt(r2)) => l == r2,
            (Value::Float(l), Value::Float(r2)) => fbits::f_eq(l, r2),
            _ => unreached(),
        }
    }

    /// Loose ordering across representations: both sides promote to a common
    /// order, then the numbers compare. At float order this is a total
    /// order: negative values below positive ones, negative zero just below
    /// positive zero, and all NaNs together above every number.
    pub fn loose_cmp<F: FloatOps>(self, other: Value, fl: &F) -> (r: Ordering)
        ensures
            is_int(self) && is_int(other) && mord(
                ord_of(self),
                int_val(self),
                ord_of(other),
                int_val(other),
            ) < 4 ==> {
                &&& (r == Ordering::Less) == (int_val(self) < int_val(other))
                &&& (r == Ordering::Equal) == (int_val(self) == int_val(other))
                &&& (r == Ordering::Greater) == (int_val(self) > int_val(other))
            },
            ord_of(self) == 4 && ord_of(other) == 4 ==> {
                let ka = fbits::total_key(crate::value::float_bits(self));
                let kb = fbits::total_key(crate::value::float_bits(other));
                &&& (r == Ordering::Less) == (ka < kb)
                &&& (r == Ordering::Equal) == (ka == kb)
                &&& (r == Ordering::Greater) == (ka > kb)
            },
    {
        let mut left = self;
        let mut right = other;
        left.match_orders(&mut right, fl);
        match (left, right) {
            (Value::UnsignedInt(l), Value::UnsignedInt(r2)) => cmp_ints(l as i128, r2 as i128),
            (Value::UnsignedBigInt(l), Value::UnsignedBigInt(r2)) => {
                if l < r2 {
                    Ordering::Less
                } else if l == r2 {
                    Ordering::Equal
                } else {
                    Ordering::Greater
                }
            },
            (Value::SignedInt(l), Value::SignedInt(r2)) => cmp_ints(l as i128, r2 as i128),
            (Value::SignedBigInt(l), Value::SignedBigInt(r2)) => cmp_ints(l, r2),
            (Value::Float(l), Value::Float(r2)) => fbits::f_total_cmp(l, r2),
            _ => unreached(),
        }
    }

    /// Perform a strict equality comparison: this is equal only if the values
    /// have equal value and order, without promotion.
    pub fn strict_eq(self, other: Value) -> (r: bool)
        ensures
            r == strict_eq_spec(self, other),
    {
        match (self, other) {
            (Value::UnsignedInt(l), Value::UnsignedInt(r2)) => l == r2,
            (Value::UnsignedBigInt(l), Value::UnsignedBigInt(r2)) => l == r2,
            (Value::SignedInt(l), Value::SignedInt(r2)) => l == r2,
            (Value::SignedBigInt(l), Value::SignedBigInt(r2)) => l == r2,
            (Value::Float(l), Value::Float(r2)) => fbits::f_eq(l, r2),
            _ => false,
        }
    }

    /// Compute a strict ordering: this orders first by [`crate::Order`], then
    /// by value only if the orders match.
    pub fn strict_cmp(self, other: Value) -> (r: Ordering)
        ensures
            r == strict_cmp_spec(self, other),
    {
        let ra = self.order_rank();
        let rb = other.order_rank();
        if ra < rb {
            Ordering::Less
        } else if ra > rb {
            Ordering::Greater
        } else {
            match (self, other) {
                (Value::UnsignedInt(l), Value::UnsignedInt(r2)) => cmp_ints(l as i128, r2 as i128),
                (Value::UnsignedBigInt(l), Value::UnsignedBigInt(r2)) => {
                    if l < r2 {
                        Ordering::Less
                    } else if l == r2 {
                        Ordering::Equal
                    } else {
                        Ordering::Greater
                    }
                },
                (Value::SignedInt(l), Value::SignedInt(r2)) => cmp_ints(l as i128, r2 as i128),
                (Value::SignedBigInt(l), Value::SignedBigInt(r2)) => cmp_ints(l, r2),
                (Value::Float(l), Value::Float(r2)) => fbits::f_total_cmp(l, r2),
                _ => unreached(),
            }
        }
    }
}

} // verus!
