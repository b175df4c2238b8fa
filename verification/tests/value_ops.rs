//! Tests of the value tower: arithmetic, bitwise operations, comparisons,
//! and the rounding family.
use std::cmp::Ordering;
use calc::{ArithmeticError, FloatOps, Value, ValueError};

/// Host floating-point unit backing the tower's float order.
struct HostFloat;

impl FloatOps for HostFloat {
    fn from_u128(&self, v: u128) -> u64 {
        (v as f64).to_bits()
    }
    fn from_i128(&self, v: i128) -> u64 {
        (v as f64).to_bits()
    }
    fn float_add(&self, a: u64, b: u64) -> u64 {
        (f64::from_bits(a) + f64::from_bits(b)).to_bits()
    }
    fn float_sub(&self, a: u64, b: u64) -> u64 {
        (f64::from_bits(a) - f64::from_bits(b)).to_bits()
    }
    fn float_mul(&self, a: u64, b: u64) -> u64 {
        (f64::from_bits(a) * f64::from_bits(b)).to_bits()
    }
    fn float_div(&self, a: u64, b: u64) -> u64 {
        (f64::from_bits(a) / f64::from_bits(b)).to_bits()
    }
    fn float_rem(&self, a: u64, b: u64) -> u64 {
        (f64::from_bits(a) % f64::from_bits(b)).to_bits()
    }
    fn float_powf(&self, a: u64, b: u64) -> u64 {
        f64::from_bits(a).powf(f64::from_bits(b)).to_bits()
    }
    fn float_powi(&self, a: u64, e: i32) -> u64 {
        f64::from_bits(a).powi(e).to_bits()
    }
    fn float_sin(&self, a: u64) -> u64 {
        f64::from_bits(a).sin().to_bits()
    }
    fn float_cos(&self, a: u64) -> u64 {
        f64::from_bits(a).cos().to_bits()
    }
    fn float_tan(&self, a: u64) -> u64 {
        f64::from_bits(a).tan().to_bits()
    }
    fn float_sinh(&self, a: u64) -> u64 {
        f64::from_bits(a).sinh().to_bits()
    }
    fn float_cosh(&self, a: u64) -> u64 {
        f64::from_bits(a).cosh().to_bits()
    }
    fn float_tanh(&self, a: u64) -> u64 {
        f64::from_bits(a).tanh().to_bits()
    }
    fn float_asin(&self, a: u64) -> u64 {
        f64::from_bits(a).asin().to_bits()
    }
    fn float_acos(&self, a: u64) -> u64 {
        f64::from_bits(a).acos().to_bits()
    }
    fn float_atan(&self, a: u64) -> u64 {
        f64::from_bits(a).atan().to_bits()
    }
    fn float_asinh(&self, a: u64) -> u64 {
        f64::from_bits(a).asinh().to_bits()
    }
    fn float_acosh(&self, a: u64) -> u64 {
        f64::from_bits(a).acosh().to_bits()
    }
    fn float_atanh(&self, a: u64) -> u64 {
        f64::from_bits(a).atanh().to_bits()
    }
    fn float_sqrt(&self, a: u64) -> u64 {
        f64::from_bits(a).sqrt().to_bits()
    }
    fn float_cbrt(&self, a: u64) -> u64 {
        f64::from_bits(a).cbrt().to_bits()
    }
    fn float_log10(&self, a: u64) -> u64 {
        f64::from_bits(a).log10().to_bits()
    }
    fn float_log2(&self, a: u64) -> u64 {
        f64::from_bits(a).log2().to_bits()
    }
    fn float_ln(&self, a: u64) -> u64 {
        f64::from_bits(a).ln().to_bits()
    }
    fn float_exp(&self, a: u64) -> u64 {
        f64::from_bits(a).exp().to_bits()
    }
    fn float_rad(&self, a: u64) -> u64 {
        (f64::from_bits(a) * (std::f64::consts::PI / 180.0)).to_bits()
    }
    fn float_deg(&self, a: u64) -> u64 {
        (f64::from_bits(a) * (180.0 / std::f64::consts::PI)).to_bits()
    }
    fn parse_float(&self, s: &str) -> Option<u64> {
        s.parse::<f64>().ok().map(f64::to_bits)
    }
    fn format_float(&self, a: u64, spec: &str) -> Result<String, String> {
        match num_runtime_fmt::NumFmt::from_str(spec) {
            Ok(f) => f.fmt(f64::from_bits(a)).map_err(|e| e.to_string()),
            Err(e) => Err(e.to_string()),
        }
    }
}

fn vf(x: f64) -> Value {
    Value::Float(x.to_bits())
}

fn float_of(v: Value) -> f64 {
    match v {
        Value::Float(b) => f64::from_bits(b),
        other => panic!("expected a float order, got {:?}", other),
    }
}

// ---------- ADD / SUB / MUL ----------

#[test]
fn add_large_unsigned_promotes_to_u128() {
    let left = Value::UnsignedInt(u64::MAX);
    let right = Value::UnsignedInt(1);
    let result = left.add(right, &HostFloat);
    assert!(matches!(result, Value::UnsignedBigInt(_)));
}

#[test]
fn sub_underflow_promotes_to_signed() {
    let left = Value::UnsignedInt(0);
    let right = Value::UnsignedInt(1);
    let result = left.sub(right, &HostFloat);
    assert!(matches!(
        result,
        Value::SignedInt(_) | Value::SignedBigInt(_)
    ));
    assert!(result.loose_eq(Value::SignedInt(-1), &HostFloat));
}

#[test]
fn u64_max_plus_one_promotes_to_u128() {
    let left = Value::UnsignedInt(u64::MAX);
    let right = Value::UnsignedInt(1);
    let result = left.add(right, &HostFloat);
    assert!(matches!(result, Value::UnsignedBigInt(_)));
}

#[test]
fn i64_max_plus_one_promotes_to_i128() {
    let left = Value::SignedInt(i64::MAX);
    let right = Value::SignedInt(1);
    let result = left.add(right, &HostFloat);
    assert!(matches!(result, Value::SignedBigInt(_)));
}

#[test]
fn i128_min_neg_promotes() {
    let val = Value::SignedBigInt(i128::MIN);
    let result = val.neg(&HostFloat);
    assert!(matches!(result, Value::Float(_)));
}

#[test]
fn unsigned_plus_negative_signed_promotes_to_signed() {
    let left = Value::UnsignedInt(u64::MAX);
    let right = Value::SignedInt(-1);
    let result = left.add(right, &HostFloat);
    assert_eq!(result, Value::SignedBigInt((u64::MAX - 1) as i128));
}

#[test]
fn float_and_int_promotes_to_float() {
    let left = Value::UnsignedInt(10);
    let right = vf(2.5);
    let result = left.add(right, &HostFloat);
    assert!(matches!(result, Value::Float(_)));
}

#[test]
fn float_and_bigint_promotes_to_float() {
    let left = Value::UnsignedBigInt(u128::MAX);
    let right = vf(1.5);
    let result = left.mul(right, &HostFloat);
    assert!(matches!(result, Value::Float(_)));
}

// ---------- INFINITY PROPAGATION ----------

#[test]
fn inf_plus_finite_is_inf() {
    let inf = vf(f64::INFINITY);
    let finite = Value::UnsignedInt(42);
    let result = inf.add(finite, &HostFloat);
    assert!(matches!(result, Value::Float(b) if f64::from_bits(b).is_infinite()));
}

#[test]
fn inf_times_zero_is_nan_like() {
    let inf = vf(f64::INFINITY);
    let zero = Value::UnsignedInt(0);
    let result = inf.mul(zero, &HostFloat);
    assert!(matches!(result, Value::Float(b) if f64::from_bits(b).is_nan()));
}

#[test]
fn inf_div_inf_is_nan_like() {
    let inf = vf(f64::INFINITY);
    let result = inf.div(inf, &HostFloat).unwrap();
    assert!(matches!(result, Value::Float(b) if f64::from_bits(b).is_nan()));
}

#[test]
fn zero_div_negative_one_is_negative_zero() {
    let zero = vf(0.0);
    let neg_one = Value::SignedInt(-1);
    let result = zero.div(neg_one, &HostFloat).unwrap();
    let f = float_of(result);
    assert!(f == 0.0 && f.is_sign_negative());
}

// ---------- DIVISION BY ZERO ----------

#[test]
fn div_by_zero_produces_infinity() {
    // At float order a division by zero follows IEEE semantics.
    let left = vf(10.0);
    let right = vf(0.0);
    let result = left.div(right, &HostFloat).unwrap();
    assert_eq!(float_of(result), f64::INFINITY);
    let zero_by_zero = vf(0.0).div(vf(0.0), &HostFloat).unwrap();
    assert!(float_of(zero_by_zero).is_nan());
}

#[test]
fn integer_div_by_zero_is_reported() {
    let left = Value::UnsignedInt(10);
    let right = Value::UnsignedInt(0);
    let result = left.div(right, &HostFloat);
    assert_eq!(
        result,
        Err(ValueError::Arithmetic(ArithmeticError::DivideBy0))
    );
}

#[test]
fn rem_by_zero_is_reported() {
    let left = Value::SignedInt(10);
    let right = Value::SignedInt(0);
    let result = left.rem(right, &HostFloat);
    assert_eq!(
        result,
        Err(ValueError::Arithmetic(ArithmeticError::DivideBy0))
    );
}

#[test]
fn rem_of_integers_is_truncated() {
    let result = Value::SignedInt(-7).rem(Value::SignedInt(3), &HostFloat).unwrap();
    assert_eq!(result, Value::SignedInt(-1));
    let result = Value::UnsignedInt(10).rem(Value::UnsignedInt(4), &HostFloat).unwrap();
    assert_eq!(result, Value::UnsignedInt(2));
}

// ---------- BITWISE ----------

#[test]
fn shl_float_is_error() {
    let left = vf(1.5);
    assert_eq!(left.shl(Value::UnsignedInt(1)), Err(ValueError::ImproperlyFloat));
}

#[test]
fn shr_float_is_error() {
    let left = vf(1.5);
    assert_eq!(left.shr(Value::UnsignedInt(1)), Err(ValueError::ImproperlyFloat));
}

#[test]
fn bitand_float_is_error() {
    let left = vf(1.5);
    assert_eq!(left.bitand(Value::UnsignedInt(1)), Err(ValueError::ImproperlyFloat));
}

#[test]
fn bitor_float_is_error() {
    let left = vf(1.5);
    assert_eq!(left.bitor(Value::UnsignedInt(1)), Err(ValueError::ImproperlyFloat));
}

#[test]
fn bitxor_float_is_error() {
    let left = vf(1.5);
    assert_eq!(left.bitxor(Value::UnsignedInt(1)), Err(ValueError::ImproperlyFloat));
}

#[test]
fn not_float_is_error() {
    let val = vf(1.5);
    assert_eq!(val.not(), Err(ValueError::ImproperlyFloat));
}

#[test]
fn rotate_left_float_is_error() {
    let val = vf(1.5);
    assert_eq!(val.rotate_left(Value::UnsignedInt(1)), Err(ValueError::ImproperlyFloat));
}

#[test]
fn rotate_right_float_is_error() {
    let val = vf(1.5);
    assert_eq!(val.rotate_right(Value::UnsignedInt(1)), Err(ValueError::ImproperlyFloat));
}

#[test]
fn u64_and_u128_promotes_to_u128() {
    let left = Value::UnsignedInt(0b1100);
    let right = Value::UnsignedBigInt(0b1010);
    let result = left.bitand(right).unwrap();
    assert!(matches!(result, Value::UnsignedBigInt(0b1000)));
}

#[test]
fn i64_or_i128_promotes_to_i128() {
    let left = Value::SignedInt(0b1100);
    let right = Value::SignedBigInt(0b0011);
    let result = left.bitor(right).unwrap();
    assert!(matches!(result, Value::SignedBigInt(0b1111)));
}

#[test]
fn u64_xor_i64_promotes_to_signed() {
    let left = Value::UnsignedInt(0b1100);
    let right = Value::SignedInt(0b1010);
    let result = left.bitxor(right).unwrap();
    assert!(matches!(result, Value::SignedInt(0b0110)));
}

#[test]
fn shl_shifts_at_matched_order() {
    let result = Value::UnsignedInt(1).shl(Value::UnsignedInt(4)).unwrap();
    assert_eq!(result, Value::UnsignedInt(16));
}

#[test]
fn shl_overwide_amount_is_overflow() {
    let result = Value::UnsignedInt(1).shl(Value::UnsignedInt(64));
    assert_eq!(result, Err(ValueError::Arithmetic(ArithmeticError::Overflow)));
}

#[test]
fn rotate_left_wraps_bits() {
    let result = Value::UnsignedInt(1u64 << 63).rotate_left(Value::UnsignedInt(1)).unwrap();
    assert_eq!(result, Value::UnsignedInt(1));
}

#[test]
fn rotate_right_wraps_bits() {
    let result = Value::UnsignedInt(1).rotate_right(Value::UnsignedInt(1)).unwrap();
    assert_eq!(result, Value::UnsignedInt(1u64 << 63));
}

// ---------- COMPARISON ----------

#[test]
fn float_total_cmp_nan_behavior() {
    let nan1 = vf(f64::NAN);
    let nan2 = vf(f64::NAN);
    // NaN equals NaN under the total order, keeping equality lawful with
    // the ordering
    assert!(nan1.loose_eq(nan2, &HostFloat));
    assert_eq!(nan1.loose_cmp(nan2, &HostFloat), Ordering::Equal);
    // every NaN, whatever its payload or sign, falls in one class
    let other_payload = Value::Float(f64::NAN.to_bits() | 1);
    let negative_nan = vf(-f64::NAN);
    assert!(nan1.loose_eq(other_payload, &HostFloat));
    assert!(nan1.strict_eq(negative_nan));
    assert_eq!(nan1.loose_cmp(other_payload, &HostFloat), Ordering::Equal);
    // and ranks above every number
    assert_eq!(nan1.loose_cmp(vf(f64::INFINITY), &HostFloat), Ordering::Greater);
}

#[test]
fn the_two_zeros_are_ordered_and_distinct() {
    let neg_zero = vf(-0.0);
    let pos_zero = vf(0.0);
    assert!(!neg_zero.loose_eq(pos_zero, &HostFloat));
    assert!(!neg_zero.strict_eq(pos_zero));
    assert_eq!(neg_zero.loose_cmp(pos_zero, &HostFloat), Ordering::Less);
}

#[test]
fn float_ordering_total_cmp() {
    let neg_zero = vf(-0.0);
    let pos_zero = vf(0.0);
    assert_eq!(
        neg_zero.loose_cmp(pos_zero, &HostFloat),
        f64::total_cmp(&-0.0, &0.0)
    );
}

#[test]
fn strict_eq_same_variant_same_value() {
    let a = Value::UnsignedInt(42);
    let b = Value::UnsignedInt(42);
    assert!(a.strict_eq(b));
}

#[test]
fn strict_eq_different_variants_same_value() {
    let a = Value::UnsignedInt(42);
    let b = Value::UnsignedBigInt(42);
    // Same numeric value, but different variants
    assert!(!a.strict_eq(b));
}

#[test]
fn strict_cmp_same_variant() {
    let a = Value::SignedInt(10);
    let b = Value::SignedInt(20);
    assert_eq!(a.strict_cmp(b), Ordering::Less);
}

#[test]
fn strict_cmp_different_variants() {
    let a = Value::UnsignedInt(10);
    let b = Value::UnsignedBigInt(10);
    // Different variants: strict_cmp should order by the order rank first
    assert_eq!(a.strict_cmp(b), Ordering::Less);
}

#[test]
fn equality_large_values_promote() {
    let a = Value::UnsignedInt(u64::MAX);
    let b = Value::UnsignedBigInt(u64::MAX as u128);
    assert!(a.loose_eq(b, &HostFloat));
}

#[test]
fn ordering_signed_vs_unsigned() {
    let a = Value::SignedInt(-1);
    let b = Value::UnsignedInt(1);
    assert_eq!(a.loose_cmp(b, &HostFloat), Ordering::Less);
}

#[test]
fn ordering_float_vs_int() {
    let a = vf(3.5);
    let b = Value::SignedInt(4);
    assert_eq!(a.loose_cmp(b, &HostFloat), Ordering::Less);
}

#[test]
fn cross_order_equality_of_forty_two() {
    // every representation of 42 compares equal under loose equality ...
    let all = [
        Value::UnsignedInt(42),
        Value::UnsignedBigInt(42),
        Value::SignedInt(42),
        Value::SignedBigInt(42),
        vf(42.0),
    ];
    for a in all {
        for b in all {
            assert!(a.loose_eq(b, &HostFloat), "{:?} == {:?}", a, b);
        }
    }
    // ... while strict equality rejects all but same-variant pairs
    for (i, a) in all.iter().enumerate() {
        for (j, b) in all.iter().enumerate() {
            assert_eq!(a.strict_eq(*b), i == j, "{:?} vs {:?}", a, b);
        }
    }
}

// ---------- ROUNDING FAMILY ----------

#[test]
fn ceil_of_large_float_demotes_to_bigint() {
    let val = vf(u64::MAX as f64 * 1.5);
    let result = val.ceil();
    assert!(matches!(result, Value::UnsignedBigInt(_)));
}

#[test]
fn floor_of_negative_float_demotes_to_signed() {
    let val = vf(-123.45);
    let result = val.floor();
    assert!(matches!(result, Value::SignedInt(_)));
    assert_eq!(result, Value::SignedInt(-124));
}

#[test]
fn round_half_goes_away_from_zero() {
    assert_eq!(vf(2.5).round(), Value::UnsignedInt(3));
    assert_eq!(vf(-2.5).round(), Value::SignedInt(-3));
    assert_eq!(vf(2.4).round(), Value::UnsignedInt(2));
}

#[test]
fn trunc_div_large_float_by_int_promotes_to_bigint() {
    let left = vf(u64::MAX as f64 * 3.0);
    let right = Value::UnsignedInt(2);
    let result = left.trunc_div(right, &HostFloat).unwrap();
    assert!(matches!(result, Value::UnsignedBigInt(_)));
}

#[test]
fn trunc_div_middling_large_float_by_int_promotes_to_bigint() {
    let left = vf(u64::MAX as f64 * 1.5);
    let right = Value::UnsignedInt(2);
    let result = left.trunc_div(right, &HostFloat).unwrap();
    assert!(matches!(result, Value::UnsignedInt(_)));
}

#[test]
fn trunc_div_negative_float_by_positive_int_is_signed() {
    let left = vf(-123.45);
    let right = Value::UnsignedInt(2);
    let result = left.trunc_div(right, &HostFloat).unwrap();
    assert!(matches!(result, Value::SignedInt(_)));
}

#[test]
fn trunc_div_positive_int_by_negative_float_is_signed() {
    let left = Value::UnsignedInt(123);
    let right = vf(-2.5);
    let result = left.trunc_div(right, &HostFloat).unwrap();
    assert!(matches!(result, Value::SignedInt(_)));
}

// ---------- POW / AS_U32 ----------

#[test]
fn pow_stays_exact_at_integer_orders() {
    let result = Value::UnsignedInt(10)
        .pow(Value::UnsignedInt(30), &HostFloat)
        .unwrap();
    assert_eq!(result, Value::UnsignedBigInt(10u128.pow(30)));
}

#[test]
fn pow_of_negative_base_is_exact() {
    let result = Value::SignedInt(-3)
        .pow(Value::UnsignedInt(5), &HostFloat)
        .unwrap();
    assert_eq!(result, Value::SignedInt(-243));
}

#[test]
fn pow_with_negative_exponent_is_overflow() {
    let result = Value::UnsignedInt(2).pow(Value::SignedInt(-1), &HostFloat);
    assert_eq!(result, Err(ValueError::Arithmetic(ArithmeticError::Overflow)));
}

#[test]
fn pow_with_fractional_exponent_is_improperly_float() {
    let result = Value::UnsignedInt(2).pow(vf(0.5), &HostFloat);
    assert_eq!(result, Err(ValueError::ImproperlyFloat));
}

#[test]
fn abs_of_signed_minimum_widens() {
    let result = Value::SignedInt(i64::MIN).abs(&HostFloat);
    assert_eq!(result, Value::SignedBigInt(-(i64::MIN as i128)));
}

// ---------- TRANSCENDENTAL ----------

#[test]
fn sqrt_forces_float_order() {
    let result = Value::UnsignedInt(9).sqrt(&HostFloat);
    assert_eq!(float_of(result), 3.0);
}

#[test]
fn ln_of_negative_one_is_nan() {
    let result = Value::SignedInt(-1).ln(&HostFloat);
    assert!(float_of(result).is_nan());
}

// ---------- PROMOTION LATTICE ----------

#[test]
fn promotion_climbs_to_float_within_four_steps() {
    let mut v = Value::UnsignedInt(5);
    let mut steps = 0;
    while !matches!(v, Value::Float(_)) {
        let before = v.order();
        v.promote(&HostFloat);
        assert!(v.order().rank() > before.rank());
        steps += 1;
        assert!(steps <= 4);
    }
    let mut w = v;
    w.promote(&HostFloat);
    assert_eq!(w, v);
}

#[test]
fn promotion_preserves_integer_values() {
    let mut v = Value::UnsignedInt(42);
    v.promote(&HostFloat);
    assert_eq!(v, Value::UnsignedBigInt(42));
    v.promote(&HostFloat);
    assert_eq!(v, Value::SignedInt(42));
    v.promote(&HostFloat);
    assert_eq!(v, Value::SignedBigInt(42));
    v.promote(&HostFloat);
    assert_eq!(v, vf(42.0));
}

#[test]
fn large_u128_promotes_straight_to_float() {
    let mut v = Value::UnsignedBigInt(u128::MAX);
    v.promote(&HostFloat);
    assert!(matches!(v, Value::Float(_)));
}

#[test]
fn match_orders_is_idempotent() {
    let mut a = Value::UnsignedInt(7);
    let mut b = Value::SignedBigInt(-2);
    a.match_orders(&mut b, &HostFloat);
    assert_eq!(a.order(), b.order());
    let (a1, b1) = (a, b);
    a.match_orders(&mut b, &HostFloat);
    assert_eq!((a, b), (a1, b1));
}

#[test]
fn demote_narrows_an_integral_float() {
    let mut v = vf(123.0);
    v.promote_to_float(&HostFloat);
    v.demote();
    assert_eq!(v, Value::UnsignedInt(123));

    let mut neg = vf(-4.0);
    neg.demote();
    assert_eq!(neg, Value::SignedInt(-4));

    let mut huge = vf(1e40);
    huge.demote();
    assert_eq!(huge, vf(1e40));

    let mut nan = vf(f64::NAN);
    nan.demote();
    assert!(matches!(nan, Value::Float(b) if f64::from_bits(b).is_nan()));
}
