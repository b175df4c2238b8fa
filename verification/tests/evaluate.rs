//! End-to-end tests of expression evaluation and history semantics.
use calc::ast::{HistoryIndexKind, Term};
use calc::{Context, Error, FloatOps, Value, ValueError};

/// Host floating-point unit backing the tower's float order.
struct HostFloat;

impl FloatOps for HostFloat {
    fn from_u128(&self, v: u128) -> u64 {
        (v as f64).to_bits()
    }
    fn from_i128(&self, v: i128) -> u64 {
        (v as f64).to_bits()
    }
    fn float_add(&self, a: u64, b: u64) -> u64 {
        (f64::from_bits(a) + f64::from_bits(b)).to_bits()
    }
    fn float_sub(&self, a: u64, b: u64) -> u64 {
        (f64::from_bits(a) - f64::from_bits(b)).to_bits()
    }
    fn float_mul(&self, a: u64, b: u64) -> u64 {
        (f64::from_bits(a) * f64::from_bits(b)).to_bits()
    }
    fn float_div(&self, a: u64, b: u64) -> u64 {
        (f64::from_bits(a) / f64::from_bits(b)).to_bits()
    }
    fn float_rem(&self, a: u64, b: u64) -> u64 {
        (f64::from_bits(a) % f64::from_bits(b)).to_bits()
    }
    fn float_powf(&self, a: u64, b: u64) -> u64 {
        f64::from_bits(a).powf(f64::from_bits(b)).to_bits()
    }
    fn float_powi(&self, a: u64, e: i32) -> u64 {
        f64::from_bits(a).powi(e).to_bits()
    }
    fn float_sin(&self, a: u64) -> u64 {
        f64::from_bits(a).sin().to_bits()
    }
    fn float_cos(&self, a: u64) -> u64 {
        f64::from_bits(a).cos().to_bits()
    }
    fn float_tan(&self, a: u64) -> u64 {
        f64::from_bits(a).tan().to_bits()
    }
    fn float_sinh(&self, a: u64) -> u64 {
        f64::from_bits(a).sinh().to_bits()
    }
    fn float_cosh(&self, a: u64) -> u64 {
        f64::from_bits(a).cosh().to_bits()
    }
    fn float_tanh(&self, a: u64) -> u64 {
        f64::from_bits(a).tanh().to_bits()
    }
    fn float_asin(&self, a: u64) -> u64 {
        f64::from_bits(a).asin().to_bits()
    }
    fn float_acos(&self, a: u64) -> u64 {
        f64::from_bits(a).acos().to_bits()
    }
    fn float_atan(&self, a: u64) -> u64 {
        f64::from_bits(a).atan().to_bits()
    }
    fn float_asinh(&self, a: u64) -> u64 {
        f64::from_bits(a).asinh().to_bits()
    }
    fn float_acosh(&self, a: u64) -> u64 {
        f64::from_bits(a).acosh().to_bits()
    }
    fn float_atanh(&self, a: u64) -> u64 {
        f64::from_bits(a).atanh().to_bits()
    }
    fn float_sqrt(&self, a: u64) -> u64 {
        f64::from_bits(a).sqrt().to_bits()
    }
    fn float_cbrt(&self, a: u64) -> u64 {
        f64::from_bits(a).cbrt().to_bits()
    }
    fn float_log10(&self, a: u64) -> u64 {
        f64::from_bits(a).log10().to_bits()
    }
    fn float_log2(&self, a: u64) -> u64 {
        f64::from_bits(a).log2().to_bits()
    }
    fn float_ln(&self, a: u64) -> u64 {
        f64::from_bits(a).ln().to_bits()
    }
    fn float_exp(&self, a: u64) -> u64 {
        f64::from_bits(a).exp().to_bits()
    }
    fn float_rad(&self, a: u64) -> u64 {
        (f64::from_bits(a) * (std::f64::consts::PI / 180.0)).to_bits()
    }
    fn float_deg(&self, a: u64) -> u64 {
        (f64::from_bits(a) * (180.0 / std::f64::consts::PI)).to_bits()
    }
    fn parse_float(&self, s: &str) -> Option<u64> {
        s.parse::<f64>().ok().map(f64::to_bits)
    }
    fn format_float(&self, a: u64, spec: &str) -> Result<String, String> {
        match num_runtime_fmt::NumFmt::from_str(spec) {
            Ok(f) => f.fmt(f64::from_bits(a)).map_err(|e| e.to_string()),
            Err(e) => Err(e.to_string()),
        }
    }
}

fn vf(x: f64) -> Value {
    Value::Float(x.to_bits())
}

fn eval(ctx: &mut Context, line: &str) -> Value {
    ctx.evaluate(line, &HostFloat).unwrap()
}

#[test]
fn readme_1_expression_mode() {
    let cases = [("1/(2+(3*(4-5)))", "-1"), ("round(12345 / 543)", "23")];
    for (input, expect) in cases {
        let mut context = Context::new();
        let result = context.evaluate_annotated(input, &HostFloat).unwrap();
        assert_eq!(&result, expect);
    }
}

#[test]
fn shell_sequence_keeps_history() {
    let mut ctx = Context::new();
    assert_eq!(eval(&mut ctx, "1 + 1"), Value::UnsignedInt(2));
    assert_eq!(eval(&mut ctx, "3*(5/(3-4))"), vf(-15.0));
    assert_eq!(eval(&mut ctx, "3*pi**2"), vf(29.608813203268074));
    assert_eq!(eval(&mut ctx, "@+1"), vf(30.608813203268074));
    assert_eq!(eval(&mut ctx, "@@@*2"), vf(-30.0));
    let nan = eval(&mut ctx, "ln(-1)");
    assert!(matches!(nan, Value::Float(b) if f64::from_bits(b).is_nan()));
    assert_eq!(ctx.history.len(), 6);
}

#[test]
fn relative_history_resolves_most_recent() {
    let mut ctx = Context::new();
    assert_eq!(eval(&mut ctx, "528500/100"), vf(5285.0));
    assert_eq!(eval(&mut ctx, "@"), vf(5285.0));
}

#[test]
fn history_reference_on_empty_history_fails() {
    let mut ctx = Context::new();
    let relative = ctx.evaluate("@", &HostFloat);
    assert_eq!(
        relative,
        Err(Error::Eval(ValueError::HistoryOOB(
            HistoryIndexKind::Relative,
            1,
            0
        )))
    );
    let absolute = ctx.evaluate("@0", &HostFloat);
    assert_eq!(
        absolute,
        Err(Error::Eval(ValueError::HistoryOOB(
            HistoryIndexKind::Absolute,
            0,
            0
        )))
    );
    assert_eq!(ctx.history.len(), 0);
}

#[test]
fn absolute_history_is_zero_based() {
    let mut ctx = Context::new();
    eval(&mut ctx, "11");
    eval(&mut ctx, "22");
    assert_eq!(eval(&mut ctx, "@0"), Value::UnsignedInt(11));
    assert_eq!(eval(&mut ctx, "@1"), Value::UnsignedInt(22));
}

#[test]
fn failed_evaluation_does_not_touch_history() {
    let mut ctx = Context::new();
    eval(&mut ctx, "7");
    let before = ctx.history.clone();
    assert!(ctx.evaluate("1/0", &HostFloat).is_err());
    assert!(ctx.evaluate("zzz(", &HostFloat).is_err());
    assert_eq!(ctx.history, before);
}

#[test]
fn integer_only_guard_rejects_floats() {
    let mut ctx = Context::new();
    assert_eq!(
        ctx.evaluate("1.0 & 2", &HostFloat),
        Err(Error::Eval(ValueError::ImproperlyFloat))
    );
    assert_eq!(
        ctx.evaluate("!1.0", &HostFloat),
        Err(Error::Eval(ValueError::ImproperlyFloat))
    );
    assert_eq!(ctx.history.len(), 0);
}

#[test]
fn prefixed_literals_parse_in_their_base() {
    let mut ctx = Context::new();
    assert_eq!(eval(&mut ctx, "0x1f"), Value::UnsignedInt(31));
    assert_eq!(eval(&mut ctx, "0o17"), Value::UnsignedInt(15));
    assert_eq!(eval(&mut ctx, "0b101"), Value::UnsignedInt(5));
    assert_eq!(eval(&mut ctx, "1_000_000"), Value::UnsignedInt(1000000));
}

#[test]
fn precedence_binds_addition_loosest() {
    let mut ctx = Context::new();
    assert_eq!(eval(&mut ctx, "2+2*2"), Value::UnsignedInt(6));
    assert_eq!(eval(&mut ctx, "2**3**2"), Value::UnsignedInt(512));
    assert_eq!(eval(&mut ctx, "-2**2"), Value::SignedInt(4));
    assert_eq!(eval(&mut ctx, "6//4"), Value::UnsignedInt(1));
    assert_eq!(eval(&mut ctx, "1<<4"), Value::UnsignedInt(16));
    assert_eq!(eval(&mut ctx, "2|1&1"), Value::UnsignedInt(3));
}

#[test]
fn overflow_promotes_in_expressions() {
    let mut ctx = Context::new();
    let r = eval(&mut ctx, "18446744073709551615 + 1");
    assert_eq!(r, Value::UnsignedBigInt(1u128 << 64));
}

#[test]
fn evaluating_a_term_directly_matches_the_context() {
    let ctx = Context { history: vec![Value::UnsignedInt(5285)] };
    let term = Term::History(HistoryIndexKind::Relative, 1);
    assert_eq!(term.evaluate(&ctx, &HostFloat), Ok(Value::UnsignedInt(5285)));
}

#[test]
fn parse_errors_carry_spans() {
    let mut ctx = Context::new();
    let err = ctx.evaluate("1 + $", &HostFloat);
    assert!(matches!(
        err,
        Err(Error::Parse(calc::ast::ParseError::InvalidToken { location: 4 }))
    ));
    let err = ctx.evaluate("1 +", &HostFloat);
    assert!(matches!(
        err,
        Err(Error::Parse(calc::ast::ParseError::UnrecognizedEof { .. }))
    ));
    let err = ctx.evaluate("1 2", &HostFloat);
    assert!(matches!(
        err,
        Err(Error::Parse(calc::ast::ParseError::ExtraToken { .. }))
    ));
}

#[test]
fn constants_have_their_float_values() {
    let mut ctx = Context::new();
    assert_eq!(eval(&mut ctx, "pi"), vf(std::f64::consts::PI));
    assert_eq!(eval(&mut ctx, "e"), vf(std::f64::consts::E));
}
