//! Tests of literal parsing and output formatting.
use calc::render::{Base, OutputFormat, Separator};
use calc::types::{as_u32, ArithmeticError, BasicError};
use calc::{Context, FloatOps, ParseValueError, Value};

/// Host floating-point unit backing the tower's float order.
struct HostFloat;

impl FloatOps for HostFloat {
    fn from_u128(&self, v: u128) -> u64 {
        (v as f64).to_bits()
    }
    fn from_i128(&self, v: i128) -> u64 {
        (v as f64).to_bits()
    }
    fn float_add(&self, a: u64, b: u64) -> u64 {
        (f64::from_bits(a) + f64::from_bits(b)).to_bits()
    }
    fn float_sub(&self, a: u64, b: u64) -> u64 {
        (f64::from_bits(a) - f64::from_bits(b)).to_bits()
    }
    fn float_mul(&self, a: u64, b: u64) -> u64 {
        (f64::from_bits(a) * f64::from_bits(b)).to_bits()
    }
    fn float_div(&self, a: u64, b: u64) -> u64 {
        (f64::from_bits(a) / f64::from_bits(b)).to_bits()
    }
    fn float_rem(&self, a: u64, b: u64) -> u64 {
        (f64::from_bits(a) % f64::from_bits(b)).to_bits()
    }
    fn float_powf(&self, a: u64, b: u64) -> u64 {
        f64::from_bits(a).powf(f64::from_bits(b)).to_bits()
    }
    fn float_powi(&self, a: u64, e: i32) -> u64 {
        f64::from_bits(a).powi(e).to_bits()
    }
    fn float_sin(&self, a: u64) -> u64 {
        f64::from_bits(a).sin().to_bits()
    }
    fn float_cos(&self, a: u64) -> u64 {
        f64::from_bits(a).cos().to_bits()
    }
    fn float_tan(&self, a: u64) -> u64 {
        f64::from_bits(a).tan().to_bits()
    }
    fn float_sinh(&self, a: u64) -> u64 {
        f64::from_bits(a).sinh().to_bits()
    }
    fn float_cosh(&self, a: u64) -> u64 {
        f64::from_bits(a).cosh().to_bits()
    }
    fn float_tanh(&self, a: u64) -> u64 {
        f64::from_bits(a).tanh().to_bits()
    }
    fn float_asin(&self, a: u64) -> u64 {
        f64::from_bits(a).asin().to_bits()
    }
    fn float_acos(&self, a: u64) -> u64 {
        f64::from_bits(a).acos().to_bits()
    }
    fn float_atan(&self, a: u64) -> u64 {
        f64::from_bits(a).atan().to_bits()
    }
    fn float_asinh(&self, a: u64) -> u64 {
        f64::from_bits(a).asinh().to_bits()
    }
    fn float_acosh(&self, a: u64) -> u64 {
        f64::from_bits(a).acosh().to_bits()
    }
    fn float_atanh(&self, a: u64) -> u64 {
        f64::from_bits(a).atanh().to_bits()
    }
    fn float_sqrt(&self, a: u64) -> u64 {
        f64::from_bits(a).sqrt().to_bits()
    }
    fn float_cbrt(&self, a: u64) -> u64 {
        f64::from_bits(a).cbrt().to_bits()
    }
    fn float_log10(&self, a: u64) -> u64 {
        f64::from_bits(a).log10().to_bits()
    }
    fn float_log2(&self, a: u64) -> u64 {
        f64::from_bits(a).log2().to_bits()
    }
    fn float_ln(&self, a: u64) -> u64 {
        f64::from_bits(a).ln().to_bits()
    }
    fn float_exp(&self, a: u64) -> u64 {
        f64::from_bits(a).exp().to_bits()
    }
    fn float_rad(&self, a: u64) -> u64 {
        (f64::from_bits(a) * (std::f64::consts::PI / 180.0)).to_bits()
    }
    fn float_deg(&self, a: u64) -> u64 {
        (f64::from_bits(a) * (180.0 / std::f64::consts::PI)).to_bits()
    }
    fn parse_float(&self, s: &str) -> Option<u64> {
        s.parse::<f64>().ok().map(f64::to_bits)
    }
    fn format_float(&self, a: u64, spec: &str) -> Result<String, String> {
        match num_runtime_fmt::NumFmt::from_str(spec) {
            Ok(f) => f.fmt(f64::from_bits(a)).map_err(|e| e.to_string()),
            Err(e) => Err(e.to_string()),
        }
    }
}


#[test]
fn from_str_radix_picks_the_narrowest_order() {
    assert_eq!(
        Value::from_str_radix("42", 10),
        Ok(Value::UnsignedInt(42))
    );
    assert_eq!(
        Value::from_str_radix("18446744073709551616", 10),
        Ok(Value::UnsignedBigInt(1u128 << 64))
    );
    assert_eq!(
        Value::from_str_radix("-5", 10),
        Ok(Value::SignedInt(-5))
    );
    assert_eq!(
        Value::from_str_radix("-9223372036854775809", 10),
        Ok(Value::SignedBigInt(-9223372036854775809i128))
    );
    assert_eq!(Value::from_str_radix("ff", 16), Ok(Value::UnsignedInt(255)));
    assert_eq!(Value::from_str_radix("+7", 10), Ok(Value::UnsignedInt(7)));
}

#[test]
fn from_str_radix_rejects_stray_characters() {
    assert_eq!(
        Value::from_str_radix("12a", 10),
        Err(ParseValueError::Radix(String::from("12a"), 10))
    );
    assert_eq!(
        Value::from_str_radix("", 10),
        Err(ParseValueError::Radix(String::from(""), 10))
    );
}

#[test]
fn clean_input_strips_underscores_and_markers() {
    assert_eq!(calc::value::parsing::clean_input("0x_ff_ff", "0x"), "ffff");
    assert_eq!(calc::types::clean_input("0b0b101", "0b"), "101");
    assert_eq!(calc::value::parsing::clean_input("123", "0d"), "123");
}

#[test]
fn parse_decimal_falls_back_to_float() {
    assert_eq!(
        Value::parse_decimal("2.5", &HostFloat),
        Ok(Value::Float(2.5f64.to_bits()))
    );
    assert_eq!(
        Value::parse_decimal("10", &HostFloat),
        Ok(Value::UnsignedInt(10))
    );
    assert!(matches!(
        Value::parse_decimal("nope", &HostFloat),
        Err(ParseValueError::Simple(_))
    ));
}

#[test]
fn parse_hex_handles_the_marker() {
    assert_eq!(Value::parse_hex("0xff"), Ok(Value::UnsignedInt(255)));
    assert_eq!(Value::parse_binary("101"), Ok(Value::UnsignedInt(5)));
    assert_eq!(Value::parse_octal("0o17"), Ok(Value::UnsignedInt(15)));
}

#[test]
fn output_format_parses_the_annotation_grammar() {
    let f = OutputFormat::from_str("08x_4").unwrap();
    assert_eq!(
        f,
        OutputFormat {
            pad_0: true,
            pad_width: 8,
            base: Base::Hexadecimal,
            separator: Separator::Underscore,
            group_size: 4,
        }
    );
    let d = OutputFormat::from_str("").unwrap();
    assert_eq!(
        d,
        OutputFormat {
            pad_0: false,
            pad_width: 0,
            base: Base::Decimal,
            separator: Separator::Plain,
            group_size: 3,
        }
    );
    assert_eq!(OutputFormat::from_str("q"), None);
    // a digit group must hold at least one digit
    assert_eq!(OutputFormat::from_str("_0"), None);
}

#[test]
fn render_rejects_what_the_adapter_cannot_take() {
    let zero_group = OutputFormat {
        pad_0: false,
        pad_width: 0,
        base: Base::Decimal,
        separator: Separator::Comma,
        group_size: 0,
    };
    assert!(Value::UnsignedInt(1).render(&zero_group, &HostFloat).is_err());
    let hex = OutputFormat {
        pad_0: false,
        pad_width: 0,
        base: Base::Hexadecimal,
        separator: Separator::Plain,
        group_size: 3,
    };
    assert!(Value::SignedInt(-5).render(&hex, &HostFloat).is_err());
    let plain = OutputFormat::from_str("").unwrap();
    assert!(Value::SignedBigInt(i128::MIN).render(&plain, &HostFloat).is_err());
    // in range, a negative decimal and the zero flag with a width still work
    assert_eq!(Value::SignedInt(i64::MIN).render(&plain, &HostFloat).unwrap(), i64::MIN.to_string());
    assert_eq!(Value::UnsignedInt(7).render(&OutputFormat::from_str("04").unwrap(), &HostFloat).unwrap(), "0007");
}

#[test]
fn render_formats_through_the_adapter() {
    // a round trip that fails if the adapter ignored its arguments
    let f = OutputFormat {
        pad_0: true,
        pad_width: 4,
        base: Base::Hexadecimal,
        separator: Separator::Plain,
        group_size: 3,
    };
    assert_eq!(Value::UnsignedInt(255).render(&f, &HostFloat).unwrap(), "00ff");
    let plain = OutputFormat::from_str("").unwrap();
    assert_eq!(Value::UnsignedInt(12345).render(&plain, &HostFloat).unwrap(), "12345");
    assert_eq!(Value::SignedInt(-1).render(&plain, &HostFloat).unwrap(), "-1");
    assert_eq!(
        Value::Float(2.5f64.to_bits()).render(&plain, &HostFloat).unwrap(),
        "2.5"
    );
}

#[test]
fn evaluate_annotated_renders_with_the_annotation() {
    let mut ctx = Context::new();
    let out = ctx.evaluate_annotated("255 : x", &HostFloat).unwrap();
    assert_eq!(out, "ff");
    let out = ctx.evaluate_annotated("1 + 1", &HostFloat).unwrap();
    assert_eq!(out, "2");
    assert_eq!(ctx.history, vec![Value::UnsignedInt(255), Value::UnsignedInt(2)]);
}

#[test]
fn option_words_join_into_an_expression() {
    let opt = calc::cli::Opt {
        expression: vec![String::from("1"), String::from("+"), String::from("1")],
        version: false,
    };
    assert_eq!(opt.expr(), "1 + 1");
}

#[test]
fn version_data_mentions_every_field() {
    let text = calc::cli::formatted_version_data("calc", "1.0", "main", "abcd", true, "today");
    assert!(text.contains("calc v1.0"));
    assert!(text.contains("main @ abcd (dirty)"));
    assert!(text.contains("build timestamp: today"));
}

#[test]
fn as_u32_reports_direction_of_failure() {
    let over: Result<u32, BasicError<()>> = as_u32(1 << 40);
    assert_eq!(over, Err(BasicError::Arithmetic(ArithmeticError::Overflow)));
    let under: Result<u32, BasicError<()>> = as_u32(-1);
    assert_eq!(under, Err(BasicError::Arithmetic(ArithmeticError::Underflow)));
    let ok: Result<u32, BasicError<()>> = as_u32(7);
    assert_eq!(ok, Ok(7));
}
