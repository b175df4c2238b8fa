//! Output formatting: the compact annotation grammar and the format
//! adapter.
//!
//! An annotation such as `08x_4` selects zero padding, a pad width, a
//! numeric base, and a digit-group separator with its group size. The core
//! parses the annotation into an [`OutputFormat`] and hands the value with a
//! matching format specification to the format adapter — the outside
//! `num_runtime_fmt` crate — which does the digit grouping and padding
//! itself.
use vstd::prelude::*;
use crate::fbits;
use crate::floatops::FloatOps;
use crate::value::parsing::digits_val;
use crate::value::{ord_of, Value};

verus! {

/// A numeric base.
#[derive(Debug, Clone, Copy, PartialEq, Eq, Structural)]
pub enum Base {
    Binary,
    Octal,
    Decimal,
    Hexadecimal,
}

impl Default for Base {
    /// The default base is decimal.
    fn default() -> (r: Self)
        ensures
            r == Base::Decimal,
    {
        Base::Decimal
    }
}

/// Separator between digit groups in the output.
#[derive(Debug, Clone, Copy, PartialEq, Eq, Structural)]
pub enum Separator {
    Plain,
    Underscore,
    Comma,
    Space,
}

impl Default for Separator {
    /// By default digit groups are not separated.
    fn default() -> (r: Self)
        ensures
            r == Separator::Plain,
    {
        Separator::Plain
    }
}

/// Output format.
///
/// This controls the displayed representation of the number.
#[derive(Debug, Clone, Copy, PartialEq, Eq, Structural)]
pub struct OutputFormat {
    pub pad_0: bool,
    pub pad_width: usize,
    pub base: Base,
    pub separator: Separator,
    pub group_size: usize,
}

impl Default for OutputFormat {
    /// No padding, decimal, no separator, groups of three.
    fn default() -> (r: Self)
        ensures
            r == (OutputFormat {
                pad_0: false,
                pad_width: 0,
                base: Base::Decimal,
                separator: Separator::Plain,
                group_size: 3,
            }),
    {
        OutputFormat {
            pad_0: false,
            pad_width: 0,
            base: Base::Decimal,
            separator: Separator::Plain,
            group_size: 3,
        }
    }
}

/// The first position at or after `i` that holds no decimal digit.
pub open spec fn dig_end(cs: Seq<char>, i: int) -> int
    recommends
        0 <= i <= cs.len(),
    decreases cs.len() - i,
        when 0 <= i <= cs.len()
{
    if i < cs.len() && '0' <= cs[i] <= '9' {
        dig_end(cs, i + 1)
    } else {
        i
    }
}

/// The annotation grammar: an optional `0` flag, an optional pad width not
/// beginning with `0`, an optional base letter, an optional separator
/// letter, and an optional positive group size; nothing may follow.
pub open spec fn fmt_spec(cs: Seq<char>) -> Option<OutputFormat> {
    let has0 = cs.len() > 0 && cs[0] == '0';
    let i1: int = if has0 {
        1
    } else {
        0
    };
    let has_w = i1 < cs.len() && '1' <= cs[i1] <= '9';
    let i2 = if has_w {
        dig_end(cs, i1)
    } else {
        i1
    };
    let has_b = i2 < cs.len() && (cs[i2] == 'b' || cs[i2] == 'o' || cs[i2] == 'd' || cs[i2] == 'x');
    let i3: int = if has_b {
        i2 + 1
    } else {
        i2
    };
    let has_s = i3 < cs.len() && (cs[i3] == 'n' || cs[i3] == '_' || cs[i3] == ',' || cs[i3] == 's');
    let i4: int = if has_s {
        i3 + 1
    } else {
        i3
    };
    let has_g = i4 < cs.len() && '0' <= cs[i4] <= '9';
    let i5 = if has_g {
        dig_end(cs, i4)
    } else {
        i4
    };
    if i5 != cs.len() {
        None
    } else if has_w && digits_val(cs.subrange(i1, i2), 10) > usize::MAX {
        None
    } else if has_g && (digits_val(cs.subrange(i4, i5), 10) > usize::MAX || digits_val(
        cs.subrange(i4, i5),
        10,
    ) == 0) {
        None
    } else {
        Some(
            OutputFormat {
                pad_0: has0,
                pad_width: if has_w {
                    digits_val(cs.subrange(i1, i2), 10) as usize
                } else {
                    0
                },
                base: if !has_b {
                    Base::Decimal
                } else if cs[i2] == 'b' {
                    Base::Binary
                } else if cs[i2] == 'o' {
                    Base::Octal
                } else if cs[i2] == 'd' {
                    Base::Decimal
                } else {
                    Base::Hexadecimal
                },
                separator: if !has_s {
                    Separator::Plain
                } else if cs[i3] == 'n' {
                    Separator::Plain
                } else if cs[i3] == '_' {
                    Separator::Underscore
                } else if cs[i3] == ',' {
                    Separator::Comma
                } else {
                    Separator::Space
                },
                group_size: if has_g {
                    digits_val(cs.subrange(i4, i5), 10) as usize
                } else {
                    3
                },
            },
        )
    }
}

/// Whether a character is a decimal digit.
fn is_dec_digit(c: char) -> (r: bool)
    ensures
        r == ('0' <= c <= '9'),
{
    '0' <= c && c <= '9'
}

/// Scan a run of decimal digits starting at `i`, returning where it ends
/// and its value when that value fits in `usize`.
fn scan_digits(v: &Vec<char>, i: usize) -> (r: (usize, Option<usize>))
    requires
        i <= v@.len(),
    ensures
        r.0 == dig_end(v@, i as int),
        i <= r.0 <= v@.len(),
        ({
            match r.1 {
                Some(m) => m == digits_val(v@.subrange(i as int, r.0 as int), 10),
                None => digits_val(v@.subrange(i as int, r.0 as int), 10) > usize::MAX,
            }
        }),
{
    let mut j: usize = i;
    let mut acc: Option<usize> = Some(0);
    while j < v.len() && is_dec_digit(v[j])
        invariant
            i <= j <= v@.len(),
            dig_end(v@, j as int) == dig_end(v@, i as int),
            forall|t: int| i <= t < j ==> '0' <= #[trigger] v@[t] <= '9',
            ({
                match acc {
                    Some(m) => m == digits_val(v@.subrange(i as int, j as int), 10),
                    None => digits_val(v@.subrange(i as int, j as int), 10) > usize::MAX,
                }
            }),
        decreases v@.len() - j,
    {
        let c = v[j];
        let d = (c as u32) - 48;
        proof {
            assert(v@.subrange(i as int, (j + 1) as int).drop_last() =~= v@.subrange(
                i as int,
                j as int,
            ));
            crate::value::parsing::lemma_digits_nonneg(
                v@.subrange(i as int, (j + 1) as int),
                10,
            );
        }
        acc = match acc {
            Option::Some(m) => {
                match m.checked_mul(10) {
                    Option::Some(x) => x.checked_add(d as usize),
                    Option::None => {
                        proof {
                            assert(m as int * 10 >= m as int) by (nonlinear_arith)
                                requires
                                    m as int >= 0,
                            ;
                        }
                        None
                    },
                }
            },
            Option::None => {
                proof {
                    let pre = v@.subrange(i as int, j as int);
                    let cur = v@.subrange(i as int, (j + 1) as int);
                    assert(digits_val(pre, 10) * 10 >= digits_val(pre, 10)) by (nonlinear_arith)
                        requires
                            digits_val(pre, 10) >= 0,
                    ;
                }
                None
            },
        };
        j = j + 1;
    }
    (j, acc)
}

/// What the format adapter renders a `u64` to, as a function of the format
/// specification and the value.
pub uninterp spec fn rendered_u64(spec: Seq<char>, v: u64) -> Seq<char>;

/// What the format adapter renders a `u128` to.
pub uninterp spec fn rendered_u128(spec: Seq<char>, v: u128) -> Seq<char>;

/// What the format adapter renders an `i128` to.
pub uninterp spec fn rendered_i128(spec: Seq<char>, v: i128) -> Seq<char>;

/// Relies on `num_runtime_fmt::NumFmt`: `from_str` parses every
/// specification this library's format text produces, and `fmt` then
/// renders the number, a pure function of the two arguments. The
/// precondition admits only the format text of an output format with a
/// positive group size: the crate's digit grouping does not take a group of
/// zero, and an unsigned value never reaches its negative-digit paths, so
/// the call returns normally on every admitted input.
#[verifier::external_body]
fn adapter_u64(spec: &str, v: u64) -> (r: Result<String, String>)
    requires
        exists|f: OutputFormat| #[trigger] numfmt_text(f) == spec@ && f.group_size >= 1,
    ensures
        r is Ok,
        r matches Ok(s) ==> s@ == rendered_u64(spec@, v),
{
    match num_runtime_fmt::NumFmt::from_str(spec) {
        Ok(f) => f.fmt(v).map_err(|e| format!("{}", e)),
        Err(e) => Err(format!("{}", e)),
    }
}

/// Relies on `num_runtime_fmt::NumFmt`: `from_str` parses every
/// specification this library's format text produces, and `fmt` then
/// renders the number, a pure function of the two arguments. The
/// precondition admits only the format text of an output format with a
/// positive group size: the crate's digit grouping does not take a group of
/// zero, and an unsigned value never reaches its negative-digit paths, so
/// the call returns normally on every admitted input.
#[verifier::external_body]
fn adapter_u128(spec: &str, v: u128) -> (r: Result<String, String>)
    requires
        exists|f: OutputFormat| #[trigger] numfmt_text(f) == spec@ && f.group_size >= 1,
    ensures
        r is Ok,
        r matches Ok(s) ==> s@ == rendered_u128(spec@, v),
{
    match num_runtime_fmt::NumFmt::from_str(spec) {
        Ok(f) => f.fmt(v).map_err(|e| format!("{}", e)),
        Err(e) => Err(format!("{}", e)),
    }
}

/// Relies on `num_runtime_fmt::NumFmt`: `from_str` parses every
/// specification this library's format text produces, and `fmt` then
/// renders the number, a pure function of the two arguments. The
/// precondition admits only the format text of an output format with a
/// positive group size, keeps negative values away from the non-decimal
/// digit iterators (which do not terminate on them), and keeps out the
/// minimal value, whose magnitude the decimal path cannot take; on every
/// admitted input the call returns normally.
#[verifier::external_body]
fn adapter_i128(spec: &str, v: i128) -> (r: Result<String, String>)
    requires
        exists|f: OutputFormat|
            #[trigger] numfmt_text(f) == spec@ && f.group_size >= 1 && (v >= 0 || f.base
                == Base::Decimal),
        v > i128::MIN,
    ensures
        r is Ok,
        r matches Ok(s) ==> s@ == rendered_i128(spec@, v),
{
    match num_runtime_fmt::NumFmt::from_str(spec) {
        Ok(f) => f.fmt(v).map_err(|e| format!("{}", e)),
        Err(e) => Err(format!("{}", e)),
    }
}

/// The decimal digits of `n`.
fn dec_chars(n: usize) -> (r: Vec<char>)
    ensures
        r@ == dec_text(n as int),
    decreases n,
{
    let d = (n % 10) as u32;
    let c: char = match d {
        0 => '0',
        1 => '1',
        2 => '2',
        3 => '3',
        4 => '4',
        5 => '5',
        6 => '6',
        7 => '7',
        8 => '8',
        _ => '9',
    };
    if n < 10 {
        let mut v: Vec<char> = Vec::new();
        v.push(c);
        proof {
            assert(v@.drop_last() =~= Seq::<char>::empty());
        }
        v
    } else {
        let mut v = dec_chars(n / 10);
        let ghost pre = v@;
        v.push(c);
        proof {
            assert(v@.drop_last() =~= pre);
        }
        v
    }
}

/// The format-adapter specification text for an output format: the zero
/// flag, the width, the base letter, and the separator with its spacing.
pub open spec fn numfmt_text(f: OutputFormat) -> Seq<char> {
    (if f.pad_0 && f.pad_width > 0 {
        seq!['0']
    } else {
        Seq::<char>::empty()
    }) + (if f.pad_width > 0 {
        dec_text(f.pad_width as int)
    } else {
        Seq::<char>::empty()
    }) + (match f.base {
        Base::Binary => seq!['b'],
        Base::Octal => seq!['o'],
        Base::Decimal => seq!['d'],
        Base::Hexadecimal => seq!['x'],
    }) + (match f.separator {
        Separator::Plain => Seq::<char>::empty(),
        Separator::Underscore => seq!['_'] + dec_text(f.group_size as int),
        Separator::Comma => seq![','] + dec_text(f.group_size as int),
        Separator::Space => seq![' '] + dec_text(f.group_size as int),
    })
}

/// The character for a decimal digit.
pub open spec fn digit_char(d: int) -> char {
    if d == 0 {
        '0'
    } else if d == 1 {
        '1'
    } else if d == 2 {
        '2'
    } else if d == 3 {
        '3'
    } else if d == 4 {
        '4'
    } else if d == 5 {
        '5'
    } else if d == 6 {
        '6'
    } else if d == 7 {
        '7'
    } else if d == 8 {
        '8'
    } else {
        '9'
    }
}

/// The decimal digits of `n`, most significant first.
pub open spec fn dec_text(n: int) -> Seq<char>
    recommends
        n >= 0,
    decreases n,
        when n >= 0
{
    if n < 10 {
        seq![digit_char(n)]
    } else {
        dec_text(n / 10).push(digit_char(n % 10))
    }
}

impl OutputFormat {
    /// Parse an output format from its compact annotation text; `None` when
    /// the text does not follow the annotation grammar.
    pub fn from_str(s: &str) -> (r: Option<OutputFormat>)
        ensures
            r == fmt_spec(s@),
    {
        let cs = crate::value::parsing::str_chars(s);
        let n = cs.len();
        let mut i: usize = 0;
        let mut out = OutputFormat {
            pad_0: false,
            pad_width: 0,
            base: Base::Decimal,
            separator: Separator::Plain,
            group_size: 3,
        };
        if i < n && cs[i] == '0' {
            out.pad_0 = true;
            i = i + 1;
        }
        if i < n && {
            let c = cs[i];
            '1' <= c && c <= '9'
        } {
            let (end, val) = scan_digits(&cs, i);
            match val {
                Option::Some(w) => {
                    out.pad_width = w;
                },
                Option::None => {
                    return None;
                },
            }
            i = end;
        }
        if i < n && (cs[i] == 'b' || cs[i] == 'o' || cs[i] == 'd' || cs[i] == 'x') {
            out.base = if cs[i] == 'b' {
                Base::Binary
            } else if cs[i] == 'o' {
                Base::Octal
            } else if cs[i] == 'd' {
                Base::Decimal
            } else {
                Base::Hexadecimal
            };
            i = i + 1;
        }
        if i < n && (cs[i] == 'n' || cs[i] == '_' || cs[i] == ',' || cs[i] == 's') {
            out.separator = if cs[i] == 'n' {
                Separator::Plain
            } else if cs[i] == '_' {
                Separator::Underscore
            } else if cs[i] == ',' {
                Separator::Comma
            } else {
                Separator::Space
            };
            i = i + 1;
        }
        if i < n && {
            let c = cs[i];
            '0' <= c && c <= '9'
        } {
            let (end, val) = scan_digits(&cs, i);
            match val {
                Option::Some(g) => {
                    if g == 0 {
                        return None;
                    }
                    out.group_size = g;
                },
                Option::None => {
                    return None;
                },
            }
            i = end;
        }
        if i != n {
            return None;
        }
        Some(out)
    }
}

impl Value {
    /// Whether the value is negative: unsigned orders never are, and a
    /// float is negative exactly when its sign bit is set.
    pub fn is_negative(&self) -> (r: bool)
        ensures
            r == (match *self {
                Value::UnsignedInt(_) | Value::UnsignedBigInt(_) => false,
                Value::SignedInt(n) => n < 0,
                Value::SignedBigInt(n) => n < 0,
                Value::Float(b) => fbits::sign_of(b) == 1,
            }),
    {
        match self {
            Value::UnsignedInt(_) | Value::UnsignedBigInt(_) => false,
            Value::SignedInt(n) => *n < 0,
            Value::SignedBigInt(n) => *n < 0,
            Value::Float(b) => fbits::f_sign(*b) == 1,
        }
    }

    /// Render this value under an output format through the format adapter;
    /// an adapter error is reported as a message string.
    pub fn render<F: FloatOps>(&self, format: &OutputFormat, fl: &F) -> (r: Result<String, String>)
        ensures
            ord_of(*self) < 4 && render_ok(*self, *format) ==> (r matches Ok(s) && render_matches(
                *self,
                *format,
                s@,
            )),
            ord_of(*self) < 4 && !render_ok(*self, *format) ==> r is Err,
    {
        let spec_text = numfmt_string(format);
        let ok_group = format.group_size >= 1;
        match self {
            Value::UnsignedInt(n) => {
                if ok_group {
                    adapter_u64(spec_text.as_str(), *n)
                } else {
                    Err(String::from_str("digit groups must hold at least one digit"))
                }
            },
            Value::UnsignedBigInt(n) => {
                if ok_group {
                    adapter_u128(spec_text.as_str(), *n)
                } else {
                    Err(String::from_str("digit groups must hold at least one digit"))
                }
            },
            Value::SignedInt(n) => {
                let dec = matches!(format.base, Base::Decimal);
                if ok_group && (*n >= 0 || dec) {
                    adapter_i128(spec_text.as_str(), *n as i128)
                } else if !ok_group {
                    Err(String::from_str("digit groups must hold at least one digit"))
                } else {
                    Err(String::from_str("a negative value renders in decimal only"))
                }
            },
            Value::SignedBigInt(n) => {
                let dec = matches!(format.base, Base::Decimal);
                if ok_group && (*n >= 0 || dec) && *n != i128::MIN {
                    adapter_i128(spec_text.as_str(), *n)
                } else if !ok_group {
                    Err(String::from_str("digit groups must hold at least one digit"))
                } else if *n == i128::MIN {
                    Err(String::from_str("the minimal signed value has no rendering"))
                } else {
                    Err(String::from_str("a negative value renders in decimal only"))
                }
            },
            Value::Float(b) => fl.format_float(*b, spec_text.as_str()),
        }
    }
}

/// Whether the format adapter accepts a value under an output format: digit
/// groups must hold at least one digit, a negative value renders in decimal
/// only, and the minimal signed value has no rendering.
pub open spec fn render_ok(v: Value, f: OutputFormat) -> bool {
    f.group_size >= 1 && (match v {
        Value::SignedInt(n) => n >= 0 || f.base == Base::Decimal,
        Value::SignedBigInt(n) => (n >= 0 || f.base == Base::Decimal) && n != i128::MIN,
        _ => true,
    })
}

/// What a successful rendering of an integer-order value looks like, through
/// the adapter's names; signed values render at the widest signed width.
pub open spec fn render_matches(v: Value, f: OutputFormat, s: Seq<char>) -> bool {
    match v {
        Value::UnsignedInt(n) => s == rendered_u64(numfmt_text(f), n),
        Value::UnsignedBigInt(n) => s == rendered_u128(numfmt_text(f), n),
        Value::SignedInt(n) => s == rendered_i128(numfmt_text(f), n as i128),
        Value::SignedBigInt(n) => s == rendered_i128(numfmt_text(f), n),
        Value::Float(_) => true,
    }
}

/// Build the format-adapter specification text for an output format.
fn numfmt_string(f: &OutputFormat) -> (r: String)
    ensures
        r@ == numfmt_text(*f),
{
    let mut parts: Vec<char> = Vec::new();
    if f.pad_0 && f.pad_width > 0 {
        parts.push('0');
    }
    if f.pad_width > 0 {
        let mut w = dec_chars(f.pad_width);
        parts.append(&mut w);
    }
    let bc: char = match f.base {
        Base::Binary => 'b',
        Base::Octal => 'o',
        Base::Decimal => 'd',
        Base::Hexadecimal => 'x',
    };
    parts.push(bc);
    match f.separator {
        Separator::Plain => {},
        Separator::Underscore => {
            parts.push('_');
            let mut g = dec_chars(f.group_size);
            parts.append(&mut g);
        },
        Separator::Comma => {
            parts.push(',');
            let mut g = dec_chars(f.group_size);
            parts.append(&mut g);
        },
        Separator::Space => {
            parts.push(' ');
            let mut g = dec_chars(f.group_size);
            parts.append(&mut g);
        },
    }
    proof {
        assert(parts@ =~= numfmt_text(*f));
    }
    crate::value::parsing::chars_to_string(&parts)
}

} // verus!
