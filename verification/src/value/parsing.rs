//! Parsing numeric literals into values.
//!
//! A literal is cleaned — underscores dropped, a leading base marker
//! trimmed — and then attempted in ascending order: `u64`, `u128`, `i64`,
//! `i128`, and, for decimal literals only, the host float parser. The first
//! representation that parses without error wins, which realizes "use the
//! narrowest representation that fits".
use vstd::prelude::*;
use crate::floatops::FloatOps;
use crate::value::{ParseValueError, Value};

verus! {

/// The sequence with every underscore removed.
pub open spec fn strip_underscores(s: Seq<char>) -> Seq<char>
    decreases s.len(),
{
    if s.len() == 0 {
        Seq::empty()
    } else {
        strip_underscores(s.drop_last()) + (if s.last() == '_' {
            Seq::<char>::empty()
        } else {
            seq![s.last()]
        })
    }
}

/// The sequence with every leading copy of a non-empty prefix removed.
pub open spec fn trim_prefix(s: Seq<char>, p: Seq<char>) -> Seq<char>
    decreases s.len(),
{
    if 0 < p.len() <= s.len() && s.subrange(0, p.len() as int) == p {
        trim_prefix(s.skip(p.len() as int), p)
    } else {
        s
    }
}

/// The numeric value of a digit character, or an out-of-range marker for a
/// character that is no digit in any radix.
pub open spec fn digit_val(c: char) -> int {
    if '0' <= c <= '9' {
        c as int - 48
    } else if 'a' <= c <= 'z' {
        c as int - 97 + 10
    } else if 'A' <= c <= 'Z' {
        c as int - 65 + 10
    } else {
        255
    }
}

/// Whether the sequence is a non-empty run of digits valid in the radix.
pub open spec fn is_digits(s: Seq<char>, radix: int) -> bool {
    s.len() > 0 && forall|i: int| 0 <= i < s.len() ==> digit_val(s[i]) < radix
}

/// The integer a digit run denotes in the radix.
pub open spec fn digits_val(s: Seq<char>, radix: int) -> int
    decreases s.len(),
{
    if s.len() == 0 {
        0
    } else {
        digits_val(s.drop_last(), radix) * radix + digit_val(s.last())
    }
}

/// The value a cleaned literal parses to in the radix, tried in ascending
/// order, or `None` when no representation holds it.
pub open spec fn radix_parse_spec(cs: Seq<char>, radix: int) -> Option<Value> {
    if cs.len() > 0 && cs[0] == '-' {
        let ds = cs.skip(1);
        if is_digits(ds, radix) {
            let n = digits_val(ds, radix);
            if -n >= i64::MIN {
                Some(Value::SignedInt((-n) as i64))
            } else if -n >= i128::MIN {
                Some(Value::SignedBigInt((-n) as i128))
            } else {
                None
            }
        } else {
            None
        }
    } else {
        let ds = if cs.len() > 0 && cs[0] == '+' {
            cs.skip(1)
        } else {
            cs
        };
        if is_digits(ds, radix) {
            let n = digits_val(ds, radix);
            if n <= u64::MAX {
                Some(Value::UnsignedInt(n as u64))
            } else if n <= u128::MAX {
                Some(Value::UnsignedBigInt(n as u128))
            } else {
                None
            }
        } else {
            None
        }
    }
}

/// Collect a string's characters into a vector.
pub(crate) fn str_chars(s: &str) -> (v: Vec<char>)
    ensures
        v@ == s@,
{
    let n = s.unicode_len();
    let mut v: Vec<char> = Vec::new();
    let mut i: usize = 0;
    while i < n
        invariant
            i <= n,
            n == s@.len(),
            v@ == s@.subrange(0, i as int),
        decreases n - i,
    {
        let c = s.get_char(i);
        v.push(c);
        proof {
            assert(v@ =~= s@.subrange(0, (i + 1) as int));
        }
        i = i + 1;
    }
    proof {
        assert(v@ =~= s@);
    }
    v
}

/// Collect a vector of characters into a string.
///
/// Relies on `String`'s `FromIterator` implementation over characters: the
/// collected string holds exactly the given characters in order.
#[verifier::external_body]
pub(crate) fn chars_to_string(v: &Vec<char>) -> (s: String)
    ensures
        s@ == v@,
{
    v.iter().collect()
}

/// Drop every underscore from a character vector.
fn strip_underscores_vec(v: &Vec<char>) -> (r: Vec<char>)
    ensures
        r@ == strip_underscores(v@),
{
    let mut out: Vec<char> = Vec::new();
    let mut i: usize = 0;
    while i < v.len()
        invariant
            i <= v@.len(),
            out@ == strip_underscores(v@.subrange(0, i as int)),
        decreases v@.len() - i,
    {
        let c = v[i];
        if c != '_' {
            out.push(c);
        }
        proof {
            let pre = v@.subrange(0, i as int);
            let cur = v@.subrange(0, (i + 1) as int);
            assert(cur.drop_last() =~= pre);
            assert(cur.last() == v@[i as int]);
        }
        i = i + 1;
    }
    proof {
        assert(v@.subrange(0, v@.len() as int) =~= v@);
    }
    out
}

/// Drop every leading copy of a non-empty prefix from a character vector.
fn trim_prefix_vec(v: Vec<char>, p: &Vec<char>) -> (r: Vec<char>)
    ensures
        r@ == trim_prefix(v@, p@),
{
    if p.len() == 0 {
        return v;
    }
    let mut cur = v;
    loop
        invariant
            p@.len() > 0,
            trim_prefix(cur@, p@) == trim_prefix(v@, p@),
        decreases cur@.len(),
    {
        if p.len() > cur.len() {
            return cur;
        }
        let mut j: usize = 0;
        let mut matches_prefix = true;
        while j < p.len()
            invariant
                j <= p@.len(),
                p@.len() <= cur@.len(),
                matches_prefix == (forall|t: int| 0 <= t < j ==> cur@[t] == p@[t]),
            decreases p@.len() - j,
        {
            if cur[j] != p[j] {
                matches_prefix = false;
            }
            j = j + 1;
        }
        if !matches_prefix {
            proof {
                let t = choose|t: int| 0 <= t < p@.len() && cur@[t] != p@[t];
                assert(cur@.subrange(0, p@.len() as int)[t] == cur@[t]);
                assert(cur@.subrange(0, p@.len() as int) != p@);
            }
            return cur;
        }
        proof {
            assert(cur@.subrange(0, p@.len() as int) =~= p@);
        }
        let mut rest: Vec<char> = Vec::new();
        let mut k: usize = p.len();
        while k < cur.len()
            invariant
                p@.len() <= k <= cur@.len(),
                rest@ == cur@.subrange(p@.len() as int, k as int),
            decreases cur@.len() - k,
        {
            rest.push(cur[k]);
            proof {
                assert(cur@.subrange(p@.len() as int, (k + 1) as int) =~= cur@.subrange(
                    p@.len() as int,
                    k as int,
                ).push(cur@[k as int]));
            }
            k = k + 1;
        }
        proof {
            assert(rest@ =~= cur@.skip(p@.len() as int));
            assert(cur@.subrange(0, p@.len() as int) =~= p@);
        }
        cur = rest;
    }
}

/// Strip underscores and every leading copy of a base marker from the input.
pub fn clean_input(s: &str, leading: &str) -> (r: String)
    ensures
        r@ == trim_prefix(strip_underscores(s@), leading@),
{
    let cs = str_chars(s);
    let stripped = strip_underscores_vec(&cs);
    let p = str_chars(leading);
    let trimmed = trim_prefix_vec(stripped, &p);
    chars_to_string(&trimmed)
}

/// Parse a non-empty digit run in a radix, reading the characters from
/// `ds[start..]`; `None` when a character is no digit of the radix or the
/// value exceeds `u128`.
fn parse_digits(ds: &Vec<char>, start: usize, radix: u32) -> (r: Option<u128>)
    requires
        start <= ds@.len(),
        2 <= radix <= 36,
    ensures
        ({
            let tail = ds@.skip(start as int);
            match r {
                Some(m) => is_digits(tail, radix as int) && m == digits_val(tail, radix as int),
                None => !is_digits(tail, radix as int) || digits_val(tail, radix as int)
                    > u128::MAX,
            }
        }),
{
    let ghost tail = ds@.skip(start as int);
    if start == ds.len() {
        return None;
    }
    let mut acc: u128 = 0;
    let mut i: usize = start;
    while i < ds.len()
        invariant
            start <= i <= ds@.len(),
            start < ds@.len(),
            2 <= radix <= 36,
            tail == ds@.skip(start as int),
            acc == digits_val(ds@.subrange(start as int, i as int), radix as int),
            forall|k: int|
                start <= k < i ==> digit_val(ds@[k]) < radix,
        decreases ds@.len() - i,
    {
        let c = ds[i];
        let d: u32 = if '0' <= c && c <= '9' {
            (c as u32) - 48
        } else if 'a' <= c && c <= 'z' {
            (c as u32) - 97 + 10
        } else if 'A' <= c && c <= 'Z' {
            (c as u32) - 65 + 10
        } else {
            255
        };
        if d >= radix {
            proof {
                assert(digit_val(tail[(i - start) as int]) >= radix);
            }
            return None;
        }
        let shifted = match acc.checked_mul(radix as u128) {
            Option::Some(x) => x,
            Option::None => {
                proof {
                    lemma_digits_val_grows(tail, (i - start + 1) as int, radix as int);
                    assert(ds@.subrange(start as int, (i + 1) as int).drop_last() =~= ds@.subrange(
                        start as int,
                        i as int,
                    ));
                    assert(tail.subrange(0, (i - start + 1) as int) =~= ds@.subrange(
                        start as int,
                        (i + 1) as int,
                    ));
                    assert(acc as int * radix as int >= 0) by (nonlinear_arith)
                        requires
                            acc as int >= 0,
                            radix as int >= 2,
                    ;
                }
                return None;
            },
        };
        let total = match shifted.checked_add(d as u128) {
            Option::Some(x) => x,
            Option::None => {
                proof {
                    lemma_digits_val_grows(tail, (i - start + 1) as int, radix as int);
                    assert(ds@.subrange(start as int, (i + 1) as int).drop_last() =~= ds@.subrange(
                        start as int,
                        i as int,
                    ));
                    assert(tail.subrange(0, (i - start + 1) as int) =~= ds@.subrange(
                        start as int,
                        (i + 1) as int,
                    ));
                }
                return None;
            },
        };
        proof {
            assert(ds@.subrange(start as int, (i + 1) as int).drop_last() =~= ds@.subrange(
                start as int,
                i as int,
            ));
        }
        acc = total;
        i = i + 1;
    }
    proof {
        assert(ds@.subrange(start as int, ds@.len() as int) =~= tail);
    }
    Some(acc)
}

/// A digit run denotes a non-negative value.
pub proof fn lemma_digits_nonneg(s: Seq<char>, radix: int)
    requires
        radix >= 2,
    ensures
        digits_val(s, radix) >= 0,
    decreases s.len(),
{
    if s.len() > 0 {
        lemma_digits_nonneg(s.drop_last(), radix);
        assert(digits_val(s.drop_last(), radix) * radix >= 0) by (nonlinear_arith)
            requires
                digits_val(s.drop_last(), radix) >= 0,
                radix >= 2,
        ;
    }
}

/// A digit run denotes at least the value of any of its prefixes.
proof fn lemma_digits_val_grows(s: Seq<char>, n: int, radix: int)
    requires
        0 <= n <= s.len(),
        radix >= 2,
        forall|i: int| 0 <= i < s.len() ==> 0 <= digit_val(s[i]),
    ensures
        digits_val(s, radix) >= digits_val(s.subrange(0, n), radix),
        digits_val(s, radix) >= 0,
    decreases s.len(),
{
    if s.len() == 0 {
    } else {
        lemma_digits_val_grows(s.drop_last(), if n > s.len() - 1 {
            s.len() - 1
        } else {
            n
        }, radix);
        assert(digits_val(s.drop_last(), radix) * radix >= digits_val(s.drop_last(), radix))
            by (nonlinear_arith)
            requires
                digits_val(s.drop_last(), radix) >= 0,
                radix >= 2,
        ;
        if n <= s.len() - 1 {
            assert(s.drop_last().subrange(0, n) =~= s.subrange(0, n));
        } else {
            assert(s.subrange(0, n) =~= s);
        }
    }
}

impl Value {
    /// Parses an integer from a string slice with digits in a given base.
    ///
    /// The string is expected to be an optional `+` or `-` sign followed by
    /// only digits; anything else — including leading or trailing non-digit
    /// characters — is an error carrying the text and the radix. The first
    /// of the representations `u64`, `u128`, `i64`, `i128` that can hold the
    /// denoted number is used.
    pub fn from_str_radix(src: &str, radix: u32) -> (r: Result<Value, ParseValueError>)
        requires
            2 <= radix <= 36,
        ensures
            ({
                match radix_parse_spec(src@, radix as int) {
                    Some(v) => r == Ok::<Value, ParseValueError>(v),
                    None => (r matches Err(e) && e matches ParseValueError::Radix(t, rx) && t@
                        == src@ && rx == radix),
                }
            }),
    {
        let cs = str_chars(src);
        let err_text = chars_to_string(&cs);
        let err = ParseValueError::Radix(err_text, radix);
        if cs.len() > 0 && cs[0] == '-' {
            match parse_digits(&cs, 1, radix) {
                Option::Some(m) => {
                    proof {
                        assert(cs@.skip(1) =~= src@.skip(1));
                    }
                    if m <= 0x8000000000000000u128 {
                        let si: i64 = if m == 0x8000000000000000u128 {
                            i64::MIN
                        } else {
                            -((m as u64) as i64)
                        };
                        Ok(Value::SignedInt(si))
                    } else if m <= 0x80000000000000000000000000000000u128 {
                        let sbi: i128 = if m == 0x80000000000000000000000000000000u128 {
                            i128::MIN
                        } else {
                            -(m as i128)
                        };
                        Ok(Value::SignedBigInt(sbi))
                    } else {
                        Err(err)
                    }
                },
                Option::None => {
                    proof {
                        assert(cs@.skip(1) =~= src@.skip(1));
                    }
                    Err(err)
                },
            }
        } else {
            let start: usize = if cs.len() > 0 && cs[0] == '+' {
                1
            } else {
                0
            };
            match parse_digits(&cs, start, radix) {
                Option::Some(m) => {
                    proof {
                        if start == 1 {
                            assert(cs@.skip(1) =~= src@.skip(1));
                        } else {
                            assert(cs@.skip(0) =~= src@);
                        }
                    }
                    if m <= u64::MAX as u128 {
                        Ok(Value::UnsignedInt(m as u64))
                    } else {
                        Ok(Value::UnsignedBigInt(m))
                    }
                },
                Option::None => {
                    proof {
                        if start == 1 {
                            assert(cs@.skip(1) =~= src@.skip(1));
                        } else {
                            assert(cs@.skip(0) =~= src@);
                        }
                    }
                    Err(err)
                },
            }
        }
    }

    /// Parse a binary input without decimals.
    ///
    /// Should succeed with or without a leading `0b`.
    pub fn parse_binary(s: &str) -> (r: Result<Value, ParseValueError>)
        ensures
            ({
                let cleaned = trim_prefix(strip_underscores(s@), seq!['0', 'b']);
                match radix_parse_spec(cleaned, 2) {
                    Some(v) => r == Ok::<Value, ParseValueError>(v),
                    None => (r matches Err(e) && e matches ParseValueError::Radix(t, rx) && t@
                        == cleaned && rx == 2),
                }
            }),
    {
        let cleaned = clean_input(s, "0b");
        proof {
            reveal_strlit("0b");
            assert("0b"@ =~= seq!['0', 'b']);
        }
        Value::from_str_radix(cleaned.as_str(), 2)
    }

    /// Parse an octal input without decimals.
    ///
    /// Should succeed with or without a leading `0o`.
    pub fn parse_octal(s: &str) -> (r: Result<Value, ParseValueError>)
        ensures
            ({
                let cleaned = trim_prefix(strip_underscores(s@), seq!['0', 'o']);
                match radix_parse_spec(cleaned, 8) {
                    Some(v) => r == Ok::<Value, ParseValueError>(v),
                    None => (r matches Err(e) && e matches ParseValueError::Radix(t, rx) && t@
                        == cleaned && rx == 8),
                }
            }),
    {
        let cleaned = clean_input(s, "0o");
        proof {
            reveal_strlit("0o");
            assert("0o"@ =~= seq!['0', 'o']);
        }
        Value::from_str_radix(cleaned.as_str(), 8)
    }

    /// Parse a hexadecimal input without decimals.
    ///
    /// Should succeed with or without a leading `0x`.
    pub fn parse_hex(s: &str) -> (r: Result<Value, ParseValueError>)
        ensures
            ({
                let cleaned = trim_prefix(strip_underscores(s@), seq!['0', 'x']);
                match radix_parse_spec(cleaned, 16) {
                    Some(v) => r == Ok::<Value, ParseValueError>(v),
                    None => (r matches Err(e) && e matches ParseValueError::Radix(t, rx) && t@
                        == cleaned && rx == 16),
                }
            }),
    {
        let cleaned = clean_input(s, "0x");
        proof {
            reveal_strlit("0x");
            assert("0x"@ =~= seq!['0', 'x']);
        }
        Value::from_str_radix(cleaned.as_str(), 16)
    }

    /// Parse a decimal input which may or may not contain a decimal point.
    ///
    /// Should succeed with or without a leading `0d`. A literal that no
    /// integer representation holds — a decimal point, an exponent, or a
    /// magnitude past `u128` — falls back to the host float parser.
    pub fn parse_decimal<F: FloatOps>(s: &str, fl: &F) -> (r: Result<Value, ParseValueError>)
        ensures
            ({
                let cleaned = trim_prefix(strip_underscores(s@), seq!['0', 'd']);
                match radix_parse_spec(cleaned, 10) {
                    Some(v) => r == Ok::<Value, ParseValueError>(v),
                    None => ((r matches Ok(v) && crate::value::ord_of(v) == 4) || (r matches Err(e)
                        && e matches ParseValueError::Simple(t) && t@ == cleaned)),
                }
            }),
    {
        let cleaned = clean_input(s, "0d");
        proof {
            reveal_strlit("0d");
            assert("0d"@ =~= seq!['0', 'd']);
        }
        match Value::from_str_radix(cleaned.as_str(), 10) {
            Ok(v) => Ok(v),
            Err(_) => {
                match fl.parse_float(cleaned.as_str()) {
                    Option::Some(bits) => Ok(Value::Float(bits)),
                    Option::None => Err(ParseValueError::Simple(cleaned)),
                }
            },
        }
    }
}

} // verus!
