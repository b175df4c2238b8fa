//! The expression grammar: a lexer and a recursive-descent parser.
//!
//! Infix operators follow the conventional precedence, loosest first:
//! addition and subtraction; bitwise or; bitwise xor; bitwise and; shifts
//! and rotations; multiplication, division, floor division and remainder;
//! exponentiation (right-associative); unary minus and not (tightest).
//! Atoms are literals with optional `0b`/`0o`/`0x`/`0d` prefixes and `_`
//! separators, the constants `e` and `pi`, function calls `name(expr)`,
//! parenthesized groups, and history references: a run of `@` signs counts
//! backwards, and `@N` addresses result `N` absolutely.
//!
//! Every error carries byte offsets into the source line, so a caller can
//! render a caret diagnostic at the offending span.
use vstd::prelude::*;
use crate::ast::{
    Constant, Expr, Function, HistoryIndexKind, InfixOperator, ParseError, PrefixOperator, Term,
};
use crate::value::parsing::chars_to_string;

verus! {

/// One lexical token.
#[derive(Debug, PartialEq, Eq)]
pub(crate) enum Tok {
    /// A numeric literal, with its base read off the prefix.
    Number(Term),
    /// A history reference.
    History(Term),
    /// A named function.
    Name(Function),
    /// A named constant.
    ConstName(Constant),
    Plus,
    Minus,
    Star,
    StarStar,
    Slash,
    SlashSlash,
    Percent,
    Shl,
    Shr,
    RotL,
    RotR,
    Amp,
    Pipe,
    Caret,
    Bang,
    LParen,
    RParen,
}

/// A token with the byte span it came from.
#[derive(Debug, PartialEq, Eq)]
pub(crate) struct Token {
    pub kind: Tok,
    pub start: usize,
    pub end: usize,
}

/// Whether a character may continue a numeric literal: digits of any
/// supported base, base markers, separators, and the decimal point.
fn is_num_char(c: char) -> (r: bool)
{
    ('0' <= c && c <= '9') || ('a' <= c && c <= 'f') || ('A' <= c && c <= 'F') || c == '_' || c
        == '.' || c == 'x' || c == 'X' || c == 'o' || c == 'O'
}

/// Whether a character may appear in a name.
fn is_name_char(c: char) -> (r: bool)
{
    'a' <= c && c <= 'z'
}

/// Whether a character is a decimal digit.
fn is_digit(c: char) -> (r: bool)
    ensures
        r == ('0' <= c <= '9'),
{
    '0' <= c && c <= '9'
}

/// Resolve a name to a function, a constant, or nothing.
fn resolve_name(w: &String) -> (r: Option<Tok>)
{
    if w.as_str() == "e" {
        return Some(Tok::ConstName(Constant::E));
    }
    if w.as_str() == "pi" {
        return Some(Tok::ConstName(Constant::Pi));
    }
    let f: Option<Function> = if w.as_str() == "abs" {
        Some(Function::Abs)
    } else if w.as_str() == "ceil" {
        Some(Function::Ceil)
    } else if w.as_str() == "floor" {
        Some(Function::Floor)
    } else if w.as_str() == "round" {
        Some(Function::Round)
    } else if w.as_str() == "sin" {
        Some(Function::Sin)
    } else if w.as_str() == "cos" {
        Some(Function::Cos)
    } else if w.as_str() == "tan" {
        Some(Function::Tan)
    } else if w.as_str() == "sinh" {
        Some(Function::Sinh)
    } else if w.as_str() == "cosh" {
        Some(Function::Cosh)
    } else if w.as_str() == "tanh" {
        Some(Function::Tanh)
    } else if w.as_str() == "asin" {
        Some(Function::Asin)
    } else if w.as_str() == "acos" {
        Some(Function::Acos)
    } else if w.as_str() == "atan" {
        Some(Function::Atan)
    } else if w.as_str() == "asinh" {
        Some(Function::Asinh)
    } else if w.as_str() == "acosh" {
        Some(Function::Acosh)
    } else if w.as_str() == "atanh" {
        Some(Function::Atanh)
    } else if w.as_str() == "rad" {
        Some(Function::Rad)
    } else if w.as_str() == "deg" {
        Some(Function::Deg)
    } else if w.as_str() == "sqrt" {
        Some(Function::Sqrt)
    } else if w.as_str() == "cbrt" {
        Some(Function::Cbrt)
    } else if w.as_str() == "log" {
        Some(Function::Log)
    } else if w.as_str() == "lg" {
        Some(Function::Lg)
    } else if w.as_str() == "ln" {
        Some(Function::Ln)
    } else if w.as_str() == "exp" {
        Some(Function::Exp)
    } else {
        None
    };
    match f {
        Option::Some(func) => Some(Tok::Name(func)),
        Option::None => None,
    }
}

/// Classify a numeric literal by its base marker.
fn classify_number(text: String) -> (t: Term)
{
    let marked = text.unicode_len() >= 2 && text.as_str().get_char(0) == '0';
    if marked {
        let m = text.as_str().get_char(1);
        if m == 'x' || m == 'X' {
            return Term::HexLiteral(text);
        }
        if m == 'o' || m == 'O' {
            return Term::OctLiteral(text);
        }
        if m == 'b' {
            return Term::BinLiteral(text);
        }
    }
    Term::Literal(text)
}

/// Turn a source line into tokens; an unexpected character is an invalid
/// token error carrying its position.
pub(crate) fn lex(cs: &Vec<char>) -> (r: Result<Vec<Token>, ParseError>)
{
    let n = cs.len();
    let mut out: Vec<Token> = Vec::new();
    let mut i: usize = 0;
    while i < n
        invariant
            n == cs@.len(),
            i <= n,
        decreases n - i,
    {
        let c = cs[i];
        let start = i;
        if c == ' ' || c == '\t' || c == '\r' || c == '\n' {
            i = i + 1;
        } else if is_digit(c) {
            let mut j = i + 1;
            while j < n && is_num_char(cs[j])
                invariant
                    i < j <= n,
                    n == cs@.len(),
                decreases n - j,
            {
                j = j + 1;
            }
            let mut text: Vec<char> = Vec::new();
            let mut k = i;
            while k < j
                invariant
                    i <= k <= j <= n,
                    n == cs@.len(),
                decreases j - k,
            {
                text.push(cs[k]);
                k = k + 1;
            }
            let term = classify_number(chars_to_string(&text));
            out.push(Token { kind: Tok::Number(term), start, end: j });
            i = j;
        } else if is_name_char(c) {
            let mut j = i + 1;
            while j < n && is_name_char(cs[j])
                invariant
                    i < j <= n,
                    n == cs@.len(),
                decreases n - j,
            {
                j = j + 1;
            }
            let mut text: Vec<char> = Vec::new();
            let mut k = i;
            while k < j
                invariant
                    i <= k <= j <= n,
                    n == cs@.len(),
                decreases j - k,
            {
                text.push(cs[k]);
                k = k + 1;
            }
            let word = chars_to_string(&text);
            match resolve_name(&word) {
                Option::Some(kind) => {
                    out.push(Token { kind, start, end: j });
                },
                Option::None => {
                    return Err(ParseError::UnrecognizedToken { start, end: j });
                },
            }
            i = j;
        } else if c == '@' {
            let mut j = i + 1;
            while j < n && cs[j] == '@'
                invariant
                    i < j <= n,
                    n == cs@.len(),
                decreases n - j,
            {
                j = j + 1;
            }
            let count = j - i;
            if count == 1 && j < n && is_digit(cs[j]) {
                let mut k = j;
                let mut idx: usize = 0;
                let mut overflowed = false;
                while k < n && is_digit(cs[k])
                    invariant
                        j <= k <= n,
                        n == cs@.len(),
                    decreases n - k,
                {
                    let d = ((cs[k] as u32) - 48) as usize;
                    match idx.checked_mul(10) {
                        Option::Some(x) => {
                            match x.checked_add(d) {
                                Option::Some(y) => {
                                    idx = y;
                                },
                                Option::None => {
                                    overflowed = true;
                                },
                            }
                        },
                        Option::None => {
                            overflowed = true;
                        },
                    }
                    k = k + 1;
                }
                if overflowed {
                    return Err(ParseError::Index { start, end: k });
                }
                out.push(
                    Token {
                        kind: Tok::History(Term::History(HistoryIndexKind::Absolute, idx)),
                        start,
                        end: k,
                    },
                );
                i = k;
            } else {
                out.push(
                    Token {
                        kind: Tok::History(Term::History(HistoryIndexKind::Relative, count)),
                        start,
                        end: j,
                    },
                );
                i = j;
            }
        } else if c == '+' {
            out.push(Token { kind: Tok::Plus, start, end: i + 1 });
            i = i + 1;
        } else if c == '-' {
            out.push(Token { kind: Tok::Minus, start, end: i + 1 });
            i = i + 1;
        } else if c == '*' {
            if i + 1 < n && cs[i + 1] == '*' {
                out.push(Token { kind: Tok::StarStar, start, end: i + 2 });
                i = i + 2;
            } else {
                out.push(Token { kind: Tok::Star, start, end: i + 1 });
                i = i + 1;
            }
        } else if c == '/' {
            if i + 1 < n && cs[i + 1] == '/' {
                out.push(Token { kind: Tok::SlashSlash, start, end: i + 2 });
                i = i + 2;
            } else {
                out.push(Token { kind: Tok::Slash, start, end: i + 1 });
                i = i + 1;
            }
        } else if c == '%' {
            out.push(Token { kind: Tok::Percent, start, end: i + 1 });
            i = i + 1;
        } else if c == '<' {
            if i + 1 < n && cs[i + 1] == '<' {
                if i + 2 < n && cs[i + 2] == '<' {
                    out.push(Token { kind: Tok::RotL, start, end: i + 3 });
                    i = i + 3;
                } else {
                    out.push(Token { kind: Tok::Shl, start, end: i + 2 });
                    i = i + 2;
                }
            } else {
                return Err(ParseError::InvalidToken { location: i });
            }
        } else if c == '>' {
            if i + 1 < n && cs[i + 1] == '>' {
                if i + 2 < n && cs[i + 2] == '>' {
                    out.push(Token { kind: Tok::RotR, start, end: i + 3 });
                    i = i + 3;
                } else {
                    out.push(Token { kind: Tok::Shr, start, end: i + 2 });
                    i = i + 2;
                }
            } else {
                return Err(ParseError::InvalidToken { location: i });
            }
        } else if c == '&' {
            out.push(Token { kind: Tok::Amp, start, end: i + 1 });
            i = i + 1;
        } else if c == '|' {
            out.push(Token { kind: Tok::Pipe, start, end: i + 1 });
            i = i + 1;
        } else if c == '^' {
            out.push(Token { kind: Tok::Caret, start, end: i + 1 });
            i = i + 1;
        } else if c == '!' {
            out.push(Token { kind: Tok::Bang, start, end: i + 1 });
            i = i + 1;
        } else if c == '(' {
            out.push(Token { kind: Tok::LParen, start, end: i + 1 });
            i = i + 1;
        } else if c == ')' {
            out.push(Token { kind: Tok::RParen, start, end: i + 1 });
            i = i + 1;
        } else {
            return Err(ParseError::InvalidToken { location: i });
        }
    }
    Ok(out)
}

/// Parse a whole expression; leftover tokens after it are an error.
pub fn parse_expr(cs: &Vec<char>) -> (r: Result<Expr, ParseError>)
{
    let toks = match lex(cs) {
        Ok(t) => t,
        Err(e) => {
            return Err(e);
        },
    };
    let (e, p) = match parse_addsub(&toks, 0) {
        Ok(x) => x,
        Err(e) => {
            return Err(e);
        },
    };
    if p < toks.len() {
        return Err(ParseError::ExtraToken { start: toks[p].start, end: toks[p].end });
    }
    Ok(e)
}

/// Parse additions and subtractions, the loosest level.
fn parse_addsub(toks: &Vec<Token>, pos: usize) -> (r: Result<(Expr, usize), ParseError>)
    requires
        pos <= toks@.len(),
    ensures
        r matches Ok(p) ==> pos < p.1 <= toks@.len(),
    decreases toks@.len() - pos, 8int,
{
    let (mut left, mut p) = match parse_bitor(toks, pos) {
        Ok(x) => x,
        Err(e) => {
            return Err(e);
        },
    };
    loop
        invariant
            pos < p <= toks@.len(),
        decreases toks@.len() - p,
    {
        if p >= toks.len() {
            return Ok((left, p));
        }
        let op = match toks[p].kind {
            Tok::Plus => InfixOperator::Add,
            Tok::Minus => InfixOperator::Sub,
            _ => {
                return Ok((left, p));
            },
        };
        let (right, p2) = match parse_bitor(toks, p + 1) {
            Ok(x) => x,
            Err(e) => {
                return Err(e);
            },
        };
        left = Expr::Infix(Box::new(left), op, Box::new(right));
        p = p2;
    }
}

/// Parse bitwise ors.
fn parse_bitor(toks: &Vec<Token>, pos: usize) -> (r: Result<(Expr, usize), ParseError>)
    requires
        pos <= toks@.len(),
    ensures
        r matches Ok(p) ==> pos < p.1 <= toks@.len(),
    decreases toks@.len() - pos, 7int,
{
    let (mut left, mut p) = match parse_bitxor(toks, pos) {
        Ok(x) => x,
        Err(e) => {
            return Err(e);
        },
    };
    loop
        invariant
            pos < p <= toks@.len(),
        decreases toks@.len() - p,
    {
        if p >= toks.len() {
            return Ok((left, p));
        }
        match toks[p].kind {
            Tok::Pipe => {},
            _ => {
                return Ok((left, p));
            },
        }
        let (right, p2) = match parse_bitxor(toks, p + 1) {
            Ok(x) => x,
            Err(e) => {
                return Err(e);
            },
        };
        left = Expr::Infix(Box::new(left), InfixOperator::BitOr, Box::new(right));
        p = p2;
    }
}

/// Parse bitwise xors.
fn parse_bitxor(toks: &Vec<Token>, pos: usize) -> (r: Result<(Expr, usize), ParseError>)
    requires
        pos <= toks@.len(),
    ensures
        r matches Ok(p) ==> pos < p.1 <= toks@.len(),
    decreases toks@.len() - pos, 6int,
{
    let (mut left, mut p) = match parse_bitand(toks, pos) {
        Ok(x) => x,
        Err(e) => {
            return Err(e);
        },
    };
    loop
        invariant
            pos < p <= toks@.len(),
        decreases toks@.len() - p,
    {
        if p >= toks.len() {
            return Ok((left, p));
        }
        match toks[p].kind {
            Tok::Caret => {},
            _ => {
                return Ok((left, p));
            },
        }
        let (right, p2) = match parse_bitand(toks, p + 1) {
            Ok(x) => x,
            Err(e) => {
                return Err(e);
            },
        };
        left = Expr::Infix(Box::new(left), InfixOperator::BitXor, Box::new(right));
        p = p2;
    }
}

/// Parse bitwise ands.
fn parse_bitand(toks: &Vec<Token>, pos: usize) -> (r: Result<(Expr, usize), ParseError>)
    requires
        pos <= toks@.len(),
    ensures
        r matches Ok(p) ==> pos < p.1 <= toks@.len(),
    decreases toks@.len() - pos, 5int,
{
    let (mut left, mut p) = match parse_shift(toks, pos) {
        Ok(x) => x,
        Err(e) => {
            return Err(e);
        },
    };
    loop
        invariant
            pos < p <= toks@.len(),
        decreases toks@.len() - p,
    {
        if p >= toks.len() {
            return Ok((left, p));
        }
        match toks[p].kind {
            Tok::Amp => {},
            _ => {
                return Ok((left, p));
            },
        }
        let (right, p2) = match parse_shift(toks, p + 1) {
            Ok(x) => x,
            Err(e) => {
                return Err(e);
            },
        };
        left = Expr::Infix(Box::new(left), InfixOperator::BitAnd, Box::new(right));
        p = p2;
    }
}

/// Parse shifts and rotations.
fn parse_shift(toks: &Vec<Token>, pos: usize) -> (r: Result<(Expr, usize), ParseError>)
    requires
        pos <= toks@.len(),
    ensures
        r matches Ok(p) ==> pos < p.1 <= toks@.len(),
    decreases toks@.len() - pos, 4int,
{
    let (mut left, mut p) = match parse_muldiv(toks, pos) {
        Ok(x) => x,
        Err(e) => {
            return Err(e);
        },
    };
    loop
        invariant
            pos < p <= toks@.len(),
        decreases toks@.len() - p,
    {
        if p >= toks.len() {
            return Ok((left, p));
        }
        let op = match toks[p].kind {
            Tok::Shl => InfixOperator::Lshift,
            Tok::Shr => InfixOperator::Rshift,
            Tok::RotL => InfixOperator::RotateL,
            Tok::RotR => InfixOperator::RotateR,
            _ => {
                return Ok((left, p));
            },
        };
        let (right, p2) = match parse_muldiv(toks, p + 1) {
            Ok(x) => x,
            Err(e) => {
                return Err(e);
            },
        };
        left = Expr::Infix(Box::new(left), op, Box::new(right));
        p = p2;
    }
}

/// Parse multiplications, divisions, floor divisions, and remainders.
fn parse_muldiv(toks: &Vec<Token>, pos: usize) -> (r: Result<(Expr, usize), ParseError>)
    requires
        pos <= toks@.len(),
    ensures
        r matches Ok(p) ==> pos < p.1 <= toks@.len(),
    decreases toks@.len() - pos, 3int,
{
    let (mut left, mut p) = match parse_pow(toks, pos) {
        Ok(x) => x,
        Err(e) => {
            return Err(e);
        },
    };
    loop
        invariant
            pos < p <= toks@.len(),
        decreases toks@.len() - p,
    {
        if p >= toks.len() {
            return Ok((left, p));
        }
        let op = match toks[p].kind {
            Tok::Star => InfixOperator::Mul,
            Tok::Slash => InfixOperator::Div,
            Tok::SlashSlash => InfixOperator::TruncDiv,
            Tok::Percent => InfixOperator::Rem,
            _ => {
                return Ok((left, p));
            },
        };
        let (right, p2) = match parse_pow(toks, p + 1) {
            Ok(x) => x,
            Err(e) => {
                return Err(e);
            },
        };
        left = Expr::Infix(Box::new(left), op, Box::new(right));
        p = p2;
    }
}

/// Parse exponentiations, which associate to the right.
fn parse_pow(toks: &Vec<Token>, pos: usize) -> (r: Result<(Expr, usize), ParseError>)
    requires
        pos <= toks@.len(),
    ensures
        r matches Ok(p) ==> pos < p.1 <= toks@.len(),
    decreases toks@.len() - pos, 2int,
{
    let (left, p) = match parse_unary(toks, pos) {
        Ok(x) => x,
        Err(e) => {
            return Err(e);
        },
    };
    if p < toks.len() {
        let ispow = match toks[p].kind {
            Tok::StarStar => true,
            _ => false,
        };
        if ispow {
            let (right, p2) = match parse_pow(toks, p + 1) {
                Ok(x) => x,
                Err(e) => {
                    return Err(e);
                },
            };
            return Ok((Expr::Infix(Box::new(left), InfixOperator::Pow, Box::new(right)), p2));
        }
    }
    Ok((left, p))
}

/// Parse unary minus and not, the tightest level.
fn parse_unary(toks: &Vec<Token>, pos: usize) -> (r: Result<(Expr, usize), ParseError>)
    requires
        pos <= toks@.len(),
    ensures
        r matches Ok(p) ==> pos < p.1 <= toks@.len(),
    decreases toks@.len() - pos, 1int,
{
    if pos >= toks.len() {
        return Err(ParseError::UnrecognizedEof { location: if toks.len() == 0 {
            0
        } else {
            toks[toks.len() - 1].end
        } });
    }
    match toks[pos].kind {
        Tok::Minus => {
            let (inner, p) = match parse_unary(toks, pos + 1) {
                Ok(x) => x,
                Err(e) => {
                    return Err(e);
                },
            };
            Ok((Expr::Prefix(PrefixOperator::Negation, Box::new(inner)), p))
        },
        Tok::Bang => {
            let (inner, p) = match parse_unary(toks, pos + 1) {
                Ok(x) => x,
                Err(e) => {
                    return Err(e);
                },
            };
            Ok((Expr::Prefix(PrefixOperator::Not, Box::new(inner)), p))
        },
        _ => parse_atom(toks, pos),
    }
}

/// Parse an atom: a literal, a history reference, a constant, a function
/// call, or a parenthesized group.
fn parse_atom(toks: &Vec<Token>, pos: usize) -> (r: Result<(Expr, usize), ParseError>)
    requires
        pos <= toks@.len(),
    ensures
        r matches Ok(p) ==> pos < p.1 <= toks@.len(),
    decreases toks@.len() - pos, 0int,
{
    if pos >= toks.len() {
        return Err(ParseError::UnrecognizedEof { location: if toks.len() == 0 {
            0
        } else {
            toks[toks.len() - 1].end
        } });
    }
    let start = toks[pos].start;
    let end = toks[pos].end;
    match &toks[pos].kind {
        Tok::Number(t) => Ok((Expr::Term(clone_term(t)), pos + 1)),
        Tok::History(t) => Ok((Expr::Term(clone_term(t)), pos + 1)),
        Tok::ConstName(c) => Ok((Expr::Term(Term::Constant(*c)), pos + 1)),
        Tok::Name(f) => {
            // a function name must be followed by a parenthesized operand
            if pos + 1 >= toks.len() {
                return Err(ParseError::UnrecognizedEof { location: end });
            }
            let isparen = match toks[pos + 1].kind {
                Tok::LParen => true,
                _ => false,
            };
            if !isparen {
                return Err(ParseError::UnrecognizedToken {
                    start: toks[pos + 1].start,
                    end: toks[pos + 1].end,
                });
            }
            let (inner, p) = match parse_addsub(toks, pos + 2) {
                Ok(x) => x,
                Err(e) => {
                    return Err(e);
                },
            };
            if p >= toks.len() {
                return Err(ParseError::UnrecognizedEof { location: toks[toks.len() - 1].end });
            }
            let isclose = match toks[p].kind {
                Tok::RParen => true,
                _ => false,
            };
            if !isclose {
                return Err(ParseError::UnrecognizedToken { start: toks[p].start, end: toks[p].end });
            }
            Ok((Expr::Func(*f, Box::new(inner)), p + 1))
        },
        Tok::LParen => {
            let (inner, p) = match parse_addsub(toks, pos + 1) {
                Ok(x) => x,
                Err(e) => {
                    return Err(e);
                },
            };
            if p >= toks.len() {
                return Err(ParseError::UnrecognizedEof { location: toks[toks.len() - 1].end });
            }
            let isclose = match toks[p].kind {
                Tok::RParen => true,
                _ => false,
            };
            if !isclose {
                return Err(ParseError::UnrecognizedToken { start: toks[p].start, end: toks[p].end });
            }
            Ok((Expr::Group(Box::new(inner)), p + 1))
        },
        _ => Err(ParseError::UnrecognizedToken { start, end }),
    }
}

/// Copy a term out of a token.
fn clone_term(t: &Term) -> (r: Term)
    ensures
        r == *t,
{
    match t {
        Term::Literal(s) => Term::Literal(clone_string(s)),
        Term::HexLiteral(s) => Term::HexLiteral(clone_string(s)),
        Term::OctLiteral(s) => Term::OctLiteral(clone_string(s)),
        Term::BinLiteral(s) => Term::BinLiteral(clone_string(s)),
        Term::Constant(c) => Term::Constant(*c),
        Term::History(k, i) => Term::History(*k, *i),
    }
}

/// Copy a string.
fn clone_string(s: &String) -> (r: String)
    ensures
        r == *s,
{
    s.clone()
}

} // verus!
