//! Errors reported by operations on the value tower.
use vstd::prelude::*;
use crate::ast::HistoryIndexKind;

verus! {

/// An integer operation left the representable range, or divided by zero.
#[derive(Debug, Clone, Copy, PartialEq, Eq, Structural)]
pub enum ArithmeticError {
    Overflow,
    Underflow,
    DivideBy0,
}

impl ArithmeticError {
    /// Human-readable description of the error.
    pub fn describe(&self) -> (s: String)
    {
        match self {
            ArithmeticError::Overflow => String::from_str("overflow"),
            ArithmeticError::Underflow => String::from_str("underflow"),
            ArithmeticError::DivideBy0 => String::from_str("attempt to divide by 0"),
        }
    }
}

/// A literal could not be parsed as a value.
#[derive(Debug, Clone, PartialEq, Eq)]
pub enum ParseValueError {
    /// The text parsed under no representation.
    Simple(String),
    /// The text parsed under no representation, given the radix.
    Radix(String, u32),
}

impl ParseValueError {
    /// Human-readable description of the error.
    pub fn describe(&self) -> (s: String)
    {
        match self {
            ParseValueError::Simple(text) => {
                let mut out = String::from_str("\"");
                out.append(text.as_str());
                out.append("\" cannot be parsed as Value");
                out
            },
            ParseValueError::Radix(text, radix) => {
                let mut out = String::from_str("\"");
                out.append(text.as_str());
                out.append("\" cannot be parsed as Value given radix ");
                let digits = radix_digits(*radix);
                out.append(digits.as_str());
                out
            },
        }
    }
}

/// The decimal text of a radix, for error messages.
fn radix_digits(radix: u32) -> (r: String)
{
    let mut digits: Vec<char> = Vec::new();
    let mut n = radix;
    loop
        decreases n,
    {
        let d = (n % 10) as u8;
        let c = (d + 48) as char;
        digits.push(c);
        n = n / 10;
        if n == 0 {
            break ;
        }
    }
    let mut ordered: Vec<char> = Vec::new();
    let mut i = digits.len();
    while i > 0
        invariant
            i <= digits@.len(),
        decreases i,
    {
        i = i - 1;
        ordered.push(digits[i]);
    }
    crate::value::parsing::chars_to_string(&ordered)
}

/// Error evaluating an expression.
#[derive(Debug, Clone, PartialEq, Eq)]
pub enum Error {
    /// Arithmetic outside the representable range.
    Arithmetic(ArithmeticError),
    /// A literal parsed under no representation.
    Parse(ParseValueError),
    /// A history reference beyond the current history: the kind of lookup,
    /// the requested index, and the current history length.
    HistoryOOB(HistoryIndexKind, usize, usize),
    /// An integer-only operation was invoked on a floating-point value.
    ImproperlyFloat,
}

impl Error {
    /// Human-readable description of the error.
    pub fn describe(&self) -> (s: String)
    {
        match self {
            Error::Arithmetic(e) => e.describe(),
            Error::Parse(e) => e.describe(),
            Error::HistoryOOB(_, _, _) => String::from_str("history index out of bounds"),
            Error::ImproperlyFloat => String::from_str(
                "attempted to perform an operation which only makes sense for integers, but value is currently a float",
            ),
        }
    }
}

} // verus!
