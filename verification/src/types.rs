//! Error plumbing for numeric backends.
//!
//! A numeric backend reports arithmetic failures through [`BasicError`],
//! which any backend-facing error type can construct via [`CalcableError`].
use vstd::prelude::*;
use crate::ast::HistoryIndexKind;

verus! {

/// An integer operation left the representable range, or divided by zero.
#[derive(Debug, Clone, Copy, PartialEq, Eq, Structural)]
pub enum ArithmeticError {
    Overflow,
    Underflow,
    DivideBy0,
}

/// The failures every numeric backend can report: arithmetic errors, an
/// operation the backend does not implement, a parse failure in the
/// backend's own literal syntax, and an out-of-range history lookup.
#[derive(Debug, PartialEq, Eq)]
pub enum BasicError<E> {
    Arithmetic(ArithmeticError),
    NotImplemented(&'static str),
    Parse(E),
    HistoryOOB(HistoryIndexKind, usize, usize),
}

/// A backend error type can always report an unimplemented operation and an
/// out-of-range history lookup.
pub trait CalcableError: Sized {
    /// The error for an operation the backend does not implement.
    fn unimplemented(operation: &'static str) -> Self;

    /// The error for a history lookup past the current history.
    fn history_out_of_bounds(
        kind: HistoryIndexKind,
        requested_index: usize,
        history_len: usize,
    ) -> Self;
}

impl<E> CalcableError for BasicError<E> {
    /// The error for an operation the backend does not implement.
    fn unimplemented(operation: &'static str) -> (r: Self)
    {
        BasicError::NotImplemented(operation)
    }

    /// The error for a history lookup past the current history.
    fn history_out_of_bounds(
        kind: HistoryIndexKind,
        requested_index: usize,
        history_len: usize,
    ) -> (r: Self)
    {
        BasicError::HistoryOOB(kind, requested_index, history_len)
    }
}

/// Report an operation a backend does not implement.
pub fn not_implemented<T, E>(symbol: &'static str) -> (r: Result<T, BasicError<E>>)
    ensures
        r == Err::<T, BasicError<E>>(BasicError::NotImplemented(symbol)),
{
    Err(BasicError::NotImplemented(symbol))
}

/// Convert a signed count to an unsigned 32-bit one: too large is an
/// overflow, negative an underflow.
pub fn as_u32<E>(n: i64) -> (r: Result<u32, BasicError<E>>)
    ensures
        n > u32::MAX ==> r == Err::<u32, BasicError<E>>(
            BasicError::Arithmetic(ArithmeticError::Overflow),
        ),
        n < 0 ==> r == Err::<u32, BasicError<E>>(
            BasicError::Arithmetic(ArithmeticError::Underflow),
        ),
        0 <= n <= u32::MAX ==> r == Ok::<u32, BasicError<E>>(n as u32),
{
    if n > u32::MAX as i64 {
        Err(BasicError::Arithmetic(ArithmeticError::Overflow))
    } else if n < 0 {
        Err(BasicError::Arithmetic(ArithmeticError::Underflow))
    } else {
        Ok(n as u32)
    }
}

/// Strip underscores and leading base markers from the input string.
pub fn clean_input(s: &str, leading: &str) -> (r: String)
    ensures
        r@ == crate::value::parsing::trim_prefix(
            crate::value::parsing::strip_underscores(s@),
            leading@,
        ),
{
    crate::value::parsing::clean_input(s, leading)
}

} // verus!
