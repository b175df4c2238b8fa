//! Calculator library for evaluating freehand mathematical expressions.
//!
//! Numeric results live in a five-order value tower (`u64`, `u128`, `i64`,
//! `i128`, IEEE-754 binary64) that widens operands automatically, and a
//! [`Context`] keeps the history of evaluated results so that expressions
//! can refer back to them.
//!
//! The general workflow goes like this:
//!
//! - Create a [`Context`]: a reusable type which contains expression history.
//! - Evaluate expressions with [`Context::evaluate`] or
//!   [`Context::evaluate_annotated`].
//!
//! Floating-point values travel through the tower as IEEE-754 bit patterns;
//! an embedder supplies the host's floating-point computation by
//! implementing [`floatops::FloatOps`].
pub mod ast;
pub mod cli;
pub mod fbits;
pub mod floatops;
pub mod parser;
pub mod render;
pub mod types;
pub mod value;

pub use floatops::FloatOps;
pub use value::{ArithmeticError, Error as ValueError, Order, ParseValueError, Value};

use vstd::prelude::*;
use ast::{eval_matches, AnnotatedError, AnnotatedExpr, Expr, ParseError};
use render::{render_matches, OutputFormat};

verus! {

/// Calculation context.
///
/// Stores a history of calculated values, so that the history lookups (`@`)
/// work properly. History is append-only: only a successful evaluation adds
/// to it, and nothing ever rewrites or truncates it.
pub struct Context {
    pub history: Vec<Value>,
}

/// Error from evaluating one input line.
#[derive(Debug, PartialEq, Eq)]
pub enum Error {
    /// The line does not parse; the payload carries the offending span.
    Parse(ParseError),
    /// The expression parsed but its evaluation failed.
    Eval(ValueError),
    /// The result could not be rendered in the requested format; the
    /// message describes why.
    Format(String),
}

impl From<AnnotatedError> for Error {
    /// Fold an annotated-evaluation error into the top-level error.
    fn from(err: AnnotatedError) -> (r: Self)
        ensures
            r == (match err {
                AnnotatedError::Calculation(e) => Error::Eval(e),
                AnnotatedError::Format(m) => Error::Format(m),
            }),
    {
        match err {
            AnnotatedError::Calculation(e) => Error::Eval(e),
            AnnotatedError::Format(m) => Error::Format(m),
        }
    }
}

impl vstd::std_specs::convert::FromSpecImpl<AnnotatedError> for Error {
    open spec fn obeys_from_spec() -> bool {
        true
    }

    open spec fn from_spec(err: AnnotatedError) -> Self {
        match err {
            AnnotatedError::Calculation(e) => Error::Eval(e),
            AnnotatedError::Format(m) => Error::Format(m),
        }
    }
}

/// Whether some output format renders the value to exactly this text,
/// through the format adapter's names.
pub open spec fn some_format_renders(v: Value, s: Seq<char>) -> bool {
    exists|f: OutputFormat| render_matches(v, f, s)
}

impl Context {
    /// A context with no history.
    pub fn new() -> (r: Context)
        ensures
            r.history@ =~= Seq::<Value>::empty(),
    {
        Context { history: Vec::new() }
    }

    /// Split an input line at the first `:` into expression text and an
    /// optional format annotation, and parse both.
    fn parse_line(&self, expr: &str) -> (r: Result<AnnotatedExpr, ParseError>)
    {
        let cs = value::parsing::str_chars(expr);
        let mut split: usize = cs.len();
        let mut i: usize = 0;
        while i < cs.len()
            invariant
                i <= cs@.len(),
                split <= cs@.len(),
            decreases cs@.len() - i,
        {
            if cs[i] == ':' && split == cs.len() {
                split = i;
            }
            i = i + 1;
        }
        let mut head: Vec<char> = Vec::new();
        let mut k: usize = 0;
        while k < split
            invariant
                k <= split <= cs@.len(),
            decreases split - k,
        {
            head.push(cs[k]);
            k = k + 1;
        }
        let parsed = match parser::parse_expr(&head) {
            Ok(e) => e,
            Err(e) => {
                return Err(e);
            },
        };
        let format: OutputFormat = if split < cs.len() {
            let mut ann: Vec<char> = Vec::new();
            let mut t: usize = split + 1;
            while t < cs.len()
                invariant
                    split < t <= cs@.len(),
                decreases cs@.len() - t,
            {
                let c = cs[t];
                if c != ' ' && c != '\t' {
                    ann.push(c);
                }
                t = t + 1;
            }
            let ann_text = value::parsing::chars_to_string(&ann);
            match OutputFormat::from_str(ann_text.as_str()) {
                Option::Some(f) => f,
                Option::None => {
                    return Err(ParseError::Format { start: split + 1, end: cs.len() });
                },
            }
        } else {
            OutputFormat {
                pad_0: false,
                pad_width: 0,
                base: render::Base::Decimal,
                separator: render::Separator::Plain,
                group_size: 3,
            }
        };
        Ok(AnnotatedExpr { expr: parsed, format })
    }

    /// Evaluate an expression in this context.
    ///
    /// This both returns the calculated value and stores a copy in the
    /// context's history; a failed evaluation leaves the history exactly as
    /// it was. The returned value stands in the evaluation relation to the
    /// old history for the expression the line parsed to; which expression a
    /// line of text parses to is the grammar boundary, so the contract binds
    /// it existentially.
    pub fn evaluate<F: FloatOps>(&mut self, expr: &str, fl: &F) -> (r: Result<Value, Error>)
        ensures
            r matches Ok(v) ==> final(self).history@ == old(self).history@.push(v) && (exists|
                e: Expr,
            |
                #[trigger] eval_matches(e, old(self).history@, Ok::<Value, ValueError>(v))),
            r is Err ==> final(self).history@ == old(self).history@,
    {
        let parsed = match self.parse_line(expr) {
            Ok(a) => a,
            Err(e) => {
                return Err(Error::Parse(e));
            },
        };
        let ghost gexpr = parsed.expr;
        let result = match parsed.expr.evaluate(self, fl) {
            Ok(v) => v,
            Err(e) => {
                return Err(Error::Eval(e));
            },
        };
        proof {
            assert(eval_matches(gexpr, old(self).history@, Ok::<Value, ValueError>(result)));
        }
        self.history.push(result);
        Ok(result)
    }

    /// Evaluate an annotated expression in this context.
    ///
    /// Annotations can include output formatting directives, so the return
    /// value is a rendered `String`. The bare value is stored in the
    /// context's history — the returned string is that value's rendering
    /// under the annotation's output format — and a failed evaluation leaves
    /// the history exactly as it was. As with [`Context::evaluate`], the
    /// expression and format the line parsed to are the grammar boundary and
    /// bound existentially.
    pub fn evaluate_annotated<F: FloatOps>(&mut self, expr: &str, fl: &F) -> (r: Result<
        String,
        Error,
    >)
        ensures
            r is Ok ==> final(self).history@ == old(self).history@.push(
                final(self).history@.last(),
            ),
            r is Ok ==> (exists|e: Expr|
                #[trigger] eval_matches(
                    e,
                    old(self).history@,
                    Ok::<Value, ValueError>(final(self).history@.last()),
                )),
            r matches Ok(s) ==> some_format_renders(final(self).history@.last(), s@),
            r is Err ==> final(self).history@ == old(self).history@,
    {
        let parsed = match self.parse_line(expr) {
            Ok(a) => a,
            Err(e) => {
                return Err(Error::Parse(e));
            },
        };
        let ghost gexpr = parsed.expr;
        let ghost gfmt = parsed.format;
        let (result, formatted) = match parsed.evaluate(self, fl) {
            Ok(p) => p,
            Err(AnnotatedError::Calculation(e)) => {
                return Err(Error::Eval(e));
            },
            Err(AnnotatedError::Format(m)) => {
                return Err(Error::Format(m));
            },
        };
        self.history.push(result);
        proof {
            assert(self.history@.last() == result);
            assert(eval_matches(gexpr, old(self).history@, Ok::<Value, ValueError>(result)));
            assert(render_matches(self.history@.last(), gfmt, formatted@));
            assert(some_format_renders(self.history@.last(), formatted@));
        }
        Ok(formatted)
    }
}

} // verus!
