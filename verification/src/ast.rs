//! The expression tree: terms, operators, functions, and annotations.
use vstd::prelude::*;
use crate::floatops::FloatOps;
use crate::render::OutputFormat;
use crate::value::arithmetic::{
    add_matches, div_matches, mul_matches, neg_matches, rem_matches, sub_matches,
};
use crate::value::bitwise::{
    bitop_matches, not_matches, rotl_matches, rotr_matches, shl_matches, shr_matches, BitOp,
};
use crate::value::numeric::{
    abs_matches, as_u32_spec, ceil_matches, floor_matches, pow_matches, round_matches,
    trunc_div_matches,
};
use crate::value::parsing::{radix_parse_spec, strip_underscores, trim_prefix};
use crate::value::{ord_of, Error as ValueError, ParseValueError, Value};
use crate::Context;

verus! {

/// Error encountered while turning source text into an expression tree.
///
/// Every variant carries byte offsets into the source line, so a caller can
/// render a caret diagnostic pointing at the offending span.
#[derive(Debug, Clone, Copy, PartialEq, Eq, Structural)]
pub enum ParseError {
    /// A character that starts no token.
    InvalidToken { location: usize },
    /// The input ended where more tokens were required.
    UnrecognizedEof { location: usize },
    /// A well-formed token in a position the grammar does not allow.
    UnrecognizedToken { start: usize, end: usize },
    /// A well-formed expression followed by a leftover token.
    ExtraToken { start: usize, end: usize },
    /// A history index that does not fit into `usize`.
    Index { start: usize, end: usize },
    /// A trailing output-format annotation that does not parse.
    Format { start: usize, end: usize },
}

/// A prefix operator.
#[derive(Debug, Clone, Copy, PartialEq, Eq, Structural)]
pub enum PrefixOperator {
    Negation,
    Not,
}

/// An infix operator.
#[derive(Debug, Clone, Copy, PartialEq, Eq, Structural)]
pub enum InfixOperator {
    Add,
    Sub,
    Mul,
    Div,
    TruncDiv,
    Pow,
    Rem,
    Lshift,
    Rshift,
    RotateL,
    RotateR,
    BitAnd,
    BitOr,
    BitXor,
}

/// A function name.
#[derive(Debug, Clone, Copy, PartialEq, Eq, Structural)]
pub enum Function {
    Abs,
    Ceil,
    Floor,
    Round,
    Sin,
    Cos,
    Tan,
    Sinh,
    Cosh,
    Tanh,
    Asin,
    Acos,
    Atan,
    Asinh,
    Acosh,
    Atanh,
    Rad,
    Deg,
    Sqrt,
    Cbrt,
    Log,
    Lg,
    Ln,
    Exp,
}

/// A constant.
#[derive(Debug, Clone, Copy, PartialEq, Eq, Structural)]
pub enum Constant {
    E,
    Pi,
}

/// What kind of history lookup is desired.
///
/// Absolute history lookups begin at 0 and increment.
/// Relative history lookups count backwards from the current expression.
#[derive(Debug, Clone, Copy, PartialEq, Eq, Structural)]
pub enum HistoryIndexKind {
    Relative,
    Absolute,
}

/// A term in the expression.
#[derive(Debug, Clone, PartialEq, Eq)]
pub enum Term {
    Literal(String),
    HexLiteral(String),
    OctLiteral(String),
    BinLiteral(String),
    Constant(Constant),
    History(HistoryIndexKind, usize),
}

/// An expression or subexpression.
#[derive(Debug, PartialEq, Eq)]
pub enum Expr {
    Term(Term),
    Prefix(PrefixOperator, Box<Expr>),
    Infix(Box<Expr>, InfixOperator, Box<Expr>),
    Func(Function, Box<Expr>),
    Group(Box<Expr>),
}

/// The contract of evaluating one term against a history: exact for
/// constants, history references, and every literal some integer order
/// holds; a decimal literal outside the integer orders may also come back
/// as a float from the host parser.
pub open spec fn term_matches(t: Term, hist: Seq<Value>, r: Result<Value, ValueError>) -> bool {
    match t {
        Term::Literal(s) => {
            let cleaned = trim_prefix(strip_underscores(s@), seq!['0', 'd']);
            match radix_parse_spec(cleaned, 10) {
                Some(v) => r == Ok::<Value, ValueError>(v),
                None => ((r matches Ok(v) && ord_of(v) == 4) || (r matches Err(e)
                    && e matches ValueError::Parse(pe) && pe matches ParseValueError::Simple(txt)
                    && txt@ == cleaned)),
            }
        },
        Term::HexLiteral(s) => {
            let cleaned = trim_prefix(strip_underscores(s@), seq!['0', 'x']);
            match radix_parse_spec(cleaned, 16) {
                Some(v) => r == Ok::<Value, ValueError>(v),
                None => (r matches Err(e) && e matches ValueError::Parse(pe)
                    && pe matches ParseValueError::Radix(txt, rx) && txt@ == cleaned && rx == 16),
            }
        },
        Term::OctLiteral(s) => {
            let cleaned = trim_prefix(strip_underscores(s@), seq!['0', 'o']);
            match radix_parse_spec(cleaned, 8) {
                Some(v) => r == Ok::<Value, ValueError>(v),
                None => (r matches Err(e) && e matches ValueError::Parse(pe)
                    && pe matches ParseValueError::Radix(txt, rx) && txt@ == cleaned && rx == 8),
            }
        },
        Term::BinLiteral(s) => {
            let cleaned = trim_prefix(strip_underscores(s@), seq!['0', 'b']);
            match radix_parse_spec(cleaned, 2) {
                Some(v) => r == Ok::<Value, ValueError>(v),
                None => (r matches Err(e) && e matches ValueError::Parse(pe)
                    && pe matches ParseValueError::Radix(txt, rx) && txt@ == cleaned && rx == 2),
            }
        },
        Term::Constant(Constant::E) => r == Ok::<Value, ValueError>(
            Value::Float(0x4005BF0A8B145769u64),
        ),
        Term::Constant(Constant::Pi) => r == Ok::<Value, ValueError>(
            Value::Float(0x400921FB54442D18u64),
        ),
        Term::History(HistoryIndexKind::Absolute, idx) => {
            if idx < hist.len() {
                r == Ok::<Value, ValueError>(hist[idx as int])
            } else {
                r == Err::<Value, ValueError>(
                    ValueError::HistoryOOB(HistoryIndexKind::Absolute, idx, hist.len() as usize),
                )
            }
        },
        Term::History(HistoryIndexKind::Relative, idx) => {
            if 1 <= idx <= hist.len() {
                r == Ok::<Value, ValueError>(hist[hist.len() - idx])
            } else {
                r == Err::<Value, ValueError>(
                    ValueError::HistoryOOB(HistoryIndexKind::Relative, idx, hist.len() as usize),
                )
            }
        },
    }
}

/// The dispatch table for prefix operators: what applying one to an
/// evaluated operand returns, in terms of the like-named value operation.
pub open spec fn prefix_matches(
    op: PrefixOperator,
    operand: Value,
    r: Result<Value, ValueError>,
) -> bool {
    match op {
        PrefixOperator::Negation => (r matches Ok(v) && neg_matches(operand, v)),
        PrefixOperator::Not => not_matches(operand, r),
    }
}

/// The dispatch table for infix operators: what applying one to two
/// evaluated operands returns, in terms of the like-named value operation.
pub open spec fn infix_matches(
    op: InfixOperator,
    left: Value,
    right: Value,
    r: Result<Value, ValueError>,
) -> bool {
    match op {
        InfixOperator::Add => (r matches Ok(v) && add_matches(left, right, v)),
        InfixOperator::Sub => (r matches Ok(v) && sub_matches(left, right, v)),
        InfixOperator::Mul => (r matches Ok(v) && mul_matches(left, right, v)),
        InfixOperator::Div => div_matches(left, right, r),
        InfixOperator::TruncDiv => trunc_div_matches(left, right, r),
        InfixOperator::Rem => rem_matches(left, right, r),
        InfixOperator::Pow => pow_matches(left, right, r),
        InfixOperator::Lshift => shl_matches(left, right, r),
        InfixOperator::Rshift => shr_matches(left, right, r),
        InfixOperator::RotateL => rotl_matches(left, right, r),
        InfixOperator::RotateR => rotr_matches(left, right, r),
        InfixOperator::BitAnd => bitop_matches(BitOp::And, left, right, r),
        InfixOperator::BitOr => bitop_matches(BitOp::Or, left, right, r),
        InfixOperator::BitXor => bitop_matches(BitOp::Xor, left, right, r),
    }
}

/// The dispatch table for functions: what applying one to an evaluated
/// operand returns, in terms of the like-named value operation; the
/// transcendental family yields a float whose bits the embedder computes.
pub open spec fn func_matches(f: Function, operand: Value, r: Value) -> bool {
    match f {
        Function::Abs => abs_matches(operand, r),
        Function::Ceil => ceil_matches(operand, r),
        Function::Floor => floor_matches(operand, r),
        Function::Round => round_matches(operand, r),
        _ => ord_of(r) == 4,
    }
}

impl PrefixOperator {
    /// Apply this prefix operator to an evaluated operand.
    ///
    /// Negation always succeeds, promoting as needed; bitwise not is
    /// integer-only and reports the integer-only error on a float.
    pub fn evaluate<F: FloatOps>(&self, operand: Value, fl: &F) -> (r: Result<Value, ValueError>)
        ensures
            prefix_matches(*self, operand, r),
    {
        match self {
            PrefixOperator::Negation => Ok(operand.neg(fl)),
            PrefixOperator::Not => operand.not(),
        }
    }
}

impl InfixOperator {
    /// Apply this infix operator to two evaluated operands, dispatching to
    /// the corresponding value method.
    ///
    /// Addition, subtraction, multiplication and the functions never fail;
    /// the division family reports division by zero at integer orders; the
    /// bitwise family is integer-only.
    pub fn evaluate<F: FloatOps>(&self, left: Value, right: Value, fl: &F) -> (r: Result<
        Value,
        ValueError,
    >)
        ensures
            infix_matches(*self, left, right, r),
    {
        match self {
            InfixOperator::Add => Ok(left.add(right, fl)),
            InfixOperator::Sub => Ok(left.sub(right, fl)),
            InfixOperator::Mul => Ok(left.mul(right, fl)),
            InfixOperator::Div => left.div(right, fl),
            InfixOperator::TruncDiv => left.trunc_div(right, fl),
            InfixOperator::Rem => left.rem(right, fl),
            InfixOperator::Pow => left.pow(right, fl),
            InfixOperator::Lshift => left.shl(right),
            InfixOperator::Rshift => left.shr(right),
            InfixOperator::RotateL => left.rotate_left(right),
            InfixOperator::RotateR => left.rotate_right(right),
            InfixOperator::BitAnd => left.bitand(right),
            InfixOperator::BitOr => left.bitor(right),
            InfixOperator::BitXor => left.bitxor(right),
        }
    }
}

impl Function {
    /// Apply this function to an evaluated operand, dispatching to the
    /// corresponding value method. Functions never fail: the rounding family
    /// preserves integer orders, and the transcendental family forces its
    /// operand to float order.
    pub fn evaluate<F: FloatOps>(&self, operand: Value, fl: &F) -> (r: Value)
        ensures
            func_matches(*self, operand, r),
    {
        match self {
            Function::Abs => operand.abs(fl),
            Function::Ceil => operand.ceil(),
            Function::Floor => operand.floor(),
            Function::Round => operand.round(),
            Function::Sin => operand.sin(fl),
            Function::Cos => operand.cos(fl),
            Function::Tan => operand.tan(fl),
            Function::Sinh => operand.sinh(fl),
            Function::Cosh => operand.cosh(fl),
            Function::Tanh => operand.tanh(fl),
            Function::Asin => operand.asin(fl),
            Function::Acos => operand.acos(fl),
            Function::Atan => operand.atan(fl),
            Function::Asinh => operand.asinh(fl),
            Function::Acosh => operand.acosh(fl),
            Function::Atanh => operand.atanh(fl),
            Function::Rad => operand.rad(fl),
            Function::Deg => operand.deg(fl),
            Function::Sqrt => operand.sqrt(fl),
            Function::Cbrt => operand.cbrt(fl),
            Function::Log => operand.log(fl),
            Function::Lg => operand.lg(fl),
            Function::Ln => operand.ln(fl),
            Function::Exp => operand.exp(fl),
        }
    }
}

impl Term {
    /// Evaluate this term against a context: parse a literal, produce a
    /// constant, or resolve a history reference.
    pub fn evaluate<F: FloatOps>(&self, ctx: &Context, fl: &F) -> (r: Result<Value, ValueError>)
        ensures
            term_matches(*self, ctx.history@, r),
    {
        match self {
            Term::Literal(s) => {
                match Value::parse_decimal(s.as_str(), fl) {
                    Ok(v) => Ok(v),
                    Err(e) => Err(ValueError::Parse(e)),
                }
            },
            Term::HexLiteral(s) => {
                match Value::parse_hex(s.as_str()) {
                    Ok(v) => Ok(v),
                    Err(e) => Err(ValueError::Parse(e)),
                }
            },
            Term::OctLiteral(s) => {
                match Value::parse_octal(s.as_str()) {
                    Ok(v) => Ok(v),
                    Err(e) => Err(ValueError::Parse(e)),
                }
            },
            Term::BinLiteral(s) => {
                match Value::parse_binary(s.as_str()) {
                    Ok(v) => Ok(v),
                    Err(e) => Err(ValueError::Parse(e)),
                }
            },
            Term::Constant(Constant::E) => Ok(Value::euler()),
            Term::Constant(Constant::Pi) => Ok(Value::pi()),
            Term::History(kind, idx) => {
                let n = ctx.history.len();
                let real_idx: usize = match kind {
                    HistoryIndexKind::Absolute => *idx,
                    HistoryIndexKind::Relative => {
                        if *idx > n {
                            return Err(ValueError::HistoryOOB(*kind, *idx, n));
                        }
                        n - *idx
                    },
                };
                if real_idx < n {
                    Ok(ctx.history[real_idx])
                } else {
                    Err(ValueError::HistoryOOB(*kind, *idx, n))
                }
            },
        }
    }
}

impl Expr {
    /// Evaluate this expression into its mathematical result: terms resolve
    /// against the context, operators and functions dispatch to the value
    /// tower, and groups are transparent.
    pub fn evaluate<F: FloatOps>(&self, ctx: &Context, fl: &F) -> (r: Result<Value, ValueError>)
        ensures
            eval_matches(*self, ctx.history@, r),
        decreases *self,
    {
        match self {
            Expr::Term(term) => term.evaluate(ctx, fl),
            Expr::Prefix(prefix, expr) => {
                let ir = expr.evaluate(ctx, fl);
                let ghost gir = ir;
                let out = match ir {
                    Ok(v) => prefix.evaluate(v, fl),
                    Err(e) => Err(e),
                };
                proof {
                    assert(prefix_step(*prefix, gir, out));
                    assert(eval_matches(**expr, ctx.history@, gir));
                }
                out
            },
            Expr::Infix(left, infix, right) => {
                let lres = left.evaluate(ctx, fl);
                match lres {
                    Ok(lv) => {
                        let rres = right.evaluate(ctx, fl);
                        let ghost grres = rres;
                        let out = match rres {
                            Ok(rv) => infix.evaluate(lv, rv, fl),
                            Err(e) => Err(e),
                        };
                        proof {
                            assert(infix_step(*infix, lv, grres, out));
                            assert(eval_matches(
                                **left,
                                ctx.history@,
                                Ok::<Value, ValueError>(lv),
                            ));
                            assert(eval_matches(**right, ctx.history@, grres));
                        }
                        out
                    },
                    Err(e) => {
                        let ghost ge = e;
                        let out = Err(e);
                        proof {
                            assert(left_err_step(ge, out));
                            assert(eval_matches(
                                **left,
                                ctx.history@,
                                Err::<Value, ValueError>(ge),
                            ));
                        }
                        out
                    },
                }
            },
            Expr::Func(func, expr) => {
                let ir = expr.evaluate(ctx, fl);
                let ghost gir = ir;
                let out = match ir {
                    Ok(v) => Ok(func.evaluate(v, fl)),
                    Err(e) => Err(e),
                };
                proof {
                    assert(func_step(*func, gir, out));
                    assert(eval_matches(**expr, ctx.history@, gir));
                }
                out
            },
            Expr::Group(expr) => expr.evaluate(ctx, fl),
        }
    }
}

/// One step of prefix evaluation: the operand's outcome either propagates
/// its error or feeds the operator's dispatch table.
pub open spec fn prefix_step(
    op: PrefixOperator,
    ir: Result<Value, ValueError>,
    r: Result<Value, ValueError>,
) -> bool {
    match ir {
        Ok(v) => prefix_matches(op, v, r),
        Err(e0) => r == Err::<Value, ValueError>(e0),
    }
}

/// One step of infix evaluation over both operands' outcomes, the right one
/// reached only past a successful left one.
pub open spec fn infix_step(
    op: InfixOperator,
    lv: Value,
    rres: Result<Value, ValueError>,
    r: Result<Value, ValueError>,
) -> bool {
    match rres {
        Ok(rv) => infix_matches(op, lv, rv, r),
        Err(e1) => r == Err::<Value, ValueError>(e1),
    }
}

/// One step of function evaluation: the operand's outcome either propagates
/// its error or feeds the function's dispatch table, which cannot fail.
pub open spec fn func_step(
    f: Function,
    ir: Result<Value, ValueError>,
    r: Result<Value, ValueError>,
) -> bool {
    match ir {
        Ok(v) => (r matches Ok(w) && func_matches(f, v, w)),
        Err(e0) => r == Err::<Value, ValueError>(e0),
    }
}

/// Propagation of a left operand's error, unchanged.
pub open spec fn left_err_step(e0: ValueError, r: Result<Value, ValueError>) -> bool {
    r == Err::<Value, ValueError>(e0)
}

/// The evaluation relation: what evaluating an expression against a history
/// may return. Terms follow their exact contract; a prefix, infix, or
/// function node evaluates its operands — left before right — propagates
/// the first error unchanged, and otherwise applies its operator's dispatch
/// table; a group is transparent. Results at float order are related
/// existentially, since their bits come from the embedder.
pub open spec fn eval_matches(e: Expr, hist: Seq<Value>, r: Result<Value, ValueError>) -> bool
    decreases e,
{
    match e {
        Expr::Term(t) => term_matches(t, hist, r),
        Expr::Prefix(op, inner) => exists|ir: Result<Value, ValueError>|
            #[trigger] prefix_step(op, ir, r) && eval_matches(*inner, hist, ir),
        Expr::Infix(l, op, rr) => (exists|e0: ValueError|
            #[trigger] left_err_step(e0, r) && eval_matches(*l, hist, Err(e0))) || (exists|
            lv: Value,
            rres: Result<Value, ValueError>,
        |
            #[trigger] infix_step(op, lv, rres, r) && eval_matches(*l, hist, Ok(lv))
                && eval_matches(*rr, hist, rres)),
        Expr::Func(f, inner) => exists|ir: Result<Value, ValueError>|
            #[trigger] func_step(f, ir, r) && eval_matches(*inner, hist, ir),
        Expr::Group(inner) => eval_matches(*inner, hist, r),
    }
}

/// Error produced by evaluating an annotated expression.
#[derive(Debug, PartialEq, Eq)]
pub enum AnnotatedError {
    /// The expression itself failed to evaluate.
    Calculation(ValueError),
    /// The calculated result could not be rendered in the desired format;
    /// the message describes why.
    Format(String),
}

/// An expression annotated with an output format.
#[derive(Debug, PartialEq, Eq)]
pub struct AnnotatedExpr {
    pub expr: Expr,
    pub format: OutputFormat,
}

impl AnnotatedExpr {
    /// Evaluate this expression into its mathematical result.
    ///
    /// Return the result as a bare value and also rendered according to the
    /// requested output format.
    pub fn evaluate<F: FloatOps>(&self, ctx: &Context, fl: &F) -> (r: Result<
        (Value, String),
        AnnotatedError,
    >)
        ensures
            r matches Ok(p) ==> eval_matches(self.expr, ctx.history@, Ok(p.0))
                && crate::render::render_matches(p.0, self.format, p.1@),
            r matches Err(ae) ==> (ae matches AnnotatedError::Calculation(e) ==> eval_matches(
                self.expr,
                ctx.history@,
                Err(e),
            )),
    {
        let value = match self.expr.evaluate(ctx, fl) {
            Ok(v) => v,
            Err(e) => {
                return Err(AnnotatedError::Calculation(e));
            },
        };
        let formatted = match value.render(&self.format, fl) {
            Ok(s) => s,
            Err(msg) => {
                return Err(AnnotatedError::Format(msg));
            },
        };
        Ok((value, formatted))
    }
}

} // verus!
