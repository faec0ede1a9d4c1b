//! Compilation of conditions over known values.
//!
//! Conditional expressions are common, many have literal operands and
//! quite a few start with a negation, so the compiler encodes those
//! options statically: a condition that folds to a known value becomes a
//! constant outcome, and one leading negation is absorbed into the shape
//! of the compiled condition instead of compiled code of its own. The
//! expression compiler itself is an external collaborator; it is modelled
//! here just far enough to compile literals, negations and opaque runtime
//! fragments.

use vstd::prelude::*;

use crate::avalue::StarlarkValue;
use crate::payload::SimplePayload;
use crate::value::Span;

verus! {

/// An expression, as the parser hands it over: a literal frozen value, a
/// negation, or a fragment only evaluable at runtime.
pub enum Expr {
    Lit(SimplePayload),
    Not(Box<AstExpr>),
    Runtime(u64),
}

/// An expression together with its source span.
pub struct AstExpr {
    pub span: Span,
    pub node: Expr,
}

/// A compiled runtime fragment: the fragment's code handle and whether its
/// result is negated before use.
#[derive(Clone, Copy, PartialEq, Eq, Structural, Debug)]
pub struct ExprCompiled {
    pub code: u64,
    pub negated: bool,
}

/// What compiling an expression produces: a value known at compile time,
/// or compiled code.
pub enum ExprCompiledValue {
    Value(SimplePayload),
    Compiled(ExprCompiled),
}

/// A compiled condition: constant truth, constant falsehood, or compiled
/// code taken as is or negated.
pub enum Conditional {
    True,
    False,
    Normal(ExprCompiled),
    Negate(ExprCompiled),
}

/// What the expression compiler produces: literals fold to known values,
/// a negation folds through a known operand and toggles the negation mark
/// of a compiled one, and a runtime fragment compiles to itself.
pub open spec fn compile_spec(e: AstExpr) -> ExprCompiledValue
    decreases e,
{
    match e.node {
        Expr::Lit(p) => ExprCompiledValue::Value(p),
        Expr::Runtime(id) => ExprCompiledValue::Compiled(ExprCompiled { code: id, negated: false }),
        Expr::Not(inner) => match compile_spec(*inner) {
            ExprCompiledValue::Value(p) => ExprCompiledValue::Value(
                SimplePayload::Bool(!p.to_bool_spec()),
            ),
            ExprCompiledValue::Compiled(c) => ExprCompiledValue::Compiled(
                ExprCompiled { code: c.code, negated: !c.negated },
            ),
        },
    }
}

/// The conditional built from a compiled operand and the truthiness it is
/// expected to take: a known operand folds to a constant outcome, compiled
/// code is kept as is or negated.
pub open spec fn cond_of(v: ExprCompiledValue, expect: bool) -> Conditional {
    match v {
        ExprCompiledValue::Value(p) => if p.to_bool_spec() == expect {
            Conditional::True
        } else {
            Conditional::False
        },
        ExprCompiledValue::Compiled(c) => if expect {
            Conditional::Normal(c)
        } else {
            Conditional::Negate(c)
        },
    }
}

/// What [`Compiler::conditional`] answers: one leading negation flips the
/// expected truthiness, the operand is compiled, and the outcome folds
/// where the operand is known.
pub open spec fn conditional_spec(e: AstExpr) -> Conditional {
    match e.node {
        Expr::Not(inner) => cond_of(compile_spec(*inner), false),
        _ => cond_of(compile_spec(e), true),
    }
}

/// The expression compiler, an external collaborator modelled only as far
/// as condition compilation needs it.
pub struct Compiler {}

impl Compiler {
    /// Compile one expression, folding what is known at compile time.
    pub fn expr(&mut self, expr: AstExpr) -> (r: ExprCompiledValue)
        ensures
            r == compile_spec(expr),
        decreases expr,
    {
        match expr.node {
            Expr::Lit(p) => ExprCompiledValue::Value(p),
            Expr::Runtime(id) => ExprCompiledValue::Compiled(
                ExprCompiled { code: id, negated: false },
            ),
            Expr::Not(inner) => {
                match self.expr(*inner) {
                    ExprCompiledValue::Value(p) => ExprCompiledValue::Value(
                        SimplePayload::Bool(!p.to_bool()),
                    ),
                    ExprCompiledValue::Compiled(c) => ExprCompiledValue::Compiled(
                        ExprCompiled { code: c.code, negated: !c.negated },
                    ),
                }
            }
        }
    }

    /// Compile a condition. A literal (or imported known value) folds to a
    /// constant outcome; one leading negation is encoded statically in the
    /// shape of the result rather than compiled.
    pub fn conditional(&mut self, expr: AstExpr) -> (r: Conditional)
        ensures
            r == conditional_spec(expr),
    {
        let (expect, val) = match expr.node {
            Expr::Not(inner) => (false, self.expr(*inner)),
            node => {
                let e = AstExpr { span: expr.span, node };
                (true, self.expr(e))
            }
        };
        match val {
            ExprCompiledValue::Value(x) => {
                if x.to_bool() == expect {
                    Conditional::True
                } else {
                    Conditional::False
                }
            }
            ExprCompiledValue::Compiled(v) => {
                if expect {
                    Conditional::Normal(v)
                } else {
                    Conditional::Negate(v)
                }
            }
        }
    }
}

} // verus!
