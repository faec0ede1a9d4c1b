use starlark::known::{AstExpr, Compiler, Conditional, Expr, ExprCompiled, ExprCompiledValue};
use starlark::payload::SimplePayload;
use starlark::value::Span;

fn at(node: Expr) -> AstExpr {
    AstExpr { span: Span { lo: 0, hi: 0 }, node }
}

#[test]
fn literal_conditions_fold_to_constants() {
    let mut c = Compiler {};
    assert!(matches!(
        c.conditional(at(Expr::Lit(SimplePayload::Bool(true)))),
        Conditional::True
    ));
    assert!(matches!(
        c.conditional(at(Expr::Lit(SimplePayload::Bool(false)))),
        Conditional::False
    ));
    // Truthiness of non-boolean literals decides the fold.
    assert!(matches!(
        c.conditional(at(Expr::Lit(SimplePayload::Int(0)))),
        Conditional::False
    ));
    assert!(matches!(
        c.conditional(at(Expr::Lit(SimplePayload::Str(String::from("x"))))),
        Conditional::True
    ));
}

#[test]
fn one_leading_negation_is_encoded_statically() {
    let mut c = Compiler {};
    assert!(matches!(
        c.conditional(at(Expr::Not(Box::new(at(Expr::Lit(SimplePayload::Bool(true))))))),
        Conditional::False
    ));
    match c.conditional(at(Expr::Runtime(11))) {
        Conditional::Normal(e) => assert_eq!(e, ExprCompiled { code: 11, negated: false }),
        _ => panic!("runtime condition compiles as is"),
    }
    match c.conditional(at(Expr::Not(Box::new(at(Expr::Runtime(11)))))) {
        Conditional::Negate(e) => assert_eq!(e, ExprCompiled { code: 11, negated: false }),
        _ => panic!("one leading negation becomes the negated shape"),
    }
}

#[test]
fn inner_negations_fold_into_the_compiled_fragment() {
    let mut c = Compiler {};
    // The outer negation flips the expected truthiness; the inner one is
    // folded into the compiled fragment's negation mark.
    let e = at(Expr::Not(Box::new(at(Expr::Not(Box::new(at(Expr::Runtime(3))))))));
    match c.conditional(e) {
        Conditional::Negate(f) => assert_eq!(f, ExprCompiled { code: 3, negated: true }),
        _ => panic!("negated fragment under a negated expectation"),
    }
}

#[test]
fn expr_folds_literals_and_marks_negations() {
    let mut c = Compiler {};
    match c.expr(at(Expr::Not(Box::new(at(Expr::Lit(SimplePayload::Int(7))))))) {
        ExprCompiledValue::Value(SimplePayload::Bool(b)) => assert!(!b),
        _ => panic!("negation of a known value folds"),
    }
    match c.expr(at(Expr::Not(Box::new(at(Expr::Runtime(4)))))) {
        ExprCompiledValue::Compiled(f) => assert_eq!(f, ExprCompiled { code: 4, negated: true }),
        _ => panic!("negation of a fragment toggles its mark"),
    }
}
