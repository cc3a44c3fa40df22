use debruijn::lambda::bruijn::Bruijn;
use debruijn::lambda::expr_to_bruijn;
use debruijn::lambda::expr_to_bruijn_in;
use debruijn::lambda::named::Expr;

fn var(name: &str) -> Expr {
    Expr::Var(name.to_string())
}

fn abs(head: &str, body: Expr) -> Expr {
    Expr::Abs(head.to_string(), Box::new(body))
}

fn app(f: Expr, a: Expr) -> Expr {
    Expr::App(Box::new(f), Box::new(a))
}

fn val(i: i32) -> Bruijn {
    Bruijn::Val(i)
}

fn lit(name: &str) -> Bruijn {
    Bruijn::Lit(name.to_string())
}

fn babs(body: Bruijn) -> Bruijn {
    Bruijn::Abs(Box::new(body))
}

fn bapp(f: Bruijn, a: Bruijn) -> Bruijn {
    Bruijn::App(Box::new(f), Box::new(a))
}

#[test]
fn free_variable_passes_through() {
    assert_eq!(expr_to_bruijn(&var("x")), Some(lit("x")));
}

#[test]
fn inner_binder_shadows_outer() {
    let e = abs("x", abs("x", var("x")));
    assert_eq!(expr_to_bruijn(&e), Some(babs(babs(val(0)))));
}

#[test]
fn application_opens_no_scope() {
    let e = app(var("x"), var("x"));
    let scope = vec!["x".to_string()];
    assert_eq!(expr_to_bruijn_in(&e, &scope), Some(bapp(val(0), val(0))));
}

#[test]
fn outer_scope_counts_enclosing_binders() {
    let e = abs("y", app(var("x"), var("y")));
    let scope = vec!["x".to_string(), "z".to_string()];
    assert_eq!(
        expr_to_bruijn_in(&e, &scope),
        Some(babs(bapp(val(2), val(0))))
    );
}

#[test]
fn innermost_scope_entry_wins() {
    let scope = vec!["x".to_string(), "x".to_string(), "y".to_string()];
    assert_eq!(expr_to_bruijn_in(&var("x"), &scope), Some(val(1)));
}

#[test]
fn closed_term_indices_stay_below_depth() {
    let e = abs("a", abs("b", abs("c", app(app(var("a"), var("c")), var("b")))));
    assert_eq!(
        expr_to_bruijn(&e),
        Some(babs(babs(babs(bapp(bapp(val(2), val(0)), val(1))))))
    );
}

#[test]
fn identity_reduces_to_argument() {
    let id = expr_to_bruijn(&abs("a", var("a"))).unwrap();
    assert_eq!(id, babs(val(0)));
    assert_eq!(bapp(id, lit("v")).eval(), lit("v"));
}

#[test]
fn free_head_application_is_unchanged() {
    let e = bapp(lit("f"), lit("x"));
    assert_eq!(e.eval(), bapp(lit("f"), lit("x")));
}

#[test]
fn apply_combinator_scenario() {
    let apply = abs("a", abs("b", app(var("a"), var("b"))));
    let id = abs("a", var("a"));
    let e = app(app(apply, id), var("v"));
    assert_eq!(e.to_text(), "(((\\a -> (\\b -> (a b))) (\\a -> a)) v)");
    let b = expr_to_bruijn(&e).unwrap();
    assert_eq!(b.to_text(), "(((\\ (\\ (1 0))) (\\ 0)) #v)");
    // The last substitution leaves a redex that is not reduced further.
    let once = b.eval();
    assert_eq!(once, bapp(babs(val(0)), lit("v")));
    assert_eq!(once.to_text(), "((\\ 0) #v)");
    assert_eq!(once.eval(), lit("v"));
    assert_eq!(once.eval().to_text(), "#v");
}

#[test]
fn substitution_result_is_not_evaluated_again() {
    let e = app(abs("a", var("a")), app(abs("b", var("b")), var("v")));
    let b = expr_to_bruijn(&e).unwrap();
    assert_eq!(b.eval(), bapp(babs(val(0)), lit("v")));
}

#[test]
fn stuck_application_keeps_evaluated_head() {
    let e = bapp(bapp(babs(val(0)), lit("y")), lit("z"));
    assert_eq!(e.eval(), bapp(lit("y"), lit("z")));
}

#[test]
fn abstraction_body_is_not_evaluated() {
    let e = babs(bapp(babs(val(0)), lit("v")));
    assert_eq!(e.eval(), e.clone());
}

#[test]
fn substitution_follows_binders() {
    let e = bapp(babs(babs(bapp(val(1), val(0)))), lit("v"));
    assert_eq!(e.eval(), babs(bapp(lit("v"), val(0))));
}

#[test]
fn substitution_leaves_other_indices() {
    let e = bapp(babs(bapp(val(3), val(0))), lit("v"));
    assert_eq!(e.eval(), bapp(val(3), lit("v")));
}

#[test]
fn substitution_copies_argument_everywhere() {
    let e = bapp(babs(bapp(val(0), val(0))), babs(val(0)));
    assert_eq!(e.eval(), bapp(babs(val(0)), babs(val(0))));
}

#[test]
fn leaves_evaluate_to_themselves() {
    assert_eq!(val(4).eval(), val(4));
    assert_eq!(lit("q").eval(), lit("q"));
}

#[test]
fn index_text_in_decimal() {
    assert_eq!(val(0).to_text(), "0");
    assert_eq!(val(1234).to_text(), "1234");
    assert_eq!(val(-5).to_text(), "-5");
    assert_eq!(val(i32::MAX).to_text(), "2147483647");
    assert_eq!(val(i32::MIN).to_text(), "-2147483648");
}

#[test]
fn named_text_forms() {
    assert_eq!(var("x").to_text(), "x");
    assert_eq!(abs("x", var("y")).to_text(), "(\\x -> y)");
    assert_eq!(app(var("f"), var("a")).to_text(), "(f a)");
}

#[test]
fn copies_are_equal() {
    let e = app(abs("a", var("a")), var("v"));
    assert_eq!(e.clone(), e);
    assert_eq!(e.duplicate(), e);
    let b = expr_to_bruijn(&e).unwrap();
    assert_eq!(b.duplicate(), b);
}
