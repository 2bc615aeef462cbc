use rusp::builtin::primitive::{define, eq};
use rusp::eval::Evaluator;
use rusp::expr::{intern, num, text, Expr};
use rusp::list::List;

const FUEL: u64 = 64;

#[test]
fn primitive_test_define() {
    let mut evaluator = Evaluator::new();
    let env = evaluator.root_env();
    let ctx = evaluator.context();

    // (define name "value")
    let args = List::from_vec(vec![intern("name"), text("value")]);
    let ret = define("", &args, &mut evaluator.heap, ctx, FUEL);
    assert_eq!(ret, Ok(Expr::nil()));
    assert_eq!(env.lookup(&evaluator.heap, "name"), Some(text("value")));
}

#[test]
fn primitive_test_eq() {
    let mut evaluator = Evaluator::new();
    let ctx = evaluator.context();

    // (eq 1 1) => #t
    let args = List::from_vec(vec![num(1), num(1)]);
    assert_ne!(
        eq("", &args, &mut evaluator.heap, ctx, FUEL).unwrap(),
        Expr::nil()
    );
    // (eq 1 2) => ()
    let args = List::from_vec(vec![num(1), num(2)]);
    assert_eq!(
        eq("", &args, &mut evaluator.heap, ctx, FUEL).unwrap(),
        Expr::nil()
    );
    // (eq "str" "str") => #t
    let args = List::from_vec(vec![text("str"), text("str")]);
    assert_ne!(
        eq("", &args, &mut evaluator.heap, ctx, FUEL).unwrap(),
        Expr::nil()
    );
    // (eq 1 "1") => ()
    let args = List::from_vec(vec![num(1), text("1")]);
    assert_eq!(
        eq("", &args, &mut evaluator.heap, ctx, FUEL).unwrap(),
        Expr::nil()
    );
}
