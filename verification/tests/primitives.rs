use rusp::eval::Evaluator;
use rusp::expr::{intern, num, Expr};
use rusp::list::{cons, List};

fn form(items: Vec<Expr>) -> Expr {
    Expr::List(List::from_vec(items), None)
}

fn quoted(e: Expr) -> Expr {
    form(vec![intern("quote"), e])
}

#[test]
fn test_cond() {
    let mut ev = Evaluator::with_prelude();
    // (cond (t 0) (f 1)) => 0
    let expr = form(vec![
        intern("cond"),
        form(vec![intern("t"), num(0)]),
        form(vec![intern("f"), num(1)]),
    ]);
    assert_eq!(ev.eval(&expr), Ok(num(0)));
    // (cond (f 0) (t 1)) => 1
    let expr = form(vec![
        intern("cond"),
        form(vec![intern("f"), num(0)]),
        form(vec![intern("t"), num(1)]),
    ]);
    assert_eq!(ev.eval(&expr), Ok(num(1)));
}

#[test]
fn primitives_test_quote() {
    let mut ev = Evaluator::with_prelude();
    // '1 => 1
    assert_eq!(ev.eval(&quoted(num(1))), Ok(num(1)));
    // '(1) => (1)
    let one = Expr::List(cons(num(1), List::Nil), None);
    assert_eq!(ev.eval(&quoted(one.clone())), Ok(one));
    // '(1 2) => (1 2)
    let one_two = Expr::List(cons(num(1), cons(num(2), List::Nil)), None);
    assert_eq!(ev.eval(&quoted(one_two.clone())), Ok(one_two));
}
