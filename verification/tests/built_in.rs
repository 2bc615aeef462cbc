use rusp::built_in::{car, cdr, define, eq, quote};
use rusp::env::{Env, EnvHeap};
use rusp::eval::EvalContext;
use rusp::expr::{num, sym, text, Expr};
use rusp::list::List;

const FUEL: u64 = 64;

fn ctx_of(env: Env) -> EvalContext {
    EvalContext { env, call_depth: 0 }
}

#[test]
fn test_car() {
    let mut heap = EnvHeap::new();
    let env = Env::new(&mut heap);
    // (car '(1 2)) => 1
    let args = List::from_vec(vec![num(1), num(2)]);
    let ret = car(&args, &mut heap, ctx_of(env), FUEL);
    assert_eq!(ret, Ok(num(1)));
}

#[test]
fn test_cdr() {
    let mut heap = EnvHeap::new();
    let env = Env::new(&mut heap);
    // (cdr '(1 2)) => 2
    let args = List::from_vec(vec![num(1), num(2)]);
    let ret = cdr(&args, &mut heap, ctx_of(env), FUEL);
    assert_eq!(ret, Ok(num(2)));
}

#[test]
fn built_in_test_define() {
    let mut heap = EnvHeap::new();
    let env = Env::new(&mut heap);
    // (define name "value")
    let args = List::from_vec(vec![sym("name"), text("value")]);
    let ret = define(&args, &mut heap, ctx_of(env), FUEL);
    assert_eq!(ret, Ok(Expr::nil()));
    assert_eq!(env.lookup(&heap, "name"), Some(text("value")));
}

#[test]
fn built_in_test_eq() {
    let mut heap = EnvHeap::new();
    let env = Env::new(&mut heap);
    // (eq 1 1) => #t
    let args = List::from_vec(vec![num(1), num(1)]);
    assert_eq!(eq(&args, &mut heap, ctx_of(env), FUEL), Ok(sym("#t")));
    // (eq 1 2) => ()
    let args = List::from_vec(vec![num(1), num(2)]);
    assert_eq!(eq(&args, &mut heap, ctx_of(env), FUEL), Ok(Expr::nil()));
    // (eq "str" "str") => #t
    let args = List::from_vec(vec![text("str"), text("str")]);
    assert_eq!(eq(&args, &mut heap, ctx_of(env), FUEL), Ok(sym("#t")));
    // (eq 1 "1") => ()
    let args = List::from_vec(vec![num(1), text("1")]);
    assert_eq!(eq(&args, &mut heap, ctx_of(env), FUEL), Ok(Expr::nil()));
}

#[test]
fn built_in_test_quote() {
    let mut heap = EnvHeap::new();
    let env = Env::new(&mut heap);
    // (quote (1 2)) => (1 2)
    let one_two = Expr::List(List::from_vec(vec![num(1), num(2)]), None);
    let args = List::from_vec(vec![one_two.clone()]);
    let ret = quote(&args, &mut heap, ctx_of(env), FUEL);
    assert_eq!(ret, Ok(one_two));
}
