use rusp::env::{Env, EnvHeap};
use rusp::eval::Evaluator;
use rusp::expr::{intern, num, text, Expr};
use rusp::list::List;
use rusp::proc::Proc;

fn form(items: Vec<Expr>) -> Expr {
    Expr::List(List::from_vec(items), None)
}

fn quoted(e: Expr) -> Expr {
    form(vec![intern("quote"), e])
}

fn nums(values: Vec<i64>) -> Expr {
    form(values.into_iter().map(num).collect())
}

#[test]
fn cond_no_match_yields_nil() {
    let mut ev = Evaluator::with_prelude();
    // (cond (f 1) (f 2)) => ()
    let expr = form(vec![
        intern("cond"),
        form(vec![intern("f"), num(1)]),
        form(vec![intern("f"), num(2)]),
    ]);
    assert_eq!(ev.eval(&expr), Ok(Expr::nil()));
}

#[test]
fn cond_selects_first_truthy_literal() {
    let mut ev = Evaluator::with_prelude();
    // (cond (() 1) (5 2) (7 3)) => 2: the empty list is falsy, 5 is truthy
    let expr = form(vec![
        intern("cond"),
        form(vec![Expr::nil(), num(1)]),
        form(vec![num(5), num(2)]),
        form(vec![num(7), num(3)]),
    ]);
    assert_eq!(ev.eval(&expr), Ok(num(2)));
}

#[test]
fn cond_truthy_clause_without_body_is_error() {
    let mut ev = Evaluator::with_prelude();
    // (cond (t)) => error
    let expr = form(vec![intern("cond"), form(vec![intern("t")])]);
    assert!(ev.eval(&expr).is_err());
}

#[test]
fn cond_malformed_clause_is_error() {
    let mut ev = Evaluator::with_prelude();
    // (cond 5) => error
    let expr = form(vec![intern("cond"), num(5)]);
    assert!(ev.eval(&expr).is_err());
}

#[test]
fn quote_deep_nesting_is_returned_unevaluated() {
    let mut ev = Evaluator::with_prelude();
    // '(1 (2 (3 (+ 1 1)))) comes back structurally identical
    let tree = form(vec![
        num(1),
        form(vec![num(2), form(vec![num(3), form(vec![intern("+"), num(1), num(1)])])]),
    ]);
    assert_eq!(ev.eval(&quoted(tree.clone())), Ok(tree));
}

#[test]
fn quasiquote_unquote_round_trip() {
    let mut ev = Evaluator::with_prelude();
    // `(1 ,(+ 1 1) 3) => (1 2 3)
    let template = form(vec![
        num(1),
        form(vec![intern("unquote"), form(vec![intern("+"), num(1), num(1)])]),
        num(3),
    ]);
    let expr = form(vec![intern("quasiquote"), template]);
    assert_eq!(ev.eval(&expr), Ok(nums(vec![1, 2, 3])));
}

#[test]
fn quasiquote_splicing_flattens_one_level() {
    let mut ev = Evaluator::with_prelude();
    // `(1 ,@(list 2 3) 4) => (1 2 3 4)
    let template = form(vec![
        num(1),
        form(vec![
            intern("unquote-splicing"),
            form(vec![intern("list"), num(2), num(3)]),
        ]),
        num(4),
    ]);
    let expr = form(vec![intern("quasiquote"), template]);
    assert_eq!(ev.eval(&expr), Ok(nums(vec![1, 2, 3, 4])));
}

#[test]
fn quasiquote_nested_list_splices_only_once() {
    let mut ev = Evaluator::with_prelude();
    // `(1 ((2 3))) keeps the nesting: splicing is not recursive
    let template = form(vec![num(1), form(vec![form(vec![num(2), num(3)])])]);
    let expr = form(vec![intern("quasiquote"), template]);
    let expected = form(vec![num(1), form(vec![nums(vec![2, 3])])]);
    assert_eq!(ev.eval(&expr), Ok(expected));
}

#[test]
fn define_function_and_call() {
    let mut ev = Evaluator::with_prelude();
    // (define (add a b) (+ a b)) then (add 2 3) => 5
    let def = form(vec![
        intern("define"),
        form(vec![intern("add"), intern("a"), intern("b")]),
        form(vec![intern("+"), intern("a"), intern("b")]),
    ]);
    assert_eq!(ev.eval(&def), Ok(Expr::nil()));
    let call = form(vec![intern("add"), num(2), num(3)]);
    assert_eq!(ev.eval(&call), Ok(num(5)));
}

#[test]
fn car_and_cdr_of_quoted_list() {
    let mut ev = Evaluator::with_prelude();
    // (car '(1 2)) => 1
    let expr = form(vec![intern("car"), quoted(nums(vec![1, 2]))]);
    assert_eq!(ev.eval(&expr), Ok(num(1)));
    // (cdr '(1 2)) => (2)
    let expr = form(vec![intern("cdr"), quoted(nums(vec![1, 2]))]);
    assert_eq!(ev.eval(&expr), Ok(nums(vec![2])));
}

#[test]
fn lambda_application() {
    let mut ev = Evaluator::with_prelude();
    // ((lambda (x) (* x x)) 5) => 25
    let lambda = form(vec![
        intern("lambda"),
        form(vec![intern("x")]),
        form(vec![intern("*"), intern("x"), intern("x")]),
    ]);
    let call = form(vec![lambda, num(5)]);
    assert_eq!(ev.eval(&call), Ok(num(25)));
}

#[test]
fn tail_recursive_count_does_not_grow_the_stack() {
    let mut ev = Evaluator::with_prelude();
    // (define (count n) (cond ((eq? n 100000) n) (t (count (+ n 1)))))
    let def = form(vec![
        intern("define"),
        form(vec![intern("count"), intern("n")]),
        form(vec![
            intern("cond"),
            form(vec![
                form(vec![intern("eq?"), intern("n"), num(100000)]),
                intern("n"),
            ]),
            form(vec![
                intern("t"),
                form(vec![intern("count"), form(vec![intern("+"), intern("n"), num(1)])]),
            ]),
        ]),
    ]);
    assert_eq!(ev.eval(&def), Ok(Expr::nil()));
    // (count 0) => 100000, far deeper than native recursion could nest
    let call = form(vec![intern("count"), num(0)]);
    assert_eq!(ev.eval(&call), Ok(num(100000)));
}

#[test]
fn gc_reclaims_mutually_capturing_scopes() {
    let mut ev = Evaluator::with_builtin();
    let root = ev.root_env();
    let a = root.derive(&mut ev.heap);
    let b = root.derive(&mut ev.heap);
    // a closure stored in scope A captures scope B, and vice versa
    let captures_b = Expr::Proc(
        Proc::Closure {
            name: None,
            formal_args: List::Nil,
            body: List::Nil,
            outer_env: b,
        },
        None,
    );
    a.define(&mut ev.heap, "f", captures_b);
    let captures_a = Expr::Proc(
        Proc::Closure {
            name: None,
            formal_args: List::Nil,
            body: List::Nil,
            outer_env: a,
        },
        None,
    );
    b.define(&mut ev.heap, "g", captures_a);
    // neither scope is reachable from the root
    assert_eq!(ev.count_unreachable_envs(), 2);
    ev.collect_garbage();
    // both were reclaimed: unregistered, bindings cleared, nothing left over
    assert!(!ev.heap.records[a.id].live);
    assert!(!ev.heap.records[b.id].live);
    assert!(ev.heap.records[a.id].vars.is_empty());
    assert_eq!(ev.count_unreachable_envs(), 0);
}

#[test]
fn gc_keeps_scopes_captured_from_the_root() {
    let mut ev = Evaluator::with_builtin();
    let root = ev.root_env();
    let a = root.derive(&mut ev.heap);
    a.define(&mut ev.heap, "x", num(7));
    // the root holds a closure capturing A, so A stays alive
    let keeper = Expr::Proc(
        Proc::Closure {
            name: None,
            formal_args: List::Nil,
            body: List::Nil,
            outer_env: a,
        },
        None,
    );
    root.define(&mut ev.heap, "keeper", keeper);
    assert_eq!(ev.count_unreachable_envs(), 0);
    ev.collect_garbage();
    assert!(ev.heap.records[a.id].live);
    assert_eq!(a.lookup(&ev.heap, "x"), Some(num(7)));
}

#[test]
fn gc_on_fresh_interpreter_finds_nothing() {
    let mut ev = Evaluator::with_prelude();
    assert_eq!(ev.count_unreachable_envs(), 0);
    ev.collect_garbage();
    assert_eq!(ev.count_unreachable_envs(), 0);
}

#[test]
fn set_bang_updates_the_binding() {
    let mut ev = Evaluator::with_prelude();
    let def = form(vec![intern("define"), intern("x"), num(1)]);
    assert_eq!(ev.eval(&def), Ok(Expr::nil()));
    let set = form(vec![intern("set!"), intern("x"), num(2)]);
    assert_eq!(ev.eval(&set), Ok(Expr::nil()));
    assert_eq!(ev.eval(&intern("x")), Ok(num(2)));
}

#[test]
fn defmacro_expands_then_evaluates() {
    let mut ev = Evaluator::with_prelude();
    // (defmacro (twice x) (list '+ x x)) then (twice 5) => 10
    let def = form(vec![
        intern("defmacro"),
        form(vec![intern("twice"), intern("x")]),
        form(vec![intern("list"), quoted(intern("+")), intern("x"), intern("x")]),
    ]);
    assert_eq!(ev.eval(&def), Ok(Expr::nil()));
    let call = form(vec![intern("twice"), num(5)]);
    assert_eq!(ev.eval(&call), Ok(num(10)));
}

#[test]
fn eval_builtin_evaluates_twice() {
    let mut ev = Evaluator::with_prelude();
    // (eval '(+ 1 2)) => 3
    let expr = form(vec![
        intern("eval"),
        quoted(form(vec![intern("+"), num(1), num(2)])),
    ]);
    assert_eq!(ev.eval(&expr), Ok(num(3)));
}

#[test]
fn atom_predicate() {
    let mut ev = Evaluator::with_prelude();
    let expr = form(vec![intern("atom?"), num(3)]);
    assert_eq!(ev.eval(&expr), Ok(intern("#t")));
    let expr = form(vec![intern("atom?"), quoted(nums(vec![1]))]);
    assert_eq!(ev.eval(&expr), Ok(Expr::nil()));
}

#[test]
fn cons_builds_lists() {
    let mut ev = Evaluator::with_prelude();
    // (cons 1 '(2 3)) => (1 2 3)
    let expr = form(vec![intern("cons"), num(1), quoted(nums(vec![2, 3]))]);
    assert_eq!(ev.eval(&expr), Ok(nums(vec![1, 2, 3])));
}

#[test]
fn undefined_symbol_is_an_error() {
    let mut ev = Evaluator::with_prelude();
    let err = ev.eval(&intern("no-such-name")).unwrap_err();
    assert!(err.message.contains("Undefined symbol"));
}

#[test]
fn calling_a_number_is_an_error() {
    let mut ev = Evaluator::with_prelude();
    let expr = form(vec![num(3), num(4)]);
    let err = ev.eval(&expr).unwrap_err();
    assert!(err.message.contains("does not evaluate to a callable"));
}

#[test]
fn arity_errors_are_reported() {
    let mut ev = Evaluator::with_prelude();
    // (car '(1) '(2)) has one operand too many
    let expr = form(vec![
        intern("car"),
        quoted(nums(vec![1])),
        quoted(nums(vec![2])),
    ]);
    assert!(ev.eval(&expr).is_err());
    // a closure called with a missing argument
    let def = form(vec![
        intern("define"),
        form(vec![intern("first"), intern("a"), intern("b")]),
        intern("a"),
    ]);
    assert_eq!(ev.eval(&def), Ok(Expr::nil()));
    let err = ev
        .eval(&form(vec![intern("first"), num(1)]))
        .unwrap_err();
    assert!(err.message.contains("wrong number of arguments"));
}

#[test]
fn arithmetic_and_its_errors() {
    let mut ev = Evaluator::with_prelude();
    assert_eq!(ev.eval(&form(vec![intern("-"), num(10), num(3), num(2)])), Ok(num(5)));
    assert_eq!(ev.eval(&form(vec![intern("-"), num(4)])), Ok(num(-4)));
    assert_eq!(ev.eval(&form(vec![intern("/"), num(9), num(2)])), Ok(num(4)));
    assert_eq!(ev.eval(&form(vec![intern("*"), num(6), num(7)])), Ok(num(42)));
    assert_eq!(ev.eval(&form(vec![intern("+")])), Ok(num(0)));
    // division by zero
    let err = ev
        .eval(&form(vec![intern("/"), num(1), num(0)]))
        .unwrap_err();
    assert!(err.message.contains("division by zero"));
    // overflow is an error, not a wrap
    let err = ev
        .eval(&form(vec![intern("+"), num(i64::MAX), num(1)]))
        .unwrap_err();
    assert!(err.message.contains("overflow"));
    // (num? 3) => #t
    assert_eq!(ev.eval(&form(vec![intern("num?"), num(3)])), Ok(intern("#t")));
}

#[test]
fn display_renders_values() {
    assert_eq!(num(-42).to_display_string(), "-42");
    assert_eq!(num(0).to_display_string(), "0");
    assert_eq!(text("hi").to_display_string(), "\"hi\"");
    assert_eq!(intern("abc").to_display_string(), "abc");
    assert_eq!(Expr::nil().to_display_string(), "()");
    let tree = form(vec![num(10), form(vec![intern("x"), num(-3)])]);
    assert_eq!(tree.to_display_string(), "(10 (x -3))");
}

#[test]
fn syntax_error_shows_the_form() {
    let mut heap = EnvHeap::new();
    let env = Env::new(&mut heap);
    let ctx = rusp::eval::EvalContext { env, call_depth: 0 };
    // (car) with no operand
    let err = rusp::built_in::car(&List::Nil, &mut heap, ctx, 16).unwrap_err();
    assert_eq!(err.message, "Ill-formed syntax: (car)");
}

#[test]
fn closures_capture_their_scope() {
    let mut ev = Evaluator::with_prelude();
    // (define (make-adder n) (lambda (m) (+ n m)))
    let def = form(vec![
        intern("define"),
        form(vec![intern("make-adder"), intern("n")]),
        form(vec![
            intern("lambda"),
            form(vec![intern("m")]),
            form(vec![intern("+"), intern("n"), intern("m")]),
        ]),
    ]);
    assert_eq!(ev.eval(&def), Ok(Expr::nil()));
    let def2 = form(vec![
        intern("define"),
        intern("add3"),
        form(vec![intern("make-adder"), num(3)]),
    ]);
    assert_eq!(ev.eval(&def2), Ok(Expr::nil()));
    assert_eq!(ev.eval(&form(vec![intern("add3"), num(4)])), Ok(num(7)));
}
