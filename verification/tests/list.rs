use rusp::expr::{intern, num, text, Expr};
use rusp::list::{cons, Cons, List, ListIter};
use rusp::span::{Loc, Span};

#[test]
fn test_display() {
    // (1 2 (3 "str" sym))
    let inner = Expr::List(
        List::from_vec(vec![num(3), text("str"), intern("sym")]),
        None,
    );
    let list = List::from_vec(vec![num(1), num(2), inner]);
    assert_eq!(list.to_display_string(), "(1 2 (3 \"str\" sym))");
}

#[test]
fn test_list_span() {
    // (1 2 3)
    let args = List::from_vec(vec![
        Expr::Num(1, Some(Span::new(Loc::new(1, 1), Loc::new(1, 2)))),
        Expr::Num(2, Some(Span::new(Loc::new(1, 3), Loc::new(1, 4)))),
        Expr::Num(3, Some(Span::new(Loc::new(1, 5), Loc::new(1, 6)))),
    ]);
    assert_eq!(args.span(), Some(Span::new(Loc::new(1, 1), Loc::new(1, 6))));

    // (1 2 3)
    let args = List::from_vec(vec![
        Expr::Num(1, None),
        Expr::Num(2, Some(Span::new(Loc::new(1, 3), Loc::new(1, 4)))),
        Expr::Num(3, Some(Span::new(Loc::new(1, 5), Loc::new(1, 6)))),
    ]);
    assert_eq!(args.span(), None);

    // (1 2 3)
    let args = List::from_vec(vec![
        Expr::Num(1, Some(Span::new(Loc::new(1, 1), Loc::new(1, 2)))),
        Expr::Num(2, Some(Span::new(Loc::new(1, 3), Loc::new(1, 4)))),
        Expr::Num(3, None),
    ]);
    assert_eq!(args.span(), None);

    // (1 2 3): an interior element without a span leaves the list without one
    let args = List::from_vec(vec![
        Expr::Num(1, Some(Span::new(Loc::new(1, 1), Loc::new(1, 2)))),
        Expr::Num(2, None),
        Expr::Num(3, Some(Span::new(Loc::new(1, 5), Loc::new(1, 6)))),
    ]);
    assert_eq!(args.span(), None);
}

#[test]
fn test_iter() {
    let list = List::from_vec(vec![num(1), num(2), num(3)]);
    let mut iter: ListIter = list.iter();
    assert_eq!(iter.next(), Some(&num(1)));
    assert_eq!(iter.next(), Some(&num(2)));
    assert_eq!(iter.next(), Some(&num(3)));
    assert_eq!(iter.next(), None);
}

#[test]
fn test_list_macro() {
    // (cons 0 nil) => (list 0)
    assert_eq!(cons(num(0), List::Nil), List::from_vec(vec![num(0)]));

    // (cons 0 (cons 1 nil)) => (list 0 1)
    assert_eq!(
        cons(num(0), cons(num(1), List::Nil)),
        List::from_vec(vec![num(0), num(1)])
    );

    // (cons 0 (cons (cons 1 nil) (cons 2 nil))) => (list 0 (list 1) 2)
    let one_list = Expr::List(cons(num(1), List::Nil), None);
    assert_eq!(
        cons(num(0), cons(one_list.clone(), cons(num(2), List::Nil))),
        List::from_vec(vec![num(0), one_list, num(2)])
    );
}

#[test]
fn test_cons_cell() {
    let cell = Cons::new(num(1), List::Nil);
    assert_eq!(*cell.car, num(1));
    assert_eq!(cell.cdar(), None);
    let cell = Cons::new(num(1), cons(num(2), List::Nil));
    assert_eq!(cell.cdar(), Some(&num(2)));
}

#[test]
fn test_len_and_nil() {
    let list = List::from_vec(vec![num(1), num(2), num(3)]);
    assert_eq!(list.len(), 3);
    assert!(!list.is_nil());
    assert!(List::Nil.is_nil());
    assert_eq!(List::Nil.len(), 0);
}
