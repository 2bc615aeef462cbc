//! The expression model: the tagged value type every other component
//! manipulates.
//!
//! An [`Expr`] is an immutable value; every variant except the internal
//! `TailCall` trampoline marker carries an optional source span.  Structural
//! equality of values ignores spans, which are diagnostic metadata only.

use vstd::prelude::*;

use crate::env::{elems, lemma_elems_push, Env};
use crate::eval::EvalContext;
use crate::list::{list_model, List};
use crate::proc::Proc;
use crate::span::Span;

verus! {

/// A Lisp value: symbol, number, string, list, procedure, or the internal
/// trampoline marker for a deferred tail call.
#[derive(Debug, PartialEq)]
pub enum Expr {
    Sym(String, Option<Span>),
    Num(i64, Option<Span>),
    Str(String, Option<Span>),
    List(List, Option<Span>),
    Proc(Proc, Option<Span>),
    TailCall { proc: Proc, args: List, context: EvalContext },
}

/// The empty list, the language's single falsy value.
pub open spec fn nil_spec() -> Expr {
    Expr::List(List::Nil, Option::None)
}

/// The span a value carries, if any.
pub open spec fn expr_span(e: Expr) -> Option<Span> {
    match e {
        Expr::Sym(_, sp) => sp,
        Expr::Num(_, sp) => sp,
        Expr::Str(_, sp) => sp,
        Expr::List(_, sp) => sp,
        Expr::Proc(_, sp) => sp,
        Expr::TailCall { .. } => Option::None,
    }
}

/// Everything but a non-empty list is an atom.
pub open spec fn expr_is_atom(e: Expr) -> bool {
    match e {
        Expr::List(l, _) => l is Nil,
        _ => true,
    }
}

/// Only the empty list is falsy.
pub open spec fn expr_is_truthy(e: Expr) -> bool {
    !(e matches Expr::List(List::Nil, _))
}

// ------------------------------------------------------------------
// Structural equality of values (spans ignored).
// ------------------------------------------------------------------

/// Equality of two optional procedure names, by text.
pub open spec fn opt_name_eq(a: Option<String>, b: Option<String>) -> bool {
    match (a, b) {
        (Option::Some(x), Option::Some(y)) => x@ == y@,
        (Option::None, Option::None) => true,
        _ => false,
    }
}

/// Structural equality of two values, ignoring spans.
pub open spec fn expr_eq(a: Expr, b: Expr) -> bool
    decreases a,
{
    match (a, b) {
        (Expr::Sym(s1, _), Expr::Sym(s2, _)) => s1@ == s2@,
        (Expr::Num(v1, _), Expr::Num(v2, _)) => v1 == v2,
        (Expr::Str(t1, _), Expr::Str(t2, _)) => t1@ == t2@,
        (Expr::List(l1, _), Expr::List(l2, _)) => list_eq(l1, l2),
        (Expr::Proc(p1, _), Expr::Proc(p2, _)) => proc_eq(p1, p2),
        _ => false,
    }
}

/// Structural equality of two lists, elementwise.
pub open spec fn list_eq(a: List, b: List) -> bool
    decreases a,
{
    match (a, b) {
        (List::Nil, List::Nil) => true,
        (List::Cons(c1), List::Cons(c2)) => expr_eq(*c1.car, *c2.car) && list_eq(
            *c1.cdr,
            *c2.cdr,
        ),
        _ => false,
    }
}

/// Structural equality of two procedures.
pub open spec fn proc_eq(a: Proc, b: Proc) -> bool
    decreases a,
{
    match (a, b) {
        (
            Proc::Native { name: n1, func: f1 },
            Proc::Native { name: n2, func: f2 },
        ) => n1@ == n2@ && f1 == f2,
        (
            Proc::Closure { name: n1, formal_args: a1, body: b1, outer_env: e1 },
            Proc::Closure { name: n2, formal_args: a2, body: b2, outer_env: e2 },
        ) => opt_name_eq(n1, n2) && list_eq(a1, a2) && list_eq(b1, b2) && e1 == e2,
        (
            Proc::Macro { name: n1, formal_args: a1, body: b1 },
            Proc::Macro { name: n2, formal_args: a2, body: b2 },
        ) => opt_name_eq(n1, n2) && list_eq(a1, a2) && list_eq(b1, b2),
        _ => false,
    }
}


/// The internal trampoline marker appears nowhere in the value.  Source
/// expressions and the values evaluation hands back satisfy this; only the
/// evaluator itself ever passes a bare marker around.
pub open spec fn tc_free(e: Expr) -> bool
    decreases e,
{
    match e {
        Expr::List(l, _) => list_tc_free(l),
        Expr::Proc(p, _) => proc_tc_free(p),
        Expr::TailCall { .. } => false,
        _ => true,
    }
}

/// No element of the list holds a trampoline marker.
pub open spec fn list_tc_free(l: List) -> bool
    decreases l,
{
    match l {
        List::Nil => true,
        List::Cons(c) => tc_free(*c.car) && list_tc_free(*c.cdr),
    }
}

/// No part of the procedure holds a trampoline marker.
pub open spec fn proc_tc_free(p: Proc) -> bool
    decreases p,
{
    match p {
        Proc::Native { .. } => true,
        Proc::Closure { formal_args, body, .. } => list_tc_free(formal_args) && list_tc_free(
            body,
        ),
        Proc::Macro { formal_args, body, .. } => list_tc_free(formal_args) && list_tc_free(body),
    }
}

/// A well-formed runtime value: all environment references are valid indices
/// and no trampoline marker hides inside.
pub open spec fn expr_ok(e: Expr, n: int) -> bool {
    expr_valid(e, n) && tc_free(e)
}

/// A well-formed list of runtime values.
pub open spec fn list_ok(l: List, n: int) -> bool {
    list_valid(l, n) && list_tc_free(l)
}

/// A well-formed procedure value.
pub open spec fn proc_ok(p: Proc, n: int) -> bool {
    proc_valid(p, n) && proc_tc_free(p)
}

// ------------------------------------------------------------------
// Which environments a value references (the garbage collector's edges).
// ------------------------------------------------------------------

/// The environments a value can lead the collector to: captured scopes of
/// closures, plus everything referenced from a deferred tail call.
pub open spec fn expr_env_refs(e: Expr) -> Set<int>
    decreases e,
{
    match e {
        Expr::List(l, _) => list_env_refs(l),
        Expr::Proc(p, _) => proc_env_refs(p),
        Expr::TailCall { proc, args, context } => proc_env_refs(proc).union(
            list_env_refs(args),
        ).insert(context.env.id as int),
        _ => Set::empty(),
    }
}

/// The environments referenced anywhere in a list's elements.
pub open spec fn list_env_refs(l: List) -> Set<int>
    decreases l,
{
    match l {
        List::Nil => Set::empty(),
        List::Cons(c) => expr_env_refs(*c.car).union(list_env_refs(*c.cdr)),
    }
}

/// The environments referenced by a procedure value.
pub open spec fn proc_env_refs(p: Proc) -> Set<int>
    decreases p,
{
    match p {
        Proc::Native { .. } => Set::empty(),
        Proc::Closure { formal_args, body, outer_env, .. } => list_env_refs(formal_args).union(
            list_env_refs(body),
        ).insert(outer_env.id as int),
        Proc::Macro { formal_args, body, .. } => list_env_refs(formal_args).union(
            list_env_refs(body),
        ),
    }
}

/// Every environment reference in the value is a valid index below `n`.
pub open spec fn expr_valid(e: Expr, n: int) -> bool {
    forall|j: int| expr_env_refs(e).contains(j) ==> 0 <= j < n
}

/// Every environment reference in the list is a valid index below `n`.
pub open spec fn list_valid(l: List, n: int) -> bool {
    forall|j: int| list_env_refs(l).contains(j) ==> 0 <= j < n
}

/// Every environment reference in the procedure is a valid index below `n`.
pub open spec fn proc_valid(p: Proc, n: int) -> bool {
    forall|j: int| proc_env_refs(p).contains(j) ==> 0 <= j < n
}

/// Pushes onto `out` every environment index the value references.
pub fn push_expr_env_refs(e: &Expr, out: &mut Vec<usize>)
    ensures
        elems(final(out)@) == elems(old(out)@).union(expr_env_refs(*e)),
    decreases e,
{
    match e {
        Expr::List(l, _) => {
            push_list_env_refs(l, out);
        },
        Expr::Proc(p, _) => {
            push_proc_env_refs(p, out);
        },
        Expr::TailCall { proc, args, context } => {
            push_proc_env_refs(proc, out);
            push_list_env_refs(args, out);
            proof {
                lemma_elems_push(out@, context.env.id);
            }
            out.push(context.env.id);
            proof {
                assert(elems(final(out)@) =~= elems(old(out)@).union(expr_env_refs(*e)));
            }
        },
        _ => {
            proof {
                assert(elems(out@) =~= elems(old(out)@).union(expr_env_refs(*e)));
            }
        },
    }
}

/// Pushes onto `out` every environment index the list references.
pub fn push_list_env_refs(l: &List, out: &mut Vec<usize>)
    ensures
        elems(final(out)@) == elems(old(out)@).union(list_env_refs(*l)),
    decreases l,
{
    match l {
        List::Nil => {
            proof {
                assert(elems(out@) =~= elems(old(out)@).union(list_env_refs(*l)));
            }
        },
        List::Cons(c) => {
            push_expr_env_refs(&*c.car, out);
            push_list_env_refs(&*c.cdr, out);
            proof {
                assert(elems(final(out)@) =~= elems(old(out)@).union(list_env_refs(*l)));
            }
        },
    }
}

/// Pushes onto `out` every environment index the procedure references.
pub fn push_proc_env_refs(p: &Proc, out: &mut Vec<usize>)
    ensures
        elems(final(out)@) == elems(old(out)@).union(proc_env_refs(*p)),
    decreases p,
{
    match p {
        Proc::Native { .. } => {
            proof {
                assert(elems(out@) =~= elems(old(out)@).union(proc_env_refs(*p)));
            }
        },
        Proc::Closure { formal_args, body, outer_env, .. } => {
            push_list_env_refs(formal_args, out);
            push_list_env_refs(body, out);
            proof {
                lemma_elems_push(out@, outer_env.id);
            }
            out.push(outer_env.id);
            proof {
                assert(elems(final(out)@) =~= elems(old(out)@).union(proc_env_refs(*p)));
            }
        },
        Proc::Macro { formal_args, body, .. } => {
            push_list_env_refs(formal_args, out);
            push_list_env_refs(body, out);
            proof {
                assert(elems(final(out)@) =~= elems(old(out)@).union(proc_env_refs(*p)));
            }
        },
    }
}


/// Each element of a well-formed list is itself a well-formed value.
pub proof fn lemma_list_ok_elem(l: List, i: int, n: int)
    requires
        list_ok(l, n),
        0 <= i < list_model(l).len(),
    ensures
        expr_ok(list_model(l)[i], n),
    decreases l,
{
    match l {
        List::Nil => {},
        List::Cons(c) => {
            assert forall|j: int| expr_env_refs(*c.car).contains(j) implies 0 <= j < n by {
                assert(list_env_refs(l).contains(j));
            }
            assert forall|j: int| list_env_refs(*c.cdr).contains(j) implies 0 <= j < n by {
                assert(list_env_refs(l).contains(j));
            }
            if i > 0 {
                lemma_list_ok_elem(*c.cdr, i - 1, n);
            }
        },
    }
}

/// A list whose elements are all well formed is itself well formed.
pub proof fn lemma_list_ok_from_elems(l: List, n: int)
    requires
        forall|i: int| 0 <= i < list_model(l).len() ==> expr_ok(#[trigger] list_model(l)[i], n),
    ensures
        list_ok(l, n),
    decreases l,
{
    match l {
        List::Nil => {},
        List::Cons(c) => {
            assert(list_model(l)[0] == *c.car);
            assert forall|i: int|
                0 <= i < list_model(*c.cdr).len() implies expr_ok(
                #[trigger] list_model(*c.cdr)[i],
                n,
            ) by {
                assert(list_model(l)[i + 1] == list_model(*c.cdr)[i]);
            }
            lemma_list_ok_from_elems(*c.cdr, n);
            assert forall|j: int| list_env_refs(l).contains(j) implies 0 <= j < n by {
                if expr_env_refs(*c.car).contains(j) {
                    assert(expr_valid(list_model(l)[0], n));
                } else {
                    assert(list_env_refs(*c.cdr).contains(j));
                    assert(list_valid(*c.cdr, n));
                }
            }
        },
    }
}


/// The structural height of a value, for termination measures that descend
/// into nested lists.
pub open spec fn expr_height(e: Expr) -> nat
    decreases e,
{
    match e {
        Expr::List(l, _) => 1 + list_height(l),
        Expr::Proc(p, _) => 1 + proc_height(p),
        Expr::TailCall { proc, args, .. } => 1 + proc_height(proc) + list_height(args),
        _ => 0,
    }
}

/// The structural height of a list.
pub open spec fn list_height(l: List) -> nat
    decreases l,
{
    match l {
        List::Nil => 0,
        List::Cons(c) => 1 + expr_height(*c.car) + list_height(*c.cdr),
    }
}

/// The structural height of a procedure.
pub open spec fn proc_height(p: Proc) -> nat
    decreases p,
{
    match p {
        Proc::Native { .. } => 0,
        Proc::Closure { formal_args, body, .. } => 1 + list_height(formal_args) + list_height(
            body,
        ),
        Proc::Macro { formal_args, body, .. } => 1 + list_height(formal_args) + list_height(body),
    }
}

/// A well-formed list value is a well-formed list.
pub proof fn lemma_expr_ok_list(e: Expr, n: int)
    requires
        expr_ok(e, n),
    ensures
        e matches Expr::List(l, _) ==> list_ok(l, n),
{
    match e {
        Expr::List(l, _) => {
            assert forall|j: int| list_env_refs(l).contains(j) implies 0 <= j < n by {
                assert(expr_env_refs(e).contains(j));
            }
        },
        _ => {},
    }
}

/// A well-formed procedure value is a well-formed procedure, and a
/// closure's pieces are well formed in turn.
pub proof fn lemma_expr_ok_proc(e: Expr, n: int)
    requires
        expr_ok(e, n),
    ensures
        e matches Expr::Proc(p, _) ==> proc_ok(p, n),
{
    match e {
        Expr::Proc(p, _) => {
            assert forall|j: int| proc_env_refs(p).contains(j) implies 0 <= j < n by {
                assert(expr_env_refs(e).contains(j));
            }
        },
        _ => {},
    }
}

/// A well-formed closure or macro has well-formed formals and body, and a
/// captured scope that exists.
pub proof fn lemma_proc_ok_parts(p: Proc, n: int)
    requires
        proc_ok(p, n),
    ensures
        p matches Proc::Closure { formal_args, body, outer_env, .. } ==> list_ok(formal_args, n)
            && list_ok(body, n) && outer_env.id < n,
        p matches Proc::Macro { formal_args, body, .. } ==> list_ok(formal_args, n) && list_ok(
            body,
            n,
        ),
{
    match p {
        Proc::Closure { formal_args, body, outer_env, .. } => {
            assert forall|j: int|
                list_env_refs(formal_args).contains(j) || list_env_refs(body).contains(
                    j,
                ) implies 0 <= j < n by {
                assert(proc_env_refs(p).contains(j));
            }
            assert(proc_env_refs(p).contains(outer_env.id as int));
        },
        Proc::Macro { formal_args, body, .. } => {
            assert forall|j: int|
                list_env_refs(formal_args).contains(j) || list_env_refs(body).contains(
                    j,
                ) implies 0 <= j < n by {
                assert(proc_env_refs(p).contains(j));
            }
        },
        _ => {},
    }
}

/// The head and tail of a well-formed non-empty list are well formed.
pub proof fn lemma_list_ok_parts(l: List, n: int)
    requires
        list_ok(l, n),
    ensures
        l matches List::Cons(c) ==> expr_ok(*c.car, n) && list_ok(*c.cdr, n),
{
    match l {
        List::Cons(c) => {
            assert forall|j: int|
                expr_env_refs(*c.car).contains(j) || list_env_refs(*c.cdr).contains(
                    j,
                ) implies 0 <= j < n by {
                assert(list_env_refs(l).contains(j));
            }
        },
        List::Nil => {},
    }
}


/// A closure whose pieces are well formed is a well-formed value.
pub proof fn lemma_closure_ok(
    name: Option<String>,
    formal_args: List,
    body: List,
    env: Env,
    n: int,
)
    requires
        list_ok(formal_args, n),
        list_ok(body, n),
        env.id < n,
    ensures
        expr_ok(
            Expr::Proc(
                Proc::Closure { name, formal_args, body, outer_env: env },
                Option::None,
            ),
            n,
        ),
{
    let e = Expr::Proc(
        Proc::Closure { name, formal_args, body, outer_env: env },
        Option::None,
    );
    assert forall|j: int| expr_env_refs(e).contains(j) implies 0 <= j < n by {
        if j != env.id as int {
            assert(list_env_refs(formal_args).contains(j) || list_env_refs(body).contains(j));
        }
    }
}

/// A macro whose pieces are well formed is a well-formed value.
pub proof fn lemma_macro_ok(name: Option<String>, formal_args: List, body: List, n: int)
    requires
        list_ok(formal_args, n),
        list_ok(body, n),
    ensures
        expr_ok(Expr::Proc(Proc::Macro { name, formal_args, body }, Option::None), n),
{
    let e = Expr::Proc(Proc::Macro { name, formal_args, body }, Option::None);
    assert forall|j: int| expr_env_refs(e).contains(j) implies 0 <= j < n by {
        assert(list_env_refs(formal_args).contains(j) || list_env_refs(body).contains(j));
    }
}


/// A well-formed list wrapped as a value is a well-formed value.
pub proof fn lemma_list_expr_ok(l: List, sp: Option<crate::span::Span>, n: int)
    requires
        list_ok(l, n),
    ensures
        expr_ok(Expr::List(l, sp), n),
{
    assert forall|j: int| expr_env_refs(Expr::List(l, sp)).contains(j) implies 0 <= j < n by {
        assert(list_env_refs(l).contains(j));
    }
}


/// A cell built from a well-formed head and tail is a well-formed list.
pub proof fn lemma_cons_ok(c: crate::list::Cons, n: int)
    requires
        expr_ok(*c.car, n),
        list_ok(*c.cdr, n),
    ensures
        list_ok(List::Cons(c), n),
{
    assert forall|j: int| list_env_refs(List::Cons(c)).contains(j) implies 0 <= j < n by {
        assert(expr_env_refs(*c.car).contains(j) || list_env_refs(*c.cdr).contains(j));
    }
}


/// Structural equality is reflexive on values free of trampoline markers.
pub proof fn lemma_expr_eq_refl(e: Expr)
    requires
        tc_free(e),
    ensures
        expr_eq(e, e),
    decreases e,
{
    match e {
        Expr::List(l, _) => {
            lemma_list_eq_refl(l);
        },
        Expr::Proc(p, _) => {
            lemma_proc_eq_refl(p);
        },
        Expr::TailCall { .. } => {
        },
        _ => {},
    }
}

/// Structural equality of lists is reflexive on marker-free lists.
pub proof fn lemma_list_eq_refl(l: List)
    requires
        list_tc_free(l),
    ensures
        list_eq(l, l),
    decreases l,
{
    match l {
        List::Nil => {},
        List::Cons(c) => {
            lemma_expr_eq_refl(*c.car);
            lemma_list_eq_refl(*c.cdr);
        },
    }
}

/// Structural equality of procedures is reflexive on marker-free
/// procedures.
pub proof fn lemma_proc_eq_refl(p: Proc)
    requires
        proc_tc_free(p),
    ensures
        proc_eq(p, p),
    decreases p,
{
    match p {
        Proc::Native { .. } => {},
        Proc::Closure { formal_args, body, .. } => {
            lemma_list_eq_refl(formal_args);
            lemma_list_eq_refl(body);
        },
        Proc::Macro { formal_args, body, .. } => {
            lemma_list_eq_refl(formal_args);
            lemma_list_eq_refl(body);
        },
    }
}

/// Lists whose elements are pairwise structurally equal are structurally
/// equal.
pub proof fn lemma_list_eq_from_elems(a: List, b: List)
    requires
        list_model(a).len() == list_model(b).len(),
        forall|i: int|
            0 <= i < list_model(a).len() ==> expr_eq(
                #[trigger] list_model(a)[i],
                list_model(b)[i],
            ),
    ensures
        list_eq(a, b),
    decreases a,
{
    match (a, b) {
        (List::Nil, List::Nil) => {},
        (List::Cons(c1), List::Cons(c2)) => {
            assert(list_model(a)[0] == *c1.car);
            assert(list_model(b)[0] == *c2.car);
            assert(expr_eq(*c1.car, *c2.car));
            assert forall|i: int|
                0 <= i < list_model(*c1.cdr).len() implies expr_eq(
                #[trigger] list_model(*c1.cdr)[i],
                list_model(*c2.cdr)[i],
            ) by {
                assert(list_model(a)[i + 1] == list_model(*c1.cdr)[i]);
                assert(list_model(b)[i + 1] == list_model(*c2.cdr)[i]);
                assert(expr_eq(list_model(a)[i + 1], list_model(b)[i + 1]));
            }
            lemma_list_eq_from_elems(*c1.cdr, *c2.cdr);
        },
        (List::Nil, List::Cons(_)) => {},
        (List::Cons(_), List::Nil) => {},
    }
}

// ------------------------------------------------------------------
// The canonical display form, which round-trips to surface syntax.
// ------------------------------------------------------------------

/// The decimal digit for `d`.
pub open spec fn digit_char(d: nat) -> char {
    if d == 0 {
        '0'
    } else if d == 1 {
        '1'
    } else if d == 2 {
        '2'
    } else if d == 3 {
        '3'
    } else if d == 4 {
        '4'
    } else if d == 5 {
        '5'
    } else if d == 6 {
        '6'
    } else if d == 7 {
        '7'
    } else if d == 8 {
        '8'
    } else {
        '9'
    }
}

/// The decimal rendering of a non-negative number.
pub open spec fn dec_repr(n: nat) -> Seq<char>
    decreases n,
{
    if n < 10 {
        seq![digit_char(n)]
    } else {
        dec_repr(n / 10).push(digit_char(n % 10))
    }
}

/// The decimal rendering of a number, with a leading minus when negative.
pub open spec fn num_repr(v: int) -> Seq<char> {
    if v < 0 {
        seq!['-'] + dec_repr((-v) as nat)
    } else {
        dec_repr(v as nat)
    }
}

/// The display form of a procedure value.
pub open spec fn proc_repr(p: Proc) -> Seq<char> {
    match p {
        Proc::Native { name, .. } => "<native "@ + name@ + ">"@,
        Proc::Closure { name: Option::Some(n), .. } => "<closure "@ + n@ + ">"@,
        Proc::Closure { name: Option::None, .. } => "<closure>"@,
        Proc::Macro { name: Option::Some(n), .. } => "<macro "@ + n@ + ">"@,
        Proc::Macro { name: Option::None, .. } => "<macro>"@,
    }
}

/// The display form of a value: re-parseable surface syntax, with strings
/// rendered in quotes.
pub open spec fn expr_repr(e: Expr) -> Seq<char>
    decreases e,
{
    match e {
        Expr::Sym(s, _) => s@,
        Expr::Num(v, _) => num_repr(v as int),
        Expr::Str(t, _) => seq!['"'] + t@ + seq!['"'],
        Expr::List(l, _) => list_repr(l, true),
        Expr::Proc(p, _) => proc_repr(p),
        Expr::TailCall { .. } => "<tail-call>"@,
    }
}

/// The display form of a list: `(a b c)` with single spaces and no trailing
/// space.  At the top level the parentheses are emitted; the recursion for
/// the tail prefixes each further element with one space.
pub open spec fn list_repr(l: List, is_top_level: bool) -> Seq<char>
    decreases l,
{
    let inner = match l {
        List::Nil => Seq::<char>::empty(),
        List::Cons(c) => (if is_top_level {
            expr_repr(*c.car)
        } else {
            seq![' '] + expr_repr(*c.car)
        }) + list_repr(*c.cdr, false),
    };
    if is_top_level {
        seq!['('] + inner + seq![')']
    } else {
        inner
    }
}

impl Expr {
    /// The empty list value.
    pub fn nil() -> (r: Expr)
        ensures
            r == nil_spec(),
    {
        Expr::List(List::Nil, Option::None)
    }

    /// The span this value carries, if any.
    pub fn span(&self) -> (r: Option<Span>)
        ensures
            r == expr_span(*self),
    {
        match self {
            Expr::Sym(_, sp) => *sp,
            Expr::Num(_, sp) => *sp,
            Expr::Str(_, sp) => *sp,
            Expr::List(_, sp) => *sp,
            Expr::Proc(_, sp) => *sp,
            Expr::TailCall { .. } => Option::None,
        }
    }

    /// True for every value except a non-empty list.
    pub fn is_atom(&self) -> (r: bool)
        ensures
            r == expr_is_atom(*self),
    {
        match self {
            Expr::List(List::Cons(_), _) => false,
            _ => true,
        }
    }

    /// False only for the empty list.
    pub fn is_truthy(&self) -> (r: bool)
        ensures
            r == expr_is_truthy(*self),
    {
        match self {
            Expr::List(List::Nil, _) => false,
            _ => true,
        }
    }

    /// A deep copy of this value.
    pub fn duplicate(&self) -> (r: Expr)
        ensures
            r == *self,
        decreases self,
    {
        match self {
            Expr::Sym(s, sp) => Expr::Sym(s.clone(), *sp),
            Expr::Num(v, sp) => Expr::Num(*v, *sp),
            Expr::Str(t, sp) => Expr::Str(t.clone(), *sp),
            Expr::List(l, sp) => Expr::List(l.duplicate(), *sp),
            Expr::Proc(p, sp) => Expr::Proc(p.duplicate(), *sp),
            Expr::TailCall { proc, args, context } => Expr::TailCall {
                proc: proc.duplicate(),
                args: args.duplicate(),
                context: *context,
            },
        }
    }

    /// Structural equality of two values, ignoring spans.
    pub fn equals(&self, other: &Expr) -> (r: bool)
        ensures
            r == expr_eq(*self, *other),
        decreases self,
    {
        match (self, other) {
            (Expr::Sym(s1, _), Expr::Sym(s2, _)) => *s1 == *s2,
            (Expr::Num(v1, _), Expr::Num(v2, _)) => *v1 == *v2,
            (Expr::Str(t1, _), Expr::Str(t2, _)) => *t1 == *t2,
            (Expr::List(l1, _), Expr::List(l2, _)) => l1.equals(l2),
            (Expr::Proc(p1, _), Expr::Proc(p2, _)) => p1.equals(p2),
            _ => false,
        }
    }

    /// Renders this value as surface syntax.
    pub fn to_display_string(&self) -> (r: String)
        ensures
            r@ == expr_repr(*self),
    {
        let mut out = String::new();
        write_expr(&mut out, self);
        out
    }
}

impl Clone for Expr {
    /// A deep copy equal to the original.
    fn clone(&self) -> (r: Expr)
        ensures
            r == *self,
    {
        self.duplicate()
    }
}

/// Copies an optional procedure name.
pub fn clone_opt_string(v: &Option<String>) -> (r: Option<String>)
    ensures
        r == *v,
{
    match v {
        Option::Some(s) => Option::Some(s.clone()),
        Option::None => Option::None,
    }
}

// ------------------------------------------------------------------
// Rendering to text.
// ------------------------------------------------------------------

/// Appends the single decimal digit `d`.
fn append_digit(out: &mut String, d: u64)
    requires
        d < 10,
    ensures
        final(out)@ == old(out)@ + seq![digit_char(d as nat)],
{
    if d == 0 {
        out.append("0");
        proof {
            reveal_strlit("0");
            assert(final(out)@ =~= old(out)@ + seq![digit_char(d as nat)]);
        }
    } else if d == 1 {
        out.append("1");
        proof {
            reveal_strlit("1");
            assert(final(out)@ =~= old(out)@ + seq![digit_char(d as nat)]);
        }
    } else if d == 2 {
        out.append("2");
        proof {
            reveal_strlit("2");
            assert(final(out)@ =~= old(out)@ + seq![digit_char(d as nat)]);
        }
    } else if d == 3 {
        out.append("3");
        proof {
            reveal_strlit("3");
            assert(final(out)@ =~= old(out)@ + seq![digit_char(d as nat)]);
        }
    } else if d == 4 {
        out.append("4");
        proof {
            reveal_strlit("4");
            assert(final(out)@ =~= old(out)@ + seq![digit_char(d as nat)]);
        }
    } else if d == 5 {
        out.append("5");
        proof {
            reveal_strlit("5");
            assert(final(out)@ =~= old(out)@ + seq![digit_char(d as nat)]);
        }
    } else if d == 6 {
        out.append("6");
        proof {
            reveal_strlit("6");
            assert(final(out)@ =~= old(out)@ + seq![digit_char(d as nat)]);
        }
    } else if d == 7 {
        out.append("7");
        proof {
            reveal_strlit("7");
            assert(final(out)@ =~= old(out)@ + seq![digit_char(d as nat)]);
        }
    } else if d == 8 {
        out.append("8");
        proof {
            reveal_strlit("8");
            assert(final(out)@ =~= old(out)@ + seq![digit_char(d as nat)]);
        }
    } else {
        out.append("9");
        proof {
            reveal_strlit("9");
            assert(final(out)@ =~= old(out)@ + seq![digit_char(d as nat)]);
        }
    }
}

/// Appends the decimal rendering of `n`.
fn write_dec(out: &mut String, n: u64)
    ensures
        final(out)@ == old(out)@ + dec_repr(n as nat),
    decreases n,
{
    if n < 10 {
        append_digit(out, n);
    } else {
        write_dec(out, n / 10);
        append_digit(out, n % 10);
        proof {
            assert(final(out)@ =~= old(out)@ + dec_repr(n as nat));
        }
    }
}

/// Appends the surface-syntax rendering of `e`.
pub fn write_expr(out: &mut String, e: &Expr)
    ensures
        final(out)@ == old(out)@ + expr_repr(*e),
    decreases e,
{
    match e {
        Expr::Sym(s, _) => {
            out.append(s.as_str());
        },
        Expr::Num(v, _) => {
            if *v < 0 {
                out.append("-");
                let m: u64 = if *v == i64::MIN {
                    9223372036854775808u64
                } else {
                    (-*v) as u64
                };
                write_dec(out, m);
                proof {
                    reveal_strlit("-");
                    assert("-"@ =~= seq!['-']);
                    assert(final(out)@ =~= old(out)@ + expr_repr(*e));
                }
            } else {
                write_dec(out, *v as u64);
            }
        },
        Expr::Str(t, _) => {
            out.append("\"");
            out.append(t.as_str());
            out.append("\"");
            proof {
                reveal_strlit("\"");
                assert("\""@ =~= seq!['"']);
                assert(final(out)@ =~= old(out)@ + expr_repr(*e));
            }
        },
        Expr::List(l, _) => {
            crate::list::write_list(out, l, true);
        },
        Expr::Proc(p, _) => {
            write_proc(out, p);
        },
        Expr::TailCall { .. } => {
            out.append("<tail-call>");
        },
    }
}

/// Appends the display form of a procedure value.
fn write_proc(out: &mut String, p: &Proc)
    ensures
        final(out)@ == old(out)@ + proc_repr(*p),
{
    match p {
        Proc::Native { name, .. } => {
            out.append("<native ");
            out.append(name.as_str());
            out.append(">");
            proof {
                assert(final(out)@ =~= old(out)@ + proc_repr(*p));
            }
        },
        Proc::Closure { name: Option::Some(n), .. } => {
            out.append("<closure ");
            out.append(n.as_str());
            out.append(">");
            proof {
                assert(final(out)@ =~= old(out)@ + proc_repr(*p));
            }
        },
        Proc::Closure { name: Option::None, .. } => {
            out.append("<closure>");
        },
        Proc::Macro { name: Option::Some(n), .. } => {
            out.append("<macro ");
            out.append(n.as_str());
            out.append(">");
            proof {
                assert(final(out)@ =~= old(out)@ + proc_repr(*p));
            }
        },
        Proc::Macro { name: Option::None, .. } => {
            out.append("<macro>");
        },
    }
}


/// The truth value predicates hand back: the conventional symbol for truth,
/// or the empty list for falsehood.
pub fn bool_expr(b: bool) -> (r: Expr)
    ensures
        b ==> (r matches Expr::Sym(s, sp) && s@ == "#t"@ && sp is None),
        !b ==> r == nil_spec(),
        tc_free(r),
        expr_env_refs(r) == Set::<int>::empty(),
{
    if b {
        let r = intern("#t");
        proof {
            assert(expr_env_refs(r) =~= Set::<int>::empty());
        }
        r
    } else {
        let r = Expr::nil();
        proof {
            assert(expr_env_refs(r) =~= Set::<int>::empty());
        }
        r
    }
}

/// Builds a symbol expression with no span.
pub fn intern(name: &str) -> (r: Expr)
    ensures
        (r matches Expr::Sym(s, sp) && s@ == name@ && sp is None),
{
    Expr::Sym(String::from_str(name), Option::None)
}

/// Builds a symbol expression with no span.
pub fn sym(name: &str) -> (r: Expr)
    ensures
        (r matches Expr::Sym(s, sp) && s@ == name@ && sp is None),
{
    intern(name)
}

/// Builds a number expression with no span.
pub fn num(value: i64) -> (r: Expr)
    ensures
        r == Expr::Num(value, Option::<Span>::None),
{
    Expr::Num(value, Option::None)
}

/// Builds a string expression with no span.
pub fn text(value: &str) -> (r: Expr)
    ensures
        (r matches Expr::Str(s, sp) && s@ == value@ && sp is None),
{
    Expr::Str(String::from_str(value), Option::None)
}

} // verus!
