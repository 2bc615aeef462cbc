//! The registered native special forms and primitives.

use vstd::prelude::*;

use crate::builtin::utils::{
    get_exact_1_arg, get_exact_2_args, make_formal_args, syntax_error,
};
use crate::env::EnvHeap;
use crate::eval::{
    eval, eval_tail, result_ok, result_ok_or_tail, EvalContext, EvalError, EvalResult,
};
use crate::expr::{
    bool_expr, expr_ok, lemma_list_ok_elem, lemma_list_ok_from_elems, list_ok, nil_spec, Expr,
};
use crate::list::List;
use crate::proc::Proc;

verus! {

/// The depth-exhaustion error shared by the primitives.
fn deep_error() -> (r: EvalError)
    ensures
        r.span is None,
{
    EvalError { message: String::from_str("Evaluation nested too deeply."), span: Option::None }
}

/// `(atom? x)`: whether `x` evaluates to anything but a non-empty list.
pub fn atom(proc_name: &str, args: &List, heap: &mut EnvHeap, ctx: EvalContext, fuel: u64) -> (r:
    EvalResult)
    requires
        old(heap).wf(),
        ctx.env.id < old(heap)@.len(),
        list_ok(*args, old(heap)@.len() as int),
    ensures
        final(heap).wf(),
        old(heap)@.len() <= final(heap)@.len(),
        result_ok(r, final(heap)@.len() as int),
        args@.len() != 1 ==> r matches Result::Err(_),
        r matches Result::Ok(v) ==> (v == nil_spec() || (v matches Expr::Sym(s, sp) && s@
            == "#t"@ && sp is None)),
        (fuel >= 1 && args@.len() == 1 && crate::eval::self_evaluating(args@[0])) ==> (r
            matches Result::Ok(v) && (crate::expr::expr_is_truthy(v)
            <==> crate::expr::expr_is_atom(args@[0])) && final(heap)@ == old(heap)@),
        (fuel >= 1 && args@.len() == 1) ==> (crate::eval::quote_form_arg(args@[0])
            matches Option::Some(q) ==> (r matches Result::Ok(v) && (
        crate::expr::expr_is_truthy(v) <==> crate::expr::expr_is_atom(q)) && final(heap)@
            == old(heap)@)),
    decreases fuel, 1int, 0int,
{
    let expr = get_exact_1_arg(proc_name, args)?;
    proof {
        lemma_list_ok_elem(*args, 0, old(heap)@.len() as int);
    }
    if fuel == 0 {
        return Result::Err(deep_error());
    }
    let v = eval(expr, heap, ctx, fuel - 1)?;
    Result::Ok(bool_expr(v.is_atom()))
}

/// `(car l)`: the first element of the list `l` evaluates to.
pub fn car(proc_name: &str, args: &List, heap: &mut EnvHeap, ctx: EvalContext, fuel: u64) -> (r:
    EvalResult)
    requires
        old(heap).wf(),
        ctx.env.id < old(heap)@.len(),
        list_ok(*args, old(heap)@.len() as int),
    ensures
        final(heap).wf(),
        old(heap)@.len() <= final(heap)@.len(),
        result_ok(r, final(heap)@.len() as int),
        args@.len() != 1 ==> r matches Result::Err(_),
        (fuel >= 1 && args@.len() == 1) ==> (crate::eval::quote_form_arg(args@[0])
            matches Option::Some(q) ==> (q matches Expr::List(List::Cons(qc), _) ==> r
            == Result::<Expr, EvalError>::Ok(*qc.car) && final(heap)@ == old(heap)@)),
    decreases fuel, 1int, 0int,
{
    let expr = get_exact_1_arg(proc_name, args)?;
    proof {
        lemma_list_ok_elem(*args, 0, old(heap)@.len() as int);
    }
    if fuel == 0 {
        return Result::Err(deep_error());
    }
    let v = eval(expr, heap, ctx, fuel - 1)?;
    let ghost gv: Expr = v;
    match v {
        Expr::List(List::Cons(c), _) => {
            proof {
                crate::expr::lemma_expr_ok_list(gv, heap@.len() as int);
                crate::expr::lemma_list_ok_parts(List::Cons(c), heap@.len() as int);
            }
            Result::Ok(*c.car)
        },
        _ => Result::Err(syntax_error(proc_name, args)),
    }
}

/// `(cdr l)`: the tail of the list `l` evaluates to.
pub fn cdr(proc_name: &str, args: &List, heap: &mut EnvHeap, ctx: EvalContext, fuel: u64) -> (r:
    EvalResult)
    requires
        old(heap).wf(),
        ctx.env.id < old(heap)@.len(),
        list_ok(*args, old(heap)@.len() as int),
    ensures
        final(heap).wf(),
        old(heap)@.len() <= final(heap)@.len(),
        result_ok(r, final(heap)@.len() as int),
        args@.len() != 1 ==> r matches Result::Err(_),
        (fuel >= 1 && args@.len() == 1) ==> (crate::eval::quote_form_arg(args@[0])
            matches Option::Some(q) ==> (q matches Expr::List(List::Cons(qc), _) ==> r
            == Result::<Expr, EvalError>::Ok(Expr::List(*qc.cdr, Option::None)) && final(heap)@
            == old(heap)@)),
    decreases fuel, 1int, 0int,
{
    let expr = get_exact_1_arg(proc_name, args)?;
    proof {
        lemma_list_ok_elem(*args, 0, old(heap)@.len() as int);
    }
    if fuel == 0 {
        return Result::Err(deep_error());
    }
    let v = eval(expr, heap, ctx, fuel - 1)?;
    let ghost gv: Expr = v;
    match v {
        Expr::List(List::Cons(c), _) => {
            proof {
                crate::expr::lemma_expr_ok_list(gv, heap@.len() as int);
                crate::expr::lemma_list_ok_parts(List::Cons(c), heap@.len() as int);
                crate::expr::lemma_list_expr_ok(*c.cdr, Option::None, heap@.len() as int);
            }
            Result::Ok(Expr::List(*c.cdr, Option::None))
        },
        _ => Result::Err(syntax_error(proc_name, args)),
    }
}

/// `(cons a l)`: prepends the value of `a` to the list `l` evaluates to.
pub fn cons(proc_name: &str, args: &List, heap: &mut EnvHeap, ctx: EvalContext, fuel: u64) -> (r:
    EvalResult)
    requires
        old(heap).wf(),
        ctx.env.id < old(heap)@.len(),
        list_ok(*args, old(heap)@.len() as int),
    ensures
        final(heap).wf(),
        old(heap)@.len() <= final(heap)@.len(),
        result_ok(r, final(heap)@.len() as int),
        args@.len() != 2 ==> r matches Result::Err(_),
        (fuel >= 1 && args@.len() == 2) ==> (crate::eval::quote_form_arg(args@[0])
            matches Option::Some(h) ==> (crate::eval::quote_form_arg(args@[1])
            matches Option::Some(t) ==> (t matches Expr::List(tl, _) ==> (r
            matches Result::Ok(v) && v matches Expr::List(outl, osp) && osp is None && outl@
            == seq![h] + tl@ && final(heap)@ == old(heap)@)))),
    decreases fuel, 1int, 0int,
{
    let (car_expr, cdr_expr) = get_exact_2_args(proc_name, args)?;
    proof {
        lemma_list_ok_elem(*args, 0, old(heap)@.len() as int);
        lemma_list_ok_elem(*args, 1, old(heap)@.len() as int);
    }
    if fuel == 0 {
        return Result::Err(deep_error());
    }
    let head = eval(car_expr, heap, ctx, fuel - 1)?;
    let ghost ghead: Expr = head;
    let tail = eval(cdr_expr, heap, ctx, fuel - 1)?;
    let ghost gtail: Expr = tail;
    match tail {
        Expr::List(rest, _) => {
            proof {
                crate::expr::lemma_expr_ok_list(gtail, heap@.len() as int);
            }
            let cell = crate::list::Cons::new(head, rest);
            proof {
                crate::expr::lemma_cons_ok(cell, heap@.len() as int);
                crate::expr::lemma_list_expr_ok(
                    List::Cons(cell),
                    Option::None,
                    heap@.len() as int,
                );
            }
            let out = Expr::List(List::Cons(cell), Option::None);
            Result::Ok(out)
        },
        _ => Result::Err(
            crate::builtin::utils::message_error(
                proc_name,
                ": the second operand does not evaluate to a list.",
            ),
        ),
    }
}


/// Every clause of the form is a list whose condition is a self-evaluating
/// literal, the fragment on which the selection rule below is decidable
/// without running the evaluator.
pub open spec fn cond_literal_form(args: List) -> bool
    decreases args,
{
    match args {
        List::Nil => true,
        List::Cons(c) => match *c.car {
            Expr::List(List::Cons(cl), _) => crate::eval::self_evaluating(*cl.car)
                && cond_literal_form(*c.cdr),
            _ => false,
        },
    }
}

/// The selection rule of `cond` on literal clauses: nothing when no
/// condition is truthy, the marker for a truthy clause with no body, or the
/// body paired with the first truthy condition.
pub open spec fn cond_literal_select(args: List) -> Option<Option<Expr>>
    decreases args,
{
    match args {
        List::Nil => Option::None,
        List::Cons(c) => match *c.car {
            Expr::List(List::Cons(cl), _) => if crate::expr::expr_is_truthy(*cl.car) {
                Option::Some(
                    match *cl.cdr {
                        List::Cons(c2) => Option::Some(*c2.car),
                        List::Nil => Option::None,
                    },
                )
            } else {
                cond_literal_select(*c.cdr)
            },
            _ => Option::None,
        },
    }
}

/// `(cond (c1 e1) (c2 e2) ...)`: the body of the first truthy condition,
/// evaluated in tail position; the empty list when no condition matches;
/// an error for a malformed clause or a truthy clause with no body.
pub fn cond(proc_name: &str, args: &List, heap: &mut EnvHeap, ctx: EvalContext, fuel: u64) -> (r:
    EvalResult)
    requires
        old(heap).wf(),
        ctx.env.id < old(heap)@.len(),
        list_ok(*args, old(heap)@.len() as int),
    ensures
        final(heap).wf(),
        old(heap)@.len() <= final(heap)@.len(),
        result_ok_or_tail(r, final(heap)@.len() as int),
        ctx.call_depth == 0 ==> result_ok(r, final(heap)@.len() as int),
        args@.len() == 0 ==> r == Result::<Expr, EvalError>::Ok(nil_spec()) && final(heap)@
            == old(heap)@,
        (fuel >= 1 && cond_literal_form(*args)) ==> (match cond_literal_select(*args) {
            Option::None => r == Result::<Expr, EvalError>::Ok(nil_spec()) && final(heap)@
                == old(heap)@,
            Option::Some(Option::None) => r matches Result::Err(_),
            Option::Some(Option::Some(b)) => crate::eval::self_evaluating(b) ==> r == Result::<
                Expr,
                EvalError,
            >::Ok(b) && final(heap)@ == old(heap)@,
        }),
    decreases fuel, 1int, 0int,
{
    let mut rest: &List = args;
    loop
        invariant
            heap.wf(),
            old(heap)@.len() <= heap@.len(),
            ctx.env.id < old(heap)@.len(),
            list_ok(*rest, heap@.len() as int),
            args@.len() == 0 ==> *rest == *args && *heap == *old(heap),
            (fuel >= 1 && cond_literal_form(*args)) ==> heap@ == old(heap)@
                && cond_literal_form(*rest) && cond_literal_select(*args)
                == cond_literal_select(*rest),
        decreases rest@.len(),
    {
        match rest {
            List::Nil => {
                return Result::Ok(Expr::nil());
            },
            List::Cons(c) => {
                proof {
                    lemma_list_ok_elem(*rest, 0, heap@.len() as int);
                }
                match &*c.car {
                    Expr::List(List::Cons(clause), _) => {
                        proof {
                            crate::expr::lemma_expr_ok_list(*c.car, heap@.len() as int);
                            crate::expr::lemma_list_ok_parts(
                                List::Cons(*clause),
                                heap@.len() as int,
                            );
                            crate::expr::lemma_list_ok_parts(*rest, heap@.len() as int);
                        }
                        if fuel == 0 {
                            return Result::Err(deep_error());
                        }
                        let cv = eval(&clause.car, heap, ctx, fuel - 1)?;
                        if cv.is_truthy() {
                            match clause.cdar() {
                                Option::Some(body) => {
                                    proof {
                                        crate::expr::lemma_list_ok_elem(
                                            *clause.cdr,
                                            0,
                                            heap@.len() as int,
                                        );
                                    }
                                    return eval_tail(body, heap, ctx, fuel - 1);
                                },
                                Option::None => {
                                    return Result::Err(syntax_error(proc_name, args));
                                },
                            }
                        }
                        rest = &c.cdr;
                    },
                    _ => {
                        return Result::Err(syntax_error(proc_name, args));
                    },
                }
            },
        }
    }
}

/// `(define name expr)` binds the evaluated expression; `(define (name
/// args...) body...)` binds a named closure capturing the current scope.
pub fn define(proc_name: &str, args: &List, heap: &mut EnvHeap, ctx: EvalContext, fuel: u64) -> (r:
    EvalResult)
    requires
        old(heap).wf(),
        ctx.env.id < old(heap)@.len(),
        list_ok(*args, old(heap)@.len() as int),
    ensures
        final(heap).wf(),
        old(heap)@.len() <= final(heap)@.len(),
        result_ok(r, final(heap)@.len() as int),
        r matches Result::Ok(v) ==> v == nil_spec(),
        args@.len() == 0 ==> r matches Result::Err(_),
        (r matches Result::Ok(_) && args@.len() >= 1 && args@[0] matches Expr::Sym(_, _))
            ==> exists|hmid: Seq<crate::env::RecModel>, v2: Expr|
            final(heap)@ == hmid.update(
                ctx.env.id as int,
                crate::env::rec_define(
                    hmid[ctx.env.id as int],
                    crate::builtin::utils::sym_name(args@[0]),
                    v2,
                ),
            ),
        *args matches List::Cons(c0) ==> (*c0.car) matches Expr::List(List::Cons(sig), _)
            ==> (*sig.car) matches Expr::Sym(nm, _) ==> r matches Result::Ok(_)
            ==> final(heap)@ == old(heap)@.update(
            ctx.env.id as int,
            crate::env::rec_define(
                old(heap)@[ctx.env.id as int],
                nm@,
                Expr::Proc(
                    Proc::Closure {
                        name: Option::Some(nm),
                        formal_args: *sig.cdr,
                        body: *c0.cdr,
                        outer_env: ctx.env,
                    },
                    Option::None,
                ),
            ),
        ),
        *args matches List::Cons(c0) ==> ((*c0.car) matches Expr::List(List::Cons(sig), _)
            ==> (((*sig.car) matches Expr::Sym(_, _) && crate::builtin::utils::all_syms(
            (*sig.cdr)@,
        )) ==> r matches Result::Ok(_))),
        (fuel >= 1 && args@.len() >= 2) ==> (args@[0] matches Expr::Sym(nm, _) ==> (
        crate::eval::self_evaluating(args@[1]) ==> (r matches Result::Ok(v3) && v3 == nil_spec()
            && final(heap)@ == old(heap)@.update(
            ctx.env.id as int,
            crate::env::rec_define(old(heap)@[ctx.env.id as int], nm@, args@[1]),
        )))),
    decreases fuel, 1int, 0int,
{
    match args {
        List::Nil => Result::Err(syntax_error(proc_name, args)),
        List::Cons(c0) => {
            proof {
                lemma_list_ok_elem(*args, 0, old(heap)@.len() as int);
            }
            match &*c0.car {
                Expr::Sym(name, _) => {
                    match c0.cdr.car() {
                        Option::Some(expr) => {
                            proof {
                                crate::expr::lemma_list_ok_parts(*args, old(heap)@.len() as int);
                                crate::expr::lemma_list_ok_elem(
                                    *c0.cdr,
                                    0,
                                    old(heap)@.len() as int,
                                );
                            }
                            if fuel == 0 {
                                return Result::Err(deep_error());
                            }
                            let v = eval(expr, heap, ctx, fuel - 1)?;
                            let ghost hmid: Seq<crate::env::RecModel> = heap@;
                            let ghost gv: Expr = v;
                            ctx.env.define(heap, name.as_str(), v);
                            proof {
                                assert(heap@ == hmid.update(
                                    ctx.env.id as int,
                                    crate::env::rec_define(
                                        hmid[ctx.env.id as int],
                                        crate::builtin::utils::sym_name(args@[0]),
                                        gv,
                                    ),
                                ));
                            }
                            Result::Ok(Expr::nil())
                        },
                        Option::None => Result::Err(
                            crate::builtin::utils::message_error(
                                proc_name,
                                ": define expects a expression after symbol",
                            ),
                        ),
                    }
                },
                Expr::List(List::Cons(sig), _) => {
                    proof {
                        crate::expr::lemma_expr_ok_list(*c0.car, old(heap)@.len() as int);
                        crate::expr::lemma_list_ok_parts(
                            List::Cons(*sig),
                            old(heap)@.len() as int,
                        );
                        crate::expr::lemma_list_ok_parts(*args, old(heap)@.len() as int);
                    }
                    match &*sig.car {
                        Expr::Sym(name, _) => {
                            let _names = make_formal_args(&sig.cdr)?;
                            let formal_list = sig.cdr.duplicate();
                            let body = c0.cdr.duplicate();
                            proof {
                                crate::expr::lemma_closure_ok(
                                    Option::Some(*name),
                                    formal_list,
                                    body,
                                    ctx.env,
                                    old(heap)@.len() as int,
                                );
                            }
                            let closure = Expr::Proc(
                                Proc::Closure {
                                    name: Option::Some(name.clone()),
                                    formal_args: formal_list,
                                    body,
                                    outer_env: ctx.env,
                                },
                                Option::None,
                            );
                            ctx.env.define(heap, name.as_str(), closure);
                            Result::Ok(Expr::nil())
                        },
                        _ => Result::Err(
                            crate::builtin::utils::message_error(
                                proc_name,
                                ": expects a list of symbols",
                            ),
                        ),
                    }
                },
                _ => Result::Err(syntax_error(proc_name, args)),
            }
        },
    }
}

/// `(defmacro name (args...) body...)` or `(defmacro (name args...)
/// body...)`: binds a macro that receives its operands unevaluated.
pub fn defmacro(proc_name: &str, args: &List, heap: &mut EnvHeap, ctx: EvalContext, fuel: u64) -> (
    r: EvalResult)
    requires
        old(heap).wf(),
        ctx.env.id < old(heap)@.len(),
        list_ok(*args, old(heap)@.len() as int),
    ensures
        final(heap).wf(),
        old(heap)@.len() <= final(heap)@.len(),
        result_ok(r, final(heap)@.len() as int),
        r matches Result::Ok(v) ==> v == nil_spec(),
        args@.len() == 0 ==> r matches Result::Err(_),
        *args matches List::Cons(c0) ==> (*c0.car) matches Expr::Sym(nm, _)
            ==> (*c0.cdr) matches List::Cons(c1) ==> (*c1.car) matches Expr::List(fl, _)
            ==> r matches Result::Ok(_) ==> final(heap)@ == old(heap)@.update(
            ctx.env.id as int,
            crate::env::rec_define(
                old(heap)@[ctx.env.id as int],
                nm@,
                Expr::Proc(
                    Proc::Macro { name: Option::Some(nm), formal_args: fl, body: *c1.cdr },
                    Option::None,
                ),
            ),
        ),
        *args matches List::Cons(c0) ==> (*c0.car) matches Expr::List(List::Cons(sig), _)
            ==> (*sig.car) matches Expr::Sym(nm, _) ==> r matches Result::Ok(_)
            ==> final(heap)@ == old(heap)@.update(
            ctx.env.id as int,
            crate::env::rec_define(
                old(heap)@[ctx.env.id as int],
                nm@,
                Expr::Proc(
                    Proc::Macro {
                        name: Option::Some(nm),
                        formal_args: *sig.cdr,
                        body: *c0.cdr,
                    },
                    Option::None,
                ),
            ),
        ),
        *args matches List::Cons(c0) ==> ((*c0.car) matches Expr::Sym(_, _) ==> ((*c0.cdr)
            matches List::Cons(c1) ==> ((*c1.car) matches Expr::List(fl, _)
            && crate::builtin::utils::all_syms(fl@) ==> r matches Result::Ok(_)))),
        *args matches List::Cons(c0) ==> ((*c0.car) matches Expr::List(List::Cons(sig), _)
            ==> (((*sig.car) matches Expr::Sym(_, _) && crate::builtin::utils::all_syms(
            (*sig.cdr)@,
        )) ==> r matches Result::Ok(_))),
    decreases fuel, 1int, 0int,
{
    match args {
        List::Nil => Result::Err(syntax_error(proc_name, args)),
        List::Cons(c0) => {
            proof {
                lemma_list_ok_elem(*args, 0, old(heap)@.len() as int);
            }
            match &*c0.car {
                // (defmacro name (args...) body...)
                Expr::Sym(name, _) => {
                    match &*c0.cdr {
                        List::Cons(c1) => {
                            proof {
                                crate::expr::lemma_list_ok_parts(*args, old(heap)@.len() as int);
                                crate::expr::lemma_list_ok_parts(
                                    *c0.cdr,
                                    old(heap)@.len() as int,
                                );
                            }
                            match &*c1.car {
                                Expr::List(formals, _) => {
                                    proof {
                                        crate::expr::lemma_expr_ok_list(
                                            *c1.car,
                                            old(heap)@.len() as int,
                                        );
                                    }
                                    let _names = make_formal_args(formals)?;
                                    let formal_list = formals.duplicate();
                                    let body = c1.cdr.duplicate();
                                    proof {
                                        crate::expr::lemma_macro_ok(
                                            Option::Some(*name),
                                            formal_list,
                                            body,
                                            old(heap)@.len() as int,
                                        );
                                    }
                                    let mac = Expr::Proc(
                                        Proc::Macro {
                                            name: Option::Some(name.clone()),
                                            formal_args: formal_list,
                                            body,
                                        },
                                        Option::None,
                                    );
                                    ctx.env.define(heap, name.as_str(), mac);
                                    Result::Ok(Expr::nil())
                                },
                                _ => Result::Err(syntax_error(proc_name, args)),
                            }
                        },
                        List::Nil => Result::Err(syntax_error(proc_name, args)),
                    }
                },
                // (defmacro (name args...) body...)
                Expr::List(List::Cons(sig), _) => {
                    proof {
                        crate::expr::lemma_expr_ok_list(*c0.car, old(heap)@.len() as int);
                        crate::expr::lemma_list_ok_parts(
                            List::Cons(*sig),
                            old(heap)@.len() as int,
                        );
                        crate::expr::lemma_list_ok_parts(*args, old(heap)@.len() as int);
                    }
                    match &*sig.car {
                        Expr::Sym(name, _) => {
                            let _names = make_formal_args(&sig.cdr)?;
                            let formal_list = sig.cdr.duplicate();
                            let body = c0.cdr.duplicate();
                            proof {
                                crate::expr::lemma_macro_ok(
                                    Option::Some(*name),
                                    formal_list,
                                    body,
                                    old(heap)@.len() as int,
                                );
                            }
                            let mac = Expr::Proc(
                                Proc::Macro {
                                    name: Option::Some(name.clone()),
                                    formal_args: formal_list,
                                    body,
                                },
                                Option::None,
                            );
                            ctx.env.define(heap, name.as_str(), mac);
                            Result::Ok(Expr::nil())
                        },
                        _ => Result::Err(syntax_error(proc_name, args)),
                    }
                },
                _ => Result::Err(syntax_error(proc_name, args)),
            }
        },
    }
}

/// `(eq? a b)`: structural equality of the two evaluated operands, spans
/// aside.
pub fn eq(proc_name: &str, args: &List, heap: &mut EnvHeap, ctx: EvalContext, fuel: u64) -> (r:
    EvalResult)
    requires
        old(heap).wf(),
        ctx.env.id < old(heap)@.len(),
        list_ok(*args, old(heap)@.len() as int),
    ensures
        final(heap).wf(),
        old(heap)@.len() <= final(heap)@.len(),
        result_ok(r, final(heap)@.len() as int),
        args@.len() != 2 ==> r matches Result::Err(_),
        r matches Result::Ok(v) ==> (v == nil_spec() || (v matches Expr::Sym(s, sp) && s@
            == "#t"@ && sp is None)),
        (fuel >= 1 && args@.len() == 2 && crate::eval::self_evaluating(args@[0])
            && crate::eval::self_evaluating(args@[1])) ==> (r matches Result::Ok(v)
            && (crate::expr::expr_is_truthy(v) <==> crate::expr::expr_eq(args@[0], args@[1]))
            && final(heap)@ == old(heap)@),
    decreases fuel, 1int, 0int,
{
    let (left, right) = get_exact_2_args(proc_name, args)?;
    proof {
        lemma_list_ok_elem(*args, 0, old(heap)@.len() as int);
        lemma_list_ok_elem(*args, 1, old(heap)@.len() as int);
    }
    if fuel == 0 {
        return Result::Err(deep_error());
    }
    let a = eval(left, heap, ctx, fuel - 1)?;
    let b = eval(right, heap, ctx, fuel - 1)?;
    Result::Ok(bool_expr(a.equals(&b)))
}

/// `(eval e)`: evaluates `e`, then evaluates the resulting expression.
pub fn eval_(proc_name: &str, args: &List, heap: &mut EnvHeap, ctx: EvalContext, fuel: u64) -> (r:
    EvalResult)
    requires
        old(heap).wf(),
        ctx.env.id < old(heap)@.len(),
        list_ok(*args, old(heap)@.len() as int),
    ensures
        final(heap).wf(),
        old(heap)@.len() <= final(heap)@.len(),
        result_ok(r, final(heap)@.len() as int),
        args@.len() != 1 ==> r matches Result::Err(_),
        (fuel >= 1 && args@.len() == 1) ==> (crate::eval::quote_form_arg(args@[0])
            matches Option::Some(q) ==> (crate::eval::self_evaluating(q) ==> r == Result::<
            Expr,
            EvalError,
        >::Ok(q) && final(heap)@ == old(heap)@)),
        (fuel >= 1 && args@.len() == 1) ==> (crate::eval::quote_form_arg(args@[0])
            matches Option::Some(q) ==> (crate::eval::quote_form_arg(q) matches Option::Some(q2)
            ==> r == Result::<Expr, EvalError>::Ok(q2) && final(heap)@ == old(heap)@)),
        (fuel >= 1 && args@.len() == 1) ==> (crate::eval::quote_form_arg(args@[0])
            matches Option::Some(q) ==> (q matches Expr::Sym(qn, _) ==> (
        match crate::env::chain_lookup(old(heap)@, ctx.env.id as int, qn@) {
            Option::Some(v2) => r == Result::<Expr, EvalError>::Ok(v2) && final(heap)@ == old(
                heap,
            )@,
            Option::None => r matches Result::Err(_),
        }))),
    decreases fuel, 1int, 0int,
{
    let expr = get_exact_1_arg(proc_name, args)?;
    proof {
        lemma_list_ok_elem(*args, 0, old(heap)@.len() as int);
    }
    if fuel == 0 {
        return Result::Err(deep_error());
    }
    let v = eval(expr, heap, ctx, fuel - 1)?;
    eval(&v, heap, ctx, fuel - 1)
}

/// `(lambda (args...) body...)`: a closure capturing the current scope.
pub fn lambda(proc_name: &str, args: &List, heap: &mut EnvHeap, ctx: EvalContext, fuel: u64) -> (r:
    EvalResult)
    requires
        old(heap).wf(),
        ctx.env.id < old(heap)@.len(),
        list_ok(*args, old(heap)@.len() as int),
    ensures
        final(heap).wf(),
        old(heap)@.len() <= final(heap)@.len(),
        final(heap)@ == old(heap)@,
        result_ok(r, final(heap)@.len() as int),
        args@.len() == 0 ==> r matches Result::Err(_),
        *args matches List::Cons(c0) ==> (*c0.car) matches Expr::List(fl, _) ==> r matches Result::Ok(v)
            ==> v == Expr::Proc(
            Proc::Closure {
                name: Option::None,
                formal_args: fl,
                body: *c0.cdr,
                outer_env: ctx.env,
            },
            Option::None,
        ),
        *args matches List::Cons(c0) ==> ((*c0.car) matches Expr::List(fl, _)
            && crate::builtin::utils::all_syms(fl@) ==> r matches Result::Ok(_)),
    decreases fuel, 1int, 0int,
{
    match args {
        List::Nil => Result::Err(syntax_error(proc_name, args)),
        List::Cons(c0) => {
            proof {
                lemma_list_ok_elem(*args, 0, old(heap)@.len() as int);
            }
            match &*c0.car {
                Expr::List(formals, _) => {
                    proof {
                        crate::expr::lemma_expr_ok_list(*c0.car, old(heap)@.len() as int);
                        crate::expr::lemma_list_ok_parts(*args, old(heap)@.len() as int);
                    }
                    let _names = make_formal_args(formals)?;
                    let formal_list = formals.duplicate();
                    let body = c0.cdr.duplicate();
                    proof {
                        crate::expr::lemma_closure_ok(
                            Option::None,
                            formal_list,
                            body,
                            ctx.env,
                            old(heap)@.len() as int,
                        );
                    }
                    let closure = Expr::Proc(
                        Proc::Closure {
                            name: Option::None,
                            formal_args: formal_list,
                            body,
                            outer_env: ctx.env,
                        },
                        Option::None,
                    );
                    Result::Ok(closure)
                },
                _ => Result::Err(syntax_error(proc_name, args)),
            }
        },
    }
}

/// `(set! name expr)`: walks outward from the current scope and replaces
/// the first binding of `name`; defining nothing new.
pub fn set(proc_name: &str, args: &List, heap: &mut EnvHeap, ctx: EvalContext, fuel: u64) -> (r:
    EvalResult)
    requires
        old(heap).wf(),
        ctx.env.id < old(heap)@.len(),
        list_ok(*args, old(heap)@.len() as int),
    ensures
        final(heap).wf(),
        old(heap)@.len() <= final(heap)@.len(),
        result_ok(r, final(heap)@.len() as int),
        r matches Result::Ok(v) ==> v == nil_spec(),
        args@.len() != 2 ==> r matches Result::Err(_),
        r matches Result::Ok(_) ==> exists|hmid: Seq<crate::env::RecModel>, v2: Expr|
            final(heap)@ == crate::env::spec_chain_update(
                hmid,
                ctx.env.id as int,
                crate::builtin::utils::sym_name(args@[0]),
                v2,
            ),
        (fuel >= 1 && args@.len() == 2) ==> (args@[0] matches Expr::Sym(nm, _) ==> (
        crate::eval::self_evaluating(args@[1]) ==> (r matches Result::Ok(v3) && v3 == nil_spec()
            && final(heap)@ == crate::env::spec_chain_update(
            old(heap)@,
            ctx.env.id as int,
            nm@,
            args@[1],
        )))),
    decreases fuel, 1int, 0int,
{
    let (name_expr, value_expr) = get_exact_2_args(proc_name, args)?;
    proof {
        lemma_list_ok_elem(*args, 0, old(heap)@.len() as int);
        lemma_list_ok_elem(*args, 1, old(heap)@.len() as int);
    }
    match name_expr {
        Expr::Sym(name, _) => {
            if fuel == 0 {
                return Result::Err(deep_error());
            }
            let v = eval(value_expr, heap, ctx, fuel - 1)?;
            let ghost mid: Seq<crate::env::RecModel> = heap@;
            let ghost gv: Expr = v;
            let _ = ctx.env.update(heap, name.as_str(), v);
            proof {
                assert(heap@ == crate::env::spec_chain_update(mid, ctx.env.id as int, name@, gv));
                crate::env::lemma_chain_resolve(mid, ctx.env.id as int, name@);
                match crate::env::chain_resolve(mid, ctx.env.id as int, name@) {
                    Option::Some(j) => {
                        assert(0 <= j < mid.len());
                        assert(heap@ == mid.update(
                            j,
                            crate::env::rec_define(mid[j], name@, gv),
                        ));
                        assert(heap@.len() == mid.len());
                    },
                    Option::None => {
                        assert(heap@ == mid);
                    },
                }
                assert(heap@ == crate::env::spec_chain_update(
                    mid,
                    ctx.env.id as int,
                    crate::builtin::utils::sym_name(args@[0]),
                    gv,
                ));
            }
            Result::Ok(Expr::nil())
        },
        _ => Result::Err(
            crate::builtin::utils::message_error(proc_name, ": expects a symbol to set"),
        ),
    }
}

/// `(list a b ...)`: evaluates every operand and collects the results.
pub fn list(proc_name: &str, args: &List, heap: &mut EnvHeap, ctx: EvalContext, fuel: u64) -> (r:
    EvalResult)
    requires
        old(heap).wf(),
        ctx.env.id < old(heap)@.len(),
        list_ok(*args, old(heap)@.len() as int),
    ensures
        final(heap).wf(),
        old(heap)@.len() <= final(heap)@.len(),
        result_ok(r, final(heap)@.len() as int),
        (fuel >= 1 && crate::eval::all_self_evaluating(*args)) ==> (r matches Result::Ok(v) && v
            matches Expr::List(outl, osp) && osp is None && outl@ == args@ && final(heap)@ == old(
            heap,
        )@),
    decreases fuel, 1int, 0int,
{
    let mut vals: Vec<Expr> = Vec::new();
    let mut rest: &List = args;
    loop
        invariant
            heap.wf(),
            old(heap)@.len() <= heap@.len(),
            ctx.env.id < old(heap)@.len(),
            list_ok(*rest, heap@.len() as int),
            forall|i: int| 0 <= i < vals@.len() ==> expr_ok(#[trigger] vals@[i], heap@.len() as int),
            (fuel >= 1 && crate::eval::all_self_evaluating(*args)) ==> heap@ == old(heap)@
                && crate::eval::all_self_evaluating(*rest) && vals@ + (*rest)@ == args@,
        ensures
            heap.wf(),
            old(heap)@.len() <= heap@.len(),
            forall|i: int| 0 <= i < vals@.len() ==> expr_ok(#[trigger] vals@[i], heap@.len() as int),
            (fuel >= 1 && crate::eval::all_self_evaluating(*args)) ==> heap@ == old(heap)@
                && vals@ == args@,
        decreases rest@.len(),
    {
        match rest {
            List::Nil => {
                proof {
                    assert(vals@ + (*rest)@ =~= vals@);
                }
                break;
            },
            List::Cons(c) => {
                proof {
                    crate::expr::lemma_list_ok_parts(*rest, heap@.len() as int);
                }
                if fuel == 0 {
                    return Result::Err(deep_error());
                }
                let v = eval(&c.car, heap, ctx, fuel - 1)?;
                vals.push(v);
                proof {
                    if fuel >= 1 && crate::eval::all_self_evaluating(*args) {
                        assert(vals@ + (*c.cdr)@ =~= vals@.drop_last() + (*rest)@);
                    }
                }
                rest = &c.cdr;
            },
        }
    }
    let out = List::from_vec(vals);
    proof {
        lemma_list_ok_from_elems(out, heap@.len() as int);
        crate::expr::lemma_list_expr_ok(out, Option::None, heap@.len() as int);
    }
    Result::Ok(Expr::List(out, Option::None))
}

} // verus!
