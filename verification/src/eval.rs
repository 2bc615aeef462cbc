//! The evaluator: dispatch, special-form short-circuiting, application, and
//! the tail-call trampoline, together with the top-level [`Evaluator`] that
//! owns the scope arena and drives garbage collection.
//!
//! Termination bookkeeping: the interpreted language is Turing-complete, so
//! every function of the evaluation cycle carries an explicit `fuel` that
//! bounds how deep native recursion may nest; exhausting it yields an
//! ordinary evaluation error.  The trampoline loop itself consumes no fuel
//! per bounce, which is what lets tail recursion run indefinitely without
//! growing the native stack.

use vstd::prelude::*;

use crate::env::{
    chain_lookup, has_native, lemma_chain_lookup_ok, unreachable_live_count, Env, EnvHeap,
};
use crate::proc::{NativeFunc, Proc};
use crate::expr::{expr_ok, expr_span, list_ok, Expr};
use crate::list::{Cons, List};
use crate::span::Span;

verus! {

/// An evaluation failure: a message and, when known, where it happened.
#[derive(Debug, PartialEq)]
pub struct EvalError {
    pub message: String,
    pub span: Option<Span>,
}

impl From<String> for EvalError {
    /// Wraps a bare message, with no location.
    fn from(message: String) -> (r: EvalError) {
        EvalError { message, span: Option::None }
    }
}

impl vstd::std_specs::convert::FromSpecImpl<String> for EvalError {
    open spec fn obeys_from_spec() -> bool {
        true
    }

    open spec fn from_spec(message: String) -> EvalError {
        EvalError { message, span: Option::None }
    }
}

/// What one evaluation step produces.
pub type EvalResult = Result<Expr, EvalError>;

/// The result, if it succeeded, is a well-formed value for a heap of `n`
/// scopes: no dangling scope index and no trampoline marker.
pub open spec fn result_ok(r: EvalResult, n: int) -> bool {
    r matches Result::Ok(v) ==> expr_ok(v, n)
}

/// The result, if it succeeded, is either a well-formed value or a deferred
/// tail call whose pieces are well-formed.
pub open spec fn result_ok_or_tail(r: EvalResult, n: int) -> bool {
    r matches Result::Ok(v) ==> (expr_ok(v, n) || (v matches Expr::TailCall {
        proc,
        args,
        context,
    } && crate::expr::proc_ok(proc, n) && list_ok(args, n) && context.env.id < n))
}

/// Expressions the evaluator returns unchanged: numbers, strings,
/// procedures, and the empty list.
pub open spec fn self_evaluating(e: Expr) -> bool {
    ||| e matches Expr::Num(_, _)
    ||| e matches Expr::Str(_, _)
    ||| e matches Expr::Proc(_, _)
    ||| e matches Expr::List(List::Nil, _)
}

/// Every element of the list is self-evaluating.
pub open spec fn all_self_evaluating(l: List) -> bool
    decreases l,
{
    match l {
        List::Nil => true,
        List::Cons(c) => self_evaluating(*c.car) && all_self_evaluating(*c.cdr),
    }
}

/// For a `(quote x ...)` form, the quoted operand `x`.
pub open spec fn quote_form_arg(e: Expr) -> Option<Expr> {
    match e {
        Expr::List(List::Cons(c), _) => match (*c.car, *c.cdr) {
            (Expr::Sym(s, _), List::Cons(c2)) => if s@ == "quote"@ {
                Option::Some(*c2.car)
            } else {
                Option::None
            },
            _ => Option::None,
        },
        _ => Option::None,
    }
}

/// Compares a symbol's text with a literal.
pub fn str_is(s: &String, lit: &str) -> (r: bool)
    ensures
        r == (s@ == lit@),
{
    let l = String::from_str(lit);
    *s == l
}

/// The error produced when evaluation nests too deeply.
fn depth_error() -> (r: EvalError)
    ensures
        r.span is None,
{
    EvalError { message: String::from_str("Evaluation nested too deeply."), span: Option::None }
}

/// The state threaded through every evaluation step: the current scope and
/// how many procedure invocations are on the native call stack.
#[derive(Clone, Copy, Debug, PartialEq, Eq, Structural)]
pub struct EvalContext {
    pub env: Env,
    pub call_depth: u64,
}

impl EvalContext {
    /// True while the evaluator is executing inside some procedure body,
    /// which is when a tail position may defer to the trampoline.
    pub fn is_in_proc(&self) -> (r: bool)
        ensures
            r == (self.call_depth > 0),
    {
        self.call_depth > 0
    }

    /// A context in a fresh child scope of `base`'s scope, sharing the call
    /// depth.
    pub fn derive_from(base: &EvalContext, heap: &mut EnvHeap) -> (r: EvalContext)
        requires
            old(heap).wf(),
            base.env.id < old(heap)@.len(),
        ensures
            final(heap).wf(),
            final(heap)@.len() == old(heap)@.len() + 1,
            forall|i: int| 0 <= i < old(heap)@.len() ==> final(heap)@[i] == old(heap)@[i],
            r.env.id == old(heap)@.len(),
            final(heap)@[r.env.id as int].parent == Option::Some(base.env.id as int),
            final(heap)@[r.env.id as int].vars == Map::<Seq<char>, Expr>::empty(),
            r.call_depth == base.call_depth,
    {
        EvalContext { env: base.env.derive(heap), call_depth: base.call_depth }
    }

    /// The same scope, one call deeper.  The depth saturates rather than
    /// overflowing; the fuel bound is reached long before that can matter.
    pub fn deeper(&self) -> (r: EvalContext)
        ensures
            r.env == self.env,
            r.call_depth > 0,
    {
        if self.call_depth < u64::MAX {
            EvalContext { env: self.env, call_depth: self.call_depth + 1 }
        } else {
            EvalContext { env: self.env, call_depth: self.call_depth }
        }
    }
}

/// Evaluates `expr` in a non-tail position: the result is always a settled
/// value, never a deferred tail call.
pub fn eval(expr: &Expr, heap: &mut EnvHeap, ctx: EvalContext, fuel: u64) -> (r: EvalResult)
    requires
        old(heap).wf(),
        ctx.env.id < old(heap)@.len(),
        expr_ok(*expr, old(heap)@.len() as int),
    ensures
        final(heap).wf(),
        old(heap)@.len() <= final(heap)@.len(),
        result_ok(r, final(heap)@.len() as int),
        self_evaluating(*expr) ==> r == Result::<Expr, EvalError>::Ok(*expr) && final(heap)@
            == old(heap)@,
        (*expr) matches Expr::Sym(name, sp) ==> final(heap)@ == old(heap)@ && (match chain_lookup(
            old(heap)@,
            ctx.env.id as int,
            name@,
        ) {
            Option::Some(v) => r == Result::<Expr, EvalError>::Ok(v),
            Option::None => r matches Result::Err(e2) && e2.span == sp && e2.message@
                == "Undefined symbol: `"@ + name@ + "`"@,
        }),
        quote_form_arg(*expr) matches Option::Some(q) ==> r == Result::<Expr, EvalError>::Ok(q)
            && final(heap)@ == old(heap)@,
        (*expr) matches Expr::List(List::Cons(c), sp) ==> (r matches Result::Err(e) ==> (e.span
            is Some || (crate::list::list_span_spec((*c.cdr)@) is None && sp is None))),
                fuel >= 1 ==> ((*expr) matches Expr::List(List::Cons(c3), _) ==> ((*c3.car)
            matches Expr::Sym(hn3, hsp3) ==> (hn3@ != "quote"@ && hn3@ != "quasiquote"@ ==> (
        match chain_lookup(old(heap)@, ctx.env.id as int, hn3@) {
            Option::Some(hv3) => !(hv3 matches Expr::Proc(_, _)) ==> (r matches Result::Err(e3)
                && (hsp3 is Some ==> e3.span == hsp3) && e3.message@ == seq!['`']
                + crate::expr::expr_repr(*c3.car) + "` does not evaluate to a callable."@
                && final(heap)@ == old(heap)@),
            Option::None => true,
        })))),
        fuel >= 1 ==> ((*expr) matches Expr::List(List::Cons(c4), _) ==> (self_evaluating(
            *c4.car,
        ) && !((*c4.car) matches Expr::Proc(_, _)) ==> (r matches Result::Err(e4) && (expr_span(
            *c4.car,
        ) is Some ==> e4.span == expr_span(*c4.car)) && final(heap)@ == old(heap)@))),
        fuel >= 1 ==> ((*expr) matches Expr::List(List::Cons(c6), sp6) ==> (self_evaluating(
            *c6.car,
        ) && !((*c6.car) matches Expr::Proc(_, _)) && expr_span(*c6.car) is None ==> (r
            matches Result::Err(e6) && e6.span == (
        if crate::list::list_span_spec((*c6.cdr)@) is Some {
            crate::list::list_span_spec((*c6.cdr)@)
        } else {
            sp6
        })))),
        fuel >= 3 ==> ((*expr) matches Expr::List(
            List::Cons(c5),
            _,
        ) ==> ((*c5.car) matches Expr::Sym(hn5, _) ==> (hn5@ != "quote"@ && hn5@
            != "quasiquote"@ ==> (match chain_lookup(old(heap)@, ctx.env.id as int, hn5@) {
            Option::Some(Expr::Proc(Proc::Native { func: nf, .. }, _)) => {
                &&& (nf == NativeFunc::Quote && (*c5.cdr)@.len() >= 1 ==> r == Result::<
                    Expr,
                    EvalError,
                >::Ok((*c5.cdr)@[0]) && final(heap)@ == old(heap)@)
                &&& (nf == NativeFunc::NumAdd && crate::builtin::num::literal_nums(*c5.cdr)
                    ==> (if crate::builtin::num::sums_in_range(*c5.cdr, 0) {
                    r == Result::<Expr, EvalError>::Ok(
                        Expr::Num(crate::builtin::num::nums_sum(*c5.cdr) as i64, Option::None),
                    ) && final(heap)@ == old(heap)@
                } else {
                    r matches Result::Err(_)
                }))
                &&& (nf == NativeFunc::NumMultiply && crate::builtin::num::literal_nums(
                    *c5.cdr,
                ) ==> (if crate::builtin::num::prods_in_range(*c5.cdr, 1) {
                    r == Result::<Expr, EvalError>::Ok(
                        Expr::Num(
                            crate::builtin::num::prod_fold(*c5.cdr, 1) as i64,
                            Option::None,
                        ),
                    ) && final(heap)@ == old(heap)@
                } else {
                    r matches Result::Err(_)
                }))
                &&& (nf == NativeFunc::ListFn && all_self_evaluating(*c5.cdr) ==> (r
                    matches Result::Ok(lv) && lv matches Expr::List(outl, osp) && osp is None
                    && outl@ == (*c5.cdr)@ && final(heap)@ == old(heap)@))
                &&& (nf == NativeFunc::Lambda ==> ((*c5.cdr) matches List::Cons(lc0) ==> ((
                *lc0.car) matches Expr::List(lfl, _) ==> (crate::builtin::utils::all_syms(lfl@)
                    ==> r == Result::<Expr, EvalError>::Ok(
                    Expr::Proc(
                        Proc::Closure {
                            name: Option::None,
                            formal_args: lfl,
                            body: *lc0.cdr,
                            outer_env: ctx.env,
                        },
                        Option::None,
                    ),
                ) && final(heap)@ == old(heap)@))))
            },
            _ => true,
        })))),
        fuel >= 4 ==> ((*expr) matches Expr::List(List::Cons(cq), _) ==> ((*cq.car)
            matches Expr::Sym(qs, _) ==> (qs@ == "quasiquote"@ ==> ((*cq.cdr)
            matches List::Cons(cq2) ==> ((*cq2.car) matches Expr::List(tl3, _) ==> ((
        !crate::built_in::qq_unquote_head(tl3) && crate::built_in::qq_lit_template(
            tl3,
            old(heap)@,
            ctx.env.id as int,
        )) ==> (r matches Result::Ok(v3) && v3 matches Expr::List(outl3, osp3) && osp3 is None
            && outl3@ == crate::built_in::qq_lit_expansion(tl3, old(heap)@, ctx.env.id as int)
            && final(heap)@ == old(heap)@))))))),
    decreases fuel, 5int, 0int,
{
    eval_internal(expr, heap, ctx, false, fuel)
}

/// Evaluates `expr` in tail position: inside a procedure body this may
/// return a deferred tail call for the nearest trampoline to resume.
pub fn eval_tail(expr: &Expr, heap: &mut EnvHeap, ctx: EvalContext, fuel: u64) -> (r: EvalResult)
    requires
        old(heap).wf(),
        ctx.env.id < old(heap)@.len(),
        expr_ok(*expr, old(heap)@.len() as int),
    ensures
        final(heap).wf(),
        old(heap)@.len() <= final(heap)@.len(),
        result_ok_or_tail(r, final(heap)@.len() as int),
        ctx.call_depth == 0 ==> result_ok(r, final(heap)@.len() as int),
        self_evaluating(*expr) ==> r == Result::<Expr, EvalError>::Ok(*expr) && final(heap)@
            == old(heap)@,
        (*expr) matches Expr::Sym(name, sp) ==> final(heap)@ == old(heap)@ && (match chain_lookup(
            old(heap)@,
            ctx.env.id as int,
            name@,
        ) {
            Option::Some(v) => r == Result::<Expr, EvalError>::Ok(v),
            Option::None => r matches Result::Err(e2) && e2.span == sp && e2.message@
                == "Undefined symbol: `"@ + name@ + "`"@,
        }),
        (*expr) matches Expr::List(List::Cons(ct), spt) ==> (r matches Result::Err(et) ==> (
        et.span is Some || (crate::list::list_span_spec((*ct.cdr)@) is None && spt is None))),
        fuel >= 1 && ctx.call_depth > 0 ==> ((*expr) matches Expr::List(List::Cons(c2), _) ==> ((
        *c2.car) matches Expr::Sym(hn, _) ==> (hn@ != "quote"@ && hn@ != "quasiquote"@ ==> (
        match chain_lookup(old(heap)@, ctx.env.id as int, hn@) {
            Option::Some(hv) => hv matches Expr::Proc(hp, _) ==> r == Result::<
                Expr,
                EvalError,
            >::Ok((Expr::TailCall { proc: hp, args: *c2.cdr, context: ctx })) && final(heap)@
                == old(heap)@,
            Option::None => r matches Result::Err(_),
        })))),
    decreases fuel, 5int, 0int,
{
    eval_internal(expr, heap, ctx, true, fuel)
}

/// The dispatch core shared by [`eval`] and [`eval_tail`].
fn eval_internal(expr: &Expr, heap: &mut EnvHeap, ctx: EvalContext, is_tail: bool, fuel: u64) -> (r:
    EvalResult)
    requires
        old(heap).wf(),
        ctx.env.id < old(heap)@.len(),
        expr_ok(*expr, old(heap)@.len() as int),
    ensures
        final(heap).wf(),
        old(heap)@.len() <= final(heap)@.len(),
        result_ok_or_tail(r, final(heap)@.len() as int),
        !(is_tail && ctx.call_depth > 0) ==> result_ok(r, final(heap)@.len() as int),
        self_evaluating(*expr) ==> r == Result::<Expr, EvalError>::Ok(*expr) && final(heap)@
            == old(heap)@,
        (*expr) matches Expr::Sym(name, sp) ==> final(heap)@ == old(heap)@ && (match chain_lookup(
            old(heap)@,
            ctx.env.id as int,
            name@,
        ) {
            Option::Some(v) => r == Result::<Expr, EvalError>::Ok(v),
            Option::None => r matches Result::Err(e2) && e2.span == sp && e2.message@
                == "Undefined symbol: `"@ + name@ + "`"@,
        }),
        quote_form_arg(*expr) matches Option::Some(q) ==> r == Result::<Expr, EvalError>::Ok(q)
            && final(heap)@ == old(heap)@,
        (*expr) matches Expr::List(List::Cons(c), sp) ==> (r matches Result::Err(e) ==> (e.span
            is Some || (crate::list::list_span_spec((*c.cdr)@) is None && sp is None))),
        fuel >= 1 && is_tail && ctx.call_depth > 0 ==> ((*expr) matches Expr::List(
            List::Cons(c2),
            _,
        ) ==> ((*c2.car) matches Expr::Sym(hn, _) ==> (hn@ != "quote"@ && hn@ != "quasiquote"@
            ==> (match chain_lookup(old(heap)@, ctx.env.id as int, hn@) {
            Option::Some(hv) => hv matches Expr::Proc(hp, _) ==> r == Result::<
                Expr,
                EvalError,
            >::Ok((Expr::TailCall { proc: hp, args: *c2.cdr, context: ctx })) && final(heap)@
                == old(heap)@,
            Option::None => r matches Result::Err(_),
        })))),
        fuel >= 1 ==> ((*expr) matches Expr::List(List::Cons(c3), _) ==> ((*c3.car)
            matches Expr::Sym(hn3, hsp3) ==> (hn3@ != "quote"@ && hn3@ != "quasiquote"@ ==> (
        match chain_lookup(old(heap)@, ctx.env.id as int, hn3@) {
            Option::Some(hv3) => !(hv3 matches Expr::Proc(_, _)) ==> (r matches Result::Err(e3)
                && (hsp3 is Some ==> e3.span == hsp3) && e3.message@ == seq!['`']
                + crate::expr::expr_repr(*c3.car) + "` does not evaluate to a callable."@
                && final(heap)@ == old(heap)@),
            Option::None => true,
        })))),
        fuel >= 1 ==> ((*expr) matches Expr::List(List::Cons(c4), _) ==> (self_evaluating(
            *c4.car,
        ) && !((*c4.car) matches Expr::Proc(_, _)) ==> (r matches Result::Err(e4) && (expr_span(
            *c4.car,
        ) is Some ==> e4.span == expr_span(*c4.car)) && final(heap)@ == old(heap)@))),
        fuel >= 1 ==> ((*expr) matches Expr::List(List::Cons(c6), sp6) ==> (self_evaluating(
            *c6.car,
        ) && !((*c6.car) matches Expr::Proc(_, _)) && expr_span(*c6.car) is None ==> (r
            matches Result::Err(e6) && e6.span == (
        if crate::list::list_span_spec((*c6.cdr)@) is Some {
            crate::list::list_span_spec((*c6.cdr)@)
        } else {
            sp6
        })))),
        fuel >= 3 && !(is_tail && ctx.call_depth > 0) ==> ((*expr) matches Expr::List(
            List::Cons(c5),
            _,
        ) ==> ((*c5.car) matches Expr::Sym(hn5, _) ==> (hn5@ != "quote"@ && hn5@
            != "quasiquote"@ ==> (match chain_lookup(old(heap)@, ctx.env.id as int, hn5@) {
            Option::Some(Expr::Proc(Proc::Native { func: nf, .. }, _)) => {
                &&& (nf == NativeFunc::Quote && (*c5.cdr)@.len() >= 1 ==> r == Result::<
                    Expr,
                    EvalError,
                >::Ok((*c5.cdr)@[0]) && final(heap)@ == old(heap)@)
                &&& (nf == NativeFunc::NumAdd && crate::builtin::num::literal_nums(*c5.cdr)
                    ==> (if crate::builtin::num::sums_in_range(*c5.cdr, 0) {
                    r == Result::<Expr, EvalError>::Ok(
                        Expr::Num(crate::builtin::num::nums_sum(*c5.cdr) as i64, Option::None),
                    ) && final(heap)@ == old(heap)@
                } else {
                    r matches Result::Err(_)
                }))
                &&& (nf == NativeFunc::NumMultiply && crate::builtin::num::literal_nums(
                    *c5.cdr,
                ) ==> (if crate::builtin::num::prods_in_range(*c5.cdr, 1) {
                    r == Result::<Expr, EvalError>::Ok(
                        Expr::Num(
                            crate::builtin::num::prod_fold(*c5.cdr, 1) as i64,
                            Option::None,
                        ),
                    ) && final(heap)@ == old(heap)@
                } else {
                    r matches Result::Err(_)
                }))
                &&& (nf == NativeFunc::ListFn && all_self_evaluating(*c5.cdr) ==> (r
                    matches Result::Ok(lv) && lv matches Expr::List(outl, osp) && osp is None
                    && outl@ == (*c5.cdr)@ && final(heap)@ == old(heap)@))
                &&& (nf == NativeFunc::Lambda ==> ((*c5.cdr) matches List::Cons(lc0) ==> ((
                *lc0.car) matches Expr::List(lfl, _) ==> (crate::builtin::utils::all_syms(lfl@)
                    ==> r == Result::<Expr, EvalError>::Ok(
                    Expr::Proc(
                        Proc::Closure {
                            name: Option::None,
                            formal_args: lfl,
                            body: *lc0.cdr,
                            outer_env: ctx.env,
                        },
                        Option::None,
                    ),
                ) && final(heap)@ == old(heap)@))))
            },
            _ => true,
        })))),
        fuel >= 4 ==> ((*expr) matches Expr::List(List::Cons(cq), _) ==> ((*cq.car)
            matches Expr::Sym(qs, _) ==> (qs@ == "quasiquote"@ ==> ((*cq.cdr)
            matches List::Cons(cq2) ==> ((*cq2.car) matches Expr::List(tl3, _) ==> ((
        !crate::built_in::qq_unquote_head(tl3) && crate::built_in::qq_lit_template(
            tl3,
            old(heap)@,
            ctx.env.id as int,
        )) ==> (r matches Result::Ok(v3) && v3 matches Expr::List(outl3, osp3) && osp3 is None
            && outl3@ == crate::built_in::qq_lit_expansion(tl3, old(heap)@, ctx.env.id as int)
            && final(heap)@ == old(heap)@))))))),
    decreases fuel, 4int, 0int,
{
    match expr {
        Expr::Sym(name, sp) => {
            proof {
                lemma_chain_lookup_ok(heap@, ctx.env.id as int, name@);
            }
            match ctx.env.lookup(heap, name.as_str()) {
                Option::Some(v) => Result::Ok(v),
                Option::None => {
                    let mut message = String::from_str("Undefined symbol: `");
                    message.append(name.as_str());
                    message.append("`");
                    proof {
                        assert(message@ =~= "Undefined symbol: `"@ + name@ + "`"@);
                    }
                    Result::Err(EvalError { message, span: *sp })
                },
            }
        },
        Expr::List(List::Cons(c), _) => {
            proof {
                crate::expr::lemma_expr_ok_list(*expr, old(heap)@.len() as int);
                crate::expr::lemma_list_ok_parts(List::Cons(*c), old(heap)@.len() as int);
                reveal_strlit("quote");
                reveal_strlit("quasiquote");
                assert("quote"@.len() == 5);
                assert("quasiquote"@.len() == 10);
            }
            let head_kind: u8 = match &*c.car {
                Expr::Sym(s, _) => if str_is(s, "quote") {
                    1
                } else if str_is(s, "quasiquote") {
                    2
                } else {
                    0
                },
                _ => 0,
            };
            let result = if head_kind == 1 {
                crate::built_in::quote(&c.cdr, heap, ctx, fuel)
            } else if head_kind == 2 {
                crate::built_in::quasiquote(&c.cdr, heap, ctx, fuel)
            } else {
                eval_s_expr(c, heap, ctx, is_tail, fuel)
            };
            match result {
                Result::Err(e) => {
                    if e.span.is_none() {
                        // back-fill a location: the argument list's span if it
                        // has one, else the span of the whole expression
                        let span = match c.cdr.span() {
                            Option::Some(sp2) => Option::Some(sp2),
                            Option::None => expr.span(),
                        };
                        Result::Err(EvalError { message: e.message, span })
                    } else {
                        Result::Err(e)
                    }
                },
                _ => result,
            }
        },
        _ => Result::Ok(expr.duplicate()),
    }
}

/// Evaluates an application `(f a b ...)`: the head must evaluate to a
/// procedure.  In a tail position inside a procedure body the application is
/// returned as a deferred tail call; otherwise this call site owns the
/// trampoline loop that resumes deferred calls until a settled value
/// appears.
fn eval_s_expr(s_expr: &Cons, heap: &mut EnvHeap, ctx: EvalContext, is_tail: bool, fuel: u64) -> (r:
    EvalResult)
    requires
        old(heap).wf(),
        ctx.env.id < old(heap)@.len(),
        expr_ok(*s_expr.car, old(heap)@.len() as int),
        list_ok(*s_expr.cdr, old(heap)@.len() as int),
    ensures
        final(heap).wf(),
        old(heap)@.len() <= final(heap)@.len(),
        result_ok_or_tail(r, final(heap)@.len() as int),
        !(is_tail && ctx.call_depth > 0) ==> result_ok(r, final(heap)@.len() as int),
        fuel >= 1 ==> ((*s_expr.car) matches Expr::Sym(hn, hsp) ==> (match chain_lookup(
            old(heap)@,
            ctx.env.id as int,
            hn@,
        ) {
            Option::Some(hv) => {
                &&& (is_tail && ctx.call_depth > 0 ==> (hv matches Expr::Proc(hp, _) ==> r
                    == Result::<Expr, EvalError>::Ok(
                    (Expr::TailCall { proc: hp, args: *s_expr.cdr, context: ctx }),
                ) && final(heap)@ == old(heap)@))
                &&& (!(hv matches Expr::Proc(_, _)) ==> (r matches Result::Err(e) && e.span
                    == hsp && e.message@ == seq!['`'] + crate::expr::expr_repr(*s_expr.car)
                    + "` does not evaluate to a callable."@ && final(heap)@ == old(heap)@))
            },
            Option::None => r matches Result::Err(_),
        })),
        fuel >= 1 && self_evaluating(*s_expr.car) && !((*s_expr.car) matches Expr::Proc(_, _))
            ==> (r matches Result::Err(e2) && e2.span == expr_span(*s_expr.car) && final(heap)@
            == old(heap)@),
        fuel >= 1 && is_tail && ctx.call_depth > 0 ==> ((*s_expr.car) matches Expr::Proc(hp2, _)
            ==> r == Result::<Expr, EvalError>::Ok(
            (Expr::TailCall { proc: hp2, args: *s_expr.cdr, context: ctx }),
        ) && final(heap)@ == old(heap)@),
        fuel >= 3 && !(is_tail && ctx.call_depth > 0) ==> ((*s_expr.car) matches Expr::Sym(
            hn2,
            _,
        ) ==> (match chain_lookup(old(heap)@, ctx.env.id as int, hn2@) {
            Option::Some(Expr::Proc(Proc::Native { func: nf, .. }, _)) => {
                &&& (nf == NativeFunc::Quote && s_expr.cdr@.len() >= 1 ==> r == Result::<
                    Expr,
                    EvalError,
                >::Ok(s_expr.cdr@[0]) && final(heap)@ == old(heap)@)
                &&& (nf == NativeFunc::NumAdd && crate::builtin::num::literal_nums(*s_expr.cdr)
                    ==> (if crate::builtin::num::sums_in_range(*s_expr.cdr, 0) {
                    r == Result::<Expr, EvalError>::Ok(
                        Expr::Num(
                            crate::builtin::num::nums_sum(*s_expr.cdr) as i64,
                            Option::None,
                        ),
                    ) && final(heap)@ == old(heap)@
                } else {
                    r matches Result::Err(_)
                }))
                &&& (nf == NativeFunc::NumMultiply && crate::builtin::num::literal_nums(
                    *s_expr.cdr,
                ) ==> (if crate::builtin::num::prods_in_range(*s_expr.cdr, 1) {
                    r == Result::<Expr, EvalError>::Ok(
                        Expr::Num(
                            crate::builtin::num::prod_fold(*s_expr.cdr, 1) as i64,
                            Option::None,
                        ),
                    ) && final(heap)@ == old(heap)@
                } else {
                    r matches Result::Err(_)
                }))
                &&& (nf == NativeFunc::ListFn && all_self_evaluating(*s_expr.cdr) ==> (r
                    matches Result::Ok(lv) && lv matches Expr::List(outl, osp) && osp is None
                    && outl@ == s_expr.cdr@ && final(heap)@ == old(heap)@))
                &&& (nf == NativeFunc::Lambda ==> ((*s_expr.cdr) matches List::Cons(lc0) ==> ((
                *lc0.car) matches Expr::List(lfl, _) ==> (crate::builtin::utils::all_syms(lfl@)
                    ==> r == Result::<Expr, EvalError>::Ok(
                    Expr::Proc(
                        Proc::Closure {
                            name: Option::None,
                            formal_args: lfl,
                            body: *lc0.cdr,
                            outer_env: ctx.env,
                        },
                        Option::None,
                    ),
                ) && final(heap)@ == old(heap)@))))
            },
            _ => true,
        })),
    decreases fuel, 3int, 0int,
{
    if fuel == 0 {
        return Result::Err(depth_error());
    }
    let head = eval(&s_expr.car, heap, ctx, fuel - 1)?;
    let ghost ghead: Expr = head;
    if let Expr::Proc(proc, _) = head {
        proof {
            crate::expr::lemma_expr_ok_proc(ghead, heap@.len() as int);
            if s_expr.cdr@.len() >= 1 {
                crate::expr::lemma_list_ok_elem(*s_expr.cdr, 0, old(heap)@.len() as int);
            }
        }
        let args = &s_expr.cdr;
        if is_tail && ctx.is_in_proc() {
            Result::Ok(
                Expr::TailCall { proc, args: args.duplicate(), context: ctx },
            )
        } else {
            let mut res = proc.invoke(args, heap, ctx, fuel);
            let ghost res0: EvalResult = res;
            let ghost h1: Seq<crate::env::RecModel> = heap@;
            let mut steps: u64 = u64::MAX;
            loop
                invariant
                    heap.wf(),
                    old(heap)@.len() <= heap@.len(),
                    result_ok_or_tail(res, heap@.len() as int),
                    !(is_tail && ctx.call_depth > 0),
                    ghead matches Expr::Proc(_, _),
                    fuel >= 1 ==> ((*s_expr.car) matches Expr::Sym(hn4, _) ==> chain_lookup(
                        old(heap)@,
                        ctx.env.id as int,
                        hn4@,
                    ) == Option::Some(ghead)),
                    self_evaluating(*s_expr.car) ==> *s_expr.car == ghead,
                    fuel >= 1 && ((*s_expr.car) matches Expr::Sym(_, _)) ==> (match ghead {
                        Expr::Proc(Proc::Native { func: nf, .. }, _) => {
                            &&& (nf == NativeFunc::Quote && s_expr.cdr@.len() >= 1 ==> res0
                                == Result::<Expr, EvalError>::Ok(s_expr.cdr@[0]) && h1 == old(
                                heap,
                            )@ && !(res0 matches Result::Ok(Expr::TailCall { .. })))
                            &&& (fuel >= 3 && nf == NativeFunc::NumAdd
                                && crate::builtin::num::literal_nums(*s_expr.cdr) ==> (
                            if crate::builtin::num::sums_in_range(*s_expr.cdr, 0) {
                                res0 == Result::<Expr, EvalError>::Ok(
                                    Expr::Num(
                                        crate::builtin::num::nums_sum(*s_expr.cdr) as i64,
                                        Option::None,
                                    ),
                                ) && h1 == old(heap)@ && !(res0 matches Result::Ok(
                                    Expr::TailCall { .. },
                                ))
                            } else {
                                res0 matches Result::Err(_)
                            }))
                            &&& (fuel >= 3 && nf == NativeFunc::NumMultiply
                                && crate::builtin::num::literal_nums(*s_expr.cdr) ==> (
                            if crate::builtin::num::prods_in_range(*s_expr.cdr, 1) {
                                res0 == Result::<Expr, EvalError>::Ok(
                                    Expr::Num(
                                        crate::builtin::num::prod_fold(*s_expr.cdr, 1) as i64,
                                        Option::None,
                                    ),
                                ) && h1 == old(heap)@ && !(res0 matches Result::Ok(
                                    Expr::TailCall { .. },
                                ))
                            } else {
                                res0 matches Result::Err(_)
                            }))
                            &&& (fuel >= 2 && nf == NativeFunc::ListFn && all_self_evaluating(
                                *s_expr.cdr,
                            ) ==> (res0 matches Result::Ok(lv) && lv matches Expr::List(
                                outl,
                                osp,
                            ) && osp is None && outl@ == s_expr.cdr@ && h1 == old(heap)@ && !(
                            res0 matches Result::Ok(Expr::TailCall { .. }))))
                            &&& (fuel >= 1 && nf == NativeFunc::Lambda ==> ((*s_expr.cdr)
                                matches List::Cons(lc0) ==> ((*lc0.car) matches Expr::List(
                                lfl,
                                _,
                            ) ==> (crate::builtin::utils::all_syms(lfl@) ==> res0 == Result::<
                                Expr,
                                EvalError,
                            >::Ok(
                                Expr::Proc(
                                    Proc::Closure {
                                        name: Option::None,
                                        formal_args: lfl,
                                        body: *lc0.cdr,
                                        outer_env: ctx.env,
                                    },
                                    Option::None,
                                ),
                            ) && h1 == old(heap)@ && !(res0 matches Result::Ok(
                                Expr::TailCall { .. },
                            ))))))
                        },
                        _ => true,
                    }),
                    !(res0 matches Result::Ok(Expr::TailCall { .. })) ==> res == res0 && heap@
                        == h1,
                ensures
                    heap.wf(),
                    old(heap)@.len() <= heap@.len(),
                    result_ok(res, heap@.len() as int),
                    !(res0 matches Result::Ok(Expr::TailCall { .. })) ==> res == res0 && heap@
                        == h1,
                decreases steps,
            {
                match res {
                    Result::Ok(Expr::TailCall { proc: p2, args: a2, context: c2 }) => {
                        if steps == 0 {
                            return Result::Err(depth_error());
                        }
                        steps = steps - 1;
                        res = p2.invoke(&a2, heap, c2, fuel);
                    },
                    _ => {
                        break;
                    },
                }
            }
            res
        }
    } else {
        let mut message = String::from_str("`");
        crate::expr::write_expr(&mut message, &s_expr.car);
        message.append("` does not evaluate to a callable.");
        proof {
            reveal_strlit("`");
            assert("`"@ =~= seq!['`']);
            assert(message@ =~= seq!['`'] + crate::expr::expr_repr(*s_expr.car)
                + "` does not evaluate to a callable."@);
        }
        Result::Err(EvalError { message, span: s_expr.car.span() })
    }
}

/// The top-level interpreter: the scope arena, the root scope, and the
/// garbage-collection entry points.
///
/// `fuel_budget` bounds how deeply one top-level evaluation may nest
/// non-tail calls before it errs out; tail calls run through the trampoline
/// and never consume the budget.  A host that raises it substantially
/// should also run on a larger native stack, since each budgeted nesting
/// level occupies native frames.
#[derive(Debug)]
pub struct Evaluator {
    pub heap: EnvHeap,
    pub context: EvalContext,
    pub fuel_budget: u64,
}

impl Evaluator {
    /// A well-formed interpreter: its arena is well-formed and its current
    /// scope is a valid handle.
    pub open spec fn wf(&self) -> bool {
        &&& self.heap.wf()
        &&& self.context.env.id < self.heap@.len()
    }

    /// An interpreter whose root scope is still empty.
    pub fn new() -> (r: Evaluator)
        ensures
            r.wf(),
            r.heap@.len() == 1,
            r.context.env.id == 0,
            r.context.call_depth == 0,
            r.heap@[0].vars == Map::<Seq<char>, Expr>::empty(),
            r.heap@[0].parent is None,
            r.fuel_budget == 1024,
    {
        let mut heap = EnvHeap::new();
        let root = Env::new(&mut heap);
        Evaluator { heap, context: EvalContext { env: root, call_depth: 0 }, fuel_budget: 1024 }
    }

    /// An interpreter whose root scope holds every native procedure.
    pub fn with_builtin() -> (r: Evaluator)
        ensures
            r.wf(),
            r.context.call_depth == 0,
            r.fuel_budget == 1024,
            r.heap@[r.context.env.id as int].parent is None,
            has_native(r.heap@[r.context.env.id as int].vars, "atom?"@, NativeFunc::Atom),
            has_native(r.heap@[r.context.env.id as int].vars, "car"@, NativeFunc::Car),
            has_native(r.heap@[r.context.env.id as int].vars, "cdr"@, NativeFunc::Cdr),
            has_native(r.heap@[r.context.env.id as int].vars, "cons"@, NativeFunc::ConsFn),
            has_native(r.heap@[r.context.env.id as int].vars, "cond"@, NativeFunc::Cond),
            has_native(r.heap@[r.context.env.id as int].vars, "define"@, NativeFunc::Define),
            has_native(r.heap@[r.context.env.id as int].vars, "defmacro"@, NativeFunc::Defmacro),
            has_native(r.heap@[r.context.env.id as int].vars, "eq?"@, NativeFunc::Eq),
            has_native(r.heap@[r.context.env.id as int].vars, "eval"@, NativeFunc::EvalFn),
            has_native(r.heap@[r.context.env.id as int].vars, "lambda"@, NativeFunc::Lambda),
            has_native(r.heap@[r.context.env.id as int].vars, "set!"@, NativeFunc::SetBang),
            has_native(r.heap@[r.context.env.id as int].vars, "quote"@, NativeFunc::Quote),
            has_native(r.heap@[r.context.env.id as int].vars, "quasiquote"@, NativeFunc::Quasiquote),
            has_native(r.heap@[r.context.env.id as int].vars, "+"@, NativeFunc::NumAdd),
            has_native(r.heap@[r.context.env.id as int].vars, "-"@, NativeFunc::NumMinus),
            has_native(r.heap@[r.context.env.id as int].vars, "*"@, NativeFunc::NumMultiply),
            has_native(r.heap@[r.context.env.id as int].vars, "/"@, NativeFunc::NumDivide),
            has_native(r.heap@[r.context.env.id as int].vars, "num?"@, NativeFunc::IsNum),
    {
        let mut heap = EnvHeap::new();
        let root = Env::new_root_env(&mut heap);
        Evaluator { heap, context: EvalContext { env: root, call_depth: 0 }, fuel_budget: 1024 }
    }

    /// An interpreter with the natives and the small library layer: the
    /// conventional truth symbols and the `list` constructor.
    pub fn with_prelude() -> (r: Evaluator)
        ensures
            r.wf(),
            r.context.call_depth == 0,
            r.fuel_budget == 1024,
            has_native(r.heap@[r.context.env.id as int].vars, "atom?"@, NativeFunc::Atom),
            has_native(r.heap@[r.context.env.id as int].vars, "car"@, NativeFunc::Car),
            has_native(r.heap@[r.context.env.id as int].vars, "cdr"@, NativeFunc::Cdr),
            has_native(r.heap@[r.context.env.id as int].vars, "cons"@, NativeFunc::ConsFn),
            has_native(r.heap@[r.context.env.id as int].vars, "cond"@, NativeFunc::Cond),
            has_native(r.heap@[r.context.env.id as int].vars, "define"@, NativeFunc::Define),
            has_native(r.heap@[r.context.env.id as int].vars, "defmacro"@, NativeFunc::Defmacro),
            has_native(r.heap@[r.context.env.id as int].vars, "eq?"@, NativeFunc::Eq),
            has_native(r.heap@[r.context.env.id as int].vars, "eval"@, NativeFunc::EvalFn),
            has_native(r.heap@[r.context.env.id as int].vars, "lambda"@, NativeFunc::Lambda),
            has_native(r.heap@[r.context.env.id as int].vars, "set!"@, NativeFunc::SetBang),
            has_native(r.heap@[r.context.env.id as int].vars, "quote"@, NativeFunc::Quote),
            has_native(r.heap@[r.context.env.id as int].vars, "quasiquote"@, NativeFunc::Quasiquote),
            has_native(r.heap@[r.context.env.id as int].vars, "+"@, NativeFunc::NumAdd),
            has_native(r.heap@[r.context.env.id as int].vars, "-"@, NativeFunc::NumMinus),
            has_native(r.heap@[r.context.env.id as int].vars, "*"@, NativeFunc::NumMultiply),
            has_native(r.heap@[r.context.env.id as int].vars, "/"@, NativeFunc::NumDivide),
            has_native(r.heap@[r.context.env.id as int].vars, "num?"@, NativeFunc::IsNum),
            r.heap@[r.context.env.id as int].vars.contains_key("t"@),
            (r.heap@[r.context.env.id as int].vars["t"@] matches Expr::Sym(s, _) && s@ == "#t"@),
            r.heap@[r.context.env.id as int].vars.contains_key("f"@),
            !crate::expr::expr_is_truthy(r.heap@[r.context.env.id as int].vars["f"@]),
            has_native(r.heap@[r.context.env.id as int].vars, "list"@, NativeFunc::ListFn),
    {
        let evaluator = Evaluator::with_builtin();
        let mut heap = evaluator.heap;
        let root = evaluator.context.env;
        let t = crate::expr::intern("#t");
        proof {
            assert(crate::expr::expr_env_refs(t) =~= Set::<int>::empty());
        }
        root.define(&mut heap, "t", t);
        let f_val = Expr::nil();
        proof {
            assert(crate::expr::expr_env_refs(f_val) =~= Set::<int>::empty());
        }
        root.define(&mut heap, "f", f_val);
        let nil_val = Expr::nil();
        proof {
            assert(crate::expr::expr_env_refs(nil_val) =~= Set::<int>::empty());
        }
        root.define(&mut heap, "nil", nil_val);
        let list_fn = Expr::Proc(
            Proc::Native {
                name: String::from_str("list"),
                func: crate::proc::NativeFunc::ListFn,
            },
            Option::None,
        );
        proof {
            assert(crate::expr::expr_env_refs(list_fn) =~= Set::<int>::empty());
        }
        proof {
            reveal_strlit("t");
            reveal_strlit("f");
            reveal_strlit("nil");
            reveal_strlit("list");
            reveal_strlit("#t");
            reveal_strlit("atom?");
            reveal_strlit("car");
            reveal_strlit("cdr");
            reveal_strlit("cons");
            reveal_strlit("cond");
            reveal_strlit("define");
            reveal_strlit("defmacro");
            reveal_strlit("eq?");
            reveal_strlit("eval");
            reveal_strlit("lambda");
            reveal_strlit("set!");
            reveal_strlit("quote");
            reveal_strlit("quasiquote");
            reveal_strlit("+");
            reveal_strlit("-");
            reveal_strlit("*");
            reveal_strlit("/");
            reveal_strlit("num?");
            assert("f"@.len() == 1);
            assert("list"@.len() == 4);
            assert("nil"@.len() == 3);
            assert("t"@.len() == 1);
            assert("atom?"@.len() == 5);
            assert("car"@.len() == 3);
            assert("cdr"@.len() == 3);
            assert("cons"@.len() == 4);
            assert("cond"@.len() == 4);
            assert("define"@.len() == 6);
            assert("defmacro"@.len() == 8);
            assert("eq?"@.len() == 3);
            assert("eval"@.len() == 4);
            assert("lambda"@.len() == 6);
            assert("set!"@.len() == 4);
            assert("quote"@.len() == 5);
            assert("quasiquote"@.len() == 10);
            assert("+"@.len() == 1);
            assert("-"@.len() == 1);
            assert("*"@.len() == 1);
            assert("/"@.len() == 1);
            assert("num?"@.len() == 4);
            assert("car"@[0] != "nil"@[0]);
            assert("car"@ != "nil"@);
            assert("cdr"@[0] != "nil"@[0]);
            assert("cdr"@ != "nil"@);
            assert("cons"@[0] != "list"@[0]);
            assert("cons"@ != "list"@);
            assert("cond"@[0] != "list"@[0]);
            assert("cond"@ != "list"@);
            assert("eq?"@[0] != "nil"@[0]);
            assert("eq?"@ != "nil"@);
            assert("eval"@[0] != "list"@[0]);
            assert("eval"@ != "list"@);
            assert("set!"@[0] != "list"@[0]);
            assert("set!"@ != "list"@);
            assert("+"@[0] != "t"@[0]);
            assert("+"@ != "t"@);
            assert("+"@[0] != "f"@[0]);
            assert("+"@ != "f"@);
            assert("-"@[0] != "t"@[0]);
            assert("-"@ != "t"@);
            assert("-"@[0] != "f"@[0]);
            assert("-"@ != "f"@);
            assert("*"@[0] != "t"@[0]);
            assert("*"@ != "t"@);
            assert("*"@[0] != "f"@[0]);
            assert("*"@ != "f"@);
            assert("/"@[0] != "t"@[0]);
            assert("/"@ != "t"@);
            assert("/"@[0] != "f"@[0]);
            assert("/"@ != "f"@);
            assert("num?"@[0] != "list"@[0]);
            assert("num?"@ != "list"@);
            assert("t"@[0] != "f"@[0]);
            assert("t"@ != "f"@);
        }
        root.define(&mut heap, "list", list_fn);
        Evaluator { heap, context: EvalContext { env: root, call_depth: 0 }, fuel_budget: 1024 }
    }

    /// The root scope.
    pub fn root_env(&self) -> (r: Env)
        ensures
            r == self.context.env,
    {
        self.context.env
    }

    /// The evaluation context rooted at the top level.
    pub fn context(&self) -> (r: EvalContext)
        ensures
            r == self.context,
    {
        self.context
    }

    /// Evaluates one complete top-level form to a settled value, within
    /// this interpreter's nesting budget.
    pub fn eval(&mut self, expr: &Expr) -> (r: EvalResult)
        requires
            old(self).wf(),
            expr_ok(*expr, old(self).heap@.len() as int),
        ensures
            final(self).wf(),
            final(self).context == old(self).context,
            old(self).heap@.len() <= final(self).heap@.len(),
            result_ok(r, final(self).heap@.len() as int),
            self_evaluating(*expr) ==> r == Result::<Expr, EvalError>::Ok(*expr)
                && final(self).heap@ == old(self).heap@,
            quote_form_arg(*expr) matches Option::Some(q) ==> r == Result::<
                Expr,
                EvalError,
            >::Ok(q) && final(self).heap@ == old(self).heap@,
            (*expr) matches Expr::Sym(name, sp) ==> final(self).heap@ == old(self).heap@
                && (match chain_lookup(
                old(self).heap@,
                old(self).context.env.id as int,
                name@,
            ) {
                Option::Some(v) => r == Result::<Expr, EvalError>::Ok(v),
                Option::None => r matches Result::Err(e2) && e2.span == sp,
            }),
    {
        eval(expr, &mut self.heap, self.context, self.fuel_budget)
    }

    /// Counts the scopes that are still registered yet unreachable from the
    /// root: a dry run of the collector that sweeps nothing.
    pub fn count_unreachable_envs(&mut self) -> (r: usize)
        requires
            old(self).wf(),
        ensures
            final(self).wf(),
            final(self).context == old(self).context,
            final(self).heap@.len() == old(self).heap@.len(),
            forall|i: int|
                0 <= i < old(self).heap@.len() ==> crate::env::same_except_marked(
                    final(self).heap@[i],
                    old(self).heap@[i],
                ),
            r == unreachable_live_count(
                old(self).heap@,
                old(self).context.env.id as int,
                old(self).heap@.len() as int,
            ),
    {
        self.heap.count_unreachable(self.context.env)
    }

    /// Reclaims every scope that is unreachable from the root, severing any
    /// reference cycles it anchors.  Reachable scopes keep their bindings,
    /// and a recount afterwards finds nothing left to reclaim.
    pub fn collect_garbage(&mut self)
        requires
            old(self).wf(),
        ensures
            final(self).wf(),
            final(self).context == old(self).context,
            final(self).heap@.len() == old(self).heap@.len(),
            forall|i: int|
                0 <= i < old(self).heap@.len() ==> (final(self).heap@[i].live <==> (old(
                    self,
                ).heap@[i].live
                    && crate::env::env_reachable(
                    old(self).heap@,
                    old(self).context.env.id as int,
                    i,
                ))),
            forall|i: int|
                0 <= i < old(self).heap@.len() && crate::env::env_reachable(
                    old(self).heap@,
                    old(self).context.env.id as int,
                    i,
                ) ==> final(self).heap@[i].parent == old(self).heap@[i].parent
                    && final(self).heap@[i].vars == old(self).heap@[i].vars
                    && final(self).heap@[i].live == old(self).heap@[i].live,
            forall|i: int|
                0 <= i < old(self).heap@.len() && old(self).heap@[i].live
                    && !crate::env::env_reachable(
                    old(self).heap@,
                    old(self).context.env.id as int,
                    i,
                ) ==> final(self).heap@[i].vars == Map::<Seq<char>, Expr>::empty()
                    && !final(self).heap@[i].live,
            unreachable_live_count(
                final(self).heap@,
                final(self).context.env.id as int,
                final(self).heap@.len() as int,
            ) == 0,
    {
        self.heap.collect(self.context.env);
    }
}

} // verus!
