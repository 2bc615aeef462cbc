//! The procedure model: native primitives, closures, and macros.
//!
//! All three share one invocation entry point; they differ only in how they
//! treat their argument expressions.

use vstd::prelude::*;

use crate::env::{Env, EnvHeap};
use crate::eval::{result_ok, result_ok_or_tail, EvalContext, EvalError, EvalResult};
use crate::expr::{clone_opt_string, expr_ok, list_ok, proc_eq, proc_ok, Expr};
use crate::list::List;

verus! {

/// Identifies one of the interpreter's native procedures.  Natives receive
/// their argument list unevaluated, which is what lets special forms such as
/// `quote` and `define` share a table with ordinary primitives.
///
/// The set is closed: a native is a member of this enum, not a function
/// pointer, because no contract could be stated for an arbitrary pointer.
/// Hosts therefore cannot register further primitives (such as a printing
/// procedure); they drive I/O outside the evaluator instead.
#[derive(Clone, Copy, Debug, PartialEq, Eq, Structural)]
pub enum NativeFunc {
    Atom,
    Car,
    Cdr,
    ConsFn,
    Cond,
    Define,
    Defmacro,
    Eq,
    EvalFn,
    Lambda,
    SetBang,
    Quote,
    Quasiquote,
    Unquote,
    UnquoteSplicing,
    NumAdd,
    NumMinus,
    NumMultiply,
    NumDivide,
    IsNum,
    ListFn,
}

/// A callable value: a native primitive, a lexical closure, or a macro.
#[allow(inconsistent_fields)]
#[derive(Debug, PartialEq)]
pub enum Proc {
    Native { name: String, func: NativeFunc },
    Closure { name: Option<String>, formal_args: List, body: List, outer_env: Env },
    Macro { name: Option<String>, formal_args: List, body: List },
}

impl Proc {
    /// A deep copy of this procedure.
    pub fn duplicate(&self) -> (r: Proc)
        ensures
            r == *self,
        decreases self,
    {
        match self {
            Proc::Native { name, func } => Proc::Native { name: name.clone(), func: *func },
            Proc::Closure { name, formal_args, body, outer_env } => Proc::Closure {
                name: clone_opt_string(name),
                formal_args: formal_args.duplicate(),
                body: body.duplicate(),
                outer_env: *outer_env,
            },
            Proc::Macro { name, formal_args, body } => Proc::Macro {
                name: clone_opt_string(name),
                formal_args: formal_args.duplicate(),
                body: body.duplicate(),
            },
        }
    }

    /// Structural equality of two procedures.
    pub fn equals(&self, other: &Proc) -> (r: bool)
        ensures
            r == proc_eq(*self, *other),
        decreases self,
    {
        match (self, other) {
            (Proc::Native { name: n1, func: f1 }, Proc::Native { name: n2, func: f2 }) => *n1
                == *n2 && *f1 == *f2,
            (
                Proc::Closure { name: n1, formal_args: a1, body: b1, outer_env: e1 },
                Proc::Closure { name: n2, formal_args: a2, body: b2, outer_env: e2 },
            ) => opt_string_equals(n1, n2) && a1.equals(&*a2) && b1.equals(&*b2) && *e1 == *e2,
            (
                Proc::Macro { name: n1, formal_args: a1, body: b1 },
                Proc::Macro { name: n2, formal_args: a2, body: b2 },
            ) => opt_string_equals(n1, n2) && a1.equals(&*a2) && b1.equals(&*b2),
            _ => false,
        }
    }
}

impl Clone for Proc {
    /// A deep copy equal to the original.
    fn clone(&self) -> (r: Proc)
        ensures
            r == *self,
    {
        self.duplicate()
    }
}

/// Compares two optional procedure names by text.
pub fn opt_string_equals(a: &Option<String>, b: &Option<String>) -> (r: bool)
    ensures
        r == crate::expr::opt_name_eq(*a, *b),
{
    match (a, b) {
        (Option::Some(x), Option::Some(y)) => *x == *y,
        (Option::None, Option::None) => true,
        _ => false,
    }
}

impl Proc {
    /// The single invocation entry point, dispatched on the variant: a
    /// native receives its argument list unevaluated; a closure evaluates
    /// the arguments eagerly, binds them in a fresh child of its captured
    /// scope and runs its body with the last expression in tail position; a
    /// macro binds the unevaluated arguments, evaluates its body to an
    /// expansion, and evaluates the expansion in the caller's scope.
    pub fn invoke(&self, args: &List, heap: &mut EnvHeap, ctx: EvalContext, fuel: u64) -> (r:
        EvalResult)
        requires
            old(heap).wf(),
            ctx.env.id < old(heap)@.len(),
            proc_ok(*self, old(heap)@.len() as int),
            list_ok(*args, old(heap)@.len() as int),
        ensures
            final(heap).wf(),
            old(heap)@.len() <= final(heap)@.len(),
            result_ok_or_tail(r, final(heap)@.len() as int),
            (fuel >= 1 && ((*self) matches Proc::Native { func: NativeFunc::Quote, .. })
                && args@.len() >= 1) ==> r == Result::<Expr, EvalError>::Ok(args@[0])
                && final(heap)@ == old(heap)@,
            (fuel >= 3 && ((*self) matches Proc::Native { func: NativeFunc::NumAdd, .. })
                && crate::builtin::num::literal_nums(*args)) ==> (
            if crate::builtin::num::sums_in_range(*args, 0) {
                r == Result::<Expr, EvalError>::Ok(
                    Expr::Num(crate::builtin::num::nums_sum(*args) as i64, Option::None),
                ) && final(heap)@ == old(heap)@
            } else {
                r matches Result::Err(_)
            }),
            (fuel >= 3 && ((*self) matches Proc::Native { func: NativeFunc::NumMultiply, .. })
                && crate::builtin::num::literal_nums(*args)) ==> (
            if crate::builtin::num::prods_in_range(*args, 1) {
                r == Result::<Expr, EvalError>::Ok(
                    Expr::Num(crate::builtin::num::prod_fold(*args, 1) as i64, Option::None),
                ) && final(heap)@ == old(heap)@
            } else {
                r matches Result::Err(_)
            }),
            (fuel >= 2 && ((*self) matches Proc::Native { func: NativeFunc::ListFn, .. })
                && crate::eval::all_self_evaluating(*args)) ==> (r matches Result::Ok(v) && v
                matches Expr::List(outl, osp) && osp is None && outl@ == args@ && final(heap)@
                == old(heap)@),
            fuel >= 1 ==> ((*self) matches Proc::Native { func: NativeFunc::Lambda, .. } ==> ((
            *args) matches List::Cons(c0) ==> ((*c0.car) matches Expr::List(fl, _) ==> (
            crate::builtin::utils::all_syms(fl@) ==> r == Result::<Expr, EvalError>::Ok(
                Expr::Proc(
                    Proc::Closure {
                        name: Option::None,
                        formal_args: fl,
                        body: *c0.cdr,
                        outer_env: ctx.env,
                    },
                    Option::None,
                ),
            ) && final(heap)@ == old(heap)@)))),
            fuel >= 1 ==> ((*self) matches Proc::Closure {
                formal_args: List::Nil,
                body: List::Nil,
                ..
            } ==> ((*args) matches List::Nil ==> r == Result::<Expr, EvalError>::Ok(
                crate::expr::nil_spec(),
            ))),
            fuel >= 1 ==> ((*self) matches Proc::Closure { formal_args: fa3, .. } ==> (fa3@.len()
                != args@.len() ==> r matches Result::Err(_))),
            fuel >= 1 ==> ((*self) matches Proc::Closure { formal_args: fa4, body: List::Nil, .. }
                ==> ((crate::builtin::utils::all_syms(fa4@) && crate::eval::all_self_evaluating(
                *args,
            ) && fa4@.len() == args@.len()) ==> r == Result::<Expr, EvalError>::Ok(
                crate::expr::nil_spec(),
            ))),
            fuel >= 1 ==> ((*self) matches Proc::Macro {
                formal_args: List::Nil,
                body: List::Nil,
                ..
            } ==> ((*args) matches List::Nil ==> r == Result::<Expr, EvalError>::Ok(
                crate::expr::nil_spec(),
            ))),
            fuel >= 1 ==> ((*self) matches Proc::Macro { formal_args: fa2, body: bd2, .. }
                ==> (fa2 matches List::Cons(fc2) ==> ((*fc2.cdr) matches List::Nil ==> ((
            *fc2.car) matches Expr::Sym(xn2, _) ==> (bd2 matches List::Cons(bc2) ==> ((
            *bc2.cdr) matches List::Nil ==> ((*bc2.car) matches Expr::Sym(bn3, _) ==> (bn3@
                == xn2@ ==> ((*args) matches List::Cons(ac2) ==> ((*ac2.cdr) matches List::Nil
                ==> (crate::eval::self_evaluating(*ac2.car) ==> r == Result::<
                Expr,
                EvalError,
            >::Ok(*ac2.car)))))))))))),
            fuel >= 1 ==> ((*self) matches Proc::Closure { formal_args: fa, body: bd, .. }
                ==> (fa matches List::Cons(fc) ==> ((*fc.cdr) matches List::Nil ==> ((*fc.car)
                matches Expr::Sym(xn, _) ==> (bd matches List::Cons(bc) ==> ((*bc.cdr)
                matches List::Nil ==> ((*bc.car) matches Expr::Sym(bn2, _) ==> (bn2@ == xn@
                ==> ((*args) matches List::Cons(ac) ==> ((*ac.cdr) matches List::Nil ==> (
            crate::eval::self_evaluating(*ac.car) ==> r == Result::<Expr, EvalError>::Ok(
                *ac.car,
            )))))))))))),
        decreases fuel, 2int, 0int,
    {
        if fuel == 0 {
            return Result::Err(EvalError {
                message: String::from_str("Evaluation nested too deeply."),
                span: Option::None,
            });
        }
        let inner = ctx.deeper();
        proof {
            crate::expr::lemma_proc_ok_parts(*self, old(heap)@.len() as int);
        }
        match self {
            Proc::Native { name, func } => dispatch_native(*func, name.as_str(), args, heap, inner, fuel - 1),
            Proc::Closure { name, formal_args, body, outer_env } => invoke_closure(
                name,
                formal_args,
                body,
                *outer_env,
                args,
                heap,
                ctx,
                inner.call_depth,
                fuel,
            ),
            Proc::Macro { name, formal_args, body } => invoke_macro(
                name,
                formal_args,
                body,
                args,
                heap,
                ctx,
                inner.call_depth,
                fuel,
            ),
        }
    }
}

/// Routes a native-procedure call to its implementation.
fn dispatch_native(
    func: NativeFunc,
    name: &str,
    args: &List,
    heap: &mut EnvHeap,
    ctx: EvalContext,
    fuel: u64,
) -> (r: EvalResult)
    requires
        old(heap).wf(),
        ctx.env.id < old(heap)@.len(),
        list_ok(*args, old(heap)@.len() as int),
    ensures
        final(heap).wf(),
        old(heap)@.len() <= final(heap)@.len(),
        result_ok_or_tail(r, final(heap)@.len() as int),
        (func == NativeFunc::Quote && args@.len() >= 1) ==> r == Result::<Expr, EvalError>::Ok(
            args@[0],
        ) && final(heap)@ == old(heap)@,
        (fuel >= 2 && func == NativeFunc::NumAdd && crate::builtin::num::literal_nums(*args))
            ==> (if crate::builtin::num::sums_in_range(*args, 0) {
            r == Result::<Expr, EvalError>::Ok(
                Expr::Num(crate::builtin::num::nums_sum(*args) as i64, Option::None),
            ) && final(heap)@ == old(heap)@
        } else {
            r matches Result::Err(_)
        }),
        (fuel >= 2 && func == NativeFunc::NumMultiply && crate::builtin::num::literal_nums(
            *args,
        )) ==> (if crate::builtin::num::prods_in_range(*args, 1) {
            r == Result::<Expr, EvalError>::Ok(
                Expr::Num(crate::builtin::num::prod_fold(*args, 1) as i64, Option::None),
            ) && final(heap)@ == old(heap)@
        } else {
            r matches Result::Err(_)
        }),
        (fuel >= 1 && func == NativeFunc::ListFn && crate::eval::all_self_evaluating(*args))
            ==> (r matches Result::Ok(v) && v matches Expr::List(outl, osp) && osp is None
            && outl@ == args@ && final(heap)@ == old(heap)@),
        func == NativeFunc::Lambda ==> ((*args) matches List::Cons(c0) ==> ((*c0.car)
            matches Expr::List(fl, _) ==> (crate::builtin::utils::all_syms(fl@) ==> r
            == Result::<Expr, EvalError>::Ok(
            Expr::Proc(
                Proc::Closure {
                    name: Option::None,
                    formal_args: fl,
                    body: *c0.cdr,
                    outer_env: ctx.env,
                },
                Option::None,
            ),
        ) && final(heap)@ == old(heap)@))),
    decreases fuel, 3int, 0int,
{
    match func {
        NativeFunc::Atom => crate::builtin::primitive::atom(name, args, heap, ctx, fuel),
        NativeFunc::Car => crate::builtin::primitive::car(name, args, heap, ctx, fuel),
        NativeFunc::Cdr => crate::builtin::primitive::cdr(name, args, heap, ctx, fuel),
        NativeFunc::ConsFn => crate::builtin::primitive::cons(name, args, heap, ctx, fuel),
        NativeFunc::Cond => crate::builtin::primitive::cond(name, args, heap, ctx, fuel),
        NativeFunc::Define => crate::builtin::primitive::define(name, args, heap, ctx, fuel),
        NativeFunc::Defmacro => crate::builtin::primitive::defmacro(name, args, heap, ctx, fuel),
        NativeFunc::Eq => crate::builtin::primitive::eq(name, args, heap, ctx, fuel),
        NativeFunc::EvalFn => crate::builtin::primitive::eval_(name, args, heap, ctx, fuel),
        NativeFunc::Lambda => crate::builtin::primitive::lambda(name, args, heap, ctx, fuel),
        NativeFunc::SetBang => crate::builtin::primitive::set(name, args, heap, ctx, fuel),
        NativeFunc::Quote => crate::built_in::quote(args, heap, ctx, fuel),
        NativeFunc::Quasiquote => crate::built_in::quasiquote(args, heap, ctx, fuel),
        NativeFunc::Unquote => crate::built_in::unquote(args, heap, ctx, fuel),
        NativeFunc::UnquoteSplicing => crate::built_in::unquote_splicing(args, heap, ctx, fuel),
        NativeFunc::NumAdd => crate::builtin::num::add(name, args, heap, ctx, fuel),
        NativeFunc::NumMinus => crate::builtin::num::minus(name, args, heap, ctx, fuel),
        NativeFunc::NumMultiply => crate::builtin::num::multiply(name, args, heap, ctx, fuel),
        NativeFunc::NumDivide => crate::builtin::num::divide(name, args, heap, ctx, fuel),
        NativeFunc::IsNum => crate::builtin::num::is_num(name, args, heap, ctx, fuel),
        NativeFunc::ListFn => crate::builtin::primitive::list(name, args, heap, ctx, fuel),
    }
}

/// Applies a closure: evaluate the arguments in the caller's scope, bind
/// them positionally in a fresh child of the captured scope, then run the
/// body with its last expression in tail position.
fn invoke_closure(
    name: &Option<String>,
    formal_args: &List,
    body: &List,
    outer_env: Env,
    args: &List,
    heap: &mut EnvHeap,
    ctx: EvalContext,
    depth: u64,
    fuel: u64,
) -> (r: EvalResult)
    requires
        fuel > 0,
        depth > 0,
        old(heap).wf(),
        ctx.env.id < old(heap)@.len(),
        outer_env.id < old(heap)@.len(),
        list_ok(*formal_args, old(heap)@.len() as int),
        list_ok(*body, old(heap)@.len() as int),
        list_ok(*args, old(heap)@.len() as int),
    ensures
        final(heap).wf(),
        old(heap)@.len() <= final(heap)@.len(),
        result_ok_or_tail(r, final(heap)@.len() as int),
        (*formal_args) matches List::Nil ==> ((*body) matches List::Nil ==> ((*args)
            matches List::Nil ==> r == Result::<Expr, EvalError>::Ok(crate::expr::nil_spec()))),
        (*formal_args) matches List::Cons(fc) ==> ((*fc.cdr) matches List::Nil ==> ((*fc.car)
            matches Expr::Sym(xn, _) ==> ((*body) matches List::Cons(bc) ==> ((*bc.cdr)
            matches List::Nil ==> ((*bc.car) matches Expr::Sym(bn2, _) ==> (bn2@ == xn@ ==> ((
        *args) matches List::Cons(ac) ==> ((*ac.cdr) matches List::Nil ==> (
        crate::eval::self_evaluating(*ac.car) ==> r == Result::<Expr, EvalError>::Ok(
            *ac.car,
        )))))))))),
        (*formal_args)@.len() != args@.len() ==> r matches Result::Err(_),
        (crate::builtin::utils::all_syms((*formal_args)@) && ((*body) matches List::Nil)
            && crate::eval::all_self_evaluating(*args) && (*formal_args)@.len() == args@.len())
            ==> r == Result::<Expr, EvalError>::Ok(crate::expr::nil_spec()),
    decreases fuel, 1int, 0int,
{
    // evaluate every argument eagerly, in the caller's scope
    let mut vals: Vec<Expr> = Vec::new();
    let mut rest: &List = args;
    loop
        invariant
            fuel > 0,
            heap.wf(),
            old(heap)@.len() <= heap@.len(),
            ctx.env.id < old(heap)@.len(),
            outer_env.id < old(heap)@.len(),
            list_ok(*formal_args, old(heap)@.len() as int),
            list_ok(*body, old(heap)@.len() as int),
            list_ok(*rest, heap@.len() as int),
            vals@.len() + (*rest)@.len() == args@.len(),
            crate::eval::all_self_evaluating(*args) ==> crate::eval::all_self_evaluating(*rest),
            forall|i: int| 0 <= i < vals@.len() ==> expr_ok(#[trigger] vals@[i], heap@.len() as int),
            (*args) matches List::Nil ==> *rest == *args && vals@.len() == 0 && heap@ == old(
                heap,
            )@,
            (*args) matches List::Cons(ac) ==> ((*ac.cdr) matches List::Nil ==> (
            crate::eval::self_evaluating(*ac.car) ==> ((*rest == *args && vals@.len() == 0
                && heap@ == old(heap)@) || ((*rest) matches List::Nil && vals@ == seq![*ac.car]
                && heap@ == old(heap)@)))),
        ensures
            heap.wf(),
            old(heap)@.len() <= heap@.len(),
            vals@.len() == args@.len(),
            forall|i: int| 0 <= i < vals@.len() ==> expr_ok(#[trigger] vals@[i], heap@.len() as int),
            (*args) matches List::Nil ==> vals@.len() == 0 && heap@ == old(heap)@,
            (*args) matches List::Cons(ac) ==> ((*ac.cdr) matches List::Nil ==> (
            crate::eval::self_evaluating(*ac.car) ==> vals@ == seq![*ac.car] && heap@ == old(
                heap,
            )@)),
        decreases rest@.len(),
    {
        match rest {
            List::Nil => {
                break;
            },
            List::Cons(c) => {
                proof {
                    crate::expr::lemma_list_ok_parts(*rest, heap@.len() as int);
                }
                let v = crate::eval::eval(&c.car, heap, ctx, fuel - 1)?;
                vals.push(v);
                rest = &c.cdr;
            },
        }
    }
    // bind positionally in a fresh child of the captured scope
    proof {
        assert(list_ok(*formal_args, heap@.len() as int));
        assert(list_ok(*body, heap@.len() as int));
    }
    let child = outer_env.derive(heap);
    let child_ctx = EvalContext { env: child, call_depth: depth };
    proof {
        assert(list_ok(*formal_args, heap@.len() as int));
        assert(list_ok(*body, heap@.len() as int));
    }
    bind_formals(name, formal_args, &vals, child, heap)?;
    proof {
        assert(list_ok(*body, heap@.len() as int));
    }
    // run the body, the last expression in tail position
    eval_body(body, heap, child_ctx, fuel)
}

/// Expands and applies a macro: bind the unevaluated argument expressions
/// in a fresh scope, evaluate the body there to an expansion, then evaluate
/// the expansion in the caller's scope.
fn invoke_macro(
    name: &Option<String>,
    formal_args: &List,
    body: &List,
    args: &List,
    heap: &mut EnvHeap,
    ctx: EvalContext,
    depth: u64,
    fuel: u64,
) -> (r: EvalResult)
    requires
        fuel > 0,
        depth > 0,
        old(heap).wf(),
        ctx.env.id < old(heap)@.len(),
        list_ok(*formal_args, old(heap)@.len() as int),
        list_ok(*body, old(heap)@.len() as int),
        list_ok(*args, old(heap)@.len() as int),
    ensures
        final(heap).wf(),
        old(heap)@.len() <= final(heap)@.len(),
        result_ok_or_tail(r, final(heap)@.len() as int),
        (*formal_args) matches List::Nil ==> ((*body) matches List::Nil ==> ((*args)
            matches List::Nil ==> r == Result::<Expr, EvalError>::Ok(crate::expr::nil_spec()))),
        (*formal_args) matches List::Cons(fc) ==> ((*fc.cdr) matches List::Nil ==> ((*fc.car)
            matches Expr::Sym(xn, _) ==> ((*body) matches List::Cons(bc) ==> ((*bc.cdr)
            matches List::Nil ==> ((*bc.car) matches Expr::Sym(bn2, _) ==> (bn2@ == xn@ ==> ((
        *args) matches List::Cons(ac) ==> ((*ac.cdr) matches List::Nil ==> (
        crate::eval::self_evaluating(*ac.car) ==> r == Result::<Expr, EvalError>::Ok(
            *ac.car,
        )))))))))),
    decreases fuel, 1int, 0int,
{
    // collect the unevaluated argument expressions
    let mut vals: Vec<Expr> = Vec::new();
    let mut rest: &List = args;
    loop
        invariant
            list_ok(*rest, old(heap)@.len() as int),
            forall|i: int|
                0 <= i < vals@.len() ==> expr_ok(#[trigger] vals@[i], old(heap)@.len() as int),
            *heap == *old(heap),
            (*args) matches List::Nil ==> *rest == *args && vals@.len() == 0,
            (*args) matches List::Cons(ac) ==> ((*ac.cdr) matches List::Nil ==> ((*rest == *args
                && vals@.len() == 0) || ((*rest) matches List::Nil && vals@ == seq![*ac.car]))),
        ensures
            *heap == *old(heap),
            forall|i: int|
                0 <= i < vals@.len() ==> expr_ok(#[trigger] vals@[i], old(heap)@.len() as int),
            (*args) matches List::Nil ==> vals@.len() == 0,
            (*args) matches List::Cons(ac) ==> ((*ac.cdr) matches List::Nil ==> vals@ == seq![
                *ac.car,
            ]),
        decreases rest@.len(),
    {
        match rest {
            List::Nil => {
                break;
            },
            List::Cons(c) => {
                proof {
                    crate::expr::lemma_list_ok_parts(*rest, old(heap)@.len() as int);
                }
                vals.push(c.car.duplicate());
                rest = &c.cdr;
            },
        }
    }
    // bind them, unevaluated, in a scope isolated from the call site
    proof {
        assert(list_ok(*formal_args, heap@.len() as int));
        assert(list_ok(*body, heap@.len() as int));
        assert forall|i: int|
            0 <= i < vals@.len() implies expr_ok(#[trigger] vals@[i], heap@.len() as int) by {}
    }
    let scope = ctx.env.derive(heap);
    let scope_ctx = EvalContext { env: scope, call_depth: depth };
    proof {
        assert(list_ok(*formal_args, heap@.len() as int));
        assert forall|i: int|
            0 <= i < vals@.len() implies expr_ok(#[trigger] vals@[i], heap@.len() as int) by {}
    }
    bind_formals(name, formal_args, &vals, scope, heap)?;
    proof {
        assert(list_ok(*body, heap@.len() as int));
    }
    // evaluate the body to the expanded expression
    let expansion = eval_body_settled(body, heap, scope_ctx, fuel)?;
    // evaluate the expansion in the caller's scope
    let caller_ctx = EvalContext { env: ctx.env, call_depth: depth };
    crate::eval::eval(&expansion, heap, caller_ctx, fuel - 1)
}


/// The scope bindings positional binding produces: each formal name mapped
/// to the value at its position, later formals shadowing earlier ones of
/// the same name.
pub open spec fn binds_fold(
    formals: List,
    vals: Seq<Expr>,
    m: Map<Seq<char>, Expr>,
) -> Map<Seq<char>, Expr>
    decreases formals,
{
    match formals {
        List::Nil => m,
        List::Cons(fc) => match *fc.car {
            Expr::Sym(n, _) => binds_fold(*fc.cdr, vals.skip(1), m.insert(n@, vals[0])),
            _ => m,
        },
    }
}

/// Binds formal names to values positionally in `child`; a count mismatch
/// is an arity error naming the procedure.
fn bind_formals(
    name: &Option<String>,
    formal_args: &List,
    vals: &Vec<Expr>,
    child: Env,
    heap: &mut EnvHeap,
) -> (r: Result<(), EvalError>)
    requires
        old(heap).wf(),
        child.id < old(heap)@.len(),
        list_ok(*formal_args, old(heap)@.len() as int),
        forall|i: int| 0 <= i < vals@.len() ==> expr_ok(#[trigger] vals@[i], old(heap)@.len() as int),
    ensures
        final(heap).wf(),
        final(heap)@.len() == old(heap)@.len(),
        (*formal_args)@.len() != vals@.len() ==> r matches Result::Err(_),
        (crate::builtin::utils::all_syms((*formal_args)@) && (*formal_args)@.len()
            == vals@.len()) ==> (r matches Result::Ok(_)
            && final(heap)@[child.id as int].vars == binds_fold(
            *formal_args,
            vals@,
            old(heap)@[child.id as int].vars,
        ) && (forall|i: int|
            0 <= i < old(heap)@.len() && i != child.id as int
                ==> final(heap)@[i] == old(heap)@[i])
            && final(heap)@[child.id as int].parent == old(heap)@[child.id as int].parent
            && final(heap)@[child.id as int].live == old(heap)@[child.id as int].live),
        ((*formal_args) matches List::Nil && vals@.len() == 0) ==> (r matches Result::Ok(_)
            && final(heap)@ == old(heap)@),
        (*formal_args) matches List::Cons(fc) ==> ((*fc.cdr) matches List::Nil ==> ((*fc.car)
            matches Expr::Sym(fname, _) ==> (vals@.len() == 1 ==> (r matches Result::Ok(_)
            && final(heap)@ == old(heap)@.update(
            child.id as int,
            crate::env::rec_define(old(heap)@[child.id as int], fname@, vals@[0]),
        ))))),
    decreases 0int,
{
    let mut rest: &List = formal_args;
    let mut vi: usize = 0;
    proof {
        assert(vals@.skip(0) =~= vals@);
        assert((*formal_args)@.skip(0) =~= (*formal_args)@);
    }
    loop
        invariant
            heap.wf(),
            heap@.len() == old(heap)@.len(),
            child.id < heap@.len(),
            vi <= vals@.len(),
            (*formal_args)@.len() - (*rest)@.len() == vi as int,
            (*rest)@ == (*formal_args)@.skip(vi as int),
            (crate::builtin::utils::all_syms((*formal_args)@) && (*formal_args)@.len()
                == vals@.len()) ==> (binds_fold(*rest, vals@.skip(vi as int), heap@[
                child.id as int
            ].vars) == binds_fold(*formal_args, vals@, old(heap)@[child.id as int].vars) && (
            forall|i: int|
                0 <= i < old(heap)@.len() && i != child.id as int ==> heap@[i] == old(
                    heap,
                )@[i]) && heap@[child.id as int].parent == old(heap)@[child.id as int].parent
                && heap@[child.id as int].live == old(heap)@[child.id as int].live),
            list_ok(*rest, heap@.len() as int),
            forall|i: int| 0 <= i < vals@.len() ==> expr_ok(#[trigger] vals@[i], heap@.len() as int),
            ((*formal_args) matches List::Nil && vals@.len() == 0) ==> (*rest == *formal_args
                && vi == 0 && heap@ == old(heap)@),
            (*formal_args) matches List::Cons(fc) ==> ((*fc.cdr) matches List::Nil ==> ((
            *fc.car) matches Expr::Sym(fname, _) ==> (vals@.len() == 1 ==> ((*rest
                == *formal_args && vi == 0 && heap@ == old(heap)@) || ((*rest)
                matches List::Nil && vi == 1 && heap@ == old(heap)@.update(
                child.id as int,
                crate::env::rec_define(old(heap)@[child.id as int], fname@, vals@[0]),
            )))))),
        ensures
            heap.wf(),
            heap@.len() == old(heap)@.len(),
            (*formal_args)@.len() == vals@.len(),
            crate::builtin::utils::all_syms((*formal_args)@) ==> (heap@[child.id as int].vars
                == binds_fold(*formal_args, vals@, old(heap)@[child.id as int].vars) && (forall|
                i: int,
            |
                0 <= i < old(heap)@.len() && i != child.id as int ==> heap@[i] == old(
                    heap,
                )@[i]) && heap@[child.id as int].parent == old(heap)@[child.id as int].parent
                && heap@[child.id as int].live == old(heap)@[child.id as int].live),
            ((*formal_args) matches List::Nil && vals@.len() == 0) ==> heap@ == old(heap)@,
            (*formal_args) matches List::Cons(fc) ==> ((*fc.cdr) matches List::Nil ==> ((
            *fc.car) matches Expr::Sym(fname, _) ==> (vals@.len() == 1 ==> heap@ == old(
                heap,
            )@.update(
                child.id as int,
                crate::env::rec_define(old(heap)@[child.id as int], fname@, vals@[0]),
            )))),
        decreases rest@.len(),
    {
        match rest {
            List::Nil => {
                if vi != vals.len() {
                    return Result::Err(arity_error(name));
                }
                break;
            },
            List::Cons(c) => {
                proof {
                    crate::expr::lemma_list_ok_parts(*rest, heap@.len() as int);
                }
                if vi >= vals.len() {
                    return Result::Err(arity_error(name));
                }
                proof {
                    assert((*rest)@ == seq![*c.car] + (*c.cdr)@);
                    assert((*formal_args)@.skip(vi as int)[0] == (*formal_args)@[vi as int]);
                    assert((*c.cdr)@ =~= (*formal_args)@.skip(vi as int).skip(1));
                    assert((*formal_args)@.skip(vi as int).skip(1) =~= (*formal_args)@.skip(
                        vi as int + 1,
                    ));
                }
                match &*c.car {
                    Expr::Sym(s, _) => {
                        let v = vals[vi].duplicate();
                        child.define(heap, s.as_str(), v);
                        proof {
                            assert(vals@.skip(vi as int).skip(1) =~= vals@.skip(vi as int + 1));
                            assert(vals@.skip(vi as int)[0] == vals@[vi as int]);
                        }
                    },
                    _ => {
                        let mut message = String::new();
                        crate::expr::write_expr(&mut message, &c.car);
                        message.append(" is not a symbol.");
                        return Result::Err(EvalError { message, span: Option::None });
                    },
                }
                vi = vi + 1;
                rest = &c.cdr;
            },
        }
    }
    Result::Ok(())
}

/// The arity-mismatch error for a procedure, by name when it has one.
fn arity_error(name: &Option<String>) -> (r: EvalError)
    ensures
        r.span is None,
{
    let mut message = String::new();
    match name {
        Option::Some(n) => {
            message.append(n.as_str());
        },
        Option::None => {
            message.append("lambda");
        },
    }
    message.append(": wrong number of arguments");
    EvalError { message, span: Option::None }
}

/// Runs a body's expressions in sequence, the last in tail position; an
/// empty body yields the empty list.
fn eval_body(body: &List, heap: &mut EnvHeap, ctx: EvalContext, fuel: u64) -> (r: EvalResult)
    requires
        fuel > 0,
        old(heap).wf(),
        ctx.env.id < old(heap)@.len(),
        list_ok(*body, old(heap)@.len() as int),
    ensures
        final(heap).wf(),
        old(heap)@.len() <= final(heap)@.len(),
        result_ok_or_tail(r, final(heap)@.len() as int),
        (*body) matches List::Nil ==> r == Result::<Expr, EvalError>::Ok(crate::expr::nil_spec())
            && final(heap)@ == old(heap)@,
        (*body) matches List::Cons(bc) ==> ((*bc.cdr) matches List::Nil ==> ((*bc.car)
            matches Expr::Sym(bn, _) ==> (match crate::env::chain_lookup(
            old(heap)@,
            ctx.env.id as int,
            bn@,
        ) {
            Option::Some(bv) => r == Result::<Expr, EvalError>::Ok(bv) && final(heap)@ == old(
                heap,
            )@,
            Option::None => r matches Result::Err(_),
        }))),
    decreases fuel, 0int, 0int,
{
    let mut cur: &List = body;
    loop
        invariant
            fuel > 0,
            heap.wf(),
            old(heap)@.len() <= heap@.len(),
            ctx.env.id < old(heap)@.len(),
            list_ok(*cur, heap@.len() as int),
            (*body) matches List::Nil ==> *cur == *body && heap@ == old(heap)@,
            (*body) matches List::Cons(bc) ==> ((*bc.cdr) matches List::Nil ==> (*cur == *body
                && heap@ == old(heap)@)),
        ensures
            heap.wf(),
            old(heap)@.len() <= heap@.len(),
            cur@.len() == 0,
            (*body) matches List::Nil ==> heap@ == old(heap)@,
        decreases cur@.len(),
    {
        match cur {
            List::Nil => {
                break;
            },
            List::Cons(c) => {
                proof {
                    crate::expr::lemma_list_ok_parts(*cur, heap@.len() as int);
                }
                if c.cdr.is_nil() {
                    return crate::eval::eval_tail(&c.car, heap, ctx, fuel - 1);
                }
                let _ = crate::eval::eval(&c.car, heap, ctx, fuel - 1)?;
                cur = &c.cdr;
            },
        }
    }
    Result::Ok(Expr::nil())
}


/// For a body of exactly one symbol, what that symbol resolves to in the
/// scopes of `env`.
pub open spec fn sym_body_value(body: List, hv: Seq<crate::env::RecModel>, env: int) -> Option<
    Expr,
> {
    match body {
        List::Cons(bc) => match (*bc.car, *bc.cdr) {
            (Expr::Sym(bn, _), List::Nil) => crate::env::chain_lookup(hv, env, bn@),
            _ => Option::None,
        },
        List::Nil => Option::None,
    }
}

/// Runs a body's expressions in sequence with every position non-tail, so
/// the result is always settled; an empty body yields the empty list.
fn eval_body_settled(body: &List, heap: &mut EnvHeap, ctx: EvalContext, fuel: u64) -> (r:
    EvalResult)
    requires
        fuel > 0,
        old(heap).wf(),
        ctx.env.id < old(heap)@.len(),
        list_ok(*body, old(heap)@.len() as int),
    ensures
        final(heap).wf(),
        old(heap)@.len() <= final(heap)@.len(),
        result_ok(r, final(heap)@.len() as int),
        (*body) matches List::Nil ==> r == Result::<Expr, EvalError>::Ok(crate::expr::nil_spec())
            && final(heap)@ == old(heap)@,
        (*body) matches List::Cons(bc) ==> ((*bc.cdr) matches List::Nil ==> ((*bc.car)
            matches Expr::Sym(_, _) ==> (match sym_body_value(
            *body,
            old(heap)@,
            ctx.env.id as int,
        ) {
            Option::Some(bv) => r == Result::<Expr, EvalError>::Ok(bv) && final(heap)@ == old(
                heap,
            )@,
            Option::None => r matches Result::Err(_),
        }))),
    decreases fuel, 0int, 0int,
{
    let mut cur: &List = body;
    let mut last: Expr = Expr::nil();
    loop
        invariant
            fuel > 0,
            heap.wf(),
            old(heap)@.len() <= heap@.len(),
            ctx.env.id < old(heap)@.len(),
            list_ok(*cur, heap@.len() as int),
            expr_ok(last, heap@.len() as int),
            (*body) matches List::Nil ==> *cur == *body && last == crate::expr::nil_spec()
                && heap@ == old(heap)@,
            (*body) matches List::Cons(bc) ==> ((*bc.cdr) matches List::Nil ==> ((*bc.car)
                matches Expr::Sym(_, _) ==> ((*cur == *body && heap@ == old(heap)@) || ((*cur)
                matches List::Nil && heap@ == old(heap)@ && (match sym_body_value(
                *body,
                old(heap)@,
                ctx.env.id as int,
            ) {
                Option::Some(bv) => last == bv,
                Option::None => false,
            }))))),
        ensures
            heap.wf(),
            old(heap)@.len() <= heap@.len(),
            expr_ok(last, heap@.len() as int),
            (*body) matches List::Nil ==> last == crate::expr::nil_spec() && heap@ == old(heap)@,
            (*body) matches List::Cons(bc) ==> ((*bc.cdr) matches List::Nil ==> ((*bc.car)
                matches Expr::Sym(_, _) ==> (heap@ == old(heap)@ && (match sym_body_value(
                *body,
                old(heap)@,
                ctx.env.id as int,
            ) {
                Option::Some(bv) => last == bv,
                Option::None => false,
            })))),
        decreases cur@.len(),
    {
        match cur {
            List::Nil => {
                break;
            },
            List::Cons(c) => {
                proof {
                    crate::expr::lemma_list_ok_parts(*cur, heap@.len() as int);
                }
                last = crate::eval::eval(&c.car, heap, ctx, fuel - 1)?;
                cur = &c.cdr;
            },
        }
    }
    Result::Ok(last)
}

} // verus!
