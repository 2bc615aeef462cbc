//! The core special forms in their direct-call shape, including the quote
//! family that the evaluator short-circuits before ordinary application.

use vstd::prelude::*;

use crate::builtin::utils::syntax_error;
use crate::env::{chain_lookup, EnvHeap, RecModel};
use crate::eval::{
    eval, result_ok, str_is, EvalContext, EvalError, EvalResult,
};
use crate::expr::{
    bool_expr, expr_env_refs, expr_ok, lemma_list_ok_elem, lemma_list_ok_from_elems, list_ok,
    nil_spec, Expr,
};
use crate::list::{list_model, List};
use crate::proc::{NativeFunc, Proc};

verus! {

/// An ill-formed use of `func_name`, shown with the whole form.
fn make_syntax_error(func_name: &str, args: &List) -> (r: EvalError)
    ensures
        r.span is None,
{
    syntax_error(func_name, args)
}

/// `(atom? x)`: whether `x` evaluates to anything but a non-empty list.
pub fn atom(args: &List, heap: &mut EnvHeap, ctx: EvalContext, fuel: u64) -> (r: EvalResult)
    requires
        old(heap).wf(),
        ctx.env.id < old(heap)@.len(),
        list_ok(*args, old(heap)@.len() as int),
    ensures
        final(heap).wf(),
        old(heap)@.len() <= final(heap)@.len(),
        result_ok(r, final(heap)@.len() as int),
        args@.len() == 0 ==> r matches Result::Err(_),
        r matches Result::Ok(v) ==> (v == nil_spec() || (v matches Expr::Sym(s, sp) && s@
            == "#t"@ && sp is None)),
        (fuel >= 1 && args@.len() >= 1 && crate::eval::self_evaluating(args@[0])) ==> (r
            matches Result::Ok(v) && (crate::expr::expr_is_truthy(v)
            <==> crate::expr::expr_is_atom(args@[0])) && final(heap)@ == old(heap)@),
        (fuel >= 1 && args@.len() >= 1) ==> (crate::eval::quote_form_arg(args@[0])
            matches Option::Some(q) ==> (r matches Result::Ok(v) && (
        crate::expr::expr_is_truthy(v) <==> crate::expr::expr_is_atom(q)) && final(heap)@
            == old(heap)@)),
    decreases fuel, 1int, 0int,
{
    match args.car() {
        Option::Some(car) => {
            proof {
                lemma_list_ok_elem(*args, 0, old(heap)@.len() as int);
            }
            if fuel == 0 {
                return Result::Err(
                    EvalError {
                        message: String::from_str("Evaluation nested too deeply."),
                        span: Option::None,
                    },
                );
            }
            let v = eval(car, heap, ctx, fuel - 1)?;
            Result::Ok(bool_expr(v.is_atom()))
        },
        Option::None => Result::Err(make_syntax_error("atom", args)),
    }
}

/// `car` in its direct-call shape: evaluates its first operand.
pub fn car(args: &List, heap: &mut EnvHeap, ctx: EvalContext, fuel: u64) -> (r: EvalResult)
    requires
        old(heap).wf(),
        ctx.env.id < old(heap)@.len(),
        list_ok(*args, old(heap)@.len() as int),
    ensures
        final(heap).wf(),
        old(heap)@.len() <= final(heap)@.len(),
        result_ok(r, final(heap)@.len() as int),
        args@.len() == 0 ==> r matches Result::Err(_),
        (fuel >= 1 && args@.len() >= 1 && crate::eval::self_evaluating(args@[0])) ==> r
            == Result::<Expr, EvalError>::Ok(args@[0]) && final(heap)@ == old(heap)@,
        (fuel >= 1 && args@.len() >= 1) ==> (crate::eval::quote_form_arg(args@[0])
            matches Option::Some(q) ==> r == Result::<Expr, EvalError>::Ok(q) && final(heap)@
            == old(heap)@),
    decreases fuel, 1int, 0int,
{
    match args.car() {
        Option::Some(car) => {
            proof {
                lemma_list_ok_elem(*args, 0, old(heap)@.len() as int);
            }
            if fuel == 0 {
                return Result::Err(
                    EvalError {
                        message: String::from_str("Evaluation nested too deeply."),
                        span: Option::None,
                    },
                );
            }
            eval(car, heap, ctx, fuel - 1)
        },
        Option::None => Result::Err(make_syntax_error("car", args)),
    }
}

/// `cdr` in its direct-call shape: evaluates its second operand.
pub fn cdr(args: &List, heap: &mut EnvHeap, ctx: EvalContext, fuel: u64) -> (r: EvalResult)
    requires
        old(heap).wf(),
        ctx.env.id < old(heap)@.len(),
        list_ok(*args, old(heap)@.len() as int),
    ensures
        final(heap).wf(),
        old(heap)@.len() <= final(heap)@.len(),
        result_ok(r, final(heap)@.len() as int),
        args@.len() < 2 ==> r matches Result::Err(_),
        (fuel >= 1 && args@.len() >= 2 && crate::eval::self_evaluating(args@[1])) ==> r
            == Result::<Expr, EvalError>::Ok(args@[1]) && final(heap)@ == old(heap)@,
    decreases fuel, 1int, 0int,
{
    if let Option::Some(rest) = args.cdr() {
        if let Option::Some(cdar) = rest.car() {
            proof {
                lemma_list_ok_elem(*args, 1, old(heap)@.len() as int);
                assert(args@[1] == args@.skip(1)[0]);
            }
            if fuel == 0 {
                return Result::Err(
                    EvalError {
                        message: String::from_str("Evaluation nested too deeply."),
                        span: Option::None,
                    },
                );
            }
            return eval(cdar, heap, ctx, fuel - 1);
        }
    }
    Result::Err(make_syntax_error("cdr", args))
}

/// `(cond (c1 e1) (c2 e2) ...)`: evaluates conditions in order and yields
/// the evaluation of the body paired with the first truthy condition, the
/// empty list when none matches, and an error for a malformed clause or a
/// truthy clause with no body.
pub fn cond(args: &List, heap: &mut EnvHeap, ctx: EvalContext, fuel: u64) -> (r: EvalResult)
    requires
        old(heap).wf(),
        ctx.env.id < old(heap)@.len(),
        list_ok(*args, old(heap)@.len() as int),
    ensures
        final(heap).wf(),
        old(heap)@.len() <= final(heap)@.len(),
        result_ok(r, final(heap)@.len() as int),
        args@.len() == 0 ==> r == Result::<Expr, EvalError>::Ok(nil_spec()) && final(heap)@
            == old(heap)@,
        (fuel >= 1 && crate::builtin::primitive::cond_literal_form(*args)) ==> (
        match crate::builtin::primitive::cond_literal_select(*args) {
            Option::None => r == Result::<Expr, EvalError>::Ok(nil_spec()) && final(heap)@
                == old(heap)@,
            Option::Some(Option::None) => r matches Result::Err(_),
            Option::Some(Option::Some(b)) => crate::eval::self_evaluating(b) ==> r == Result::<
                Expr,
                EvalError,
            >::Ok(b) && final(heap)@ == old(heap)@,
        }),
    decreases fuel, 1int, 0int,
{
    let mut rest: &List = args;
    loop
        invariant
            heap.wf(),
            old(heap)@.len() <= heap@.len(),
            ctx.env.id < old(heap)@.len(),
            list_ok(*rest, heap@.len() as int),
            args@.len() == 0 ==> *rest == *args && *heap == *old(heap),
            (fuel >= 1 && crate::builtin::primitive::cond_literal_form(*args)) ==> heap@ == old(
                heap,
            )@ && crate::builtin::primitive::cond_literal_form(*rest)
                && crate::builtin::primitive::cond_literal_select(*args)
                == crate::builtin::primitive::cond_literal_select(*rest),
        decreases rest@.len(),
    {
        match rest {
            List::Nil => {
                return Result::Ok(Expr::nil());
            },
            List::Cons(c) => {
                proof {
                    lemma_list_ok_elem(*rest, 0, heap@.len() as int);
                }
                match &*c.car {
                    Expr::List(List::Cons(clause), _) => {
                        proof {
                            crate::expr::lemma_expr_ok_list(*c.car, heap@.len() as int);
                            crate::expr::lemma_list_ok_parts(
                                List::Cons(*clause),
                                heap@.len() as int,
                            );
                            crate::expr::lemma_list_ok_parts(*rest, heap@.len() as int);
                        }
                        if fuel == 0 {
                            return Result::Err(
                                EvalError {
                                    message: String::from_str("Evaluation nested too deeply."),
                                    span: Option::None,
                                },
                            );
                        }
                        let cv = eval(&clause.car, heap, ctx, fuel - 1)?;
                        if cv.is_truthy() {
                            match clause.cdar() {
                                Option::Some(body) => {
                                    proof {
                                        crate::expr::lemma_list_ok_elem(
                                            *clause.cdr,
                                            0,
                                            heap@.len() as int,
                                        );
                                    }
                                    return eval(body, heap, ctx, fuel - 1);
                                },
                                Option::None => {
                                    return Result::Err(make_syntax_error("cond", args));
                                },
                            }
                        }
                        rest = &c.cdr;
                    },
                    _ => {
                        return Result::Err(make_syntax_error("cond", args));
                    },
                }
            },
        }
    }
}

/// `(define name expr)` in its direct-call shape: evaluates `expr` and
/// binds it in the current scope.
pub fn define(args: &List, heap: &mut EnvHeap, ctx: EvalContext, fuel: u64) -> (r: EvalResult)
    requires
        old(heap).wf(),
        ctx.env.id < old(heap)@.len(),
        list_ok(*args, old(heap)@.len() as int),
    ensures
        final(heap).wf(),
        old(heap)@.len() <= final(heap)@.len(),
        result_ok(r, final(heap)@.len() as int),
        r matches Result::Ok(v) ==> v == nil_spec(),
        args@.len() == 0 ==> r matches Result::Err(_),
        r matches Result::Ok(_) ==> exists|hmid: Seq<crate::env::RecModel>, v2: Expr|
            final(heap)@ == hmid.update(
                ctx.env.id as int,
                crate::env::rec_define(
                    hmid[ctx.env.id as int],
                    crate::builtin::utils::sym_name(args@[0]),
                    v2,
                ),
            ),
        (fuel >= 1 && args@.len() >= 2) ==> (args@[0] matches Expr::Sym(nm, _) ==> (
        crate::eval::self_evaluating(args@[1]) ==> (r matches Result::Ok(v3) && v3 == nil_spec()
            && final(heap)@ == old(heap)@.update(
            ctx.env.id as int,
            crate::env::rec_define(old(heap)@[ctx.env.id as int], nm@, args@[1]),
        )))),
    decreases fuel, 1int, 0int,
{
    match args.car() {
        Option::Some(Expr::Sym(name, _)) => {
            match args.cdr() {
                Option::Some(rest) => match rest.car() {
                    Option::Some(expr) => {
                        proof {
                            lemma_list_ok_elem(*args, 1, old(heap)@.len() as int);
                            assert(args@[1] == args@.skip(1)[0]);
                            assert(expr_ok(args@[1], old(heap)@.len() as int));
                        }
                        if fuel == 0 {
                            return Result::Err(
                                EvalError {
                                    message: String::from_str("Evaluation nested too deeply."),
                                    span: Option::None,
                                },
                            );
                        }
                        let v = eval(expr, heap, ctx, fuel - 1)?;
                        let ghost hmid: Seq<crate::env::RecModel> = heap@;
                        let ghost gv: Expr = v;
                        ctx.env.define(heap, name.as_str(), v);
                        proof {
                            assert(heap@ == hmid.update(
                                ctx.env.id as int,
                                crate::env::rec_define(
                                    hmid[ctx.env.id as int],
                                    crate::builtin::utils::sym_name(args@[0]),
                                    gv,
                                ),
                            ));
                        }
                        Result::Ok(Expr::nil())
                    },
                    Option::None => Result::Err(
                        crate::builtin::utils::message_error(
                            "define",
                            " expects a expression after symbol",
                        ),
                    ),
                },
                Option::None => Result::Err(
                    crate::builtin::utils::message_error(
                        "define",
                        " expects a expression after symbol",
                    ),
                ),
            }
        },
        _ => Result::Err(
            crate::builtin::utils::message_error("define", " expects a symbol"),
        ),
    }
}

/// `(eq? a b)` in its direct-call shape: structural equality of the two
/// evaluated operands.
pub fn eq(args: &List, heap: &mut EnvHeap, ctx: EvalContext, fuel: u64) -> (r: EvalResult)
    requires
        old(heap).wf(),
        ctx.env.id < old(heap)@.len(),
        list_ok(*args, old(heap)@.len() as int),
    ensures
        final(heap).wf(),
        old(heap)@.len() <= final(heap)@.len(),
        result_ok(r, final(heap)@.len() as int),
        args@.len() < 2 ==> r matches Result::Err(_),
        r matches Result::Ok(v) ==> (v == nil_spec() || (v matches Expr::Sym(s, sp) && s@
            == "#t"@ && sp is None)),
        (fuel >= 1 && args@.len() >= 2 && crate::eval::self_evaluating(args@[0])
            && crate::eval::self_evaluating(args@[1])) ==> (r matches Result::Ok(v)
            && (crate::expr::expr_is_truthy(v) <==> crate::expr::expr_eq(args@[0], args@[1]))
            && final(heap)@ == old(heap)@),
    decreases fuel, 1int, 0int,
{
    if let Option::Some(first) = args.car() {
        if let Option::Some(rest) = args.cdr() {
            if let Option::Some(second) = rest.car() {
                proof {
                    lemma_list_ok_elem(*args, 0, old(heap)@.len() as int);
                    lemma_list_ok_elem(*args, 1, old(heap)@.len() as int);
                    assert(args@[1] == args@.skip(1)[0]);
                }
                if fuel == 0 {
                    return Result::Err(
                        EvalError {
                            message: String::from_str("Evaluation nested too deeply."),
                            span: Option::None,
                        },
                    );
                }
                let a = eval(first, heap, ctx, fuel - 1)?;
                let b = eval(second, heap, ctx, fuel - 1)?;
                return Result::Ok(bool_expr(a.equals(&b)));
            }
        }
    }
    Result::Err(make_syntax_error("eq", args))
}

/// `(lambda (args) body ...)` in its direct-call shape: captures the
/// current scope in a closure.
pub fn lambda(args: &List, heap: &mut EnvHeap, ctx: EvalContext, fuel: u64) -> (r: EvalResult)
    requires
        old(heap).wf(),
        ctx.env.id < old(heap)@.len(),
        list_ok(*args, old(heap)@.len() as int),
    ensures
        final(heap).wf(),
        old(heap)@.len() <= final(heap)@.len(),
        result_ok(r, final(heap)@.len() as int),
        final(heap)@ == old(heap)@,
        args@.len() == 0 ==> r matches Result::Err(_),
        *args matches List::Cons(c) ==> (*c.car) matches Expr::List(List::Cons(fc), _)
            ==> r matches Result::Ok(v) ==> v == Expr::Proc(
            Proc::Closure {
                name: Option::None,
                formal_args: List::Cons(fc),
                body: *c.cdr,
                outer_env: ctx.env,
            },
            Option::None,
        ),
        *args matches List::Cons(c) ==> ((*c.car) matches Expr::List(List::Cons(_), _)
            ==> r matches Result::Ok(_)),
    decreases fuel, 1int, 0int,
{
    if let List::Cons(c) = args {
        if let Expr::List(List::Cons(formals), _) = &*c.car {
            proof {
                lemma_list_ok_elem(*args, 0, old(heap)@.len() as int);
                crate::expr::lemma_expr_ok_list(*c.car, old(heap)@.len() as int);
                crate::expr::lemma_list_ok_parts(*args, old(heap)@.len() as int);
            }
            let formal_list = List::Cons(formals.clone());
            let body = c.cdr.duplicate();
            proof {
                crate::expr::lemma_closure_ok(
                    Option::None,
                    formal_list,
                    body,
                    ctx.env,
                    old(heap)@.len() as int,
                );
            }
            let closure = Expr::Proc(
                Proc::Closure {
                    name: Option::None,
                    formal_args: formal_list,
                    body,
                    outer_env: ctx.env,
                },
                Option::None,
            );
            return Result::Ok(closure);
        }
    }
    Result::Err(make_syntax_error("lambda", args))
}

/// `(quote x)`: hands back the first operand unevaluated, structurally
/// equal to the parsed input, whatever its nesting depth.
pub fn quote(args: &List, heap: &mut EnvHeap, ctx: EvalContext, fuel: u64) -> (r: EvalResult)
    requires
        old(heap).wf(),
        ctx.env.id < old(heap)@.len(),
        list_ok(*args, old(heap)@.len() as int),
    ensures
        final(heap).wf(),
        final(heap)@ == old(heap)@,
        result_ok(r, final(heap)@.len() as int),
        args@.len() >= 1 ==> r == Result::<Expr, EvalError>::Ok(args@[0]),
        args@.len() == 0 ==> (r matches Result::Err(e) && e.span is None),
{
    match args.car() {
        Option::Some(car) => {
            proof {
                lemma_list_ok_elem(*args, 0, old(heap)@.len() as int);
            }
            Result::Ok(car.duplicate())
        },
        Option::None => Result::Err(make_syntax_error("quote", args)),
    }
}


/// The list is an `unquote` or `unquote-splicing` form: the one shape that
/// makes quasiquote evaluate something.
pub open spec fn qq_unquote_head(l: List) -> bool {
    l matches List::Cons(c) && ((*c.car) matches Expr::Sym(s, _) && (s@ == "unquote"@ || s@
        == "unquote-splicing"@))
}

/// The list is a `quote` form, which quasiquote copies verbatim.
pub open spec fn qq_quote_head(l: List) -> bool {
    l matches List::Cons(c) && ((*c.car) matches Expr::Sym(s, _) && s@ == "quote"@)
}

/// A template element with no unquote point anywhere the walker looks:
/// quasiquote copies it unchanged, up to spans.
pub open spec fn qq_plain_elem(e: Expr) -> bool
    decreases e,
{
    match e {
        Expr::List(l, _) => !qq_unquote_head(l) && (qq_quote_head(l) || qq_plain_list(l)),
        _ => true,
    }
}

/// A template list all of whose elements are plain.
pub open spec fn qq_plain_list(l: List) -> bool
    decreases l,
{
    match l {
        List::Nil => true,
        List::Cons(c) => qq_plain_elem(*c.car) && qq_plain_list(*c.cdr),
    }
}


/// The decidable value of an `unquote` operand under the bindings of
/// `env`: a self-evaluating literal, the payload of a quote form, or a sum
/// or product of number literals whose head symbol is bound to the matching
/// arithmetic native.
pub open spec fn qq_operand_val(e: Expr, hv: Seq<RecModel>, env: int) -> Option<Expr> {
    if crate::eval::self_evaluating(e) {
        Option::Some(e)
    } else {
        match crate::eval::quote_form_arg(e) {
            Option::Some(q) => Option::Some(q),
            Option::None => match e {
                Expr::List(List::Cons(ac), _) => match *ac.car {
                    Expr::Sym(f, _) => if f@ == "quote"@ || f@ == "quasiquote"@ {
                        Option::None
                    } else {
                        match chain_lookup(hv, env, f@) {
                            Option::Some(Expr::Proc(Proc::Native { func: nf, .. }, _)) => if nf
                                == NativeFunc::NumAdd && crate::builtin::num::literal_nums(
                                *ac.cdr,
                            ) && crate::builtin::num::sums_in_range(*ac.cdr, 0) {
                                Option::Some(
                                    Expr::Num(
                                        crate::builtin::num::nums_sum(*ac.cdr) as i64,
                                        Option::None,
                                    ),
                                )
                            } else if nf == NativeFunc::NumMultiply
                                && crate::builtin::num::literal_nums(*ac.cdr)
                                && crate::builtin::num::prods_in_range(*ac.cdr, 1) {
                                Option::Some(
                                    Expr::Num(
                                        crate::builtin::num::prod_fold(*ac.cdr, 1) as i64,
                                        Option::None,
                                    ),
                                )
                            } else {
                                Option::None
                            },
                            _ => Option::None,
                        }
                    },
                    _ => Option::None,
                },
                _ => Option::None,
            },
        }
    }
}

/// The elements an `unquote-splicing` operand contributes under the
/// bindings of `env`: the elements of a quoted list, a quoted non-list by
/// itself, or the operands of a `list` application of literals.
pub open spec fn qq_splice_contrib(e: Expr, hv: Seq<RecModel>, env: int) -> Option<Seq<Expr>> {
    match crate::eval::quote_form_arg(e) {
        Option::Some(q) => match q {
            Expr::List(ql, _) => Option::Some(list_model(ql)),
            _ => Option::Some(seq![q]),
        },
        Option::None => match e {
            Expr::List(List::Cons(ac), _) => match *ac.car {
                Expr::Sym(f, _) => if f@ == "quote"@ || f@ == "quasiquote"@ {
                    Option::None
                } else {
                    match chain_lookup(hv, env, f@) {
                        Option::Some(
                            Expr::Proc(Proc::Native { func: NativeFunc::ListFn, .. }, _),
                        ) => if crate::eval::all_self_evaluating(*ac.cdr) {
                            Option::Some((*ac.cdr)@)
                        } else {
                            Option::None
                        },
                        _ => Option::None,
                    }
                },
                _ => Option::None,
            },
            _ => Option::None,
        },
    }
}

/// A template element whose quasiquote contribution is decidable without
/// running the evaluator: an atom or quote form (copied verbatim), an
/// `unquote` of a decidable operand, or an `unquote-splicing` of a
/// decidable list.
pub open spec fn qq_lit_elem(e: Expr, hv: Seq<RecModel>, env: int) -> bool {
    match e {
        Expr::Sym(_, _) => true,
        Expr::Num(_, _) => true,
        Expr::Str(_, _) => true,
        Expr::List(l2, _) => match l2 {
            List::Cons(ic) => match *ic.car {
                Expr::Sym(s, _) => if s@ == "quote"@ {
                    true
                } else if s@ == "unquote"@ {
                    (*ic.cdr) matches List::Cons(ic2) && qq_operand_val(*ic2.car, hv, env)
                        is Some
                } else if s@ == "unquote-splicing"@ {
                    (*ic.cdr) matches List::Cons(ic2) && qq_splice_contrib(*ic2.car, hv, env)
                        is Some
                } else {
                    false
                },
                _ => false,
            },
            List::Nil => false,
        },
        _ => false,
    }
}

/// Every element of the template is decidable under the bindings of `env`.
pub open spec fn qq_lit_template(l: List, hv: Seq<RecModel>, env: int) -> bool
    decreases l,
{
    match l {
        List::Nil => true,
        List::Cons(c) => qq_lit_elem(*c.car, hv, env) && qq_lit_template(*c.cdr, hv, env),
    }
}

/// What one decidable element contributes to the expansion: itself, its
/// unquoted operand's value, or the elements its spliced operand holds.
pub open spec fn qq_lit_elem_contrib(e: Expr, hv: Seq<RecModel>, env: int) -> Seq<Expr> {
    match e {
        Expr::List(l2, _) => match l2 {
            List::Cons(ic) => match *ic.car {
                Expr::Sym(s, _) => if s@ == "unquote"@ {
                    match *ic.cdr {
                        List::Cons(ic2) => match qq_operand_val(*ic2.car, hv, env) {
                            Option::Some(v) => seq![v],
                            Option::None => seq![e],
                        },
                        List::Nil => seq![e],
                    }
                } else if s@ == "unquote-splicing"@ {
                    match *ic.cdr {
                        List::Cons(ic2) => match qq_splice_contrib(*ic2.car, hv, env) {
                            Option::Some(es) => es,
                            Option::None => seq![e],
                        },
                        List::Nil => seq![e],
                    }
                } else {
                    seq![e]
                },
                _ => seq![e],
            },
            List::Nil => seq![e],
        },
        _ => seq![e],
    }
}

/// The exact expansion of a decidable template, splicing flattened one
/// level.
pub open spec fn qq_lit_expansion(l: List, hv: Seq<RecModel>, env: int) -> Seq<Expr>
    decreases l,
{
    match l {
        List::Nil => Seq::empty(),
        List::Cons(c) => qq_lit_elem_contrib(*c.car, hv, env) + qq_lit_expansion(
            *c.cdr,
            hv,
            env,
        ),
    }
}

/// `(quasiquote template)`: copies the template, evaluating only at
/// `unquote` points and splicing evaluated lists flat at
/// `unquote-splicing` points.
pub fn quasiquote(args: &List, heap: &mut EnvHeap, ctx: EvalContext, fuel: u64) -> (r: EvalResult)
    requires
        old(heap).wf(),
        ctx.env.id < old(heap)@.len(),
        list_ok(*args, old(heap)@.len() as int),
    ensures
        final(heap).wf(),
        old(heap)@.len() <= final(heap)@.len(),
        result_ok(r, final(heap)@.len() as int),
        args@.len() == 0 ==> r matches Result::Err(_),
        args@.len() >= 1 && ((args@[0] matches Expr::Sym(_, _)) || (args@[0] matches Expr::Num(
            _,
            _,
        )) || (args@[0] matches Expr::Str(_, _))) ==> r == Result::<Expr, EvalError>::Ok(args@[0])
            && final(heap)@ == old(heap)@,
        args@.len() >= 1 ==> (args@[0] matches Expr::List(tl, _) ==> (!qq_unquote_head(tl)
            && qq_plain_list(tl)) ==> (r matches Result::Ok(v) && crate::expr::expr_eq(
            v,
            args@[0],
        ) && final(heap)@ == old(heap)@)),
        fuel >= 4 && args@.len() >= 1 ==> (args@[0] matches Expr::List(tlu, _) ==> (tlu
            matches List::Cons(ic) ==> ((*ic.car) matches Expr::Sym(us, _) ==> (us@
            == "unquote"@ ==> ((*ic.cdr) matches List::Cons(ic2) ==> (match qq_operand_val(
            *ic2.car,
            old(heap)@,
            ctx.env.id as int,
        ) {
            Option::Some(v) => r == Result::<Expr, EvalError>::Ok(v) && final(heap)@ == old(
                heap,
            )@,
            Option::None => true,
        })))))),
        fuel >= 4 && args@.len() >= 1 ==> (args@[0] matches Expr::List(tl2, _) ==> ((
        !qq_unquote_head(tl2) && qq_lit_template(tl2, old(heap)@, ctx.env.id as int)) ==> (r
            matches Result::Ok(v2) && v2 matches Expr::List(outl2, osp2) && osp2 is None
            && outl2@ == qq_lit_expansion(tl2, old(heap)@, ctx.env.id as int) && final(heap)@
            == old(heap)@))),
    decreases fuel, 2int, 0int,
{
    match args.car() {
        Option::None => Result::Err(make_syntax_error("quasiquote", args)),
        Option::Some(template) => {
            proof {
                lemma_list_ok_elem(*args, 0, old(heap)@.len() as int);
            }
            match template {
                Expr::List(l2, _) => {
                    // `(unquote e)` as the whole template evaluates `e`
                    let unquote_arg: Option<&Expr> = match l2 {
                        List::Cons(inner) => match &*inner.car {
                            Expr::Sym(s, _) => if str_is(s, "unquote") {
                                inner.cdar()
                            } else {
                                Option::None
                            },
                            _ => Option::None,
                        },
                        List::Nil => Option::None,
                    };
                    match unquote_arg {
                        Option::Some(e) => {
                            proof {
                                crate::expr::lemma_expr_ok_list(*template, heap@.len() as int);
                                match l2 {
                                    List::Cons(inner) => {
                                        crate::expr::lemma_list_ok_parts(
                                            List::Cons(*inner),
                                            heap@.len() as int,
                                        );
                                        crate::expr::lemma_list_ok_elem(
                                            *inner.cdr,
                                            0,
                                            heap@.len() as int,
                                        );
                                    },
                                    List::Nil => {},
                                }
                            }
                            if fuel == 0 {
                                return Result::Err(
                                    EvalError {
                                        message: String::from_str(
                                            "Evaluation nested too deeply.",
                                        ),
                                        span: Option::None,
                                    },
                                );
                            }
                            eval(e, heap, ctx, fuel - 1)
                        },
                        Option::None => {
                            proof {
                                crate::expr::lemma_expr_ok_list(*template, heap@.len() as int);
                            }
                            let items = qq_elements(l2, heap, ctx, fuel)?;
                            let out = List::from_vec(items);
                            proof {
                                lemma_list_ok_from_elems(out, heap@.len() as int);
                                crate::expr::lemma_list_expr_ok(
                                    out,
                                    Option::None,
                                    heap@.len() as int,
                                );
                                if !qq_unquote_head(*l2) && qq_plain_list(*l2) {
                                    crate::expr::lemma_list_eq_from_elems(out, *l2);
                                }
                            }
                            Result::Ok(Expr::List(out, Option::None))
                        },
                    }
                },
                _ => Result::Ok(template.duplicate()),
            }
        },
    }
}

/// Processes the elements of a quasiquoted list: plain elements are copied,
/// `unquote` elements are evaluated, `unquote-splicing` elements are
/// evaluated and their list elements spliced in flat, exactly one level,
/// and nested lists are processed recursively.
fn qq_elements(l: &List, heap: &mut EnvHeap, ctx: EvalContext, fuel: u64) -> (r: Result<
    Vec<Expr>,
    EvalError,
>)
    requires
        old(heap).wf(),
        ctx.env.id < old(heap)@.len(),
        list_ok(*l, old(heap)@.len() as int),
    ensures
        final(heap).wf(),
        old(heap)@.len() <= final(heap)@.len(),
        r matches Result::Ok(items) ==> forall|i: int|
            0 <= i < items@.len() ==> expr_ok(#[trigger] items@[i], final(heap)@.len() as int),
        qq_plain_list(*l) ==> (r matches Result::Ok(items) && items@.len() == l@.len() && (forall|
            i: int,
        |
            0 <= i < l@.len() ==> crate::expr::expr_eq(#[trigger] items@[i], l@[i]))
            && final(heap)@ == old(heap)@),
        fuel >= 4 && qq_lit_template(*l, old(heap)@, ctx.env.id as int) ==> (r
            matches Result::Ok(items2) && items2@ == qq_lit_expansion(
            *l,
            old(heap)@,
            ctx.env.id as int,
        ) && final(heap)@ == old(heap)@),
    decreases fuel, 1int, crate::expr::list_height(*l),
{
    match l {
        List::Nil => Result::Ok(Vec::new()),
        List::Cons(c) => {
            proof {
                lemma_list_ok_elem(*l, 0, old(heap)@.len() as int);
                crate::expr::lemma_list_ok_parts(*l, old(heap)@.len() as int);
                reveal_strlit("quote");
                reveal_strlit("unquote");
                reveal_strlit("unquote-splicing");
                assert("quote"@.len() == 5);
                assert("unquote"@.len() == 7);
                assert("unquote-splicing"@.len() == 16);
            }
            let mut out: Vec<Expr> = Vec::new();
            match &*c.car {
                Expr::List(l2, _) => {
                    let head_kind: u8 = match l2 {
                        List::Cons(inner) => match &*inner.car {
                            Expr::Sym(s, _) => if str_is(s, "quote") {
                                1
                            } else if str_is(s, "unquote") {
                                2
                            } else if str_is(s, "unquote-splicing") {
                                3
                            } else {
                                0
                            },
                            _ => 0,
                        },
                        List::Nil => 4,
                    };
                    if head_kind == 1 {
                        proof {
                            crate::expr::lemma_expr_eq_refl(*c.car);
                        }
                        out.push(c.car.duplicate());
                    proof {
                        if fuel >= 4 && qq_lit_template(*l, old(heap)@, ctx.env.id as int) {
                            assert(out@ =~= qq_lit_elem_contrib(
                                *c.car,
                                old(heap)@,
                                ctx.env.id as int,
                            ));
                        }
                    }
                    } else if head_kind == 2 || head_kind == 3 {
                        proof {
                            assert(qq_unquote_head(*l2));
                            assert(!qq_plain_elem(*c.car));
                            assert(!qq_plain_list(*l));
                        }
                        let inner_arg: Option<&Expr> = match l2 {
                            List::Cons(inner) => inner.cdar(),
                            List::Nil => Option::None,
                        };
                        match inner_arg {
                            Option::None => {
                                return Result::Err(make_syntax_error("quasiquote", l));
                            },
                            Option::Some(e) => {
                                proof {
                                    crate::expr::lemma_expr_ok_list(*c.car, heap@.len() as int);
                                    match l2 {
                                        List::Cons(inner) => {
                                            crate::expr::lemma_list_ok_parts(
                                                List::Cons(*inner),
                                                heap@.len() as int,
                                            );
                                            crate::expr::lemma_list_ok_elem(
                                                *inner.cdr,
                                                0,
                                                heap@.len() as int,
                                            );
                                        },
                                        List::Nil => {},
                                    }
                                }
                                if fuel == 0 {
                                    return Result::Err(
                                        EvalError {
                                            message: String::from_str(
                                                "Evaluation nested too deeply.",
                                            ),
                                            span: Option::None,
                                        },
                                    );
                                }
                                let v = eval(e, heap, ctx, fuel - 1)?;
                                if head_kind == 2 {
                                    out.push(v);
                                } else {
                                    // splice one level: a list contributes its
                                    // elements, anything else itself
                                    let ghost gv: Expr = v;
                                    match v {
                                        Expr::List(spliced, _) => {
                                            proof {
                                                crate::expr::lemma_expr_ok_list(
                                                    gv,
                                                    heap@.len() as int,
                                                );
                                            }
                                            let ghost gsp: List = spliced;
                                            let ghost out_pre: Seq<Expr> = out@;
                                            let mut srest: &List = &spliced;
                                            loop
                                                invariant
                                                    heap.wf(),
                                                    list_ok(*srest, heap@.len() as int),
                                                    forall|i: int|
                                                        0 <= i < out@.len() ==> expr_ok(
                                                            #[trigger] out@[i],
                                                            heap@.len() as int,
                                                        ),
                                                    out@ + (*srest)@ == out_pre + list_model(
                                                        gsp,
                                                    ),
                                                ensures
                                                    forall|i: int|
                                                        0 <= i < out@.len() ==> expr_ok(
                                                            #[trigger] out@[i],
                                                            heap@.len() as int,
                                                        ),
                                                    out@ == out_pre + list_model(gsp),
                                                decreases srest@.len(),
                                            {
                                                match srest {
                                                    List::Nil => {
                                                        proof {
                                                            assert(out@ + (*srest)@ =~= out@);
                                                        }
                                                        break;
                                                    },
                                                    List::Cons(sc) => {
                                                        proof {
                                                            crate::expr::lemma_list_ok_parts(
                                                                *srest,
                                                                heap@.len() as int,
                                                            );
                                                        }
                                                        out.push(sc.car.duplicate());
                                                        proof {
                                                            assert(out@ + (*sc.cdr)@
                                                                =~= out@.drop_last()
                                                                + (*srest)@);
                                                        }
                                                        srest = &sc.cdr;
                                                    },
                                                }
                                            }
                                        },
                                        other => {
                                            out.push(other);
                                        },
                                    }
                                }
                    proof {
                        if fuel >= 4 && qq_lit_template(*l, old(heap)@, ctx.env.id as int) {
                            assert(out@ =~= qq_lit_elem_contrib(
                                *c.car,
                                old(heap)@,
                                ctx.env.id as int,
                            ));
                        }
                    }
                            },
                        }
                    } else if head_kind == 4 {
                        out.push(Expr::nil());
                        proof {
                            assert(expr_env_refs(nil_spec()) =~= Set::<int>::empty());
                            assert(crate::expr::expr_eq(nil_spec(), *c.car));
                        }
                    } else {
                        proof {
                            crate::expr::lemma_expr_ok_list(*c.car, heap@.len() as int);
                            assert(crate::expr::expr_height(*c.car) == 1
                                + crate::expr::list_height(*l2));
                            assert(crate::expr::list_height(*l2) < crate::expr::list_height(*l));
                            if qq_plain_list(*l) {
                                assert(qq_plain_elem(*c.car));
                                assert(qq_plain_list(*l2));
                            }
                        }
                        let sub_items = qq_elements(l2, heap, ctx, fuel)?;
                        let sub = List::from_vec(sub_items);
                        proof {
                            lemma_list_ok_from_elems(sub, heap@.len() as int);
                            crate::expr::lemma_list_expr_ok(sub, Option::None, heap@.len() as int);
                            if qq_plain_list(*l) {
                                crate::expr::lemma_list_eq_from_elems(sub, *l2);
                                assert(crate::expr::expr_eq(
                                    Expr::List(sub, Option::None),
                                    *c.car,
                                ));
                            }
                        }
                        out.push(Expr::List(sub, Option::None));
                    proof {
                        if fuel >= 4 && qq_lit_template(*l, old(heap)@, ctx.env.id as int) {
                            assert(out@ =~= qq_lit_elem_contrib(
                                *c.car,
                                old(heap)@,
                                ctx.env.id as int,
                            ));
                        }
                    }
                    }
                },
                _ => {
                    proof {
                        crate::expr::lemma_expr_eq_refl(*c.car);
                    }
                    out.push(c.car.duplicate());
                    proof {
                        if fuel >= 4 && qq_lit_template(*l, old(heap)@, ctx.env.id as int) {
                            assert(out@ =~= qq_lit_elem_contrib(
                                *c.car,
                                old(heap)@,
                                ctx.env.id as int,
                            ));
                        }
                    }
                },
            }
            proof {
                assert(list_ok(*c.cdr, heap@.len() as int));
                assert forall|i: int|
                    0 <= i < out@.len() implies expr_ok(#[trigger] out@[i], heap@.len() as int) by {}
            }
            let ghost pre_tail: Seq<Expr> = out@;
            let ghost len_pre: int = heap@.len() as int;
            let ghost tail_plain_eq: bool = qq_plain_list(*l);
            let mut tail = qq_elements(&c.cdr, heap, ctx, fuel)?;
            let ghost tail_items: Seq<Expr> = tail@;
            out.append(&mut tail);
            proof {
                assert forall|i: int|
                    0 <= i < out@.len() implies expr_ok(#[trigger] out@[i], heap@.len() as int) by {
                    if i < pre_tail.len() {
                        assert(out@[i] == pre_tail[i]);
                        assert(expr_ok(pre_tail[i], len_pre));
                    }
                }
                if fuel >= 4 && qq_lit_template(*l, old(heap)@, ctx.env.id as int) {
                    assert(out@ =~= qq_lit_elem_contrib(*c.car, old(heap)@, ctx.env.id as int)
                        + qq_lit_expansion(*c.cdr, old(heap)@, ctx.env.id as int));
                }
                if qq_plain_list(*l) {
                    assert(pre_tail.len() == 1);
                    assert(crate::expr::expr_eq(pre_tail[0], *c.car));
                    assert(out@.len() == l@.len());
                    assert forall|i: int|
                        0 <= i < l@.len() implies crate::expr::expr_eq(
                        #[trigger] out@[i],
                        l@[i],
                    ) by {
                        assert(l@[0] == *c.car);
                        if i > 0 {
                            assert(out@[i] == tail_items[i - 1]);
                            assert(l@[i] == (*c.cdr)@[i - 1]);
                            assert(crate::expr::expr_eq(tail_items[i - 1], (*c.cdr)@[i - 1]));
                        }
                    }
                }
            }
            Result::Ok(out)
        },
    }
}

/// `(unquote e ...)` called as an ordinary procedure: evaluates each
/// operand and collects the results into a list.
pub fn unquote(args: &List, heap: &mut EnvHeap, ctx: EvalContext, fuel: u64) -> (r: EvalResult)
    requires
        old(heap).wf(),
        ctx.env.id < old(heap)@.len(),
        list_ok(*args, old(heap)@.len() as int),
    ensures
        final(heap).wf(),
        old(heap)@.len() <= final(heap)@.len(),
        result_ok(r, final(heap)@.len() as int),
        (fuel >= 1 && crate::eval::all_self_evaluating(*args)) ==> (r matches Result::Ok(v) && v
            matches Expr::List(outl, osp) && osp is None && outl@ == args@ && final(heap)@ == old(
            heap,
        )@),
    decreases fuel, 1int, 0int,
{
    let mut vals: Vec<Expr> = Vec::new();
    let mut rest: &List = args;
    loop
        invariant
            heap.wf(),
            old(heap)@.len() <= heap@.len(),
            ctx.env.id < old(heap)@.len(),
            list_ok(*rest, heap@.len() as int),
            forall|i: int| 0 <= i < vals@.len() ==> expr_ok(#[trigger] vals@[i], heap@.len() as int),
            (fuel >= 1 && crate::eval::all_self_evaluating(*args)) ==> heap@ == old(heap)@
                && crate::eval::all_self_evaluating(*rest) && vals@ + (*rest)@ == args@,
        ensures
            heap.wf(),
            old(heap)@.len() <= heap@.len(),
            forall|i: int| 0 <= i < vals@.len() ==> expr_ok(#[trigger] vals@[i], heap@.len() as int),
            (fuel >= 1 && crate::eval::all_self_evaluating(*args)) ==> heap@ == old(heap)@
                && vals@ == args@,
        decreases rest@.len(),
    {
        match rest {
            List::Nil => {
                proof {
                    assert(vals@ + (*rest)@ =~= vals@);
                }
                break;
            },
            List::Cons(c) => {
                proof {
                    crate::expr::lemma_list_ok_parts(*rest, heap@.len() as int);
                }
                if fuel == 0 {
                    return Result::Err(
                        EvalError {
                            message: String::from_str("Evaluation nested too deeply."),
                            span: Option::None,
                        },
                    );
                }
                let v = eval(&c.car, heap, ctx, fuel - 1)?;
                vals.push(v);
                proof {
                    if fuel >= 1 && crate::eval::all_self_evaluating(*args) {
                        assert(vals@ + (*c.cdr)@ =~= vals@.drop_last() + (*rest)@);
                    }
                }
                rest = &c.cdr;
            },
        }
    }
    let out = List::from_vec(vals);
    proof {
        lemma_list_ok_from_elems(out, heap@.len() as int);
        crate::expr::lemma_list_expr_ok(out, Option::None, heap@.len() as int);
    }
    Result::Ok(Expr::List(out, Option::None))
}

/// `unquote-splicing` called as an ordinary procedure behaves as
/// `unquote`; its splicing effect exists only inside a quasiquote.
pub fn unquote_splicing(args: &List, heap: &mut EnvHeap, ctx: EvalContext, fuel: u64) -> (r:
    EvalResult)
    requires
        old(heap).wf(),
        ctx.env.id < old(heap)@.len(),
        list_ok(*args, old(heap)@.len() as int),
    ensures
        final(heap).wf(),
        old(heap)@.len() <= final(heap)@.len(),
        result_ok(r, final(heap)@.len() as int),
        (fuel >= 1 && crate::eval::all_self_evaluating(*args)) ==> (r matches Result::Ok(v) && v
            matches Expr::List(outl, osp) && osp is None && outl@ == args@ && final(heap)@ == old(
            heap,
        )@),
    decreases fuel, 2int, 0int,
{
    unquote(args, heap, ctx, fuel)
}

} // verus!
