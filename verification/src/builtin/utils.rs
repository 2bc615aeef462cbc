//! Argument-destructuring helpers shared by the native procedures.

use vstd::prelude::*;

use crate::env::EnvHeap;
use crate::eval::{eval, EvalContext, EvalError};
use crate::expr::{expr_ok, intern, list_repr, write_expr, Expr};
use crate::list::{write_list, List};

verus! {

/// Builds `prefix + rest` as an error with no span.
pub fn message_error(prefix: &str, rest: &str) -> (r: EvalError)
    ensures
        r.message@ == prefix@ + rest@,
        r.span is None,
{
    let mut message = String::from_str(prefix);
    message.append(rest);
    EvalError { message, span: Option::None }
}

/// An ill-formed use of `proc_name`: the message shows the whole form,
/// rendered as it would have been written.
pub fn syntax_error(proc_name: &str, args: &List) -> (r: EvalError)
    ensures
        r.message@ == "Ill-formed syntax: ("@ + proc_name@ + list_repr(*args, false) + ")"@,
        r.span is None,
{
    let mut message = String::from_str("Ill-formed syntax: ");
    let head = intern(proc_name);
    let tail = args.duplicate();
    let form = List::Cons(crate::list::Cons::new(head, tail));
    write_list(&mut message, &form, true);
    proof {
        reveal_strlit("Ill-formed syntax: ");
        reveal_strlit("Ill-formed syntax: (");
        reveal_strlit(")");
        assert(crate::expr::expr_repr(head) == proc_name@);
        assert(list_repr(form, true) == seq!['('] + (crate::expr::expr_repr(head) + list_repr(
            *args,
            false,
        )) + seq![')']);
        assert(message@ =~= "Ill-formed syntax: ("@ + proc_name@ + list_repr(*args, false)
            + ")"@);
    }
    EvalError { message, span: Option::None }
}

/// Requires exactly one operand and hands it out.
pub fn get_exact_1_arg<'a>(proc_name: &str, args: &'a List) -> (r: Result<&'a Expr, EvalError>)
    ensures
        match r {
            Result::Ok(e) => args@.len() == 1 && *e == args@[0],
            Result::Err(_) => args@.len() != 1,
        },
        args@.len() == 0 ==> (r matches Result::Err(e2) && e2.message@ == proc_name@
            + " needs an argument."@),
        args@.len() > 1 ==> (r matches Result::Err(e2) && e2.message@ == proc_name@
            + " expects only 1 argument."@),
{
    let mut iter = args.iter();
    let first = iter.next();
    match first {
        Option::None => Result::Err(
            message_error(proc_name, " needs an argument."),
        ),
        Option::Some(arg) => {
            match iter.next() {
                Option::None => {
                    proof {
                        assert(args@.len() == 1);
                    }
                    Result::Ok(arg)
                },
                Option::Some(_) => Result::Err(
                    message_error(proc_name, " expects only 1 argument."),
                ),
            }
        },
    }
}

/// Requires exactly two operands and hands them out.
pub fn get_exact_2_args<'a>(proc_name: &str, args: &'a List) -> (r: Result<
    (&'a Expr, &'a Expr),
    EvalError,
>)
    ensures
        match r {
            Result::Ok(pair) => args@.len() == 2 && *pair.0 == args@[0] && *pair.1 == args@[1],
            Result::Err(_) => args@.len() != 2,
        },
        args@.len() < 2 ==> (r matches Result::Err(e2) && e2.message@ == proc_name@
            + ": requires two arguments"@),
        args@.len() > 2 ==> (r matches Result::Err(e2) && e2.message@ == proc_name@
            + ": takes only two arguments"@),
{
    let mut iter = args.iter();
    let Option::Some(arg1) = iter.next() else {
        return Result::Err(message_error(proc_name, ": requires two arguments"));
    };
    let Option::Some(arg2) = iter.next() else {
        return Result::Err(message_error(proc_name, ": requires two arguments"));
    };
    match iter.next() {
        Option::None => {
            proof {
                assert(args@.len() == 2);
            }
            Result::Ok((arg1, arg2))
        },
        Option::Some(_) => Result::Err(message_error(proc_name, ": takes only two arguments")),
    }
}

/// Requires exactly three operands and hands them out.
pub fn get_exact_3_args<'a>(proc_name: &str, args: &'a List) -> (r: Result<
    (&'a Expr, &'a Expr, &'a Expr),
    EvalError,
>)
    ensures
        match r {
            Result::Ok(triple) => args@.len() == 3 && *triple.0 == args@[0] && *triple.1
                == args@[1] && *triple.2 == args@[2],
            Result::Err(_) => args@.len() != 3,
        },
        args@.len() < 3 ==> (r matches Result::Err(e2) && e2.message@ == proc_name@
            + ": requires 3 arguments"@),
        args@.len() > 3 ==> (r matches Result::Err(e2) && e2.message@ == proc_name@
            + ": takes only 3 arguments"@),
{
    let mut iter = args.iter();
    let Option::Some(arg1) = iter.next() else {
        return Result::Err(message_error(proc_name, ": requires 3 arguments"));
    };
    let Option::Some(arg2) = iter.next() else {
        return Result::Err(message_error(proc_name, ": requires 3 arguments"));
    };
    let Option::Some(arg3) = iter.next() else {
        return Result::Err(message_error(proc_name, ": requires 3 arguments"));
    };
    match iter.next() {
        Option::None => {
            proof {
                assert(args@.len() == 3);
            }
            Result::Ok((arg1, arg2, arg3))
        },
        Option::Some(_) => Result::Err(message_error(proc_name, ": takes only 3 arguments")),
    }
}

/// Requires two or three operands and hands them out, the third optional.
pub fn get_2_or_3_args<'a>(proc_name: &str, args: &'a List) -> (r: Result<
    (&'a Expr, &'a Expr, Option<&'a Expr>),
    EvalError,
>)
    ensures
        match r {
            Result::Ok(triple) => *triple.0 == args@[0] && *triple.1 == args@[1] && match triple.2 {
                Option::Some(e) => args@.len() == 3 && *e == args@[2],
                Option::None => args@.len() == 2,
            },
            Result::Err(_) => args@.len() < 2 || args@.len() > 3,
        },
        args@.len() < 2 ==> (r matches Result::Err(e2) && e2.message@ == proc_name@
            + ": requires at least 2 arguments"@),
        args@.len() > 3 ==> (r matches Result::Err(e2) && e2.message@ == proc_name@
            + ": takes up to 3 arguments"@),
{
    let mut iter = args.iter();
    let Option::Some(arg1) = iter.next() else {
        return Result::Err(message_error(proc_name, ": requires at least 2 arguments"));
    };
    let Option::Some(arg2) = iter.next() else {
        return Result::Err(message_error(proc_name, ": requires at least 2 arguments"));
    };
    let Option::Some(arg3) = iter.next() else {
        proof {
            assert(args@.len() == 2);
        }
        return Result::Ok((arg1, arg2, Option::None));
    };
    match iter.next() {
        Option::None => {
            proof {
                assert(args@.len() == 3);
            }
            Result::Ok((arg1, arg2, Option::Some(arg3)))
        },
        Option::Some(_) => Result::Err(message_error(proc_name, ": takes up to 3 arguments")),
    }
}

/// Every element is a symbol.
pub open spec fn all_syms(s: Seq<Expr>) -> bool {
    forall|i: int| 0 <= i < s.len() ==> (#[trigger] s[i]) matches Expr::Sym(_, _)
}

/// The name a symbol expression carries.
pub open spec fn sym_name(e: Expr) -> Seq<char> {
    match e {
        Expr::Sym(n, _) => n@,
        _ => Seq::empty(),
    }
}

/// Checks that a formal-argument list holds only symbols and collects their
/// names, in order.
pub fn make_formal_args(list: &List) -> (r: Result<Vec<String>, EvalError>)
    ensures
        match r {
            Result::Ok(names) => all_syms(list@) && names@.len() == list@.len() && forall|i: int|
                0 <= i < list@.len() ==> names@[i]@ == sym_name(list@[i]),
            Result::Err(_) => !all_syms(list@),
        },
        r matches Result::Err(e2) ==> exists|i: int|
            #![auto]
            0 <= i < list@.len() && !(list@[i] matches Expr::Sym(_, _)) && (forall|j: int|
                0 <= j < i ==> (#[trigger] list@[j]) matches Expr::Sym(_, _)) && e2.message@
                == crate::expr::expr_repr(list@[i]) + " is not a symbol."@,
{
    let mut formal_args: Vec<String> = Vec::new();
    let mut iter = list.iter();
    let ghost mut seen: int = 0;
    loop
        invariant
            0 <= seen <= list@.len(),
            iter.list@ == list@.skip(seen),
            formal_args@.len() == seen,
            forall|i: int| 0 <= i < seen ==> (#[trigger] list@[i]) matches Expr::Sym(_, _),
            forall|i: int| 0 <= i < seen ==> formal_args@[i]@ == sym_name(list@[i]),
        ensures
            seen == list@.len(),
            formal_args@.len() == list@.len(),
            forall|i: int| 0 <= i < list@.len() ==> (#[trigger] list@[i]) matches Expr::Sym(_, _),
            forall|i: int| 0 <= i < list@.len() ==> formal_args@[i]@ == sym_name(list@[i]),
        decreases list@.len() - seen,
    {
        match iter.next() {
            Option::None => {
                break;
            },
            Option::Some(item) => {
                proof {
                    assert(list@.skip(seen)[0] == list@[seen]);
                    assert(list@.skip(seen).skip(1) =~= list@.skip(seen + 1));
                }
                match item {
                    Expr::Sym(formal_arg, _) => {
                        formal_args.push(formal_arg.clone());
                        proof {
                            seen = seen + 1;
                        }
                    },
                    _ => {
                        let mut message = String::new();
                        crate::expr::write_expr(&mut message, item);
                        message.append(" is not a symbol.");
                        proof {
                            assert(*item == list@[seen]);
                            assert(message@ =~= crate::expr::expr_repr(list@[seen])
                                + " is not a symbol."@);
                        }
                        return Result::Err(EvalError { message, span: Option::None });
                    },
                }
            },
        }
    }
    Result::Ok(formal_args)
}


/// Evaluates an operand that must come out a string, and hands the text
/// back.
pub fn eval_to_str(
    proc_name: &str,
    expr: &Expr,
    heap: &mut EnvHeap,
    ctx: EvalContext,
    fuel: u64,
) -> (r: Result<String, EvalError>)
    requires
        old(heap).wf(),
        ctx.env.id < old(heap)@.len(),
        expr_ok(*expr, old(heap)@.len() as int),
    ensures
        final(heap).wf(),
        old(heap)@.len() <= final(heap)@.len(),
        fuel >= 1 ==> ((*expr) matches Expr::Str(t, _) ==> r == Result::<String, EvalError>::Ok(t)
            && final(heap)@ == old(heap)@),
        fuel >= 1 ==> (crate::eval::quote_form_arg(*expr) matches Option::Some(q) ==> (q
            matches Expr::Str(t2, _) ==> r == Result::<String, EvalError>::Ok(t2) && final(heap)@
            == old(heap)@)),
    decreases fuel, 0int, 0int,
{
    if fuel == 0 {
        return Result::Err(
            EvalError {
                message: String::from_str("Evaluation nested too deeply."),
                span: Option::None,
            },
        );
    }
    match eval(expr, heap, ctx, fuel - 1)? {
        Expr::Str(text, _) => Result::Ok(text),
        _ => {
            let mut message = String::from_str(proc_name);
            message.append(": `");
            write_expr(&mut message, expr);
            message.append("` does not evaluate to a string.");
            Result::Err(EvalError { message, span: Option::None })
        },
    }
}

/// Evaluates an operand that must come out a number, and hands the value
/// back.
pub fn eval_to_num(
    proc_name: &str,
    expr: &Expr,
    heap: &mut EnvHeap,
    ctx: EvalContext,
    fuel: u64,
) -> (r: Result<i64, EvalError>)
    requires
        old(heap).wf(),
        ctx.env.id < old(heap)@.len(),
        expr_ok(*expr, old(heap)@.len() as int),
    ensures
        final(heap).wf(),
        old(heap)@.len() <= final(heap)@.len(),
        fuel >= 1 ==> ((*expr) matches Expr::Num(v, _) ==> r == Result::<i64, EvalError>::Ok(v)
            && final(heap)@ == old(heap)@),
        fuel >= 1 ==> ((*expr) matches Expr::Sym(n2, _) ==> (match crate::env::chain_lookup(
            old(heap)@,
            ctx.env.id as int,
            n2@,
        ) {
            Option::Some(Expr::Num(v2, _)) => r == Result::<i64, EvalError>::Ok(v2)
                && final(heap)@ == old(heap)@,
            _ => true,
        })),
        fuel >= 1 ==> (crate::eval::quote_form_arg(*expr) matches Option::Some(q) ==> (q
            matches Expr::Num(v3, _) ==> r == Result::<i64, EvalError>::Ok(v3) && final(heap)@
            == old(heap)@)),
    decreases fuel, 0int, 0int,
{
    if fuel == 0 {
        return Result::Err(
            EvalError {
                message: String::from_str("Evaluation nested too deeply."),
                span: Option::None,
            },
        );
    }
    match eval(expr, heap, ctx, fuel - 1)? {
        Expr::Num(value, _) => Result::Ok(value),
        _ => {
            let mut message = String::from_str(proc_name);
            message.append(": `");
            write_expr(&mut message, expr);
            message.append("` does not evaluate to a number.");
            Result::Err(EvalError { message, span: Option::None })
        },
    }
}

} // verus!
