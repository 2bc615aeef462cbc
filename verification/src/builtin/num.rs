//! Numeric native procedures, over exact machine integers with explicit
//! overflow errors.

use vstd::prelude::*;

use crate::builtin::utils::{eval_to_num, get_exact_1_arg, message_error};
use crate::env::EnvHeap;
use crate::eval::{eval, result_ok, EvalContext, EvalError, EvalResult};
use crate::expr::{bool_expr, lemma_list_ok_elem, list_ok, Expr};
use crate::list::List;

verus! {

/// The depth-exhaustion error shared by the numeric procedures.
fn deep_error() -> (r: EvalError)
    ensures
        r.span is None,
{
    EvalError { message: String::from_str("Evaluation nested too deeply."), span: Option::None }
}

/// The overflow error.
fn overflow_error(proc_name: &str) -> (r: EvalError)
    ensures
        r.span is None,
{
    message_error(proc_name, ": arithmetic overflow")
}

/// Every operand is a number literal.
pub open spec fn literal_nums(l: List) -> bool
    decreases l,
{
    match l {
        List::Nil => true,
        List::Cons(c) => (*c.car) matches Expr::Num(_, _) && literal_nums(*c.cdr),
    }
}

/// The mathematical sum of a list of number literals.
pub open spec fn nums_sum(l: List) -> int
    decreases l,
{
    match l {
        List::Nil => 0,
        List::Cons(c) => (match *c.car {
            Expr::Num(v, _) => v as int,
            _ => 0,
        }) + nums_sum(*c.cdr),
    }
}

/// Every partial sum of the fold, starting from `acc`, stays in machine
/// range: the exact condition under which the machine sum succeeds.
pub open spec fn sums_in_range(l: List, acc: int) -> bool
    decreases l,
{
    match l {
        List::Nil => true,
        List::Cons(c) => {
            let acc2 = acc + (match *c.car {
                Expr::Num(v, _) => v as int,
                _ => 0,
            });
            i64::MIN <= acc2 <= i64::MAX && sums_in_range(*c.cdr, acc2)
        },
    }
}

/// `(+ a b ...)`: the sum of the evaluated operands, zero for none.
pub fn add(proc_name: &str, args: &List, heap: &mut EnvHeap, ctx: EvalContext, fuel: u64) -> (r:
    EvalResult)
    requires
        old(heap).wf(),
        ctx.env.id < old(heap)@.len(),
        list_ok(*args, old(heap)@.len() as int),
    ensures
        final(heap).wf(),
        old(heap)@.len() <= final(heap)@.len(),
        result_ok(r, final(heap)@.len() as int),
        (fuel >= 2 && literal_nums(*args)) ==> (if sums_in_range(*args, 0) {
            r == Result::<Expr, EvalError>::Ok(Expr::Num(nums_sum(*args) as i64, Option::None))
                && final(heap)@ == old(heap)@
        } else {
            r matches Result::Err(_)
        }),
    decreases fuel, 1int, 0int,
{
    let mut acc: i64 = 0;
    let mut rest: &List = args;
    loop
        invariant
            heap.wf(),
            old(heap)@.len() <= heap@.len(),
            ctx.env.id < old(heap)@.len(),
            list_ok(*rest, heap@.len() as int),
            (fuel >= 2 && literal_nums(*args)) ==> heap@ == old(heap)@ && literal_nums(*rest)
                && acc + nums_sum(*rest) == nums_sum(*args) && (sums_in_range(*args, 0)
                <==> sums_in_range(*rest, acc as int)),
        ensures
            heap.wf(),
            old(heap)@.len() <= heap@.len(),
            (fuel >= 2 && literal_nums(*args)) ==> heap@ == old(heap)@ && sums_in_range(*args, 0)
                && acc == nums_sum(*args),
        decreases rest@.len(),
    {
        match rest {
            List::Nil => {
                break;
            },
            List::Cons(c) => {
                proof {
                    crate::expr::lemma_list_ok_parts(*rest, heap@.len() as int);
                }
                if fuel == 0 {
                    return Result::Err(deep_error());
                }
                let n = eval_to_num(proc_name, &c.car, heap, ctx, fuel - 1)?;
                if (n > 0 && acc > i64::MAX - n) || (n < 0 && acc < i64::MIN - n) {
                    return Result::Err(overflow_error(proc_name));
                }
                acc = acc + n;
                rest = &c.cdr;
            },
        }
    }
    Result::Ok(Expr::Num(acc, Option::None))
}

/// The mathematical left fold of subtraction over number literals.
pub open spec fn nums_diff(l: List, acc: int) -> int
    decreases l,
{
    match l {
        List::Nil => acc,
        List::Cons(c) => nums_diff(
            *c.cdr,
            acc - (match *c.car {
                Expr::Num(v, _) => v as int,
                _ => 0,
            }),
        ),
    }
}

/// Every partial difference stays in machine range.
pub open spec fn diffs_in_range(l: List, acc: int) -> bool
    decreases l,
{
    match l {
        List::Nil => true,
        List::Cons(c) => {
            let acc2 = acc - (match *c.car {
                Expr::Num(v, _) => v as int,
                _ => 0,
            });
            i64::MIN <= acc2 <= i64::MAX && diffs_in_range(*c.cdr, acc2)
        },
    }
}

/// `(- a b ...)`: the first operand minus the rest; a single operand is
/// negated.
pub fn minus(proc_name: &str, args: &List, heap: &mut EnvHeap, ctx: EvalContext, fuel: u64) -> (r:
    EvalResult)
    requires
        old(heap).wf(),
        ctx.env.id < old(heap)@.len(),
        list_ok(*args, old(heap)@.len() as int),
    ensures
        final(heap).wf(),
        old(heap)@.len() <= final(heap)@.len(),
        result_ok(r, final(heap)@.len() as int),
        args@.len() == 0 ==> r matches Result::Err(_),
        fuel >= 2 ==> ((*args) matches List::Cons(cn) ==> ((*cn.car) matches Expr::Num(vn, _)
            ==> ((*cn.cdr) matches List::Nil ==> (if vn == i64::MIN {
            r matches Result::Err(_)
        } else {
            r == Result::<Expr, EvalError>::Ok(Expr::Num((-(vn as int)) as i64, Option::None))
                && final(heap)@ == old(heap)@
        })))),
        (fuel >= 2 && literal_nums(*args)) ==> ((*args) matches List::Cons(c0) ==> ((*c0.car)
            matches Expr::Num(v0, _) ==> ((*c0.cdr) matches List::Cons(_) ==> (if diffs_in_range(
            *c0.cdr,
            v0 as int,
        ) {
            r == Result::<Expr, EvalError>::Ok(
                Expr::Num(nums_diff(*c0.cdr, v0 as int) as i64, Option::None),
            ) && final(heap)@ == old(heap)@
        } else {
            r matches Result::Err(_)
        })))),
    decreases fuel, 1int, 0int,
{
    match args {
        List::Nil => Result::Err(
            message_error(proc_name, ": requires at least 1 argument"),
        ),
        List::Cons(c0) => {
            proof {
                lemma_list_ok_elem(*args, 0, old(heap)@.len() as int);
            }
            if fuel == 0 {
                return Result::Err(deep_error());
            }
            proof {
                crate::expr::lemma_list_ok_parts(*args, old(heap)@.len() as int);
            }
            let first = eval_to_num(proc_name, &c0.car, heap, ctx, fuel - 1)?;
            if c0.cdr.is_nil() {
                if first == i64::MIN {
                    return Result::Err(overflow_error(proc_name));
                }
                return Result::Ok(Expr::Num(-first, Option::None));
            }
            let ghost tail0: List = *c0.cdr;
            let ghost v0g: int = first as int;
            let mut acc: i64 = first;
            let mut rest: &List = &c0.cdr;
            loop
                invariant
                    heap.wf(),
                    old(heap)@.len() <= heap@.len(),
                    ctx.env.id < old(heap)@.len(),
                    list_ok(*rest, heap@.len() as int),
                    tail0 matches List::Cons(_),
                    fuel >= 2 ==> ((*args) matches List::Cons(cc) ==> (*cc.cdr == tail0 && ((
                    *cc.car) matches Expr::Num(vv, _) ==> vv as int == v0g))),
                    (fuel >= 2 && literal_nums(*args)) ==> heap@ == old(heap)@ && literal_nums(
                        *rest,
                    ) && nums_diff(*rest, acc as int) == nums_diff(tail0, v0g) && (diffs_in_range(
                        tail0,
                        v0g,
                    ) <==> diffs_in_range(*rest, acc as int)),
                ensures
                    heap.wf(),
                    old(heap)@.len() <= heap@.len(),
                    (fuel >= 2 && literal_nums(*args)) ==> heap@ == old(heap)@ && diffs_in_range(
                        tail0,
                        v0g,
                    ) && acc == nums_diff(tail0, v0g),
                decreases rest@.len(),
            {
                match rest {
                    List::Nil => {
                        break;
                    },
                    List::Cons(c) => {
                        proof {
                            crate::expr::lemma_list_ok_parts(*rest, heap@.len() as int);
                        }
                        if fuel == 0 {
                            return Result::Err(deep_error());
                        }
                        let n = eval_to_num(proc_name, &c.car, heap, ctx, fuel - 1)?;
                        if (n < 0 && acc > i64::MAX + n) || (n > 0 && acc < i64::MIN + n) {
                            return Result::Err(overflow_error(proc_name));
                        }
                        acc = acc - n;
                        rest = &c.cdr;
                    },
                }
            }
            Result::Ok(Expr::Num(acc, Option::None))
        },
    }
}

/// The mathematical product of a list of number literals.
pub open spec fn nums_prod(l: List) -> int
    decreases l,
{
    match l {
        List::Nil => 1,
        List::Cons(c) => (match *c.car {
            Expr::Num(v, _) => v as int,
            _ => 1,
        }) * nums_prod(*c.cdr),
    }
}

/// Every partial product of the left fold stays in machine range.
pub open spec fn prods_in_range(l: List, acc: int) -> bool
    decreases l,
{
    match l {
        List::Nil => true,
        List::Cons(c) => {
            let acc2 = acc * (match *c.car {
                Expr::Num(v, _) => v as int,
                _ => 1,
            });
            i64::MIN <= acc2 <= i64::MAX && prods_in_range(*c.cdr, acc2)
        },
    }
}

/// The left fold of multiplication over number literals.
pub open spec fn prod_fold(l: List, acc: int) -> int
    decreases l,
{
    match l {
        List::Nil => acc,
        List::Cons(c) => prod_fold(
            *c.cdr,
            acc * (match *c.car {
                Expr::Num(v, _) => v as int,
                _ => 1,
            }),
        ),
    }
}

/// `(* a b ...)`: the product of the evaluated operands, one for none.
pub fn multiply(proc_name: &str, args: &List, heap: &mut EnvHeap, ctx: EvalContext, fuel: u64) -> (
    r: EvalResult)
    requires
        old(heap).wf(),
        ctx.env.id < old(heap)@.len(),
        list_ok(*args, old(heap)@.len() as int),
    ensures
        final(heap).wf(),
        old(heap)@.len() <= final(heap)@.len(),
        result_ok(r, final(heap)@.len() as int),
        (fuel >= 2 && literal_nums(*args)) ==> (if prods_in_range(*args, 1) {
            r == Result::<Expr, EvalError>::Ok(Expr::Num(prod_fold(*args, 1) as i64, Option::None))
                && final(heap)@ == old(heap)@
        } else {
            r matches Result::Err(_)
        }),
    decreases fuel, 1int, 0int,
{
    let mut acc: i64 = 1;
    let mut rest: &List = args;
    loop
        invariant
            heap.wf(),
            old(heap)@.len() <= heap@.len(),
            ctx.env.id < old(heap)@.len(),
            list_ok(*rest, heap@.len() as int),
            (fuel >= 2 && literal_nums(*args)) ==> heap@ == old(heap)@ && literal_nums(*rest)
                && prod_fold(*rest, acc as int) == prod_fold(*args, 1) && (prods_in_range(
                *args,
                1,
            ) <==> prods_in_range(*rest, acc as int)),
        ensures
            heap.wf(),
            old(heap)@.len() <= heap@.len(),
            (fuel >= 2 && literal_nums(*args)) ==> heap@ == old(heap)@ && prods_in_range(*args, 1)
                && acc == prod_fold(*args, 1),
        decreases rest@.len(),
    {
        match rest {
            List::Nil => {
                break;
            },
            List::Cons(c) => {
                proof {
                    crate::expr::lemma_list_ok_parts(*rest, heap@.len() as int);
                }
                if fuel == 0 {
                    return Result::Err(deep_error());
                }
                let n = eval_to_num(proc_name, &c.car, heap, ctx, fuel - 1)?;
                proof {
                    assert((acc as i128) * (n as i128) <= 0x40000000000000000000000000000000i128
                        && (acc as i128) * (n as i128)
                        >= -0x40000000000000000000000000000000i128) by (nonlinear_arith)
                        requires
                            -0x8000000000000000i128 <= acc as i128 <= 0x7fffffffffffffffi128,
                            -0x8000000000000000i128 <= n as i128 <= 0x7fffffffffffffffi128,
                    ;
                }
                let wide: i128 = (acc as i128) * (n as i128);
                if wide > i64::MAX as i128 || wide < i64::MIN as i128 {
                    return Result::Err(overflow_error(proc_name));
                }
                acc = wide as i64;
                rest = &c.cdr;
            },
        }
    }
    Result::Ok(Expr::Num(acc, Option::None))
}

/// Every element is a strictly positive number literal.
pub open spec fn pos_divisors(l: List) -> bool
    decreases l,
{
    match l {
        List::Nil => true,
        List::Cons(c) => (match *c.car {
            Expr::Num(v, _) => v > 0,
            _ => false,
        }) && pos_divisors(*c.cdr),
    }
}

/// The left fold of division over positive number literals.
pub open spec fn div_fold(l: List, acc: int) -> int
    decreases l,
{
    match l {
        List::Nil => acc,
        List::Cons(c) => div_fold(
            *c.cdr,
            acc / (match *c.car {
                Expr::Num(v, _) => v as int,
                _ => 1,
            }),
        ),
    }
}

/// `(/ a b ...)`: the first operand divided by the rest in turn, with
/// truncating integer division; dividing by zero is an error.
pub fn divide(proc_name: &str, args: &List, heap: &mut EnvHeap, ctx: EvalContext, fuel: u64) -> (r:
    EvalResult)
    requires
        old(heap).wf(),
        ctx.env.id < old(heap)@.len(),
        list_ok(*args, old(heap)@.len() as int),
    ensures
        final(heap).wf(),
        old(heap)@.len() <= final(heap)@.len(),
        result_ok(r, final(heap)@.len() as int),
        args@.len() == 0 ==> r matches Result::Err(_),
        fuel >= 2 ==> ((*args) matches List::Cons(c0) ==> ((*c0.car) matches Expr::Num(v0, _)
            ==> (v0 >= 0 && pos_divisors(*c0.cdr) ==> r == Result::<Expr, EvalError>::Ok(
            Expr::Num(div_fold(*c0.cdr, v0 as int) as i64, Option::None),
        ) && final(heap)@ == old(heap)@))),
    decreases fuel, 1int, 0int,
{
    match args {
        List::Nil => Result::Err(
            message_error(proc_name, ": requires at least 1 argument"),
        ),
        List::Cons(c0) => {
            proof {
                lemma_list_ok_elem(*args, 0, old(heap)@.len() as int);
            }
            if fuel == 0 {
                return Result::Err(deep_error());
            }
            proof {
                crate::expr::lemma_list_ok_parts(*args, old(heap)@.len() as int);
            }
            let first = eval_to_num(proc_name, &c0.car, heap, ctx, fuel - 1)?;
            let ghost tail0: List = *c0.cdr;
            let ghost v0g: int = first as int;
            let mut acc: i64 = first;
            let mut rest: &List = &c0.cdr;
            loop
                invariant
                    heap.wf(),
                    old(heap)@.len() <= heap@.len(),
                    ctx.env.id < old(heap)@.len(),
                    list_ok(*rest, heap@.len() as int),
                    fuel >= 2 ==> ((*args) matches List::Cons(cc) ==> (*cc.cdr == tail0 && ((
                    *cc.car) matches Expr::Num(vv, _) ==> vv as int == v0g))),
                    (fuel >= 2 && ((*args) matches List::Cons(ch) && (*ch.car)
                        matches Expr::Num(_, _)) && v0g >= 0 && pos_divisors(tail0)) ==> heap@
                        == old(heap)@ && pos_divisors(*rest) && 0 <= acc && div_fold(
                        *rest,
                        acc as int,
                    ) == div_fold(tail0, v0g),
                ensures
                    heap.wf(),
                    old(heap)@.len() <= heap@.len(),
                    (fuel >= 2 && ((*args) matches List::Cons(ch) && (*ch.car)
                        matches Expr::Num(_, _)) && v0g >= 0 && pos_divisors(tail0)) ==> heap@
                        == old(heap)@ && acc == div_fold(tail0, v0g),
                decreases rest@.len(),
            {
                match rest {
                    List::Nil => {
                        break;
                    },
                    List::Cons(c) => {
                        proof {
                            crate::expr::lemma_list_ok_parts(*rest, heap@.len() as int);
                        }
                        if fuel == 0 {
                            return Result::Err(deep_error());
                        }
                        let n = eval_to_num(proc_name, &c.car, heap, ctx, fuel - 1)?;
                        if n == 0 {
                            return Result::Err(message_error(proc_name, ": division by zero"));
                        }
                        if acc == i64::MIN && n == -1 {
                            return Result::Err(overflow_error(proc_name));
                        }
                        acc = acc / n;
                        rest = &c.cdr;
                    },
                }
            }
            Result::Ok(Expr::Num(acc, Option::None))
        },
    }
}

/// `(num? x)`: whether `x` evaluates to a number.
pub fn is_num(proc_name: &str, args: &List, heap: &mut EnvHeap, ctx: EvalContext, fuel: u64) -> (r:
    EvalResult)
    requires
        old(heap).wf(),
        ctx.env.id < old(heap)@.len(),
        list_ok(*args, old(heap)@.len() as int),
    ensures
        final(heap).wf(),
        old(heap)@.len() <= final(heap)@.len(),
        result_ok(r, final(heap)@.len() as int),
        args@.len() != 1 ==> r matches Result::Err(_),
        (fuel >= 1 && args@.len() == 1 && crate::eval::self_evaluating(args@[0])) ==> (r
            matches Result::Ok(v) && (crate::expr::expr_is_truthy(v) <==> args@[0]
            matches Expr::Num(_, _)) && final(heap)@ == old(heap)@),
    decreases fuel, 1int, 0int,
{
    let expr = get_exact_1_arg(proc_name, args)?;
    proof {
        lemma_list_ok_elem(*args, 0, old(heap)@.len() as int);
    }
    if fuel == 0 {
        return Result::Err(deep_error());
    }
    let v = eval(expr, heap, ctx, fuel - 1)?;
    let is_number = match v {
        Expr::Num(_, _) => true,
        _ => false,
    };
    Result::Ok(bool_expr(is_number))
}

} // verus!
