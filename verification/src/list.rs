//! The cons-cell list structure that represents both code and data.
//!
//! A [`List`] is always a proper list (`Nil` or a `Cons` whose tail is again a
//! `List`), so its view is simply the sequence of its elements.

use vstd::prelude::*;

use crate::expr::{expr_span, list_eq, list_repr, write_expr, Expr};
use crate::span::Span;

verus! {

/// One cons cell: an element and the rest of the list.
#[derive(Debug, PartialEq)]
pub struct Cons {
    pub car: Box<Expr>,
    pub cdr: Box<List>,
}

/// A proper singly-linked list of expressions.
#[derive(Debug, PartialEq)]
pub enum List {
    Cons(Cons),
    Nil,
}

/// The sequence of a list's elements.
pub open spec fn list_model(l: List) -> Seq<Expr>
    decreases l,
{
    match l {
        List::Nil => Seq::empty(),
        List::Cons(c) => seq![*c.car] + list_model(*c.cdr),
    }
}

impl View for List {
    type V = Seq<Expr>;

    open spec fn view(&self) -> Seq<Expr> {
        list_model(*self)
    }
}

/// The span of a list: from its first element's start to its last element's
/// end, and nothing at all when any element lacks a span.
pub open spec fn list_span_spec(s: Seq<Expr>) -> Option<Span> {
    if s.len() == 0 {
        Option::None
    } else if forall|i: int| 0 <= i < s.len() ==> (#[trigger] expr_span(s[i])) is Some {
        Option::Some(
            Span {
                begin: expr_span(s[0]).unwrap().begin,
                end: expr_span(s[s.len() - 1]).unwrap().end,
            },
        )
    } else {
        Option::None
    }
}

impl Cons {
    /// Builds the cell holding `car` followed by `cdr`.
    pub fn new(car: Expr, cdr: List) -> (r: Cons)
        ensures
            r.car == car,
            r.cdr == cdr,
    {
        Cons { car: Box::new(car), cdr: Box::new(cdr) }
    }

    /// The second element of the list rooted at this cell, if any.
    pub fn cdar(&self) -> (r: Option<&Expr>)
        ensures
            match r {
                Option::Some(e) => self.cdr@.len() > 0 && *e == self.cdr@[0],
                Option::None => self.cdr@.len() == 0,
            },
    {
        match &*self.cdr {
            List::Cons(c2) => Option::Some(&*c2.car),
            List::Nil => Option::None,
        }
    }
}

impl List {
    /// A restartable forward iterator over the elements.
    pub fn iter(&self) -> (r: ListIter<'_>)
        ensures
            r.list == self,
    {
        ListIter::new(self)
    }

    /// The number of elements.
    pub fn len(&self) -> (r: usize)
        requires
            self@.len() <= usize::MAX,
        ensures
            r == self@.len(),
    {
        let mut count: usize = 0;
        let mut rest: &List = self;
        loop
            invariant
                self@.len() <= usize::MAX,
                count + rest@.len() == self@.len(),
            ensures
                count == self@.len(),
            decreases rest@.len(),
        {
            match rest {
                List::Nil => {
                    break;
                },
                List::Cons(c) => {
                    count = count + 1;
                    rest = &c.cdr;
                },
            }
        }
        count
    }

    /// True for the empty list.
    pub fn is_nil(&self) -> (r: bool)
        ensures
            r == (self@.len() == 0),
            r == (*self is Nil),
    {
        match self {
            List::Nil => true,
            List::Cons(_) => false,
        }
    }

    /// The tail of the list, when there is one.
    pub fn cdr(&self) -> (r: Option<&List>)
        ensures
            match r {
                Option::Some(t) => self@.len() > 0 && t@ == self@.skip(1),
                Option::None => self@.len() == 0,
            },
    {
        match self {
            List::Cons(c) => {
                proof {
                    assert((*c.cdr)@ =~= self@.skip(1));
                }
                Option::Some(&*c.cdr)
            },
            List::Nil => Option::None,
        }
    }

    /// The first element, when there is one.
    pub fn car(&self) -> (r: Option<&Expr>)
        ensures
            match r {
                Option::Some(e) => self@.len() > 0 && *e == self@[0],
                Option::None => self@.len() == 0,
            },
    {
        match self {
            List::Cons(c) => Option::Some(&*c.car),
            List::Nil => Option::None,
        }
    }

    /// The source region covered by the elements, per [`list_span_spec`]:
    /// present only when every element carries a span.
    pub fn span(&self) -> (r: Option<Span>)
        ensures
            r == list_span_spec(self@),
    {
        match self {
            List::Nil => Option::None,
            List::Cons(c) => {
                let first: &Expr = &*c.car;
                let mut last: &Expr = first;
                let mut all_spanned: bool = first.span().is_some();
                let mut rest: &List = &*c.cdr;
                let ghost mut i: int = 0;
                loop
                    invariant
                        0 <= i < self@.len(),
                        *last == self@[i],
                        rest@ == self@.skip(i + 1),
                        *first == self@[0],
                        all_spanned == (forall|j: int|
                            0 <= j <= i ==> (#[trigger] expr_span(self@[j])) is Some),
                    ensures
                        i == self@.len() - 1,
                        *last == self@[self@.len() - 1],
                        *first == self@[0],
                        all_spanned == (forall|j: int|
                            0 <= j < self@.len() ==> (#[trigger] expr_span(self@[j])) is Some),
                    decreases rest@.len(),
                {
                    match rest {
                        List::Nil => {
                            proof {
                                assert(self@.skip(i + 1).len() == 0);
                            }
                            break;
                        },
                        List::Cons(c2) => {
                            proof {
                                assert(rest@ == seq![*c2.car] + (*c2.cdr)@);
                                assert(self@.skip(i + 1)[0] == self@[i + 1]);
                                assert(rest@.skip(1) =~= (*c2.cdr)@);
                                assert(self@.skip(i + 1).skip(1) =~= self@.skip(i + 2));
                            }
                            let ghost all_before: bool = all_spanned;
                            last = &*c2.car;
                            all_spanned = all_spanned && last.span().is_some();
                            rest = &*c2.cdr;
                            proof {
                                i = i + 1;
                                assert forall|j: int|
                                    all_spanned && 0 <= j <= i implies (#[trigger] expr_span(
                                    self@[j],
                                )) is Some by {
                                    if j < i {
                                        assert(all_before);
                                    }
                                }
                            }
                        },
                    }
                }
                if !all_spanned {
                    Option::None
                } else {
                    match (first.span(), last.span()) {
                        (Option::Some(a), Option::Some(b)) => Option::Some(
                            Span::new(a.begin, b.end),
                        ),
                        _ => Option::None,
                    }
                }
            },
        }
    }

    /// A deep copy of this list.
    pub fn duplicate(&self) -> (r: List)
        ensures
            r == *self,
        decreases self,
    {
        match self {
            List::Nil => List::Nil,
            List::Cons(c) => List::Cons(
                Cons { car: Box::new(c.car.duplicate()), cdr: Box::new(c.cdr.duplicate()) },
            ),
        }
    }

    /// Structural equality of two lists, ignoring spans.
    pub fn equals(&self, other: &List) -> (r: bool)
        ensures
            r == list_eq(*self, *other),
        decreases self,
    {
        match (self, other) {
            (List::Nil, List::Nil) => true,
            (List::Cons(c1), List::Cons(c2)) => c1.car.equals(&*c2.car) && c1.cdr.equals(
                &*c2.cdr,
            ),
            _ => false,
        }
    }

    /// Builds a list holding the elements of `items`, in order.
    pub fn from_vec(items: Vec<Expr>) -> (r: List)
        ensures
            r@ == items@,
    {
        let ghost orig: Seq<Expr> = items@;
        let mut rest = items;
        let mut acc = List::Nil;
        loop
            invariant
                rest@ + acc@ =~= orig,
            ensures
                acc@ == orig,
            decreases rest@.len(),
        {
            match rest.pop() {
                Option::Some(e) => {
                    acc = cons(e, acc);
                },
                Option::None => {
                    proof {
                        assert(rest@ + acc@ =~= acc@);
                    }
                    break;
                },
            }
        }
        acc
    }

    /// Renders this list as surface syntax, parentheses included.
    pub fn to_display_string(&self) -> (r: String)
        ensures
            r@ == list_repr(*self, true),
    {
        let mut out = String::new();
        write_list(&mut out, self, true);
        out
    }
}

impl Clone for List {
    /// A deep copy equal to the original.
    fn clone(&self) -> (r: List)
        ensures
            r == *self,
    {
        self.duplicate()
    }
}

impl Clone for Cons {
    /// A deep copy equal to the original.
    fn clone(&self) -> (r: Cons)
        ensures
            r == *self,
    {
        Cons { car: Box::new(self.car.duplicate()), cdr: Box::new(self.cdr.duplicate()) }
    }
}

/// Appends the rendering of `list`: at the top level `(a b c)`, below it
/// ` a b c` (each element preceded by one space), matching [`list_repr`].
pub fn write_list(out: &mut String, list: &List, is_top_level: bool)
    ensures
        final(out)@ == old(out)@ + list_repr(*list, is_top_level),
    decreases list,
{
    if is_top_level {
        out.append("(");
    }
    if let List::Cons(c) = list {
        if is_top_level {
            write_expr(out, &*c.car);
        } else {
            out.append(" ");
            write_expr(out, &*c.car);
        }
        write_list(out, &*c.cdr, false);
    }
    if is_top_level {
        out.append(")");
    }
    proof {
        reveal_strlit("(");
        reveal_strlit(")");
        reveal_strlit(" ");
        assert("("@ =~= seq!['(']);
        assert(")"@ =~= seq![')']);
        assert(" "@ =~= seq![' ']);
        assert(final(out)@ =~= old(out)@ + list_repr(*list, is_top_level));
    }
}

/// Prepends `car` to `cdr`.
pub fn cons(car: Expr, cdr: List) -> (r: List)
    ensures
        r@ == seq![car] + cdr@,
{
    List::Cons(Cons::new(car, cdr))
}

/// A lazy, restartable forward iterator over a list's elements.
pub struct ListIter<'a> {
    pub list: &'a List,
}

impl<'a> ListIter<'a> {
    /// Starts an iteration over `list`.
    pub fn new(list: &'a List) -> (r: ListIter<'a>)
        ensures
            r.list == list,
    {
        ListIter { list }
    }

    /// The next element, advancing past it.
    pub fn next(&mut self) -> (r: Option<&'a Expr>)
        ensures
            match r {
                Option::Some(e) => old(self).list@.len() > 0 && *e == old(self).list@[0]
                    && final(self).list@ == old(self).list@.skip(1),
                Option::None => old(self).list@.len() == 0 && *final(self) == *old(self),
            },
    {
        match self.list {
            List::Cons(c) => {
                let car: &'a Expr = &*c.car;
                proof {
                    assert((*c.cdr)@ =~= self.list@.skip(1));
                }
                self.list = &*c.cdr;
                Option::Some(car)
            },
            List::Nil => Option::None,
        }
    }
}

} // verus!
