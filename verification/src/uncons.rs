//! A cursor over the elements of a list.

use crate::lisp::{lemma_list_model, lemma_tail, lemma_unwrapped_list, LispKind, LispVal, Sexp};
use crate::vecs::{clone_range, empty_vec, push_to};
use vstd::prelude::*;

verus! {

/// An iterator over the elements of a Lisp value that acts like a list. It stands for the part of
/// the list that has not been visited.
#[derive(Debug)]
pub struct Uncons {
    /// The value whose elements are visited.
    val: LispVal,
    /// How many leading elements of the outermost list or dotted list in `val` are behind the
    /// cursor.
    pos: usize,
}

/// What follows the first `n` elements.
spec fn beyond(es: Seq<Sexp>, n: int) -> Seq<Sexp> {
    if n <= es.len() {
        es.skip(n)
    } else {
        Seq::empty()
    }
}

impl View for Uncons {
    type V = Sexp;

    closed spec fn view(&self) -> Sexp {
        if self.pos == 0 {
            self.val@
        } else {
            match self.val@.unwrapped() {
                Sexp::List(es) => Sexp::List(beyond(es, self.pos as int)),
                Sexp::DottedList(es, r) => if self.pos >= es.len() {
                    *r
                } else {
                    Sexp::DottedList(beyond(es, self.pos as int), r)
                },
                _ => self.val@,
            }
        }
    }
}

impl DeepView for Uncons {
    type V = Sexp;

    open spec fn deep_view(&self) -> Sexp {
        self.view()
    }
}

impl Uncons {
    /// A bound on the depth of the dotted tails still to be entered.
    pub closed spec fn weight(self) -> nat {
        self.val@.size()
    }

    /// A cursor before the first element of a value.
    pub fn new(e: LispVal) -> (r: Uncons)
        ensures
            r@ == e@,
    {
        Uncons { val: e, pos: 0 }
    }

    /// A cursor over the elements of a vector.
    pub fn of_vec(es: Vec<LispVal>) -> (r: Uncons)
        ensures
            r@ == Sexp::List(es.deep_view()),
    {
        proof {
            lemma_list_model(LispKind::List(es));
        }
        Uncons::new(LispVal::new(LispKind::List(es)))
    }

    /// Visits the next element.
    pub fn next(&mut self) -> (r: Option<LispVal>)
        ensures
            r.deep_view() == (if old(self)@.items().len() > 0 {
                Some(old(self)@.items()[0])
            } else {
                None
            }),
            final(self)@ == old(self)@.tail(),
            final(self)@.is_list() == old(self)@.is_list(),
            old(self)@.items().len() > 0 ==> final(self)@.items()
                == old(self)@.items().drop_first(),
        decreases old(self).weight(),
    {
        let ghost before = *self;
        proof {
            lemma_unwrapped_list(self.val@);
            lemma_tail(self@);
        }
        match self.val.unwrapped() {
            LispKind::List(es) => {
                proof {
                    lemma_list_model(LispKind::List(*es));
                }
                if self.pos < es.len() {
                    let x = es[self.pos].clone();
                    self.pos = self.pos + 1;
                    proof {
                        let all = es.deep_view();
                        assert(beyond(all, before.pos as int).drop_first() =~= beyond(
                            all,
                            self.pos as int,
                        ));
                        if before.pos == 0 {
                            assert(all.skip(0) =~= all);
                        }
                    }
                    Some(x)
                } else {
                    None
                }
            },
            LispKind::DottedList(es, r) => {
                proof {
                    lemma_list_model(LispKind::DottedList(*es, *r));
                }
                if self.pos < es.len() {
                    let x = es[self.pos].clone();
                    self.pos = self.pos + 1;
                    proof {
                        let all = es.deep_view();
                        assert(beyond(all, before.pos as int).drop_first() =~= beyond(
                            all,
                            self.pos as int,
                        ));
                        assert(all.skip(0) =~= all);
                    }
                    Some(x)
                } else {
                    let mut u = Uncons { val: r.clone(), pos: 0 };
                    proof {
                        assert(es.deep_view() + r@.items() =~= r@.items() || es.len() > 0);
                    }
                    match u.next() {
                        Some(x) => {
                            *self = u;
                            Some(x)
                        },
                        None => None,
                    }
                }
            },
            _ => None,
        }
    }

    /// The value that the cursor stands for.
    pub fn as_lisp(&self) -> (r: LispVal)
        ensures
            r@ == self@,
    {
        if self.pos == 0 {
            return self.val.clone();
        }
        match self.val.unwrapped() {
            LispKind::List(es) => {
                let n = es.len();
                let v = clone_range(es, if self.pos < n { self.pos } else { n }, n);
                proof {
                    lemma_list_model(LispKind::List(*es));
                    lemma_list_model(LispKind::List(v));
                    assert(v.deep_view() =~= beyond(es.deep_view(), self.pos as int));
                }
                LispVal::new(LispKind::List(v))
            },
            LispKind::DottedList(es, r) => {
                proof {
                    lemma_list_model(LispKind::DottedList(*es, *r));
                }
                if self.pos >= es.len() {
                    r.clone()
                } else {
                    let v = clone_range(es, self.pos, es.len());
                    let r2 = r.clone();
                    proof {
                        lemma_list_model(LispKind::DottedList(v, r2));
                        assert(v.deep_view() =~= beyond(es.deep_view(), self.pos as int));
                    }
                    LispVal::new(LispKind::DottedList(v, r2))
                }
            },
            _ => self.val.clone(),
        }
    }

    /// A second cursor at the same place.
    pub fn copy(&self) -> (r: Uncons)
        ensures
            r@ == self@,
    {
        Uncons { val: self.val.clone(), pos: self.pos }
    }

    /// The next element, without visiting it.
    pub fn head(&self) -> (r: Option<LispVal>)
        ensures
            r.deep_view() == (if self@.items().len() > 0 {
                Some(self@.items()[0])
            } else {
                None
            }),
    {
        self.copy().next()
    }

    /// Whether a proper list has been visited to its end.
    pub fn is_empty(&self) -> (r: bool)
        ensures
            r == (self@.is_list() && self@.items().len() == 0),
    {
        match self.head() {
            Some(_) => false,
            None => self.as_lisp().is_list(),
        }
    }

    /// The elements that are left.
    pub fn collect(self) -> (r: Vec<LispVal>)
        ensures
            r.deep_view() == self@.items(),
    {
        let mut u = self;
        let ghost all = u@.items();
        let mut v: Vec<LispVal> = empty_vec();
        loop
            invariant
                all == self@.items(),
                v.deep_view() + u@.items() == all,
            decreases u@.items().len(),
        {
            match u.next() {
                Some(x) => {
                    push_to(&mut v, x);
                    assert(v.deep_view() + u@.items() =~= all);
                },
                None => {
                    assert(v.deep_view() =~= all);
                    return v;
                },
            }
        }
    }

    /// The number of elements that are left.
    pub fn len(&self) -> (r: usize)
        ensures
            r == self@.items().len(),
    {
        let v = self.copy().collect();
        assert(v.deep_view().len() == v@.len());
        v.len()
    }

    /// The elements, where exactly two are left of a proper list.
    pub fn pair(self) -> (r: Option<(LispVal, LispVal)>)
        ensures
            r.deep_view() == self@.pair(),
    {
        let mut u = self;
        let a = u.next();
        let b = u.next();
        match (a, b) {
            (Some(a), Some(b)) => if u.is_empty() {
                Some((a, b))
            } else {
                None
            },
            _ => None,
        }
    }
}

} // verus!
