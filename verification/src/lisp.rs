//! Lisp values, and the S-expressions that they denote.

use crate::number::Int;
use crate::span::{FileSpan, Span};
use std::rc::Rc;
use vstd::prelude::*;

verus! {

/// An interned identifier.
#[derive(Clone, Copy, Debug, PartialEq, Eq, Structural)]
pub struct AtomId(pub u32);

/// The number of the atom `_`.
pub const UNDER: u32 = 0;

/// The number of the atom `:`.
pub const COLON: u32 = 1;

impl DeepView for AtomId {
    type V = AtomId;

    open spec fn deep_view(&self) -> AtomId {
        *self
    }
}

/// A syntax object: an identifier that the Lisp reader resolved to one of its own forms.
#[derive(Clone, Copy, Debug, PartialEq, Eq, Structural)]
pub enum Syntax {
    Begin,
    Define,
    If,
    Lambda,
    Let,
    Letrec,
    Match,
    MatchFn,
    MatchFns,
    Quote,
    Unquote,
}

/// The shapes of a Lisp value.
#[derive(Debug)]
pub enum LispKind {
    /// A proper list.
    List(Vec<LispVal>),
    /// A list whose elements are followed by a tail, which may itself be a list.
    DottedList(Vec<LispVal>, LispVal),
    Atom(AtomId),
    Number(Int),
    String(Vec<u8>),
    Bool(bool),
    Syntax(Syntax),
    Undef,
    /// A value together with the place that it was read from.
    Annot(FileSpan, LispVal),
}

/// A shared Lisp value.
#[derive(Debug)]
pub struct LispVal(pub Rc<LispKind>);

/// What a Lisp value denotes.
pub enum Sexp {
    List(Seq<Sexp>),
    DottedList(Seq<Sexp>, Box<Sexp>),
    Atom(AtomId),
    Number(int),
    String(Seq<u8>),
    Bool(bool),
    Syntax(Syntax),
    Undef,
    Annot(FileSpan, Box<Sexp>),
}

impl LispKind {
    /// The S-expression that a value of this shape denotes.
    pub open spec fn model(self) -> Sexp
        decreases self,
    {
        match self {
            LispKind::List(es) => Sexp::List(
                Seq::new(
                    es@.len(),
                    |i: int|
                        if 0 <= i < es@.len() {
                            (*es@[i].0).model()
                        } else {
                            Sexp::Undef
                        },
                ),
            ),
            LispKind::DottedList(es, r) => Sexp::DottedList(
                Seq::new(
                    es@.len(),
                    |i: int|
                        if 0 <= i < es@.len() {
                            (*es@[i].0).model()
                        } else {
                            Sexp::Undef
                        },
                ),
                Box::new((*r.0).model()),
            ),
            LispKind::Atom(a) => Sexp::Atom(a),
            LispKind::Number(n) => Sexp::Number(n@),
            LispKind::String(s) => Sexp::String(s@),
            LispKind::Bool(b) => Sexp::Bool(b),
            LispKind::Syntax(s) => Sexp::Syntax(s),
            LispKind::Undef => Sexp::Undef,
            LispKind::Annot(sp, e) => Sexp::Annot(sp, Box::new((*e.0).model())),
        }
    }
}

impl View for LispVal {
    type V = Sexp;

    open spec fn view(&self) -> Sexp {
        (*self.0).model()
    }
}

impl DeepView for LispVal {
    type V = Sexp;

    open spec fn deep_view(&self) -> Sexp {
        self.view()
    }
}

/// The lists among the shapes, with their elements seen through `deep_view`.
pub proof fn lemma_list_model(k: LispKind)
    ensures
        k matches LispKind::List(es) ==> k.model() == Sexp::List(es.deep_view()),
        k matches LispKind::DottedList(es, r) ==> k.model() == Sexp::DottedList(
            es.deep_view(),
            Box::new(r@),
        ),
{
    match k {
        LispKind::List(es) => {
            assert(k.model()->List_0 =~= es.deep_view());
        },
        LispKind::DottedList(es, r) => {
            assert(k.model()->DottedList_0 =~= es.deep_view());
        },
        _ => {},
    }
}

/// The sum of the sizes of S-expressions.
pub open spec fn sizes(es: Seq<Sexp>) -> nat
    decreases es,
{
    if es.len() == 0 {
        0
    } else {
        es[0].size() + sizes(es.drop_first())
    }
}

impl Sexp {
    /// The number of nodes, which bounds every recursion over an S-expression.
    pub open spec fn size(self) -> nat
        decreases self,
    {
        match self {
            Sexp::List(es) => 1 + sizes(es),
            Sexp::DottedList(es, r) => 1 + sizes(es) + r.size(),
            Sexp::Annot(_, e) => 1 + e.size(),
            _ => 1,
        }
    }

    /// The S-expression without the annotations around it.
    pub open spec fn unwrapped(self) -> Sexp
        decreases self,
    {
        match self {
            Sexp::Annot(_, e) => e.unwrapped(),
            _ => self,
        }
    }

    /// The position that the S-expression carries itself.
    pub open spec fn fspan(self) -> Option<FileSpan> {
        match self {
            Sexp::Annot(fsp, _) => Some(fsp),
            _ => None,
        }
    }

    /// The atom that the S-expression is, if it is one.
    pub open spec fn as_atom(self) -> Option<AtomId> {
        match self.unwrapped() {
            Sexp::Atom(a) => Some(a),
            _ => None,
        }
    }

    /// The number that the S-expression is, if it is one.
    pub open spec fn as_int(self) -> Option<int> {
        match self.unwrapped() {
            Sexp::Number(n) => Some(n),
            _ => None,
        }
    }

    /// The elements of a proper or improper list, and none for anything else.
    pub open spec fn items(self) -> Seq<Sexp>
        decreases self,
    {
        match self {
            Sexp::List(es) => es,
            Sexp::DottedList(es, r) => es + r.items(),
            Sexp::Annot(_, e) => e.items(),
            _ => Seq::empty(),
        }
    }

    /// Whether this is a proper list: one that ends in `()`.
    pub open spec fn is_list(self) -> bool
        decreases self,
    {
        match self {
            Sexp::List(_) => true,
            Sexp::DottedList(_, r) => r.is_list(),
            Sexp::Annot(_, e) => e.is_list(),
            _ => false,
        }
    }

    /// What remains of a list after its first element, and the S-expression itself where it has
    /// no elements.
    pub open spec fn tail(self) -> Sexp
        decreases self,
    {
        if self.items().len() == 0 {
            self
        } else {
            match self {
                Sexp::List(es) => Sexp::List(es.drop_first()),
                Sexp::DottedList(es, r) => if es.len() == 0 {
                    r.tail()
                } else if es.len() == 1 {
                    *r
                } else {
                    Sexp::DottedList(es.drop_first(), r)
                },
                Sexp::Annot(_, e) => e.tail(),
                _ => self,
            }
        }
    }

    /// The elements of a proper list with two elements.
    pub open spec fn pair(self) -> Option<(Sexp, Sexp)> {
        if self.is_list() && self.items().len() == 2 {
            Some((self.items()[0], self.items()[1]))
        } else {
            None
        }
    }
}

/// Removing the first element of a list leaves the others, and the way that it ends.
pub proof fn lemma_tail(e: Sexp)
    ensures
        e.items().len() > 0 ==> e.tail().items() == e.items().drop_first(),
        e.tail().is_list() == e.is_list(),
    decreases e,
{
    if e.items().len() > 0 {
        match e {
            Sexp::List(es) => {},
            Sexp::DottedList(es, r) => {
                if es.len() == 0 {
                    assert(e.items() =~= r.items());
                    lemma_tail(*r);
                } else if es.len() == 1 {
                    assert(e.items().drop_first() =~= r.items());
                } else {
                    assert(e.tail().items() =~= e.items().drop_first());
                }
            },
            Sexp::Annot(_, x) => {
                lemma_tail(*x);
            },
            _ => {},
        }
    }
}

/// Annotations around a list do not change its elements, the way that it ends, or what follows its
/// first element.
pub proof fn lemma_unwrapped_list(e: Sexp)
    ensures
        e.items() == e.unwrapped().items(),
        e.is_list() == e.unwrapped().is_list(),
        e.items().len() > 0 ==> e.tail() == e.unwrapped().tail(),
        e.unwrapped().size() <= e.size(),
    decreases e,
{
    match e {
        Sexp::Annot(_, x) => {
            lemma_unwrapped_list(*x);
        },
        _ => {},
    }
}

/// The sizes of two sequences together.
pub proof fn lemma_sizes_add(a: Seq<Sexp>, b: Seq<Sexp>)
    ensures
        sizes(a + b) == sizes(a) + sizes(b),
    decreases a.len(),
{
    if a.len() == 0 {
        assert(a + b =~= b);
    } else {
        assert((a + b).drop_first() =~= a.drop_first() + b);
        lemma_sizes_add(a.drop_first(), b);
    }
}

/// The elements of a list are smaller than it, even taken together.
pub proof fn lemma_items_smaller(e: Sexp)
    ensures
        sizes(e.items()) < e.size(),
    decreases e,
{
    match e {
        Sexp::DottedList(es, r) => {
            lemma_items_smaller(*r);
            lemma_sizes_add(es, r.items());
        },
        Sexp::Annot(_, x) => {
            lemma_items_smaller(*x);
        },
        _ => {},
    }
}

/// No element of a sequence is larger than all of them together.
pub proof fn lemma_size_of_element(es: Seq<Sexp>, i: int)
    requires
        0 <= i < es.len(),
    ensures
        es[i].size() <= sizes(es),
    decreases es.len(),
{
    if i > 0 {
        assert(es[i] == es.drop_first()[i - 1]);
        lemma_size_of_element(es.drop_first(), i - 1);
    }
}

/// What follows the first element of a list is smaller than the list.
pub proof fn lemma_tail_smaller(e: Sexp)
    ensures
        sizes(e.tail().items()) < e.size(),
        forall|i: int|
            0 <= i < e.tail().items().len() ==> (#[trigger] e.tail().items()[i]).size() < e.size(),
{
    lemma_items_smaller(e);
    lemma_tail(e);
    assert forall|i: int| 0 <= i < e.tail().items().len() implies (
    #[trigger] e.tail().items()[i]).size() < e.size() by {
        lemma_size_of_element(e.tail().items(), i);
    }
}

impl Clone for LispVal {
    fn clone(&self) -> (r: LispVal)
        ensures
            r == *self,
    {
        LispVal(self.0.clone())
    }
}

impl LispVal {
    /// Wraps a shape into a value.
    pub fn new(k: LispKind) -> (r: LispVal)
        ensures
            r@ == k.model(),
    {
        LispVal(Rc::new(k))
    }

    /// The shape of the value, under any annotations.
    pub fn unwrapped(&self) -> (r: &LispKind)
        ensures
            r.model() == self@.unwrapped(),
            r !is Annot,
        decreases self@.size(),
    {
        match &*self.0 {
            LispKind::Annot(_, e) => e.unwrapped(),
            k => k,
        }
    }

    /// The position that the value carries itself.
    pub fn fspan(&self) -> (r: Option<FileSpan>)
        ensures
            r == self@.fspan(),
    {
        match &*self.0 {
            LispKind::Annot(fsp, _) => Some(*fsp),
            _ => None,
        }
    }

    /// The atom that the value is, if it is one.
    pub fn as_atom(&self) -> (r: Option<AtomId>)
        ensures
            r == self@.as_atom(),
    {
        match self.unwrapped() {
            LispKind::Atom(a) => Some(*a),
            _ => None,
        }
    }

    /// Whether the value is a proper list.
    pub fn is_list(&self) -> (r: bool)
        ensures
            r == self@.is_list(),
        decreases self@.size(),
    {
        match &*self.0 {
            LispKind::List(_) => true,
            LispKind::DottedList(_, r) => r.is_list(),
            LispKind::Annot(_, e) => e.is_list(),
            _ => false,
        }
    }
}

/// The span to report for `e` while a construct at `fsp` is being read: the position that `e`
/// carries, where that lies in the same file and does not start before `fsp`, and `fsp` otherwise.
pub fn try_get_span(fsp: &FileSpan, e: &LispVal) -> (r: Span)
    ensures
        r == fsp.narrow(e@.fspan()),
{
    match e.fspan() {
        Some(inner) => if inner.file == fsp.file && inner.span.start >= fsp.span.start {
            inner.span
        } else {
            fsp.span
        },
        None => fsp.span,
    }
}

} // verus!
