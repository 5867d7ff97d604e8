//! The parser, which maps Lisp values to the abstract syntax of MMC.

use crate::env::{Environment, FormatEnv};
use crate::error::{ElabError, ErrorView, Message};
use crate::keyword::Keyword;
use crate::lisp::{try_get_span, AtomId, LispKind, LispVal, Sexp};
use crate::span::{FileSpan, Span, Spanned};
use crate::uncons::Uncons;
use std::collections::HashMap;
use std::hash::BuildHasher;
use vstd::prelude::*;
use vstd::std_specs::hash::builds_valid_hashers;

pub mod call;
pub mod complaints;
pub mod declarations;
pub mod expr;
pub mod expressions;
pub mod item;
pub mod laws;
pub mod meanings;
pub mod mm0;
pub mod pattern;
pub mod readback;
pub mod scopes;
pub mod types;

verus! {

/// The parser, which has no real state of its own but needs access to the environment and the
/// keyword table.
#[derive(Clone, Copy, Debug)]
pub struct Parser<'a> {
    /// The environment.
    pub fe: FormatEnv<'a>,
    /// The keyword table, by the numbers of the atoms.
    pub kw: &'a HashMap<u32, Keyword>,
}

/// What is read depends on the environment and on the keyword table, and where it is said to stand
/// depends on the place of the construct around it. The grammar of MMC is given relative to these.
pub struct Grammar {
    /// The environment.
    pub env: Environment,
    /// The keyword table, by the numbers of the atoms.
    pub kw: Map<u32, Keyword>,
    /// The place of the construct that is being read.
    pub base: FileSpan,
}

/// The entry of a table under an atom.
pub open spec fn lookup<T>(m: Map<u32, T>, a: AtomId) -> Option<T> {
    if m.contains_key(a.0) {
        Some(m[a.0])
    } else {
        None
    }
}

/// The keyword that an atom or a syntax object stands for.
pub open spec fn keyword_of(kw: Map<u32, Keyword>, e: Sexp) -> Option<Keyword> {
    match e.unwrapped() {
        Sexp::Atom(a) => lookup(kw, a),
        Sexp::Syntax(s) => Keyword::of_syntax(s),
        _ => None,
    }
}

/// The keyword at the head of a list, with what follows it.
pub open spec fn head_keyword_of(kw: Map<u32, Keyword>, e: Sexp) -> Option<(Keyword, Sexp)> {
    if e.items().len() == 0 {
        None
    } else {
        match keyword_of(kw, e.items()[0]) {
            Some(k) => Some((k, e.tail())),
            None => None,
        }
    }
}

/// The atom at the head of a list, with what follows it.
pub open spec fn head_atom_of(e: Sexp) -> Option<(AtomId, Sexp)> {
    if e.items().len() == 0 {
        None
    } else {
        match e.items()[0].as_atom() {
            Some(a) => Some((a, e.tail())),
            None => None,
        }
    }
}

impl Grammar {
    /// The keyword that an atom stands for.
    pub open spec fn atom_keyword(self, a: AtomId) -> Option<Keyword> {
        lookup(self.kw, a)
    }

    /// Whether an S-expression is an atom that stands for the given keyword.
    pub open spec fn is_atom_keyword(self, e: Sexp, k: Keyword) -> bool {
        e.as_atom() matches Some(a) && self.atom_keyword(a) == Some(k)
    }

    /// The keyword at the head of a list, with what follows it.
    pub open spec fn head_keyword(self, e: Sexp) -> Option<(Keyword, Sexp)> {
        head_keyword_of(self.kw, e)
    }

    /// The place that is reported for a part of the construct.
    pub open spec fn span_of(self, e: Sexp) -> Span {
        self.base.narrow(e.fspan())
    }

    /// The place of a part of the construct, with its file.
    pub open spec fn fspan_of(self, e: Sexp) -> FileSpan {
        FileSpan { file: self.base.file, span: self.span_of(e) }
    }

    /// Something that was read from `e`.
    pub open spec fn at<T>(self, e: Sexp, k: T) -> Spanned<T> {
        Spanned { span: self.fspan_of(e), k }
    }

    /// A complaint about `e`.
    pub open spec fn error(self, e: Sexp, msg: Message<Sexp>) -> ErrorView {
        ErrorView { pos: self.span_of(e), msg }
    }
}

/// The results read so far, put before those of what is left.
pub open spec fn prepend<T>(done: Seq<T>, rest: Result<Seq<T>, ErrorView>) -> Result<
    Seq<T>,
    ErrorView,
> {
    match rest {
        Ok(more) => Ok(done + more),
        Err(x) => Err(x),
    }
}

/// Nothing read so far leaves the results of what is left as they are.
pub proof fn lemma_prepend_empty<T>(rest: Result<Seq<T>, ErrorView>)
    ensures
        prepend(Seq::empty(), rest) == rest,
{
    match rest {
        Ok(more) => {
            assert(Seq::<T>::empty() + more =~= more);
        },
        Err(_) => {},
    }
}

/// More results read, and as many less left.
pub proof fn lemma_prepend_prepend<T>(done: Seq<T>, xs: Seq<T>, rest: Result<Seq<T>, ErrorView>)
    ensures
        prepend(done, prepend(xs, rest)) == prepend(done + xs, rest),
{
    match rest {
        Ok(more) => {
            assert(done + (xs + more) =~= (done + xs) + more);
        },
        Err(_) => {},
    }
}

/// One more result read, and one less left.
pub proof fn lemma_prepend_push<T>(done: Seq<T>, x: T, rest: Result<Seq<T>, ErrorView>)
    ensures
        prepend(done, prepend(seq![x], rest)) == prepend(done.push(x), rest),
{
    match rest {
        Ok(more) => {
            assert(done + (seq![x] + more) =~= done.push(x) + more);
        },
        Err(_) => {},
    }
}

/// Looks an atom up in a table.
pub fn get_atom<T: Copy, S: BuildHasher>(m: &HashMap<u32, T, S>, a: AtomId) -> (r: Option<T>)
    requires
        builds_valid_hashers::<S>(),
    ensures
        r == lookup(m@, a),
{
    match m.get(&a.0) {
        Some(x) => Some(*x),
        None => None,
    }
}

fn head_atom(e: &LispVal) -> (r: Option<(AtomId, Uncons)>)
    ensures
        r.deep_view() == head_atom_of(e@),
{
    let mut u = Uncons::new(e.clone());
    match u.next() {
        Some(h) => match h.as_atom() {
            Some(a) => Some((a, u)),
            None => None,
        },
        None => None,
    }
}

/// Try to parse an atom or syntax object into a keyword.
#[must_use]
pub fn as_keyword<S: BuildHasher>(kw: &HashMap<u32, Keyword, S>, e: &LispVal) -> (r: Option<
    Keyword,
>)
    requires
        builds_valid_hashers::<S>(),
    ensures
        r == keyword_of(kw@, e@),
{
    match e.unwrapped() {
        LispKind::Atom(a) => get_atom(kw, *a),
        LispKind::Syntax(s) => Keyword::from_syntax(*s),
        _ => None,
    }
}

/// Try to parse the head keyword of an expression `(KEYWORD args..)`,
/// and return the pair `(KEYWORD, args)` on success.
#[must_use]
pub fn head_keyword<S: BuildHasher>(kw: &HashMap<u32, Keyword, S>, e: &LispVal) -> (r: Option<
    (Keyword, Uncons),
>)
    requires
        builds_valid_hashers::<S>(),
    ensures
        match r {
            Some((k, u)) => head_keyword_of(kw@, e@) == Some((k, u@)),
            None => head_keyword_of(kw@, e@) is None,
        },
{
    let mut u = Uncons::new(e.clone());
    match u.next() {
        Some(h) => match as_keyword(kw, &h) {
            Some(k) => Some((k, u)),
            None => None,
        },
        None => None,
    }
}

fn try_get_fspan(fsp: &FileSpan, e: &LispVal) -> (r: FileSpan)
    ensures
        r == (FileSpan { file: fsp.file, span: fsp.narrow(e@.fspan()) }),
{
    FileSpan { file: fsp.file, span: try_get_span(fsp, e) }
}

/// Uses the span of the value to construct a [`Spanned`].
pub fn spanned<T>(fsp: &FileSpan, e: &LispVal, k: T) -> (r: Spanned<T>)
    ensures
        r.span == (FileSpan { file: fsp.file, span: fsp.narrow(e@.fspan()) }),
        r.k == k,
{
    Spanned { span: try_get_fspan(fsp, e), k }
}

/// A complaint about a value.
fn error_at(fsp: &FileSpan, e: &LispVal, msg: Message<LispVal>) -> (r: ElabError)
    ensures
        r.deep_view() == (ErrorView { pos: fsp.narrow(e@.fspan()), msg: msg.deep_view() }),
{
    ElabError::new_e(try_get_span(fsp, e), msg)
}

impl<'a> Parser<'a> {
    /// The grammar by which this parser reads a construct that stands at `base`.
    pub open spec fn grammar(self, base: FileSpan) -> Grammar {
        Grammar { env: *self.fe.env, kw: self.kw@, base }
    }

    fn head_keyword(&self, e: &LispVal) -> (r: Option<(Keyword, Uncons)>)
        ensures
            match r {
                Some((k, u)) => head_keyword_of(self.kw@, e@) == Some((k, u@)),
                None => head_keyword_of(self.kw@, e@) is None,
            },
    {
        head_keyword(self.kw, e)
    }

    /// Whether a value is an atom that stands for the given keyword.
    fn is_atom_keyword(&self, e: &LispVal, k: Keyword) -> (r: bool)
        ensures
            forall|base: FileSpan| #[trigger]
                self.grammar(base).is_atom_keyword(e@, k) == r,
    {
        match e.as_atom() {
            Some(a) => match get_atom(self.kw, a) {
                Some(k2) => k == k2,
                None => false,
            },
            None => false,
        }
    }
}

} // verus!
