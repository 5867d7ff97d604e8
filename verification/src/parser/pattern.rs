//! Tuple patterns, arguments, variants, declarations and renamings.

use super::{error_at, get_atom, head_atom, head_atom_of, lemma_prepend_empty};
use super::{lemma_prepend_prepend, lemma_prepend_push, prepend, spanned, try_get_fspan};
use super::{Grammar, Parser};
use crate::ast::{lemma_tuple_model, ExprKind, ExprView, MutOut, Renames, RenamesView};
use crate::ast::{TuplePattern, TuplePatternKind, TupleView, Variant, VariantType, VariantView};
use crate::error::{outcome, ElabError, ErrorView, Message};
use crate::keyword::Keyword;
use crate::lisp::{lemma_items_smaller, lemma_tail_smaller, sizes};
use crate::lisp::{AtomId, LispVal, Sexp, COLON, UNDER};
use crate::span::{FileSpan, Spanned};
use crate::uncons::Uncons;
use crate::vecs::{append_to, empty_vec, push_to, vec_of};
use vstd::prelude::*;

verus! {

// ---------------------------------------------------------------------------------------------
// Variants

impl Grammar {
    /// `(variant e)`, `(variant e < bound)` or `(variant e <= bound)`.
    pub open spec fn variant(self, e: Sexp) -> Option<VariantView> {
        match self.head_keyword(e) {
            Some((Keyword::Variant, rest)) => {
                let es = rest.items();
                if es.len() == 0 {
                    None
                } else if es.len() == 1 {
                    Some(self.at(e, (es[0], VariantType::Down)))
                } else if es.len() >= 3 && self.is_atom_keyword(es[1], Keyword::Lt) {
                    Some(self.at(e, (es[0], VariantType::UpLt(es[2]))))
                } else if es.len() >= 3 && self.is_atom_keyword(es[1], Keyword::Le) {
                    Some(self.at(e, (es[0], VariantType::UpLe(es[2]))))
                } else {
                    None
                }
            },
            _ => None,
        }
    }
}

impl<'a> Parser<'a> {
    pub(crate) fn parse_variant(&self, base: &FileSpan, e: &LispVal) -> (r: Option<Box<Variant>>)
        ensures
            r.deep_view() == self.grammar(*base).variant(e@),
    {
        match self.head_keyword(e) {
            Some((Keyword::Variant, u)) => {
                let mut u = u;
                let first = u.next()?;
                let dir = match u.next() {
                    None => VariantType::Down,
                    Some(rel) => match get_atom(self.kw, rel.as_atom()?) {
                        Some(Keyword::Lt) => VariantType::UpLt(u.next()?),
                        Some(Keyword::Le) => VariantType::UpLe(u.next()?),
                        _ => return None,
                    },
                };
                Some(Box::new(spanned(base, e, (first, dir))))
            },
            _ => None,
        }
    }
}

// ---------------------------------------------------------------------------------------------
// Tuple patterns

impl Grammar {
    /// A tuple pattern. With `ghost`, all its variables are ghost.
    pub open spec fn tuple_pattern(self, ghost: bool, e: Sexp) -> Result<
        Spanned<TupleView>,
        ErrorView,
    >
        decreases e.size(), 0nat,
    {
        proof {
            lemma_items_smaller(e);
            lemma_tail_smaller(e);
        }
        match e.as_atom() {
            Some(a) => Ok(self.at(e, TupleView::Name(ghost || a.0 == UNDER, a))),
            None => if !e.is_list() {
                Err(self.error(e, Message::TuplePattern(e)))
            } else {
                match self.head_keyword(e) {
                    Some((Keyword::Colon, rest)) => match rest.pair() {
                        Some((p, ty)) => match self.tuple_pattern(ghost, p) {
                            Ok(p) => Ok(self.at(e, TupleView::Typed(Box::new(p), ty))),
                            Err(x) => Err(x),
                        },
                        None => Err(self.error(e, Message::ColonSyntax)),
                    },
                    Some((Keyword::GhostKw, rest)) => match self.tuple_patterns(
                        true,
                        rest.items(),
                    ) {
                        Ok(ps) => if ps.len() == 1 {
                            Ok(ps[0])
                        } else {
                            Ok(self.at(e, TupleView::Tuple(ps)))
                        },
                        Err(x) => Err(x),
                    },
                    _ => match self.tuple_patterns(ghost, e.items()) {
                        Ok(ps) => Ok(self.at(e, TupleView::Tuple(ps))),
                        Err(x) => Err(x),
                    },
                }
            },
        }
    }

    /// Tuple patterns in a row, up to the first that is wrong.
    pub open spec fn tuple_patterns(self, ghost: bool, es: Seq<Sexp>) -> Result<
        Seq<Spanned<TupleView>>,
        ErrorView,
    >
        decreases sizes(es), 1 + es.len(),
    {
        if es.len() == 0 {
            Ok(Seq::empty())
        } else {
            match self.tuple_pattern(ghost, es[0]) {
                Ok(p) => prepend(seq![p], self.tuple_patterns(ghost, es.drop_first())),
                Err(x) => Err(x),
            }
        }
    }
}

impl<'a> Parser<'a> {
    /// Parse a tuple pattern.
    pub fn parse_tuple_pattern(&self, base: &FileSpan, ghost: bool, e: LispVal) -> (r: Result<
        TuplePattern,
        ElabError,
    >)
        ensures
            outcome(r) == self.grammar(*base).tuple_pattern(ghost, e@),
        decreases e@.size(), 0nat,
    {
        proof {
            lemma_items_smaller(e@);
            lemma_tail_smaller(e@);
        }
        match e.as_atom() {
            Some(a) => {
                return Ok(spanned(base, &e, TuplePatternKind::Name(ghost || a.0 == UNDER, a)));
            },
            None => {},
        }
        if !e.is_list() {
            return Err(error_at(base, &e, Message::TuplePattern(e.clone())));
        }
        match self.head_keyword(&e) {
            Some((Keyword::Colon, u)) => match u.pair() {
                Some((p, ty)) => {
                    let p = self.parse_tuple_pattern(base, ghost, p)?;
                    Ok(spanned(base, &e, TuplePatternKind::Typed(Box::new(p), ty)))
                },
                None => Err(error_at(base, &e, Message::ColonSyntax)),
            },
            Some((Keyword::GhostKw, u)) => {
                let args = self.parse_tuple_patterns(base, true, u)?;
                let ghost ps = args.deep_view();
                if args.len() == 1 {
                    let mut args = args;
                    let p = args.remove(0);
                    assert(ps[0] == p.deep_view());
                    Ok(p)
                } else {
                    proof {
                        lemma_tuple_model(args);
                    }
                    Ok(spanned(base, &e, TuplePatternKind::Tuple(args)))
                }
            },
            _ => {
                let args = self.parse_tuple_patterns(base, ghost, Uncons::new(e.clone()))?;
                proof {
                    lemma_tuple_model(args);
                }
                Ok(spanned(base, &e, TuplePatternKind::Tuple(args)))
            },
        }
    }

    /// Parse tuple patterns in a row.
    pub(crate) fn parse_tuple_patterns(&self, base: &FileSpan, ghost: bool, u: Uncons) -> (r: Result<
        Vec<TuplePattern>,
        ElabError,
    >)
        ensures
            outcome(r) == self.grammar(*base).tuple_patterns(ghost, u@.items()),
        decreases sizes(u@.items()), 1nat,
    {
        let ghost all = u@.items();
        let mut it = u;
        let mut args: Vec<TuplePattern> = empty_vec();
        proof {
            lemma_prepend_empty(self.grammar(*base).tuple_patterns(ghost, all));
        }
        loop
            invariant
                all == u@.items(),
                sizes(it@.items()) <= sizes(all),
                self.grammar(*base).tuple_patterns(ghost, all) == prepend(
                    args.deep_view(),
                    self.grammar(*base).tuple_patterns(ghost, it@.items()),
                ),
            decreases it@.items().len(),
        {
            match it.next() {
                Some(e) => {
                    let p = self.parse_tuple_pattern(base, ghost, e)?;
                    proof {
                        lemma_prepend_push(
                            args.deep_view(),
                            p.deep_view(),
                            self.grammar(*base).tuple_patterns(ghost, it@.items()),
                        );
                    }
                    push_to(&mut args, p);
                },
                None => {
                    return Ok(args);
                },
            }
        }
    }
}

// ---------------------------------------------------------------------------------------------
// Arguments

impl Grammar {
    /// An argument with a name, or, where none is required, the type of an unnamed one.
    pub open spec fn arg1(self, name_required: bool, e: Sexp) -> Result<
        Spanned<TupleView>,
        ErrorView,
    > {
        if head_atom_of(e) matches Some((a, _)) && a.0 == COLON {
            self.tuple_pattern(false, e)
        } else if name_required {
            match e.as_atom() {
                Some(a) => Ok(self.at(e, TupleView::Name(a.0 == UNDER, a))),
                None => Err(self.error(e, Message::ArgIdentifier)),
            }
        } else {
            let unnamed = self.at(e, TupleView::Name(true, AtomId(UNDER)));
            Ok(self.at(e, TupleView::Typed(Box::new(unnamed), e)))
        }
    }

    /// Arguments in a row, up to the first that is wrong.
    pub open spec fn args1(self, name_required: bool, es: Seq<Sexp>) -> Result<
        Seq<Spanned<TupleView>>,
        ErrorView,
    >
        decreases es.len(),
    {
        if es.len() == 0 {
            Ok(Seq::empty())
        } else {
            match self.arg1(name_required, es[0]) {
                Ok(p) => prepend(seq![p], self.args1(name_required, es.drop_first())),
                Err(x) => Err(x),
            }
        }
    }

    /// The arguments that one entry of a parameter list introduces: those after `mut`, the one
    /// after `out`, or the entry itself.
    pub open spec fn arg(self, name_required: bool, e: Sexp) -> Result<
        Seq<(MutOut, Spanned<TupleView>)>,
        ErrorView,
    > {
        match self.head_keyword(e) {
            Some((Keyword::Mut, rest)) => self.mut_args(name_required, rest),
            Some((Keyword::Out, rest)) => if rest.items().len() == 1 {
                self.out_arg(name_required, AtomId(UNDER), rest.items()[0])
            } else {
                match rest.pair() {
                    Some((name, x)) => match name.as_atom() {
                        Some(a) => self.out_arg(name_required, a, x),
                        None => Err(self.error(name, Message::OutSyntax)),
                    },
                    None => Err(self.error(e, Message::OutSyntax)),
                }
            },
            _ => match self.arg1(name_required, e) {
                Ok(p) => Ok(seq![(MutOut::ByValue, p)]),
                Err(x) => Err(x),
            },
        }
    }

    /// The elements of a list as `mut` arguments.
    pub open spec fn mut_args(self, name_required: bool, rest: Sexp) -> Result<
        Seq<(MutOut, Spanned<TupleView>)>,
        ErrorView,
    > {
        match self.args1(name_required, rest.items()) {
            Ok(ps) => Ok(ps.map_values(|p: Spanned<TupleView>| (MutOut::Mut, p))),
            Err(x) => Err(x),
        }
    }

    /// The argument `e` as the new value of `a`.
    pub open spec fn out_arg(self, name_required: bool, a: AtomId, e: Sexp) -> Result<
        Seq<(MutOut, Spanned<TupleView>)>,
        ErrorView,
    > {
        match self.arg1(name_required, e) {
            Ok(p) => Ok(seq![(MutOut::Out(a), p)]),
            Err(x) => Err(x),
        }
    }

    /// The arguments that the entries of a parameter list introduce, up to the first entry that
    /// is wrong.
    pub open spec fn args(self, name_required: bool, es: Seq<Sexp>) -> Result<
        Seq<(MutOut, Spanned<TupleView>)>,
        ErrorView,
    >
        decreases es.len(),
    {
        if es.len() == 0 {
            Ok(Seq::empty())
        } else {
            match self.arg(name_required, es[0]) {
                Ok(ps) => prepend(ps, self.args(name_required, es.drop_first())),
                Err(x) => Err(x),
            }
        }
    }
}

impl<'a> Parser<'a> {
    pub(crate) fn parse_arg1(&self, base: &FileSpan, e: LispVal, name_required: bool) -> (r: Result<
        TuplePattern,
        ElabError,
    >)
        ensures
            outcome(r) == self.grammar(*base).arg1(name_required, e@),
    {
        match head_atom(&e) {
            Some((a, _)) => if a.0 == COLON {
                return self.parse_tuple_pattern(base, false, e);
            },
            None => {},
        }
        if name_required {
            match e.as_atom() {
                Some(a) => Ok(spanned(base, &e, TuplePatternKind::Name(a.0 == UNDER, a))),
                None => Err(error_at(base, &e, Message::ArgIdentifier)),
            }
        } else {
            let unnamed = spanned(base, &e, TuplePatternKind::Name(true, AtomId(UNDER)));
            assert(unnamed.k.deep_view() == TupleView::Name(true, AtomId(UNDER)));
            let span = try_get_fspan(base, &e);
            Ok(Spanned { span, k: TuplePatternKind::Typed(Box::new(unnamed), e) })
        }
    }

    /// Parse arguments in a row.
    pub(crate) fn parse_args1(&self, base: &FileSpan, u: Uncons, name_required: bool) -> (r: Result<
        Vec<TuplePattern>,
        ElabError,
    >)
        ensures
            outcome(r) == self.grammar(*base).args1(name_required, u@.items()),
    {
        let ghost g = self.grammar(*base);
        let ghost all = u@.items();
        let mut it = u;
        let mut args: Vec<TuplePattern> = empty_vec();
        proof {
            lemma_prepend_empty(g.args1(name_required, all));
        }
        loop
            invariant
                g == self.grammar(*base),
                all == u@.items(),
                g.args1(name_required, all) == prepend(
                    args.deep_view(),
                    g.args1(name_required, it@.items()),
                ),
            decreases it@.items().len(),
        {
            match it.next() {
                Some(e) => {
                    let p = self.parse_arg1(base, e, name_required)?;
                    proof {
                        lemma_prepend_push(
                            args.deep_view(),
                            p.deep_view(),
                            g.args1(name_required, it@.items()),
                        );
                    }
                    push_to(&mut args, p);
                },
                None => {
                    return Ok(args);
                },
            }
        }
    }

    /// Parse one entry of a parameter list into the arguments that it introduces.
    pub(crate) fn parse_arg(&self, base: &FileSpan, e: LispVal, name_required: bool) -> (r: Result<
        Vec<(MutOut, TuplePattern)>,
        ElabError,
    >)
        ensures
            outcome(r) == self.grammar(*base).arg(name_required, e@),
    {
        match self.head_keyword(&e) {
            Some((Keyword::Mut, u)) => self.parse_mut_args(base, u, name_required),
            Some((Keyword::Out, u)) => {
                let mut u = u;
                let first = u.next();
                let second = u.next();
                let (a, x) = match (first, second) {
                    (Some(x), None) => (AtomId(UNDER), x),
                    (Some(name), Some(x)) => if u.is_empty() {
                        match name.as_atom() {
                            Some(a) => (a, x),
                            None => {
                                return Err(error_at(base, &name, Message::OutSyntax));
                            },
                        }
                    } else {
                        return Err(error_at(base, &e, Message::OutSyntax));
                    },
                    _ => {
                        return Err(error_at(base, &e, Message::OutSyntax));
                    },
                };
                let p = self.parse_arg1(base, x, name_required)?;
                Ok(vec_of((MutOut::Out(a), p)))
            },
            _ => {
                let p = self.parse_arg1(base, e, name_required)?;
                Ok(vec_of((MutOut::ByValue, p)))
            },
        }
    }

    /// Parse the arguments after `mut`.
    fn parse_mut_args(&self, base: &FileSpan, u: Uncons, name_required: bool) -> (r: Result<
        Vec<(MutOut, TuplePattern)>,
        ElabError,
    >)
        ensures
            outcome(r) == self.grammar(*base).mut_args(name_required, u@),
    {
        let ghost g = self.grammar(*base);
        let ghost all = u@.items();
        let ghost mut done: Seq<Spanned<TupleView>> = Seq::empty();
        let mut it = u;
        let mut args: Vec<(MutOut, TuplePattern)> = empty_vec();
        proof {
            lemma_prepend_empty(g.args1(name_required, all));
            assert(done.map_values(|p: Spanned<TupleView>| (MutOut::Mut, p)) =~= Seq::empty());
        }
        loop
            invariant
                g == self.grammar(*base),
                all == u@.items(),
                args.deep_view() == done.map_values(|p: Spanned<TupleView>| (MutOut::Mut, p)),
                g.args1(name_required, all) == prepend(
                    done,
                    g.args1(name_required, it@.items()),
                ),
            decreases it@.items().len(),
        {
            match it.next() {
                Some(e) => {
                    let p = self.parse_arg1(base, e, name_required)?;
                    proof {
                        lemma_prepend_push(
                            done,
                            p.deep_view(),
                            g.args1(name_required, it@.items()),
                        );
                        done = done.push(p.deep_view());
                    }
                    push_to(&mut args, (MutOut::Mut, p));
                    assert(args.deep_view() =~= done.map_values(
                        |p: Spanned<TupleView>| (MutOut::Mut, p),
                    ));
                },
                None => {
                    assert(done + Seq::empty() =~= done);
                    return Ok(args);
                },
            }
        }
    }

    /// Parse the entries of a parameter list.
    pub(crate) fn parse_args(&self, base: &FileSpan, u: Uncons, name_required: bool) -> (r: Result<
        Vec<(MutOut, TuplePattern)>,
        ElabError,
    >)
        ensures
            outcome(r) == self.grammar(*base).args(name_required, u@.items()),
    {
        let ghost g = self.grammar(*base);
        let ghost all = u@.items();
        let mut it = u;
        let mut args: Vec<(MutOut, TuplePattern)> = empty_vec();
        proof {
            lemma_prepend_empty(g.args(name_required, all));
        }
        loop
            invariant
                g == self.grammar(*base),
                all == u@.items(),
                g.args(name_required, all) == prepend(
                    args.deep_view(),
                    g.args(name_required, it@.items()),
                ),
            decreases it@.items().len(),
        {
            match it.next() {
                Some(e) => {
                    let ps = self.parse_arg(base, e, name_required)?;
                    proof {
                        lemma_prepend_prepend(
                            args.deep_view(),
                            ps.deep_view(),
                            g.args(name_required, it@.items()),
                        );
                    }
                    append_to(&mut args, ps);
                },
                None => {
                    return Ok(args);
                },
            }
        }
    }
}

// ---------------------------------------------------------------------------------------------
// Declarations and assignments

impl Grammar {
    /// `{lhs := rhs}` or `{lhs <- rhs}`.
    pub open spec fn decl_asgn(self, e: Sexp) -> Result<ExprView, ErrorView> {
        let with = RenamesView { old: Seq::empty(), new: Seq::empty() };
        match self.head_keyword(e) {
            Some((Keyword::ColonEq, rest)) => match rest.pair() {
                Some((lhs, rhs)) => match self.tuple_pattern(false, lhs) {
                    Ok(lhs) => Ok(ExprView::Let { lhs, rhs, with }),
                    Err(x) => Err(x),
                },
                None => Err(self.error(e, Message::DeclSyntax)),
            },
            Some((Keyword::ArrowL, rest)) => match rest.pair() {
                Some((lhs, rhs)) => Ok(ExprView::Assign { lhs, rhs, with }),
                None => Err(self.error(e, Message::DeclSyntax)),
            },
            _ => Err(self.error(e, Message::DeclSyntax)),
        }
    }

    /// `{lhs := rhs}`.
    pub open spec fn decl(self, e: Sexp) -> Result<
        Spanned<(Spanned<TupleView>, Sexp)>,
        ErrorView,
    > {
        match self.decl_asgn(e) {
            Ok(ExprView::Let { lhs, rhs, .. }) => Ok(self.at(e, (lhs, rhs))),
            Ok(_) => Err(self.error(e, Message::DeclAssignment)),
            Err(x) => Err(x),
        }
    }
}

impl<'a> Parser<'a> {
    pub(crate) fn parse_decl_asgn(&self, base: &FileSpan, e: &LispVal) -> (r: Result<
        ExprKind,
        ElabError,
    >)
        ensures
            outcome(r) == self.grammar(*base).decl_asgn(e@),
            r matches Ok(k) ==> k is Let || k is Assign,
    {
        match self.head_keyword(e) {
            Some((Keyword::ColonEq, u)) => match u.pair() {
                Some((lhs, rhs)) => {
                    let lhs = Box::new(self.parse_tuple_pattern(base, false, lhs)?);
                    Ok(ExprKind::Let { lhs, rhs, with: Renames::none() })
                },
                None => Err(error_at(base, e, Message::DeclSyntax)),
            },
            Some((Keyword::ArrowL, u)) => match u.pair() {
                Some((lhs, rhs)) => Ok(ExprKind::Assign { lhs, rhs, with: Renames::none() }),
                None => Err(error_at(base, e, Message::DeclSyntax)),
            },
            _ => Err(error_at(base, e, Message::DeclSyntax)),
        }
    }

    pub(crate) fn parse_decl(&self, base: &FileSpan, e: &LispVal) -> (r: Result<
        Spanned<(Box<TuplePattern>, LispVal)>,
        ElabError,
    >)
        ensures
            outcome(r) == self.grammar(*base).decl(e@),
    {
        match self.parse_decl_asgn(base, e)? {
            ExprKind::Let { lhs, rhs, .. } => Ok(spanned(base, e, (lhs, rhs))),
            _ => Err(error_at(base, e, Message::DeclAssignment)),
        }
    }
}

// ---------------------------------------------------------------------------------------------
// Renamings

/// One renaming.
pub enum Rename {
    /// The old value of the first is now called by the second.
    Old(AtomId, AtomId),
    /// The new value of the first is called by the second.
    New(AtomId, AtomId),
}

impl RenamesView {
    /// The renamings with one more.
    pub open spec fn with(self, r: Rename) -> RenamesView {
        match r {
            Rename::Old(from, to) => RenamesView { old: self.old.push((from, to)), ..self },
            Rename::New(from, to) => RenamesView { new: self.new.push((from, to)), ..self },
        }
    }
}

impl Grammar {
    /// `{to <- from}`, `{from -> to}`, or a name that keeps its name. Anything that is not headed
    /// by one of the two arrows and is no name either is no renaming, but not wrong by itself.
    pub open spec fn rename(self, e: Sexp) -> Result<Option<Rename>, ErrorView> {
        match self.head_keyword(e) {
            Some((Keyword::ArrowL, rest)) => match rest.pair() {
                Some((to, from)) => match (to.as_atom(), from.as_atom()) {
                    (Some(to), Some(from)) => Ok(Some(Rename::New(from, to))),
                    _ => Err(self.error(e, Message::WithRename)),
                },
                None => Err(self.error(e, Message::WithRename)),
            },
            Some((Keyword::ArrowR, rest)) => match rest.pair() {
                Some((from, to)) => match (from.as_atom(), to.as_atom()) {
                    (Some(from), Some(to)) => Ok(Some(Rename::Old(from, to))),
                    _ => Err(self.error(e, Message::WithRename)),
                },
                None => Err(self.error(e, Message::WithRename)),
            },
            _ => match e.as_atom() {
                Some(a) => Ok(Some(Rename::New(a, a))),
                None => Ok(None),
            },
        }
    }

    /// A group of renamings, each of which must be one.
    pub open spec fn rename_group(self, with: RenamesView, es: Seq<Sexp>) -> Result<
        RenamesView,
        ErrorView,
    >
        decreases es.len(),
    {
        if es.len() == 0 {
            Ok(with)
        } else {
            match self.rename(es[0]) {
                Ok(Some(r)) => self.rename_group(with.with(r), es.drop_first()),
                Ok(None) => Err(self.error(es[0], Message::WithRename)),
                Err(x) => Err(x),
            }
        }
    }

    /// Renamings and groups of renamings.
    pub open spec fn renames(self, with: RenamesView, es: Seq<Sexp>) -> Result<
        RenamesView,
        ErrorView,
    >
        decreases es.len(),
    {
        if es.len() == 0 {
            Ok(with)
        } else {
            match self.rename(es[0]) {
                Ok(Some(r)) => self.renames(with.with(r), es.drop_first()),
                Ok(None) => match self.rename_group(with, es[0].items()) {
                    Ok(with) => self.renames(with, es.drop_first()),
                    Err(x) => Err(x),
                },
                Err(x) => Err(x),
            }
        }
    }
}

impl Renames {
    /// No renamings.
    pub fn none() -> (r: Renames)
        ensures
            r.deep_view() == (RenamesView { old: Seq::empty(), new: Seq::empty() }),
    {
        Renames { old: empty_vec(), new: empty_vec() }
    }
}

impl<'a> Parser<'a> {
    /// The two atoms of a renaming.
    fn atom_pair(&self, u: Uncons) -> (r: Option<(AtomId, AtomId)>)
        ensures
            r == (match u@.pair() {
                Some((x, y)) => match (x.as_atom(), y.as_atom()) {
                    (Some(x), Some(y)) => Some((x, y)),
                    _ => None,
                },
                None => None,
            }),
    {
        match u.pair() {
            Some((x, y)) => match (x.as_atom(), y.as_atom()) {
                (Some(x), Some(y)) => Some((x, y)),
                _ => None,
            },
            None => None,
        }
    }

    /// Parse one renaming, and add it. The result tells whether there was one.
    fn parse_rename(&self, base: &FileSpan, e: &LispVal, with: &mut Renames) -> (r: Result<
        bool,
        ElabError,
    >)
        ensures
            match (r, self.grammar(*base).rename(e@)) {
                (Ok(true), Ok(Some(x))) => final(with).deep_view() == old(with).deep_view().with(x),
                (Ok(false), Ok(None)) => final(with).deep_view() == old(with).deep_view(),
                (Err(x), Err(y)) => x.deep_view() == y && final(with).deep_view() == old(
                    with,
                ).deep_view(),
                _ => false,
            },
    {
        match self.head_keyword(e) {
            Some((Keyword::ArrowL, u)) => match self.atom_pair(u) {
                Some((to, from)) => {
                    push_to(&mut with.new, (from, to));
                    Ok(true)
                },
                None => Err(error_at(base, e, Message::WithRename)),
            },
            Some((Keyword::ArrowR, u)) => match self.atom_pair(u) {
                Some((from, to)) => {
                    push_to(&mut with.old, (from, to));
                    Ok(true)
                },
                None => Err(error_at(base, e, Message::WithRename)),
            },
            _ => match e.as_atom() {
                Some(a) => {
                    push_to(&mut with.new, (a, a));
                    Ok(true)
                },
                None => Ok(false),
            },
        }
    }

    /// Parse a group of renamings.
    fn parse_rename_group(&self, base: &FileSpan, u: Uncons, with: Renames) -> (r: Result<
        Renames,
        ElabError,
    >)
        ensures
            outcome(r) == self.grammar(*base).rename_group(with.deep_view(), u@.items()),
    {
        let ghost g = self.grammar(*base);
        let mut acc = with;
        let mut it = u;
        loop
            invariant
                g == self.grammar(*base),
                g.rename_group(with.deep_view(), u@.items()) == g.rename_group(
                    acc.deep_view(),
                    it@.items(),
                ),
            decreases it@.items().len(),
        {
            match it.next() {
                Some(e) => {
                    if !self.parse_rename(base, &e, &mut acc)? {
                        return Err(error_at(base, &e, Message::WithRename));
                    }
                },
                None => {
                    return Ok(acc);
                },
            }
        }
    }

    /// Parse renamings and groups of renamings.
    pub(crate) fn parse_renames(&self, base: &FileSpan, u: Uncons, with: Renames) -> (r: Result<
        Renames,
        ElabError,
    >)
        ensures
            outcome(r) == self.grammar(*base).renames(with.deep_view(), u@.items()),
    {
        let ghost g = self.grammar(*base);
        let mut acc = with;
        let mut it = u;
        loop
            invariant
                g == self.grammar(*base),
                g.renames(with.deep_view(), u@.items()) == g.renames(acc.deep_view(), it@.items()),
            decreases it@.items().len(),
        {
            match it.next() {
                Some(e) => {
                    if !self.parse_rename(base, &e, &mut acc)? {
                        acc = self.parse_rename_group(base, Uncons::new(e), acc)?;
                    }
                },
                None => {
                    return Ok(acc);
                },
            }
        }
    }
}

} // verus!
