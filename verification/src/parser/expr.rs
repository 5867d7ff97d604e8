//! Expressions.

use super::{error_at, spanned, try_get_fspan, Grammar, Parser};
use crate::ast::{CallExpr, CallView, Expr, ExprKind, ExprView, FieldName, Label, LabelView};
use crate::ast::{TuplePattern, TupleView, Variant, VariantView};
use crate::error::{outcome, ElabError, ErrorView, Message};
use crate::keyword::Keyword;
use crate::lisp::{lemma_list_model, AtomId, LispKind, LispVal, Sexp, UNDER};
use crate::span::{FileSpan, Spanned};
use crate::uncons::Uncons;
use crate::vecs::{empty_vec, push_to};
use vstd::prelude::*;

verus! {

/// A branch of an `if`: the name of its hypothesis, the condition, and what is done.
pub type Branch = (Option<AtomId>, Sexp, Sexp);

/// The branches read so far, put before those of what is left.
pub open spec fn more_branches(
    done: Seq<Branch>,
    rest: Result<(Seq<Branch>, Option<Sexp>), ErrorView>,
) -> Result<(Seq<Branch>, Option<Sexp>), ErrorView> {
    match rest {
        Ok((bs, els)) => Ok((done + bs, els)),
        Err(x) => Err(x),
    }
}

impl Grammar {
    /// An expression.
    pub open spec fn expr(self, e: Sexp) -> Result<Spanned<ExprView>, ErrorView> {
        match self.expr_kind(e) {
            Ok(k) => Ok(self.at(e, k)),
            Err(x) => Err(x),
        }
    }

    /// An expression, without its place.
    pub open spec fn expr_kind(self, e: Sexp) -> Result<ExprView, ErrorView> {
        match e.unwrapped() {
            Sexp::Atom(a) => if a.0 == UNDER {
                Ok(ExprView::Hole)
            } else {
                Ok(ExprView::Var(a))
            },
            Sexp::Bool(b) => Ok(ExprView::Bool(b)),
            Sexp::Number(n) => Ok(ExprView::Int(n)),
            Sexp::DottedList(es, r) => if !r.is_list() && es.len() == 1 {
                self.proj(e, es[0], *r)
            } else {
                self.list_expr(e)
            },
            Sexp::List(_) => self.list_expr(e),
            _ => Err(self.error(e, Message::UnknownExpr)),
        }
    }

    /// `(x . field)`, with the name of a field or its number.
    pub open spec fn proj(self, e: Sexp, x: Sexp, field: Sexp) -> Result<ExprView, ErrorView> {
        match field.as_atom() {
            Some(a) => Ok(ExprView::Proj(x, FieldName::Named(a))),
            None => match field.as_int() {
                Some(n) => if 0 <= n <= u32::MAX {
                    Ok(ExprView::Proj(x, FieldName::Number(n as u32)))
                } else {
                    Err(self.error(e, Message::FieldRange))
                },
                None => Err(self.error(e, Message::FieldSyntax)),
            },
        }
    }

    /// An expression of the shape of a list, which its head decides.
    pub open spec fn list_expr(self, e: Sexp) -> Result<ExprView, ErrorView> {
        match self.head_keyword(e) {
            Some((Keyword::ColonEq, _)) => self.decl_asgn(e),
            Some((Keyword::ArrowL, _)) => self.decl_asgn(e),
            Some((Keyword::With, rest)) => self.with_expr(e, rest),
            Some((Keyword::If, rest)) => match self.if_branches(e, rest.items()) {
                Ok((branches, els)) => Ok(ExprView::If { branches, els }),
                Err(x) => Err(x),
            },
            Some((Keyword::Match, rest)) => if rest.items().len() == 0 {
                Err(self.error(e, Message::MatchSyntax))
            } else {
                match self.match_branches(Seq::empty(), rest.tail().items()) {
                    Ok(branches) => Ok(ExprView::Match(rest.items()[0], branches)),
                    Err(x) => Err(x),
                }
            },
            Some((Keyword::While, rest)) => self.while_expr(e, rest),
            Some((Keyword::Begin, rest)) => Ok(ExprView::Block(rest)),
            Some((Keyword::Entail, rest)) => if rest.items().len() == 0 {
                Err(self.error(e, Message::EntailProof))
            } else {
                Ok(ExprView::Entail(rest.items().last(), rest.items().drop_last()))
            },
            _ => if e.items().len() == 0 {
                Ok(ExprView::Unit)
            } else {
                match self.head_keyword(e.items()[0]) {
                    Some((Keyword::Begin, head)) => self.label(e.items()[0], head, e.tail()),
                    _ => self.call(e.items()[0], e.tail().items()),
                }
            },
        }
    }

    /// `(with decl renames..)`.
    pub open spec fn with_expr(self, e: Sexp, rest: Sexp) -> Result<ExprView, ErrorView> {
        if rest.items().len() == 0 {
            Err(self.error(e, Message::WithSyntax))
        } else {
            match self.decl_asgn(rest.items()[0]) {
                Ok(ExprView::Let { lhs, rhs, with }) => match self.renames(
                    with,
                    rest.tail().items(),
                ) {
                    Ok(with) => Ok(ExprView::Let { lhs, rhs, with }),
                    Err(x) => Err(x),
                },
                Ok(ExprView::Assign { lhs, rhs, with }) => match self.renames(
                    with,
                    rest.tail().items(),
                ) {
                    Ok(with) => Ok(ExprView::Assign { lhs, rhs, with }),
                    Err(x) => Err(x),
                },
                Ok(k) => Ok(k),
                Err(x) => Err(x),
            }
        }
    }

    /// One branch of an `if`. Its condition may come with the name of a hypothesis.
    pub open spec fn if_branch(self, cond: Sexp, tru: Sexp) -> Result<Branch, ErrorView> {
        match self.head_keyword(cond) {
            Some((Keyword::Colon, rest)) => match rest.pair() {
                Some((h, c)) => match h.as_atom() {
                    Some(a) => if a.0 == UNDER {
                        Ok((None, c, tru))
                    } else {
                        Ok((Some(a), c, tru))
                    },
                    None => Err(self.error(h, Message::HypothesisName)),
                },
                None => Err(self.error(cond, Message::ColonSyntax)),
            },
            _ => Ok((None, cond, tru)),
        }
    }

    /// What follows an `else`, which may be left out.
    pub open spec fn after_else(self, es: Seq<Sexp>) -> Seq<Sexp> {
        if es.len() > 0 && self.is_atom_keyword(es[0], Keyword::Else) {
            es.drop_first()
        } else {
            es
        }
    }

    /// The branches of an `if`: a condition and what is done, then either `else if` or `if` and
    /// again such branches, or what is done otherwise, with or without an `else`, or nothing. What
    /// follows is not looked at.
    pub open spec fn if_branches(self, e: Sexp, es: Seq<Sexp>) -> Result<
        (Seq<Branch>, Option<Sexp>),
        ErrorView,
    >
        decreases es.len(),
    {
        if es.len() < 2 {
            Err(self.error(e, Message::IfSyntax))
        } else {
            let rest = self.after_else(es.skip(2));
            if rest.len() > 0 && self.is_atom_keyword(rest[0], Keyword::If) {
                if rest.len() < 3 {
                    Err(self.error(e, Message::IfSyntax))
                } else {
                    match self.if_branch(es[0], es[1]) {
                        Ok(b) => more_branches(seq![b], self.if_branches(e, rest.drop_first())),
                        Err(x) => Err(x),
                    }
                }
            } else {
                match self.if_branch(es[0], es[1]) {
                    Ok(b) => Ok((seq![b], if rest.len() > 0 {
                        Some(rest[0])
                    } else {
                        None
                    })),
                    Err(x) => Err(x),
                }
            }
        }
    }

    /// The branches of a `match`, each `(=> pattern e)`, after those in `done`.
    pub open spec fn match_branches(self, done: Seq<(Sexp, Sexp)>, es: Seq<Sexp>) -> Result<
        Seq<(Sexp, Sexp)>,
        ErrorView,
    >
        decreases es.len(),
    {
        if es.len() == 0 {
            Ok(done)
        } else {
            match self.head_keyword(es[0]) {
                Some((Keyword::Arrow, rest)) => match rest.pair() {
                    Some(b) => self.match_branches(done.push(b), es.drop_first()),
                    None => Err(self.error(es[0], Message::MatchSyntax)),
                },
                _ => Err(self.error(es[0], Message::MatchSyntax)),
            }
        }
    }

    /// `(while cond body..)` or `(while {h : cond} body..)`, where the body may start with a
    /// variant.
    pub open spec fn while_expr(self, e: Sexp, rest: Sexp) -> Result<ExprView, ErrorView> {
        if rest.items().len() == 0 {
            Err(self.error(e, Message::WhileSyntax))
        } else {
            match self.while_cond(e, rest.items()[0]) {
                Ok((hyp, cond)) => {
                    let body = rest.tail();
                    let first = body.items();
                    if first.len() == 0 || self.variant(first[0]) is None {
                        Ok(ExprView::While { hyp, cond, var: None, body })
                    } else if first.len() > 1 && self.variant(first[1]) is Some {
                        Err(self.error(first[1], Message::WhileVariants))
                    } else {
                        Ok(
                            ExprView::While {
                                hyp,
                                cond,
                                var: self.variant(first[0]),
                                body: body.tail(),
                            },
                        )
                    }
                },
                Err(x) => Err(x),
            }
        }
    }

    /// The condition of a `while`, which may come with the name of a hypothesis.
    pub open spec fn while_cond(self, e: Sexp, c: Sexp) -> Result<
        (Option<Spanned<AtomId>>, Sexp),
        ErrorView,
    > {
        match self.head_keyword(c) {
            Some((Keyword::Colon, rest)) => match rest.pair() {
                Some((h, cond)) => match h.as_atom() {
                    Some(a) => Ok((Some(self.at(h, a)), cond)),
                    None => Err(self.error(e, Message::WhilePattern)),
                },
                None => Err(self.error(e, Message::WhilePattern)),
            },
            _ => Ok((None, c)),
        }
    }

    /// `((begin name args..) body..)`, where `head` is what follows `begin` in the head `h`.
    pub open spec fn label(self, h: Sexp, head: Sexp, body: Sexp) -> Result<ExprView, ErrorView> {
        if head.items().len() == 0 {
            Err(self.error(h, Message::LabelName))
        } else {
            match head.items()[0].as_atom() {
                Some(name) => match self.label_parts(Seq::empty(), None, head.tail().items()) {
                    Ok((args, variant)) => Ok(
                        ExprView::Label(LabelView { name, args, variant, body }),
                    ),
                    Err(x) => Err(x),
                },
                None => Err(self.error(h, Message::LabelName)),
            }
        }
    }

    /// The parameters of a label and its variant, after those that were found already.
    pub open spec fn label_parts(
        self,
        args: Seq<Spanned<TupleView>>,
        variant: Option<VariantView>,
        es: Seq<Sexp>,
    ) -> Result<(Seq<Spanned<TupleView>>, Option<VariantView>), ErrorView>
        decreases es.len(),
    {
        if es.len() == 0 {
            Ok((args, variant))
        } else {
            match self.variant(es[0]) {
                Some(v) => if variant is Some {
                    Err(self.error(es[0], Message::LabelVariants))
                } else {
                    self.label_parts(args, Some(v), es.drop_first())
                },
                None => match self.arg1(true, es[0]) {
                    Ok(arg) => self.label_parts(args.push(arg), variant, es.drop_first()),
                    Err(x) => Err(x),
                },
            }
        }
    }

    /// `(f args..)`.
    pub open spec fn call(self, f: Sexp, es: Seq<Sexp>) -> Result<ExprView, ErrorView> {
        match f.as_atom() {
            Some(a) => match self.call_parts(Seq::empty(), None, es) {
                Ok((args, variant)) => Ok(
                    ExprView::Call(CallView { f: self.at(f, a), args, variant }),
                ),
                Err(x) => Err(x),
            },
            None => Err(self.error(f, Message::CallHead)),
        }
    }

    /// The arguments of a call and its variant, after those that were found already.
    pub open spec fn call_parts(
        self,
        args: Seq<Sexp>,
        variant: Option<Sexp>,
        es: Seq<Sexp>,
    ) -> Result<(Seq<Sexp>, Option<Sexp>), ErrorView>
        decreases es.len(),
    {
        if es.len() == 0 {
            Ok((args, variant))
        } else {
            match self.head_keyword(es[0]) {
                Some((Keyword::Variant, rest)) => if variant is Some {
                    Err(self.error(es[0], Message::CallVariants))
                } else {
                    self.call_parts(args, Some(rest), es.drop_first())
                },
                _ => self.call_parts(args.push(es[0]), variant, es.drop_first()),
            }
        }
    }
}

impl<'a> Parser<'a> {
    /// Parse an MMC expression (shallowly), returning an [`Expr`] containing [`LispVal`]s for
    /// subexpressions.
    pub fn parse_expr(&self, base: &FileSpan, e: LispVal) -> (r: Result<Expr, ElabError>)
        ensures
            outcome(r) == self.grammar(*base).expr(e@),
    {
        let span = try_get_fspan(base, &e);
        let k = match e.unwrapped() {
            LispKind::Atom(a) => if a.0 == UNDER {
                ExprKind::Hole
            } else {
                ExprKind::Var(*a)
            },
            LispKind::Bool(b) => ExprKind::Bool(*b),
            LispKind::Number(n) => ExprKind::Int(n.clone()),
            LispKind::DottedList(es, r) => {
                proof {
                    lemma_list_model(LispKind::DottedList(*es, *r));
                }
                if !r.is_list() && es.len() == 1 {
                    self.parse_proj(base, &e, &es[0], r)?
                } else {
                    self.parse_list_expr(base, &e)?
                }
            },
            LispKind::List(_) => self.parse_list_expr(base, &e)?,
            _ => {
                return Err(error_at(base, &e, Message::UnknownExpr));
            },
        };
        Ok(Spanned { span, k })
    }

    fn parse_proj(&self, base: &FileSpan, e: &LispVal, x: &LispVal, field: &LispVal) -> (r: Result<
        ExprKind,
        ElabError,
    >)
        ensures
            outcome(r) == self.grammar(*base).proj(e@, x@, field@),
    {
        match field.unwrapped() {
            LispKind::Atom(a) => Ok(ExprKind::Proj(x.clone(), FieldName::Named(*a))),
            LispKind::Number(n) => match n.to_u32() {
                Some(i) => Ok(ExprKind::Proj(x.clone(), FieldName::Number(i))),
                None => Err(error_at(base, e, Message::FieldRange)),
            },
            _ => Err(error_at(base, e, Message::FieldSyntax)),
        }
    }

    fn parse_list_expr(&self, base: &FileSpan, e: &LispVal) -> (r: Result<ExprKind, ElabError>)
        ensures
            outcome(r) == self.grammar(*base).list_expr(e@),
    {
        match self.head_keyword(e) {
            Some((Keyword::ColonEq, _)) | Some((Keyword::ArrowL, _)) => self.parse_decl_asgn(
                base,
                e,
            ),
            Some((Keyword::With, u)) => self.parse_with(base, e, u),
            Some((Keyword::If, u)) => self.parse_if(base, e, u),
            Some((Keyword::Match, u)) => {
                let mut u = u;
                match u.next() {
                    Some(c) => {
                        let branches = self.parse_match_branches(base, u)?;
                        Ok(ExprKind::Match(c, branches))
                    },
                    None => Err(error_at(base, e, Message::MatchSyntax)),
                }
            },
            Some((Keyword::While, u)) => self.parse_while(base, e, u),
            Some((Keyword::Begin, u)) => Ok(ExprKind::Block(u)),
            Some((Keyword::Entail, u)) => {
                let mut args = u.collect();
                let ghost all = args.deep_view();
                match args.pop() {
                    Some(last) => {
                        assert(args.deep_view() =~= all.drop_last());
                        assert(last@ == all.last());
                        Ok(ExprKind::Entail(last, args))
                    },
                    None => {
                        assert(all.len() == 0);
                        Err(error_at(base, e, Message::EntailProof))
                    },
                }
            },
            _ => {
                let mut u = Uncons::new(e.clone());
                match u.next() {
                    None => Ok(ExprKind::Unit),
                    Some(h) => match self.head_keyword(&h) {
                        Some((Keyword::Begin, head)) => self.parse_label(base, &h, head, u),
                        _ => self.parse_call_expr(base, &h, u),
                    },
                }
            },
        }
    }

    fn parse_with(&self, base: &FileSpan, e: &LispVal, u: Uncons) -> (r: Result<
        ExprKind,
        ElabError,
    >)
        ensures
            outcome(r) == self.grammar(*base).with_expr(e@, u@),
    {
        let mut u = u;
        match u.next() {
            Some(d) => match self.parse_decl_asgn(base, &d)? {
                ExprKind::Let { lhs, rhs, with } => {
                    let with = self.parse_renames(base, u, with)?;
                    Ok(ExprKind::Let { lhs, rhs, with })
                },
                ExprKind::Assign { lhs, rhs, with } => {
                    let with = self.parse_renames(base, u, with)?;
                    Ok(ExprKind::Assign { lhs, rhs, with })
                },
                k => Ok(k),
            },
            None => Err(error_at(base, e, Message::WithSyntax)),
        }
    }

    fn parse_if_branch(&self, base: &FileSpan, cond: LispVal, tru: LispVal) -> (r: Result<
        (Option<AtomId>, LispVal, LispVal),
        ElabError,
    >)
        ensures
            outcome(r) == self.grammar(*base).if_branch(cond@, tru@),
    {
        match self.head_keyword(&cond) {
            Some((Keyword::Colon, u)) => match u.pair() {
                Some((h, c)) => match h.as_atom() {
                    Some(a) => if a.0 == UNDER {
                        Ok((None, c, tru))
                    } else {
                        Ok((Some(a), c, tru))
                    },
                    None => Err(error_at(base, &h, Message::HypothesisName)),
                },
                None => Err(error_at(base, &cond, Message::ColonSyntax)),
            },
            _ => Ok((None, cond, tru)),
        }
    }

    fn parse_if(&self, base: &FileSpan, e: &LispVal, u: Uncons) -> (r: Result<ExprKind, ElabError>)
        ensures
            outcome(r) == (match self.grammar(*base).if_branches(e@, u@.items()) {
                Ok((branches, els)) => Ok(ExprView::If { branches, els }),
                Err(x) => Err(x),
            }),
    {
        let ghost g = self.grammar(*base);
        let ghost all = u@.items();
        let mut it = u;
        let (cond, tru) = match (it.next(), it.next()) {
            (Some(cond), Some(tru)) => (cond, tru),
            _ => {
                return Err(error_at(base, e, Message::IfSyntax));
            },
        };
        let mut cond = cond;
        let mut tru = tru;
        let mut branches: Vec<(Option<AtomId>, LispVal, LispVal)> = empty_vec();
        let ghost mut left = all;
        proof {
            assert(all.skip(2) =~= it@.items());
            match g.if_branches(e@, all) {
                Ok((bs, els)) => {
                    assert(Seq::<Branch>::empty() + bs =~= bs);
                },
                Err(_) => {},
            }
        }
        loop
            invariant
                g == self.grammar(*base),
                all == u@.items(),
                left.len() >= 2,
                cond@ == left[0],
                tru@ == left[1],
                it@.items() == left.skip(2),
                g.if_branches(e@, all) == more_branches(
                    branches.deep_view(),
                    g.if_branches(e@, left),
                ),
            decreases it@.items().len(),
        {
            let mut els = it.next();
            if let Some(x) = &els {
                if self.is_atom_keyword(x, Keyword::Else) {
                    els = it.next();
                }
            }
            let ghost rest = g.after_else(left.skip(2));
            assert(rest.len() > 0 ==> rest.drop_first() =~= it@.items());
            let again = match &els {
                Some(x) => self.is_atom_keyword(x, Keyword::If),
                None => false,
            };
            if again {
                match (it.next(), it.next()) {
                    (Some(cond2), Some(tru2)) => {
                        let b = self.parse_if_branch(base, cond, tru)?;
                        proof {
                            let more = g.if_branches(e@, rest.drop_first());
                            match more {
                                Ok((bs, _)) => {
                                    assert(branches.deep_view() + (seq![b.deep_view()] + bs)
                                        =~= branches.deep_view().push(b.deep_view()) + bs);
                                },
                                Err(_) => {},
                            }
                            left = rest.drop_first();
                            assert(left.skip(2) =~= it@.items());
                        }
                        push_to(&mut branches, b);
                        cond = cond2;
                        tru = tru2;
                    },
                    _ => {
                        return Err(error_at(base, e, Message::IfSyntax));
                    },
                }
            } else {
                let b = self.parse_if_branch(base, cond, tru)?;
                assert(branches.deep_view() + seq![b.deep_view()]
                    =~= branches.deep_view().push(b.deep_view()));
                push_to(&mut branches, b);
                return Ok(ExprKind::If { branches, els });
            }
        }
    }

    fn parse_match_branches(&self, base: &FileSpan, u: Uncons) -> (r: Result<
        Vec<(LispVal, LispVal)>,
        ElabError,
    >)
        ensures
            outcome(r) == self.grammar(*base).match_branches(Seq::empty(), u@.items()),
    {
        let ghost g = self.grammar(*base);
        let mut it = u;
        let mut branches: Vec<(LispVal, LispVal)> = empty_vec();
        loop
            invariant
                g == self.grammar(*base),
                g.match_branches(Seq::empty(), u@.items()) == g.match_branches(
                    branches.deep_view(),
                    it@.items(),
                ),
            decreases it@.items().len(),
        {
            match it.next() {
                Some(b) => match self.head_keyword(&b) {
                    Some((Keyword::Arrow, rest)) => match rest.pair() {
                        Some(pe) => {
                            push_to(&mut branches, pe);
                        },
                        None => {
                            return Err(error_at(base, &b, Message::MatchSyntax));
                        },
                    },
                    _ => {
                        return Err(error_at(base, &b, Message::MatchSyntax));
                    },
                },
                None => {
                    return Ok(branches);
                },
            }
        }
    }

    fn parse_while(&self, base: &FileSpan, e: &LispVal, u: Uncons) -> (r: Result<
        ExprKind,
        ElabError,
    >)
        ensures
            outcome(r) == self.grammar(*base).while_expr(e@, u@),
    {
        let mut u = u;
        let c = match u.next() {
            Some(c) => c,
            None => {
                return Err(error_at(base, e, Message::WhileSyntax));
            },
        };
        let (hyp, cond) = self.parse_while_cond(base, e, c)?;
        let mut var: Option<Box<Variant>> = None;
        if let Some(x) = u.head() {
            var = self.parse_variant(base, &x);
            if var.is_some() {
                u.next();
                if let Some(y) = u.head() {
                    if self.parse_variant(base, &y).is_some() {
                        return Err(error_at(base, &y, Message::WhileVariants));
                    }
                }
            }
        }
        Ok(ExprKind::While { hyp, cond, var, body: u })
    }

    fn parse_while_cond(&self, base: &FileSpan, e: &LispVal, c: LispVal) -> (r: Result<
        (Option<Spanned<AtomId>>, LispVal),
        ElabError,
    >)
        ensures
            match (r, self.grammar(*base).while_cond(e@, c@)) {
                (Ok((hyp, cond)), Ok(k)) => k == (hyp, cond@),
                (Err(x), Err(y)) => x.deep_view() == y,
                _ => false,
            },
    {
        match self.head_keyword(&c) {
            Some((Keyword::Colon, rest)) => match rest.pair() {
                Some((h, cond)) => match h.as_atom() {
                    Some(a) => Ok((Some(spanned(base, &h, a)), cond)),
                    None => Err(error_at(base, e, Message::WhilePattern)),
                },
                None => Err(error_at(base, e, Message::WhilePattern)),
            },
            _ => Ok((None, c)),
        }
    }

    fn parse_label(&self, base: &FileSpan, h: &LispVal, head: Uncons, body: Uncons) -> (r: Result<
        ExprKind,
        ElabError,
    >)
        ensures
            outcome(r) == self.grammar(*base).label(h@, head@, body@),
    {
        let ghost g = self.grammar(*base);
        let mut it = head;
        let name = match it.next() {
            Some(x) => match x.as_atom() {
                Some(a) => a,
                None => {
                    return Err(error_at(base, h, Message::LabelName));
                },
            },
            None => {
                return Err(error_at(base, h, Message::LabelName));
            },
        };
        let mut args: Vec<TuplePattern> = empty_vec();
        let mut variant: Option<Box<Variant>> = None;
        let ghost all = it@.items();
        loop
            invariant
                g == self.grammar(*base),
                head@.items().len() > 0,
                head@.items()[0].as_atom() == Some(name),
                all == head@.tail().items(),
                g.label_parts(Seq::empty(), None, all) == g.label_parts(
                    args.deep_view(),
                    variant.deep_view(),
                    it@.items(),
                ),
            decreases it@.items().len(),
        {
            match it.next() {
                Some(x) => match self.parse_variant(base, &x) {
                    Some(v) => {
                        if variant.is_some() {
                            return Err(error_at(base, &x, Message::LabelVariants));
                        }
                        variant = Some(v);
                    },
                    None => {
                        let arg = self.parse_arg1(base, x, true)?;
                        push_to(&mut args, arg);
                    },
                },
                None => {
                    return Ok(ExprKind::Label(Label { name, args, variant, body }));
                },
            }
        }
    }

    fn parse_call_expr(&self, base: &FileSpan, h: &LispVal, u: Uncons) -> (r: Result<
        ExprKind,
        ElabError,
    >)
        ensures
            outcome(r) == self.grammar(*base).call(h@, u@.items()),
    {
        let ghost g = self.grammar(*base);
        let f = match h.as_atom() {
            Some(a) => spanned(base, h, a),
            None => {
                return Err(error_at(base, h, Message::CallHead));
            },
        };
        let mut it = u;
        let mut args: Vec<LispVal> = empty_vec();
        let mut variant: Option<LispVal> = None;
        loop
            invariant
                g == self.grammar(*base),
                h@.as_atom() == Some(f.k),
                f == g.at(h@, f.k),
                g.call_parts(Seq::empty(), None, u@.items()) == g.call_parts(
                    args.deep_view(),
                    variant.deep_view(),
                    it@.items(),
                ),
            decreases it@.items().len(),
        {
            match it.next() {
                Some(x) => match self.head_keyword(&x) {
                    Some((Keyword::Variant, rest)) => {
                        if variant.is_some() {
                            return Err(error_at(base, &x, Message::CallVariants));
                        }
                        variant = Some(rest.as_lisp());
                    },
                    _ => {
                        push_to(&mut args, x);
                    },
                },
                None => {
                    return Ok(ExprKind::Call(CallExpr { f, args, variant }));
                },
            }
        }
    }
}

} // verus!
