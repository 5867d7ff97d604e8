//! How expressions are written.

use super::expr::Branch;
use super::pattern::Rename;
use super::readback::{arg1_form, is_name_for, is_triple, law_arg1, law_head_keywords};
use super::readback::{law_tuple_patterns, law_variants, lemma_pair, starts_with, tuple_form};
use super::readback::variant_form;
use super::Grammar;
use crate::ast::{ExprView, FieldName, RenamesView, TupleView, VariantView};
use crate::error::ErrorView;
use crate::keyword::Keyword;
use crate::lisp::{lemma_tail, AtomId, Sexp, UNDER};
use crate::span::Spanned;
use vstd::prelude::*;

verus! {

// ---------------------------------------------------------------------------------------------
// Declarations and assignments

/// `{lhs := rhs}`
pub open spec fn let_form(g: Grammar, lhs: Spanned<TupleView>, rhs: Sexp, e: Sexp) -> bool {
    &&& is_triple(g, Keyword::ColonEq, e)
    &&& tuple_form(g, false, lhs, e.items()[1])
    &&& rhs == e.items()[2]
}

/// `{lhs <- rhs}`
pub open spec fn assign_form(g: Grammar, lhs: Sexp, rhs: Sexp, e: Sexp) -> bool {
    &&& is_triple(g, Keyword::ArrowL, e)
    &&& lhs == e.items()[1]
    &&& rhs == e.items()[2]
}

/// Whether nothing is renamed.
pub open spec fn no_renames(with: RenamesView) -> bool {
    with.old.len() == 0 && with.new.len() == 0
}

/// A declaration or an assignment, before any renamings.
pub open spec fn decl_asgn_form(g: Grammar, k: ExprView, e: Sexp) -> bool {
    match k {
        ExprView::Let { lhs, rhs, with } => let_form(g, lhs, rhs, e) && no_renames(with),
        ExprView::Assign { lhs, rhs, with } => assign_form(g, lhs, rhs, e) && no_renames(with),
        _ => false,
    }
}

/// What is read as a declaration or an assignment is exactly what is written as one.
pub proof fn law_decl_asgn(g: Grammar, k: ExprView, e: Sexp)
    ensures
        g.decl_asgn(e) == Ok::<ExprView, ErrorView>(k) <==> decl_asgn_form(g, k, e),
{
    law_head_keywords(g, e, Keyword::ColonEq);
    law_head_keywords(g, e, Keyword::ArrowL);
    if starts_with(g, e, Keyword::ColonEq) {
        lemma_pair(g, Keyword::ColonEq, e);
    }
    if starts_with(g, e, Keyword::ArrowL) {
        lemma_pair(g, Keyword::ArrowL, e);
    }
    match k {
        ExprView::Let { lhs, rhs, with } => {
            if e.items().len() == 3 {
                law_tuple_patterns(g, false, lhs, e.items()[1]);
            }
            lemma_no_renames(with);
        },
        ExprView::Assign { lhs, rhs, with } => {
            lemma_no_renames(with);
        },
        _ => {},
    }
}

proof fn lemma_no_renames(with: RenamesView)
    ensures
        no_renames(with) <==> with == (RenamesView { old: Seq::empty(), new: Seq::empty() }),
{
    if no_renames(with) {
        assert(with.old =~= Seq::empty());
        assert(with.new =~= Seq::empty());
    }
}

/// What is read as a declaration is exactly what is written as one.
pub proof fn law_decl(g: Grammar, d: Spanned<(Spanned<TupleView>, Sexp)>, e: Sexp)
    ensures
        g.decl(e) == Ok::<Spanned<(Spanned<TupleView>, Sexp)>, ErrorView>(d) <==> d.span
            == g.fspan_of(e) && let_form(g, d.k.0, d.k.1, e),
{
    let with = RenamesView { old: Seq::empty(), new: Seq::empty() };
    law_decl_asgn(g, ExprView::Let { lhs: d.k.0, rhs: d.k.1, with }, e);
    if let Ok(k) = g.decl_asgn(e) {
        law_decl_asgn(g, k, e);
    }
}

// ---------------------------------------------------------------------------------------------
// Renamings

/// `{from -> to}`, `{to <- from}`, or a name that keeps its name.
pub open spec fn rename_form(g: Grammar, r: Rename, e: Sexp) -> bool {
    let es = e.items();
    match r {
        Rename::Old(from, to) => is_triple(g, Keyword::ArrowR, e) && es[1].as_atom() == Some(from)
            && es[2].as_atom() == Some(to),
        Rename::New(from, to) => if starts_with(g, e, Keyword::ArrowL) {
            is_triple(g, Keyword::ArrowL, e) && es[1].as_atom() == Some(to) && es[2].as_atom()
                == Some(from)
        } else {
            !starts_with(g, e, Keyword::ArrowR) && e.as_atom() == Some(from) && from == to
        },
    }
}

/// What is read as a renaming is exactly what is written as one. What is no name and does not start
/// with an arrow is none.
pub proof fn law_rename(g: Grammar, r: Rename, e: Sexp)
    ensures
        g.rename(e) == Ok::<Option<Rename>, ErrorView>(Some(r)) <==> rename_form(g, r, e),
        g.rename(e) == Ok::<Option<Rename>, ErrorView>(None) <==> is_group(g, e),
{
    law_head_keywords(g, e, Keyword::ArrowL);
    law_head_keywords(g, e, Keyword::ArrowR);
    if starts_with(g, e, Keyword::ArrowL) {
        lemma_pair(g, Keyword::ArrowL, e);
    }
    if starts_with(g, e, Keyword::ArrowR) {
        lemma_pair(g, Keyword::ArrowR, e);
    }
}

/// Whether an element is a group of renamings.
pub open spec fn is_group(g: Grammar, e: Sexp) -> bool {
    !starts_with(g, e, Keyword::ArrowL) && !starts_with(g, e, Keyword::ArrowR) && e.as_atom()
        is None
}

/// The renamings and those in the groups, in order.
pub open spec fn ungrouped(g: Grammar, es: Seq<Sexp>) -> Seq<Sexp>
    decreases es.len(),
{
    if es.len() == 0 {
        Seq::empty()
    } else {
        (if is_group(g, es[0]) {
            es[0].items()
        } else {
            seq![es[0]]
        }) + ungrouped(g, es.drop_first())
    }
}

/// The pairs of names of the renamings of old values.
pub open spec fn olds(rs: Seq<Rename>) -> Seq<(AtomId, AtomId)>
    decreases rs.len(),
{
    if rs.len() == 0 {
        Seq::empty()
    } else {
        (match rs[0] {
            Rename::Old(from, to) => seq![(from, to)],
            Rename::New(_, _) => Seq::empty(),
        }) + olds(rs.drop_first())
    }
}

/// The pairs of names of the renamings of new values.
pub open spec fn news(rs: Seq<Rename>) -> Seq<(AtomId, AtomId)>
    decreases rs.len(),
{
    if rs.len() == 0 {
        Seq::empty()
    } else {
        (match rs[0] {
            Rename::New(from, to) => seq![(from, to)],
            Rename::Old(_, _) => Seq::empty(),
        }) + news(rs.drop_first())
    }
}

/// Whether the elements are these renamings, one by one.
pub open spec fn all_renames(g: Grammar, rs: Seq<Rename>, es: Seq<Sexp>) -> bool {
    rs.len() == es.len() && forall|i: int|
        0 <= i < rs.len() ==> rename_form(g, #[trigger] rs[i], es[i])
}

/// Whether these are the renamings that are written in a row, after those that there were before.
pub open spec fn renames_form(
    g: Grammar,
    before: RenamesView,
    with: RenamesView,
    es: Seq<Sexp>,
) -> bool {
    exists|rs: Seq<Rename>| #[trigger]
        all_renames(g, rs, es) && with.old == before.old + olds(rs) && with.new == before.new
            + news(rs)
}

/// What is read as renamings, some of them in groups, is exactly what is written as renamings in a
/// row.
pub proof fn law_renames(g: Grammar, before: RenamesView, with: RenamesView, es: Seq<Sexp>)
    ensures
        g.renames(before, es) == Ok::<RenamesView, ErrorView>(with) <==> renames_form(
            g,
            before,
            with,
            ungrouped(g, es),
        ),
    decreases es.len(),
{
    let flat = ungrouped(g, es);
    if es.len() == 0 {
        lemma_renames_done(g, before, with, flat);
    } else {
        let rest = es.drop_first();
        let x = es[0];
        let more = ungrouped(g, rest);
        lemma_rename_cases(g, x);
        match g.rename(x) {
            Ok(Some(r)) => {
                law_rename(g, r, x);
                law_renames(g, before.with(r), with, rest);
                assert(flat =~= seq![x] + more);
                lemma_rename_step(g, before, with, r, x, more);
            },
            Ok(None) => {
                let group = x.items();
                law_rename(g, Rename::New(AtomId(0), AtomId(0)), x);
                assert(flat == group + more);
                match g.rename_group(before, group) {
                    Ok(w) => {
                        lemma_rename_group(g, before, w, group);
                        law_renames(g, w, with, rest);
                        lemma_renames_add(g, before, w, with, group, more);
                    },
                    Err(_) => {
                        lemma_no_group(g, before, with, group, more);
                    },
                }
            },
            Err(_) => {
                assert(flat[0] == x);
                lemma_no_rename(g, before, with, flat);
            },
        }
    }
}

/// A renaming that is wrong is no group.
proof fn lemma_rename_cases(g: Grammar, x: Sexp)
    ensures
        g.rename(x) is Err ==> !is_group(g, x) && forall|r: Rename| !#[trigger] rename_form(g, r, x),
        g.rename(x) matches Ok(Some(r)) ==> !is_group(g, x),
{
    assert forall|r: Rename| g.rename(x) is Err implies !#[trigger] rename_form(g, r, x) by {
        law_rename(g, r, x);
    }
    law_rename(g, Rename::New(AtomId(0), AtomId(0)), x);
}

proof fn lemma_renames_done(g: Grammar, before: RenamesView, with: RenamesView, es: Seq<Sexp>)
    requires
        es.len() == 0,
    ensures
        before == with <==> renames_form(g, before, with, es),
{
    let none = Seq::<Rename>::empty();
    assert(before.old + olds(none) =~= before.old);
    assert(before.new + news(none) =~= before.new);
    if before == with {
        assert(all_renames(g, none, es));
    }
    if renames_form(g, before, with, es) {
        let rs = choose|rs: Seq<Rename>| #[trigger]
            all_renames(g, rs, es) && with.old == before.old + olds(rs) && with.new == before.new
                + news(rs);
        assert(rs =~= none);
    }
}

proof fn lemma_no_rename(g: Grammar, before: RenamesView, with: RenamesView, es: Seq<Sexp>)
    requires
        es.len() > 0,
        forall|r: Rename| !#[trigger] rename_form(g, r, es[0]),
    ensures
        !renames_form(g, before, with, es),
{
    if renames_form(g, before, with, es) {
        let rs = choose|rs: Seq<Rename>| #[trigger]
            all_renames(g, rs, es) && with.old == before.old + olds(rs) && with.new == before.new
                + news(rs);
        assert(rename_form(g, rs[0], es[0]));
    }
}

/// One more renaming.
proof fn lemma_rename_step(
    g: Grammar,
    before: RenamesView,
    with: RenamesView,
    r: Rename,
    x: Sexp,
    more: Seq<Sexp>,
)
    requires
        rename_form(g, r, x),
    ensures
        renames_form(g, before.with(r), with, more) <==> renames_form(
            g,
            before,
            with,
            seq![x] + more,
        ),
{
    let es = seq![x] + more;
    if renames_form(g, before.with(r), with, more) {
        let rs = choose|rs: Seq<Rename>| #[trigger]
            all_renames(g, rs, more) && with.old == before.with(r).old + olds(rs) && with.new
                == before.with(r).new + news(rs);
        let all = seq![r] + rs;
        assert forall|i: int| 0 <= i < all.len() implies rename_form(
            g,
            #[trigger] all[i],
            es[i],
        ) by {
            if i > 0 {
                assert(all[i] == rs[i - 1]);
            }
        }
        assert(all.drop_first() =~= rs);
        assert(all_renames(g, all, es));
        assert(before.old + olds(all) =~= before.with(r).old + olds(rs));
        assert(before.new + news(all) =~= before.with(r).new + news(rs));
    }
    if renames_form(g, before, with, es) {
        let all = choose|rs: Seq<Rename>| #[trigger]
            all_renames(g, rs, es) && with.old == before.old + olds(rs) && with.new == before.new
                + news(rs);
        let rs = all.drop_first();
        assert(rename_form(g, all[0], es[0]));
        law_rename(g, all[0], x);
        law_rename(g, r, x);
        assert(all[0] == r);
        assert forall|i: int| 0 <= i < rs.len() implies rename_form(
            g,
            #[trigger] rs[i],
            more[i],
        ) by {
            assert(rename_form(g, all[i + 1], es[i + 1]));
        }
        assert(all_renames(g, rs, more));
        assert(before.old + olds(all) =~= before.with(r).old + olds(rs));
        assert(before.new + news(all) =~= before.with(r).new + news(rs));
    }
}

/// What is read as a group of renamings is exactly what is written as renamings in a row.
proof fn lemma_rename_group(g: Grammar, before: RenamesView, with: RenamesView, es: Seq<Sexp>)
    ensures
        g.rename_group(before, es) == Ok::<RenamesView, ErrorView>(with) <==> renames_form(
            g,
            before,
            with,
            es,
        ),
    decreases es.len(),
{
    if es.len() == 0 {
        lemma_renames_done(g, before, with, es);
    } else {
        let x = es[0];
        let rest = es.drop_first();
        lemma_rename_cases(g, x);
        match g.rename(x) {
            Ok(Some(r)) => {
                law_rename(g, r, x);
                lemma_rename_group(g, before.with(r), with, rest);
                assert(es =~= seq![x] + rest);
                lemma_rename_step(g, before, with, r, x, rest);
            },
            Ok(None) => {
                assert forall|r: Rename| !#[trigger] rename_form(g, r, x) by {
                    law_rename(g, r, x);
                }
                lemma_no_rename(g, before, with, es);
            },
            Err(_) => {
                lemma_no_rename(g, before, with, es);
            },
        }
    }
}

/// Renamings in two rows.
proof fn lemma_renames_add(
    g: Grammar,
    before: RenamesView,
    mid: RenamesView,
    with: RenamesView,
    xs: Seq<Sexp>,
    ys: Seq<Sexp>,
)
    requires
        renames_form(g, before, mid, xs),
    ensures
        renames_form(g, mid, with, ys) <==> renames_form(g, before, with, xs + ys),
    decreases xs.len(),
{
    let rs = choose|rs: Seq<Rename>| #[trigger]
        all_renames(g, rs, xs) && mid.old == before.old + olds(rs) && mid.new == before.new
            + news(rs);
    if xs.len() == 0 {
        lemma_renames_done(g, before, mid, xs);
        assert(xs + ys =~= ys);
    } else {
        let r = rs[0];
        assert(rename_form(g, r, xs[0]));
        let rest = xs.drop_first();
        assert(xs =~= seq![xs[0]] + rest);
        lemma_rename_step(g, before, mid, r, xs[0], rest);
        lemma_renames_add(g, before.with(r), mid, with, rest, ys);
        assert(xs + ys =~= seq![xs[0]] + (rest + ys));
        lemma_rename_step(g, before, with, r, xs[0], rest + ys);
    }
}

/// Where a group of renamings is wrong, so are the renamings in a row.
proof fn lemma_no_group(
    g: Grammar,
    before: RenamesView,
    with: RenamesView,
    xs: Seq<Sexp>,
    ys: Seq<Sexp>,
)
    requires
        g.rename_group(before, xs) is Err,
    ensures
        !renames_form(g, before, with, xs + ys),
    decreases xs.len(),
{
    let x = xs[0];
    let rest = xs.drop_first();
    lemma_rename_cases(g, x);
    match g.rename(x) {
        Ok(Some(r)) => {
            law_rename(g, r, x);
            lemma_no_group(g, before.with(r), with, rest, ys);
            assert(xs + ys =~= seq![x] + (rest + ys));
            lemma_rename_step(g, before, with, r, x, rest + ys);
        },
        Ok(None) => {
            assert forall|r: Rename| !#[trigger] rename_form(g, r, x) by {
                law_rename(g, r, x);
            }
            lemma_no_rename(g, before, with, xs + ys);
        },
        Err(_) => {
            lemma_no_rename(g, before, with, xs + ys);
        },
    }
}

// ---------------------------------------------------------------------------------------------
// Conditionals and matches

/// A branch of an `if`, whose condition may be `{h : cond}`. A hypothesis `_` has no name.
pub open spec fn branch_form(g: Grammar, b: Branch, cond: Sexp, tru: Sexp) -> bool {
    &&& b.2 == tru
    &&& if starts_with(g, cond, Keyword::Colon) {
        &&& is_triple(g, Keyword::Colon, cond)
        &&& cond.items()[1].as_atom() matches Some(a) && b.0 == (if a == AtomId(UNDER) {
            None
        } else {
            Some(a)
        })
        &&& b.1 == cond.items()[2]
    } else {
        b.0 is None && b.1 == cond
    }
}

/// What is left where an `else` may be left out.
pub open spec fn past_else(g: Grammar, es: Seq<Sexp>) -> Seq<Sexp> {
    if es.len() > 0 && is_name_for(g, es[0], Keyword::Else) {
        es.skip(1)
    } else {
        es
    }
}

/// `cond tru`, then `else if` and more branches, or `else` and what is done otherwise, or nothing.
/// The word `else` can be left out.
pub open spec fn if_form(g: Grammar, bs: Seq<Branch>, els: Option<Sexp>, es: Seq<Sexp>) -> bool
    decreases bs.len(),
{
    let rest = past_else(g, es.skip(2));
    let again = rest.len() > 0 && is_name_for(g, rest[0], Keyword::If);
    &&& bs.len() > 0
    &&& es.len() >= 2
    &&& branch_form(g, bs[0], es[0], es[1])
    &&& if bs.len() > 1 {
        again && if_form(g, bs.drop_first(), els, rest.skip(1))
    } else {
        &&& !again
        &&& els matches Some(x) ==> rest.len() > 0 && x == rest[0]
        &&& els is None ==> rest.len() == 0
    }
}

proof fn lemma_branch(g: Grammar, b: Branch, cond: Sexp, tru: Sexp)
    ensures
        g.if_branch(cond, tru) == Ok::<Branch, ErrorView>(b) <==> branch_form(g, b, cond, tru),
{
    law_head_keywords(g, cond, Keyword::Colon);
    if starts_with(g, cond, Keyword::Colon) {
        lemma_pair(g, Keyword::Colon, cond);
    }
}

/// What is read as the branches of an `if` is exactly what is written as branches.
pub proof fn law_if(g: Grammar, e: Sexp, bs: Seq<Branch>, els: Option<Sexp>, es: Seq<Sexp>)
    ensures
        g.if_branches(e, es) == Ok::<(Seq<Branch>, Option<Sexp>), ErrorView>((bs, els))
            <==> if_form(g, bs, els, es),
    decreases es.len(),
{
    if es.len() >= 2 {
        let rest = past_else(g, es.skip(2));
        if es.len() > 2 {
            law_head_keywords(g, es.skip(2)[0], Keyword::Else);
        }
        assert(g.after_else(es.skip(2)) =~= rest);
        if rest.len() > 0 {
            law_head_keywords(g, rest[0], Keyword::If);
            assert(rest.drop_first() =~= rest.skip(1));
        }
        if let Ok(b) = g.if_branch(es[0], es[1]) {
            lemma_branch(g, b, es[0], es[1]);
        }
        if bs.len() > 0 {
            lemma_branch(g, bs[0], es[0], es[1]);
        }
        if rest.len() > 0 && is_name_for(g, rest[0], Keyword::If) {
            let more = rest.drop_first();
            law_if(g, e, bs.drop_first(), els, more);
            if bs.len() > 0 {
                assert(bs =~= seq![bs[0]] + bs.drop_first());
            }
            if let Ok((cs, x)) = g.if_branches(e, more) {
                law_if(g, e, cs, x, more);
                if let Ok(b) = g.if_branch(es[0], es[1]) {
                    let all = seq![b] + cs;
                    assert(all.drop_first() =~= cs);
                    assert(all[0] == b);
                    assert(cs.len() > 0);
                }
            }
        } else if bs.len() == 1 {
            assert(bs =~= seq![bs[0]]);
            if let Ok(b) = g.if_branch(es[0], es[1]) {
                assert(seq![b][0] == b);
            }
        } else {
            if let Ok(b) = g.if_branch(es[0], es[1]) {
                assert(seq![b].len() == 1);
            }
        }
    }
}

/// A branch of a `match`: `(=> pattern e)`.
pub open spec fn arm_form(g: Grammar, b: (Sexp, Sexp), e: Sexp) -> bool {
    is_triple(g, Keyword::Arrow, e) && b.0 == e.items()[1] && b.1 == e.items()[2]
}

/// Branches of a `match`, one by one.
pub open spec fn arms_form(g: Grammar, bs: Seq<(Sexp, Sexp)>, es: Seq<Sexp>) -> bool {
    bs.len() == es.len() && forall|i: int|
        0 <= i < bs.len() ==> arm_form(g, #[trigger] bs[i], es[i])
}

/// What is read as the branches of a `match` is exactly what is written as branches.
pub proof fn law_match(g: Grammar, bs: Seq<(Sexp, Sexp)>, es: Seq<Sexp>)
    ensures
        g.match_branches(Seq::empty(), es) == Ok::<Seq<(Sexp, Sexp)>, ErrorView>(bs) <==> arms_form(
            g,
            bs,
            es,
        ),
{
    let none = Seq::<(Sexp, Sexp)>::empty();
    lemma_match(g, none, bs, es);
    assert(none + bs =~= bs);
    if let Ok(all) = g.match_branches(none, es) {
        lemma_match(g, none, all, es);
        assert(none + all =~= all);
    }
}

proof fn lemma_match(
    g: Grammar,
    done: Seq<(Sexp, Sexp)>,
    bs: Seq<(Sexp, Sexp)>,
    es: Seq<Sexp>,
)
    ensures
        g.match_branches(done, es) == Ok::<Seq<(Sexp, Sexp)>, ErrorView>(done + bs) <==> arms_form(
            g,
            bs,
            es,
        ),
    decreases es.len(),
{
    if es.len() == 0 {
        if bs.len() == 0 {
            assert(done + bs =~= done);
        } else {
            assert((done + bs).len() > done.len());
        }
    } else {
        let x = es[0];
        let rest = es.drop_first();
        law_head_keywords(g, x, Keyword::Arrow);
        if starts_with(g, x, Keyword::Arrow) {
            lemma_pair(g, Keyword::Arrow, x);
        }
        if bs.len() == 0 {
            if is_triple(g, Keyword::Arrow, x) {
                lemma_match_length(g, done.push((x.items()[1], x.items()[2])), rest);
                assert(done + bs =~= done);
            }
        } else {
            let b = bs[0];
            let more = bs.drop_first();
            if is_triple(g, Keyword::Arrow, x) {
                let c = (x.items()[1], x.items()[2]);
                lemma_match(g, done.push(c), more, rest);
                assert(done.push(c) + more =~= done + (seq![c] + more));
                assert(seq![c] + more =~= bs.update(0, c));
                if b != c {
                    lemma_match_prefix(g, done.push(c), rest);
                    assert((done + bs)[done.len() as int] == b);
                    assert(done.push(c)[done.len() as int] == c);
                } else {
                    assert(bs.update(0, c) =~= bs);
                    if arms_form(g, more, rest) {
                        assert forall|i: int| 0 <= i < bs.len() implies arm_form(
                            g,
                            #[trigger] bs[i],
                            es[i],
                        ) by {
                            if i > 0 {
                                assert(bs[i] == more[i - 1]);
                            }
                        }
                    }
                    if arms_form(g, bs, es) {
                        assert forall|i: int| 0 <= i < more.len() implies arm_form(
                            g,
                            #[trigger] more[i],
                            rest[i],
                        ) by {
                            assert(arm_form(g, bs[i + 1], es[i + 1]));
                        }
                    }
                }
            }
            if arms_form(g, bs, es) {
                assert(arm_form(g, bs[0], es[0]));
            }
        }
    }
}

proof fn lemma_match_length(g: Grammar, done: Seq<(Sexp, Sexp)>, es: Seq<Sexp>)
    ensures
        g.match_branches(done, es) matches Ok(all) ==> all.len() == done.len() + es.len(),
    decreases es.len(),
{
    if es.len() > 0 {
        if let Some((_, rest)) = g.head_keyword(es[0]) {
            if let Some(b) = rest.pair() {
                lemma_match_length(g, done.push(b), es.drop_first());
            }
        }
    }
}

proof fn lemma_match_prefix(g: Grammar, done: Seq<(Sexp, Sexp)>, es: Seq<Sexp>)
    ensures
        g.match_branches(done, es) matches Ok(all) ==> done.is_prefix_of(all),
    decreases es.len(),
{
    if es.len() > 0 {
        if let Some((_, rest)) = g.head_keyword(es[0]) {
            if let Some(b) = rest.pair() {
                lemma_match_prefix(g, done.push(b), es.drop_first());
                if let Ok(all) = g.match_branches(done, es) {
                    assert(done.push(b).is_prefix_of(all) ==> done.is_prefix_of(all)) by {
                        if done.push(b).is_prefix_of(all) {
                            assert(all.take(done.len() as int) =~= done);
                        }
                    }
                }
            }
        }
    }
}

// ---------------------------------------------------------------------------------------------
// Labels and calls

/// Whether an element gives a variant.
pub open spec fn is_variant(g: Grammar, e: Sexp) -> bool {
    exists|v: VariantView| #[trigger] variant_form(g, v, e)
}

proof fn lemma_is_variant(g: Grammar, e: Sexp)
    ensures
        g.variant(e) is Some <==> is_variant(g, e),
{
    if let Some(v) = g.variant(e) {
        law_variants(g, v, e);
    }
    if is_variant(g, e) {
        let v = choose|v: VariantView| #[trigger] variant_form(g, v, e);
        law_variants(g, v, e);
    }
}

/// The parameters of a label in a row. At most one element among them is its variant.
pub open spec fn label_parts_form(
    g: Grammar,
    args: Seq<Spanned<TupleView>>,
    variant: Option<VariantView>,
    es: Seq<Sexp>,
) -> bool
    decreases es.len(),
{
    if es.len() == 0 {
        args.len() == 0 && variant is None
    } else if is_variant(g, es[0]) {
        (variant matches Some(v) && variant_form(g, v, es[0])) && label_parts_form(
            g,
            args,
            None,
            es.drop_first(),
        )
    } else {
        args.len() > 0 && arg1_form(g, true, args[0], es[0]) && label_parts_form(
            g,
            args.drop_first(),
            variant,
            es.drop_first(),
        )
    }
}

/// What is read as the parameters of a label and its variant is exactly what is written so.
pub proof fn law_label_parts(
    g: Grammar,
    args: Seq<Spanned<TupleView>>,
    variant: Option<VariantView>,
    es: Seq<Sexp>,
)
    ensures
        g.label_parts(Seq::empty(), None, es) == Ok::<
            (Seq<Spanned<TupleView>>, Option<VariantView>),
            ErrorView,
        >((args, variant)) <==> label_parts_form(g, args, variant, es),
{
    lemma_label_parts(g, Seq::empty(), None, args, variant, es);
    assert(args.skip(0) =~= args);
    assert(args.take(0) =~= Seq::empty());
}

proof fn lemma_label_parts(
    g: Grammar,
    done: Seq<Spanned<TupleView>>,
    found: Option<VariantView>,
    args: Seq<Spanned<TupleView>>,
    variant: Option<VariantView>,
    es: Seq<Sexp>,
)
    ensures
        g.label_parts(done, found, es) == Ok::<
            (Seq<Spanned<TupleView>>, Option<VariantView>),
            ErrorView,
        >((args, variant)) <==> {
            let n = done.len() as int;
            &&& n <= args.len()
            &&& args.take(n) == done
            &&& if found is Some {
                variant == found && label_parts_form(g, args.skip(n), None, es)
            } else {
                label_parts_form(g, args.skip(n), variant, es)
            }
        },
    decreases es.len(),
{
    let n = done.len() as int;
    if es.len() == 0 {
        if args == done {
            assert(args.take(n) =~= done);
        }
        if n <= args.len() && args.skip(n).len() == 0 {
            assert(args.take(n) =~= args);
        }
    } else {
        let x = es[0];
        let rest = es.drop_first();
        lemma_is_variant(g, x);
        match g.variant(x) {
            Some(v) => {
                law_variants(g, v, x);
                if let Some(w) = variant {
                    law_variants(g, w, x);
                }
                if found is None {
                    lemma_label_parts(g, done, Some(v), args, variant, rest);
                }
            },
            None => {
                if n < args.len() {
                    law_arg1(g, true, args[n], x);
                    assert(args.skip(n)[0] == args[n]);
                    assert(args.skip(n).drop_first() =~= args.skip(n + 1));
                    assert(args.take(n + 1) =~= args.take(n).push(args[n]));
                }
                if let Ok(arg) = g.arg1(true, x) {
                    let more = done.push(arg);
                    lemma_label_parts(g, more, found, args, variant, rest);
                    if n < args.len() && args.take(n + 1) == more {
                        assert(args.take(n + 1)[n] == arg);
                        assert(args.take(n) =~= more.drop_last());
                        assert(more.drop_last() =~= done);
                    }
                    if n < args.len() && args.take(n) == done && args[n] == arg {
                        assert(args.take(n + 1) =~= more);
                    }
                }
            },
        }
    }
}

/// The arguments of a call in a row. At most one element among them gives its variant.
pub open spec fn call_parts_form(
    g: Grammar,
    args: Seq<Sexp>,
    variant: Option<Sexp>,
    es: Seq<Sexp>,
) -> bool
    decreases es.len(),
{
    if es.len() == 0 {
        args.len() == 0 && variant is None
    } else if starts_with(g, es[0], Keyword::Variant) {
        variant == Some(es[0].tail()) && call_parts_form(g, args, None, es.drop_first())
    } else {
        args.len() > 0 && args[0] == es[0] && call_parts_form(
            g,
            args.drop_first(),
            variant,
            es.drop_first(),
        )
    }
}

/// What is read as the arguments of a call and its variant is exactly what is written so.
pub proof fn law_call_parts(g: Grammar, args: Seq<Sexp>, variant: Option<Sexp>, es: Seq<Sexp>)
    ensures
        g.call_parts(Seq::empty(), None, es) == Ok::<(Seq<Sexp>, Option<Sexp>), ErrorView>(
            (args, variant),
        ) <==> call_parts_form(g, args, variant, es),
{
    lemma_call_parts(g, Seq::empty(), None, args, variant, es);
    assert(args.skip(0) =~= args);
    assert(args.take(0) =~= Seq::empty());
}

proof fn lemma_call_parts(
    g: Grammar,
    done: Seq<Sexp>,
    found: Option<Sexp>,
    args: Seq<Sexp>,
    variant: Option<Sexp>,
    es: Seq<Sexp>,
)
    ensures
        g.call_parts(done, found, es) == Ok::<(Seq<Sexp>, Option<Sexp>), ErrorView>((args, variant))
            <==> {
            let n = done.len() as int;
            &&& n <= args.len()
            &&& args.take(n) == done
            &&& if found is Some {
                variant == found && call_parts_form(g, args.skip(n), None, es)
            } else {
                call_parts_form(g, args.skip(n), variant, es)
            }
        },
    decreases es.len(),
{
    let n = done.len() as int;
    if es.len() == 0 {
        if args == done {
            assert(args.take(n) =~= done);
        }
        if n <= args.len() && args.skip(n).len() == 0 {
            assert(args.take(n) =~= args);
        }
    } else {
        let x = es[0];
        let rest = es.drop_first();
        law_head_keywords(g, x, Keyword::Variant);
        if starts_with(g, x, Keyword::Variant) {
            if found is None {
                lemma_call_parts(g, done, Some(x.tail()), args, variant, rest);
            }
        } else {
            let more = done.push(x);
            lemma_call_parts(g, more, found, args, variant, rest);
            if n < args.len() {
                assert(args.skip(n)[0] == args[n]);
                assert(args.skip(n).drop_first() =~= args.skip(n + 1));
                if args.take(n + 1) == more {
                    assert(args.take(n + 1)[n] == x);
                    assert(args.take(n) =~= more.drop_last());
                    assert(more.drop_last() =~= done);
                }
                if args.take(n) == done && args[n] == x {
                    assert(args.take(n + 1) =~= more);
                }
            }
        }
    }
}

// ---------------------------------------------------------------------------------------------
// Loops

/// The condition of a loop, which may be `{h : cond}`.
pub open spec fn while_cond_form(
    g: Grammar,
    hyp: Option<Spanned<AtomId>>,
    cond: Sexp,
    c: Sexp,
) -> bool {
    match hyp {
        Some(h) => {
            &&& is_triple(g, Keyword::Colon, c)
            &&& c.items()[1].as_atom() == Some(h.k)
            &&& h.span == g.fspan_of(c.items()[1])
            &&& cond == c.items()[2]
        },
        None => !starts_with(g, c, Keyword::Colon) && cond == c,
    }
}

/// `(while cond body..)`, where the body may start with one variant. The variant is not a part of the
/// body that is kept.
pub open spec fn while_form(
    g: Grammar,
    hyp: Option<Spanned<AtomId>>,
    cond: Sexp,
    var: Option<VariantView>,
    body: Sexp,
    e: Sexp,
) -> bool {
    let es = e.items();
    &&& es.len() >= 2
    &&& while_cond_form(g, hyp, cond, es[1])
    &&& match var {
        Some(v) => {
            &&& es.len() >= 3
            &&& variant_form(g, v, es[2])
            &&& es.len() > 3 ==> !is_variant(g, es[3])
            &&& body == e.tail().tail().tail()
            &&& body.items() == es.skip(3)
        },
        None => {
            &&& es.len() > 2 ==> !is_variant(g, es[2])
            &&& body == e.tail().tail()
            &&& body.items() == es.skip(2)
        },
    }
}

proof fn lemma_while(
    g: Grammar,
    hyp: Option<Spanned<AtomId>>,
    cond: Sexp,
    var: Option<VariantView>,
    body: Sexp,
    e: Sexp,
)
    requires
        e.items().len() > 0,
    ensures
        g.while_expr(e, e.tail()) == Ok::<ExprView, ErrorView>(
            ExprView::While { hyp, cond, var, body },
        ) <==> while_form(g, hyp, cond, var, body, e),
        g.while_expr(e, e.tail()) matches Ok(k) ==> k is While,
{
    let es = e.items();
    let rest = e.tail();
    lemma_tail(e);
    if es.len() >= 2 {
        let c = es[1];
        assert(rest.items()[0] == c);
        law_head_keywords(g, c, Keyword::Colon);
        if starts_with(g, c, Keyword::Colon) {
            lemma_pair(g, Keyword::Colon, c);
        }
        lemma_tail(rest);
        let b = rest.tail();
        assert(b.items() =~= es.skip(2));
        lemma_tail(b);
        if es.len() > 2 {
            assert(b.items()[0] == es[2]);
            assert(b.tail().items() =~= es.skip(3));
            lemma_is_variant(g, es[2]);
            if let Some(v) = var {
                law_variants(g, v, es[2]);
            }
            if es.len() > 3 {
                assert(b.items()[1] == es[3]);
                lemma_is_variant(g, es[3]);
            }
        }
        match g.while_cond(e, c) {
            Ok((h, x)) => {
                assert(while_cond_form(g, h, x, c));
                if while_cond_form(g, hyp, cond, c) {
                    if let (Some(h1), Some(h2)) = (h, hyp) {
                        assert(h1 == h2);
                    }
                    assert(h == hyp && x == cond);
                }
            },
            Err(_) => {
                assert(!while_cond_form(g, hyp, cond, c));
            },
        }
    }
}

// ---------------------------------------------------------------------------------------------
// Expressions

/// A field, by its name or by its number.
pub open spec fn field_form(f: FieldName, e: Sexp) -> bool {
    match f {
        FieldName::Named(a) => e.as_atom() == Some(a),
        FieldName::Number(n) => e.as_int() == Some(n as int),
    }
}

/// `(x . field)`: one element, and a field in place of the end of the list.
pub open spec fn is_projection(e: Sexp) -> bool {
    e.unwrapped() matches Sexp::DottedList(es, r) && es.len() == 1 && !r.is_list()
}

/// Whether a list starts with a word that decides what it is.
pub open spec fn has_own_form(g: Grammar, e: Sexp) -> bool {
    ||| starts_with(g, e, Keyword::ColonEq)
    ||| starts_with(g, e, Keyword::ArrowL)
    ||| starts_with(g, e, Keyword::With)
    ||| starts_with(g, e, Keyword::If)
    ||| starts_with(g, e, Keyword::Match)
    ||| starts_with(g, e, Keyword::While)
    ||| starts_with(g, e, Keyword::Begin)
    ||| starts_with(g, e, Keyword::Entail)
}

/// An expression of the shape of a list.
pub open spec fn list_form(g: Grammar, k: ExprView, e: Sexp) -> bool {
    let es = e.items();
    let nothing = RenamesView { old: Seq::empty(), new: Seq::empty() };
    match k {
        ExprView::Unit => es.len() == 0,
        ExprView::Let { lhs, rhs, with } => {
            ||| let_form(g, lhs, rhs, e) && no_renames(with)
            ||| {
                &&& starts_with(g, e, Keyword::With)
                &&& es.len() >= 2
                &&& let_form(g, lhs, rhs, es[1])
                &&& renames_form(g, nothing, with, ungrouped(g, es.skip(2)))
            }
        },
        ExprView::Assign { lhs, rhs, with } => {
            ||| assign_form(g, lhs, rhs, e) && no_renames(with)
            ||| {
                &&& starts_with(g, e, Keyword::With)
                &&& es.len() >= 2
                &&& assign_form(g, lhs, rhs, es[1])
                &&& renames_form(g, nothing, with, ungrouped(g, es.skip(2)))
            }
        },
        ExprView::If { branches, els } => starts_with(g, e, Keyword::If) && if_form(
            g,
            branches,
            els,
            es.skip(1),
        ),
        ExprView::Match(c, branches) => starts_with(g, e, Keyword::Match) && es.len() >= 2 && c
            == es[1] && arms_form(g, branches, es.skip(2)),
        ExprView::While { hyp, cond, var, body } => starts_with(g, e, Keyword::While) && while_form(
            g,
            hyp,
            cond,
            var,
            body,
            e,
        ),
        ExprView::Block(body) => starts_with(g, e, Keyword::Begin) && body == e.tail()
            && body.items() == es.skip(1),
        ExprView::Entail(p, args) => starts_with(g, e, Keyword::Entail) && es == seq![es[0]]
            + args + seq![p],
        ExprView::Label(l) => {
            let hs = es[0].items();
            &&& !has_own_form(g, e)
            &&& es.len() > 0
            &&& starts_with(g, es[0], Keyword::Begin)
            &&& hs.len() >= 2
            &&& hs[1].as_atom() == Some(l.name)
            &&& label_parts_form(g, l.args, l.variant, hs.skip(2))
            &&& l.body == e.tail()
            &&& l.body.items() == es.skip(1)
        },
        ExprView::Call(c) => {
            &&& !has_own_form(g, e)
            &&& es.len() > 0
            &&& !starts_with(g, es[0], Keyword::Begin)
            &&& es[0].as_atom() == Some(c.f.k)
            &&& c.f.span == g.fspan_of(es[0])
            &&& call_parts_form(g, c.args, c.variant, es.skip(1))
        },
        _ => false,
    }
}

/// An expression: a name, a constant, a field, or a list.
pub open spec fn expr_form(g: Grammar, k: ExprView, e: Sexp) -> bool {
    match k {
        ExprView::Hole => e.as_atom() == Some(AtomId(UNDER)),
        ExprView::Var(a) => e.as_atom() == Some(a) && a != AtomId(UNDER),
        ExprView::Bool(b) => e.unwrapped() == Sexp::Bool(b),
        ExprView::Int(n) => e.as_int() == Some(n),
        ExprView::Proj(x, f) => is_projection(e) && (e.unwrapped() matches Sexp::DottedList(es, r)
            && x == es[0] && field_form(f, *r)),
        _ => (e.unwrapped() is List || e.unwrapped() is DottedList) && !is_projection(e)
            && list_form(g, k, e),
    }
}

/// What is read as an expression is exactly what is written as one, and stands where it is written.
pub proof fn law_expressions(g: Grammar, k: ExprView, x: Spanned<ExprView>, e: Sexp)
    ensures
        g.expr_kind(e) == Ok::<ExprView, ErrorView>(k) <==> expr_form(g, k, e),
        g.expr(e) == Ok::<Spanned<ExprView>, ErrorView>(x) <==> x.span == g.fspan_of(e)
            && expr_form(g, x.k, e),
{
    lemma_expr_kind(g, k, e);
    lemma_expr_kind(g, x.k, e);
}

proof fn lemma_expr_kind(g: Grammar, k: ExprView, e: Sexp)
    ensures
        g.expr_kind(e) == Ok::<ExprView, ErrorView>(k) <==> expr_form(g, k, e),
{
    match e.unwrapped() {
        Sexp::DottedList(es, r) => {
            if !r.is_list() && es.len() == 1 {
                lemma_proj(g, k, e, es[0], *r);
            } else {
                lemma_list_expr(g, k, e);
            }
        },
        Sexp::List(_) => {
            lemma_list_expr(g, k, e);
        },
        _ => {},
    }
}

proof fn lemma_proj(g: Grammar, k: ExprView, e: Sexp, x: Sexp, field: Sexp)
    ensures
        g.proj(e, x, field) == Ok::<ExprView, ErrorView>(k) <==> (k matches ExprView::Proj(y, f)
            && y == x && field_form(f, field)),
{
}

proof fn lemma_with(g: Grammar, k: ExprView, e: Sexp)
    requires
        starts_with(g, e, Keyword::With),
    ensures
        g.with_expr(e, e.tail()) == Ok::<ExprView, ErrorView>(k) <==> list_form(g, k, e),
{
    let es = e.items();
    let nothing = RenamesView { old: Seq::empty(), new: Seq::empty() };
    lemma_tail(e);
    lemma_tail(e.tail());
    if es.len() >= 2 {
        let d = es[1];
        assert(e.tail().items()[0] == d);
        assert(e.tail().tail().items() =~= es.skip(2));
        match k {
            ExprView::Let { lhs, rhs, with } => {
                law_decl_asgn(g, ExprView::Let { lhs, rhs, with: nothing }, d);
                law_renames(g, nothing, with, es.skip(2));
            },
            ExprView::Assign { lhs, rhs, with } => {
                law_decl_asgn(g, ExprView::Assign { lhs, rhs, with: nothing }, d);
                law_renames(g, nothing, with, es.skip(2));
            },
            _ => {},
        }
        if let Ok(k2) = g.decl_asgn(d) {
            law_decl_asgn(g, k2, d);
            match k2 {
                ExprView::Let { with, .. } => {
                    lemma_no_renames(with);
                },
                ExprView::Assign { with, .. } => {
                    lemma_no_renames(with);
                },
                _ => {},
            }
        }
    }
}

proof fn lemma_entail(g: Grammar, k: ExprView, e: Sexp)
    requires
        starts_with(g, e, Keyword::Entail),
    ensures
        g.list_expr(e) == Ok::<ExprView, ErrorView>(k) <==> list_form(g, k, e),
{
    let es = e.items();
    let rest = es.drop_first();
    law_head_keywords(g, e, Keyword::Entail);
    lemma_tail(e);
    if es.len() >= 2 {
        assert(es =~= seq![es[0]] + rest.drop_last() + seq![rest.last()]);
    }
    if let ExprView::Entail(p, args) = k {
        let all = seq![es[0]] + args + seq![p];
        if es == all {
            assert(rest.last() == all[all.len() - 1]);
            assert(rest.drop_last() =~= args);
        }
    }
}

proof fn lemma_other_list(g: Grammar, k: ExprView, e: Sexp)
    requires
        !has_own_form(g, e),
    ensures
        g.list_expr(e) == Ok::<ExprView, ErrorView>(k) <==> list_form(g, k, e),
{
    let es = e.items();
    lemma_all_words(g, e);
    lemma_tail(e);
    if es.len() > 0 {
        let h = es[0];
        law_head_keywords(g, h, Keyword::Begin);
        assert(e.tail().items() =~= es.skip(1));
        if starts_with(g, h, Keyword::Begin) {
            let hs = h.items();
            lemma_tail(h);
            lemma_tail(h.tail());
            if hs.len() >= 2 {
                assert(h.tail().items()[0] == hs[1]);
                assert(h.tail().tail().items() =~= hs.skip(2));
                if let ExprView::Label(l) = k {
                    law_label_parts(g, l.args, l.variant, hs.skip(2));
                }
                if let Ok((args, variant)) = g.label_parts(Seq::empty(), None, hs.skip(2)) {
                    law_label_parts(g, args, variant, hs.skip(2));
                }
            }
        } else {
            if let ExprView::Call(c) = k {
                law_call_parts(g, c.args, c.variant, es.skip(1));
            }
            if let Ok((args, variant)) = g.call_parts(Seq::empty(), None, es.skip(1)) {
                law_call_parts(g, args, variant, es.skip(1));
            }
        }
    }
}

proof fn lemma_all_words(g: Grammar, e: Sexp)
    ensures
        forall|k: Keyword| #[trigger]
            starts_with(g, e, k) <==> (g.head_keyword(e) matches Some((k2, _)) && k2 == k),
        g.head_keyword(e) matches Some((_, rest)) ==> rest == e.tail(),
{
    assert forall|k: Keyword| #[trigger]
        starts_with(g, e, k) <==> (g.head_keyword(e) matches Some((k2, _)) && k2 == k) by {
        law_head_keywords(g, e, k);
    }
}

proof fn lemma_list_expr(g: Grammar, k: ExprView, e: Sexp)
    ensures
        g.list_expr(e) == Ok::<ExprView, ErrorView>(k) <==> list_form(g, k, e),
{
    let es = e.items();
    lemma_all_words(g, e);
    lemma_tail(e);
    if !has_own_form(g, e) {
        lemma_other_list(g, k, e);
    } else if starts_with(g, e, Keyword::With) {
        lemma_with(g, k, e);
    } else if starts_with(g, e, Keyword::Entail) {
        lemma_entail(g, k, e);
    } else if starts_with(g, e, Keyword::ColonEq) || starts_with(g, e, Keyword::ArrowL) {
        law_decl_asgn(g, k, e);
    } else if starts_with(g, e, Keyword::While) {
        match k {
            ExprView::While { hyp, cond, var, body } => {
                lemma_while(g, hyp, cond, var, body, e);
            },
            _ => {
                lemma_while(g, None, e, None, e, e);
            },
        }
    } else if starts_with(g, e, Keyword::If) {
        assert(es.skip(1) =~= es.drop_first());
        if let ExprView::If { branches, els } = k {
            law_if(g, e, branches, els, es.skip(1));
        }
    } else if starts_with(g, e, Keyword::Match) {
        lemma_tail(e.tail());
        if es.len() >= 2 {
            assert(e.tail().items()[0] == es[1]);
            assert(e.tail().tail().items() =~= es.skip(2));
            if let ExprView::Match(_, branches) = k {
                law_match(g, branches, es.skip(2));
            }
        }
    } else {
        assert(starts_with(g, e, Keyword::Begin));
        assert(e.tail().items() =~= es.skip(1));
    }
}

} // verus!
