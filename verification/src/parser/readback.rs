//! How what is read is written. Each form says which elements of a list stand for which parts of the
//! construct that is read from it, and what is read is exactly what is written in that form.

use super::{keyword_of, Grammar};
use crate::ast::{MutOut, TupleView, VariantType, VariantView};
use crate::error::ErrorView;
use crate::keyword::Keyword;
use crate::lisp::{lemma_items_smaller, lemma_size_of_element, lemma_tail, lemma_tail_smaller};
use crate::lisp::{AtomId, Sexp, COLON, UNDER};
use crate::span::Spanned;
use vstd::prelude::*;

verus! {

// ---------------------------------------------------------------------------------------------
// Words

/// Whether an element is a name or a syntax object for the keyword.
pub open spec fn is_word(g: Grammar, e: Sexp, k: Keyword) -> bool {
    match e.unwrapped() {
        Sexp::Atom(a) => g.kw.contains_key(a.0) && g.kw[a.0] == k,
        Sexp::Syntax(s) => Keyword::of_syntax(s) == Some(k),
        _ => false,
    }
}

/// Whether an element is a name for the keyword.
pub open spec fn is_name_for(g: Grammar, e: Sexp, k: Keyword) -> bool {
    e.as_atom() matches Some(a) && g.kw.contains_key(a.0) && g.kw[a.0] == k
}

/// Whether a list starts with the keyword.
pub open spec fn starts_with(g: Grammar, e: Sexp, k: Keyword) -> bool {
    e.items().len() > 0 && is_word(g, e.items()[0], k)
}

/// The keyword at the head of a list is the word that it starts with, and it comes with what follows.
pub proof fn law_head_keywords(g: Grammar, e: Sexp, k: Keyword)
    ensures
        g.head_keyword(e) matches Some((k2, _)) && k2 == k <==> starts_with(g, e, k),
        g.head_keyword(e) matches Some((_, rest)) ==> rest == e.tail() && rest.items()
            == e.items().drop_first() && rest.is_list() == e.is_list(),
        g.is_atom_keyword(e, k) == is_name_for(g, e, k),
        keyword_of(g.kw, e) == Some(k) <==> is_word(g, e, k),
{
    lemma_tail(e);
}

/// Whether a proper list has three elements, of which the first is the keyword.
pub open spec fn is_triple(g: Grammar, k: Keyword, e: Sexp) -> bool {
    e.is_list() && e.items().len() == 3 && is_word(g, e.items()[0], k)
}

/// What follows the keyword is a pair exactly in a proper list with three elements.
pub proof fn lemma_pair(g: Grammar, k: Keyword, e: Sexp)
    requires
        starts_with(g, e, k),
    ensures
        e.tail().pair() == (if is_triple(g, k, e) {
            Some((e.items()[1], e.items()[2]))
        } else {
            None
        }),
{
    lemma_tail(e);
}

/// Whether these are the results of reading each part, or the first complaint about one.
pub open spec fn collected<T>(rs: Seq<Result<T, ErrorView>>, r: Result<Seq<T>, ErrorView>) -> bool {
    match r {
        Ok(xs) => xs.len() == rs.len() && forall|i: int|
            0 <= i < xs.len() ==> #[trigger] rs[i] == Ok::<T, ErrorView>(xs[i]),
        Err(x) => exists|i: int|
            0 <= i < rs.len() && #[trigger] rs[i] == Err::<T, ErrorView>(x) && forall|j: int|
                0 <= j < i ==> #[trigger] rs[j] is Ok,
    }
}

proof fn lemma_collected<T>(
    rs: Seq<Result<T, ErrorView>>,
    more: Result<Seq<T>, ErrorView>,
    r: Result<Seq<T>, ErrorView>,
)
    requires
        rs.len() > 0,
        collected(rs.drop_first(), more),
        r == (match rs[0] {
            Ok(x) => super::prepend(seq![x], more),
            Err(x) => Err(x),
        }),
    ensures
        collected(rs, r),
{
    match rs[0] {
        Ok(x) => match more {
            Ok(xs) => {
                let all = seq![x] + xs;
                assert forall|i: int| 0 <= i < all.len() implies #[trigger] rs[i] == Ok::<
                    T,
                    ErrorView,
                >(all[i]) by {
                    if i > 0 {
                        assert(rs[i] == rs.drop_first()[i - 1]);
                    }
                }
            },
            Err(y) => {
                let i = choose|i: int|
                    0 <= i < rs.drop_first().len() && #[trigger] rs.drop_first()[i] == Err::<
                        T,
                        ErrorView,
                    >(y) && forall|j: int| 0 <= j < i ==> #[trigger] rs.drop_first()[j] is Ok;
                assert(rs[i + 1] == Err::<T, ErrorView>(y));
                assert forall|j: int| 0 <= j < i + 1 implies #[trigger] rs[j] is Ok by {
                    if j > 0 {
                        assert(rs[j] == rs.drop_first()[j - 1]);
                    }
                }
            },
        },
        Err(_) => {},
    }
}

// ---------------------------------------------------------------------------------------------
// Variants

/// `(variant e)`, `(variant e < bound)` or `(variant e <= bound)`: the variant is `e`, and the bound
/// is the element after the sign.
pub open spec fn variant_form(g: Grammar, v: VariantView, e: Sexp) -> bool {
    let es = e.items();
    &&& es.len() >= 2
    &&& is_word(g, es[0], Keyword::Variant)
    &&& v.k.0 == es[1]
    &&& match v.k.1 {
        VariantType::Down => es.len() == 2,
        VariantType::UpLt(b) => es.len() >= 4 && is_name_for(g, es[2], Keyword::Lt) && b == es[3],
        VariantType::UpLe(b) => es.len() >= 4 && is_name_for(g, es[2], Keyword::Le) && b == es[3],
    }
    &&& v.span == g.fspan_of(e)
}

/// What is read as a variant is exactly what is written as one.
pub proof fn law_variants(g: Grammar, v: VariantView, e: Sexp)
    ensures
        g.variant(e) == Some(v) <==> variant_form(g, v, e),
{
    law_head_keywords(g, e, Keyword::Variant);
    if e.items().len() > 2 {
        law_head_keywords(g, e.items()[2], Keyword::Lt);
        law_head_keywords(g, e.items()[2], Keyword::Le);
    }
}

// ---------------------------------------------------------------------------------------------
// Tuple patterns

/// A tuple pattern: a name, `{p : ty}`, `(ghost p..)`, or patterns in a row. Below `ghost` all the
/// names are ghost, and `_` always is.
pub open spec fn tuple_form(g: Grammar, ghost: bool, p: Spanned<TupleView>, e: Sexp) -> bool
    decreases e.size(),
{
    let es = e.items();
    if let Some(a) = e.as_atom() {
        p.span == g.fspan_of(e) && p.k == TupleView::Name(ghost || a == AtomId(UNDER), a)
    } else if !e.is_list() {
        false
    } else if starts_with(g, e, Keyword::Colon) {
        &&& es.len() == 3
        &&& p.span == g.fspan_of(e)
        &&& p.k matches TupleView::Typed(q, ty) && ty == es[2] && es[1].size() < e.size()
            && tuple_form(g, ghost, *q, es[1])
    } else if starts_with(g, e, Keyword::GhostKw) {
        if es.len() == 2 {
            es[1].size() < e.size() && tuple_form(g, true, p, es[1])
        } else {
            &&& p.span == g.fspan_of(e)
            &&& p.k matches TupleView::Tuple(ps) && ps.len() == es.len() - 1 && forall|i: int|
                1 <= i < es.len() ==> (#[trigger] es[i]).size() < e.size() && tuple_form(
                    g,
                    true,
                    ps[i - 1],
                    es[i],
                )
        }
    } else {
        &&& p.span == g.fspan_of(e)
        &&& p.k matches TupleView::Tuple(ps) && ps.len() == es.len() && forall|i: int|
            0 <= i < es.len() ==> (#[trigger] es[i]).size() < e.size() && tuple_form(
                g,
                ghost,
                ps[i],
                es[i],
            )
    }
}

/// What is read as a tuple pattern is exactly what is written as one.
pub proof fn law_tuple_patterns(g: Grammar, ghost: bool, p: Spanned<TupleView>, e: Sexp)
    ensures
        g.tuple_pattern(ghost, e) == Ok::<Spanned<TupleView>, ErrorView>(p) <==> tuple_form(
            g,
            ghost,
            p,
            e,
        ),
    decreases e.size(), 0nat,
{
    let es = e.items();
    lemma_elements_smaller(e);
    lemma_items_smaller(e);
    lemma_tail_smaller(e);
    law_head_keywords(g, e, Keyword::Colon);
    law_head_keywords(g, e, Keyword::GhostKw);
    if e.as_atom() is None && e.is_list() {
        if starts_with(g, e, Keyword::Colon) {
            lemma_pair(g, Keyword::Colon, e);
            if es.len() == 3 {
                match p.k {
                    TupleView::Typed(q, ty) => {
                        law_tuple_patterns(g, ghost, *q, es[1]);
                        assert(TupleView::Typed(Box::new(*q), ty) == p.k);
                    },
                    _ => {},
                }
            }
        } else if starts_with(g, e, Keyword::GhostKw) {
            let rest = es.drop_first();
            lemma_tuple_patterns(g, true, rest);
            if es.len() == 2 {
                assert(rest[0] == es[1]);
                law_tuple_patterns(g, true, p, es[1]);
            } else {
                if let TupleView::Tuple(ps) = p.k {
                    if ps.len() == rest.len() {
                        assert forall|i: int| 0 <= i < ps.len() implies (g.tuple_pattern(
                            true,
                            rest[i],
                        ) == Ok::<Spanned<TupleView>, ErrorView>(#[trigger] ps[i]) <==> tuple_form(
                            g,
                            true,
                            ps[i],
                            rest[i],
                        )) by {
                            law_tuple_patterns(g, true, ps[i], rest[i]);
                        }
                        lemma_all_patterns(g, true, ps, rest);
                        assert forall|i: int| 1 <= i < es.len() implies (#[trigger] es[i])
                            == rest[i - 1] by {}
                        assert forall|i: int| 0 <= i < rest.len() implies (#[trigger] rest[i])
                            == es[i + 1] by {}
                    }
                }
            }
        } else {
            lemma_tuple_patterns(g, ghost, es);
            if let TupleView::Tuple(ps) = p.k {
                if ps.len() == es.len() {
                    assert forall|i: int| 0 <= i < ps.len() implies (g.tuple_pattern(ghost, es[i])
                        == Ok::<Spanned<TupleView>, ErrorView>(#[trigger] ps[i]) <==> tuple_form(
                        g,
                        ghost,
                        ps[i],
                        es[i],
                    )) by {
                        law_tuple_patterns(g, ghost, ps[i], es[i]);
                    }
                    lemma_all_patterns(g, ghost, ps, es);
                }
            }
        }
    }
}

/// The elements of a list are smaller than it.
pub proof fn lemma_elements_smaller(e: Sexp)
    ensures
        forall|i: int| 0 <= i < e.items().len() ==> (#[trigger] e.items()[i]).size() < e.size(),
{
    assert forall|i: int| 0 <= i < e.items().len() implies (#[trigger] e.items()[i]).size()
        < e.size() by {
        lemma_items_smaller(e);
        lemma_size_of_element(e.items(), i);
    }
}

/// Tuple patterns in a row are read one by one, up to the first that is wrong.
pub proof fn lemma_tuple_patterns(g: Grammar, ghost: bool, es: Seq<Sexp>)
    ensures
        collected(
            es.map_values(|e: Sexp| g.tuple_pattern(ghost, e)),
            g.tuple_patterns(ghost, es),
        ),
    decreases es.len(),
{
    let rs = es.map_values(|e: Sexp| g.tuple_pattern(ghost, e));
    if es.len() > 0 {
        let rest = es.drop_first();
        lemma_tuple_patterns(g, ghost, rest);
        assert(rs.drop_first() =~= rest.map_values(|e: Sexp| g.tuple_pattern(ghost, e)));
        lemma_collected(rs, g.tuple_patterns(ghost, rest), g.tuple_patterns(ghost, es));
    }
}

pub proof fn lemma_all_patterns(g: Grammar, ghost: bool, ps: Seq<Spanned<TupleView>>, es: Seq<Sexp>)
    requires
        ps.len() == es.len(),
    ensures
        g.tuple_patterns(ghost, es) == Ok::<Seq<Spanned<TupleView>>, ErrorView>(ps) <==> forall|
            i: int,
        |
            0 <= i < ps.len() ==> g.tuple_pattern(ghost, es[i]) == Ok::<
                Spanned<TupleView>,
                ErrorView,
            >(#[trigger] ps[i]),
{
    lemma_tuple_patterns(g, ghost, es);
    let rs = es.map_values(|e: Sexp| g.tuple_pattern(ghost, e));
    match g.tuple_patterns(ghost, es) {
        Ok(qs) => {
            assert forall|i: int| 0 <= i < qs.len() implies #[trigger] g.tuple_pattern(
                ghost,
                es[i],
            ) == Ok::<Spanned<TupleView>, ErrorView>(qs[i]) by {
                assert(rs[i] == Ok::<Spanned<TupleView>, ErrorView>(qs[i]));
            }
            if forall|i: int|
                0 <= i < ps.len() ==> g.tuple_pattern(ghost, es[i]) == Ok::<
                    Spanned<TupleView>,
                    ErrorView,
                >(#[trigger] ps[i]) {
                assert forall|i: int| 0 <= i < ps.len() implies ps[i] == qs[i] by {
                    assert(g.tuple_pattern(ghost, es[i]) == Ok::<Spanned<TupleView>, ErrorView>(
                        ps[i],
                    ));
                }
                assert(ps =~= qs);
            }
        },
        Err(x) => {
            let i = choose|i: int|
                0 <= i < rs.len() && #[trigger] rs[i] == Err::<Spanned<TupleView>, ErrorView>(x)
                    && forall|j: int| 0 <= j < i ==> #[trigger] rs[j] is Ok;
            assert(g.tuple_pattern(ghost, es[i]) == Err::<Spanned<TupleView>, ErrorView>(x));
            assert(g.tuple_pattern(ghost, es[i]) != Ok::<Spanned<TupleView>, ErrorView>(ps[i]));
        },
    }
}

// ---------------------------------------------------------------------------------------------
// Arguments

/// An argument: `{p : ty}` or a name. Where no name is required, anything else is the type of an
/// argument without a name.
pub open spec fn arg1_form(
    g: Grammar,
    name_required: bool,
    p: Spanned<TupleView>,
    e: Sexp,
) -> bool {
    if e.items().len() > 0 && e.items()[0].as_atom() == Some(AtomId(COLON)) {
        tuple_form(g, false, p, e)
    } else {
        &&& p.span == g.fspan_of(e)
        &&& if name_required {
            e.as_atom() matches Some(a) && p.k == TupleView::Name(a == AtomId(UNDER), a)
        } else {
            p.k matches TupleView::Typed(q, ty) && ty == e && q.span == g.fspan_of(e) && q.k
                == TupleView::Name(true, AtomId(UNDER))
        }
    }
}

/// What is read as an argument is exactly what is written as one.
pub proof fn law_arg1(g: Grammar, name_required: bool, p: Spanned<TupleView>, e: Sexp)
    ensures
        g.arg1(name_required, e) == Ok::<Spanned<TupleView>, ErrorView>(p) <==> arg1_form(
            g,
            name_required,
            p,
            e,
        ),
{
    law_tuple_patterns(g, false, p, e);
    match p.k {
        TupleView::Typed(q, ty) => {
            assert(TupleView::Typed(Box::new(*q), ty) == p.k);
        },
        _ => {},
    }
}

/// Arguments in a row are read one by one, up to the first that is wrong.
pub proof fn law_args1(g: Grammar, name_required: bool, es: Seq<Sexp>)
    ensures
        collected(
            es.map_values(|e: Sexp| g.arg1(name_required, e)),
            g.args1(name_required, es),
        ),
    decreases es.len(),
{
    let rs = es.map_values(|e: Sexp| g.arg1(name_required, e));
    if es.len() > 0 {
        let rest = es.drop_first();
        law_args1(g, name_required, rest);
        assert(rs.drop_first() =~= rest.map_values(|e: Sexp| g.arg1(name_required, e)));
        lemma_collected(rs, g.args1(name_required, rest), g.args1(name_required, es));
    }
}

/// An entry of a parameter list: `(mut x..)`, `(out x)`, `(out name x)` or an argument. Each of its
/// arguments comes with the way in which it is passed.
pub open spec fn arg_form(
    g: Grammar,
    name_required: bool,
    ps: Seq<(MutOut, Spanned<TupleView>)>,
    e: Sexp,
) -> bool {
    let es = e.items();
    if starts_with(g, e, Keyword::Mut) {
        ps.len() == es.len() - 1 && forall|i: int|
            0 <= i < ps.len() ==> (#[trigger] ps[i]).0 == MutOut::Mut && arg1_form(
                g,
                name_required,
                ps[i].1,
                es[i + 1],
            )
    } else if starts_with(g, e, Keyword::Out) {
        &&& ps.len() == 1
        &&& arg1_form(g, name_required, ps[0].1, es.last())
        &&& es.len() == 2 && ps[0].0 == MutOut::Out(AtomId(UNDER)) || es.len() == 3 && e.is_list()
            && (es[1].as_atom() matches Some(a) && ps[0].0 == MutOut::Out(a))
    } else {
        ps.len() == 1 && ps[0].0 == MutOut::ByValue && arg1_form(g, name_required, ps[0].1, e)
    }
}

/// What is read as an entry of a parameter list is exactly what is written as one.
pub proof fn law_arg(
    g: Grammar,
    name_required: bool,
    ps: Seq<(MutOut, Spanned<TupleView>)>,
    e: Sexp,
)
    ensures
        g.arg(name_required, e) == Ok::<Seq<(MutOut, Spanned<TupleView>)>, ErrorView>(ps)
            <==> arg_form(g, name_required, ps, e),
{
    let es = e.items();
    law_head_keywords(g, e, Keyword::Mut);
    law_head_keywords(g, e, Keyword::Out);
    lemma_tail(e);
    if starts_with(g, e, Keyword::Mut) {
        lemma_mut_args(g, name_required, ps, e);
    } else if starts_with(g, e, Keyword::Out) {
        if es.len() == 2 || es.len() == 3 {
            assert(e.tail().items().last() == es.last());
            lemma_one_arg(g, name_required, es.last(), ps, MutOut::Out(AtomId(UNDER)));
            if es.len() == 3 {
                if let Some(a) = es[1].as_atom() {
                    lemma_one_arg(g, name_required, es.last(), ps, MutOut::Out(a));
                }
            }
        }
    } else {
        lemma_one_arg(g, name_required, e, ps, MutOut::ByValue);
    }
}

/// One argument that is passed in the given way.
proof fn lemma_one_arg(
    g: Grammar,
    name_required: bool,
    e: Sexp,
    ps: Seq<(MutOut, Spanned<TupleView>)>,
    way: MutOut,
)
    ensures
        (g.arg1(name_required, e) matches Ok(p) && seq![(way, p)] == ps) <==> (ps.len() == 1
            && ps[0].0 == way && arg1_form(g, name_required, ps[0].1, e)),
{
    if ps.len() == 1 {
        law_arg1(g, name_required, ps[0].1, e);
        if let Ok(p) = g.arg1(name_required, e) {
            if ps[0] == (way, p) {
                assert(seq![(way, p)] =~= ps);
            }
        }
    }
    if let Ok(p) = g.arg1(name_required, e) {
        assert(seq![(way, p)][0] == (way, p));
    }
}

proof fn lemma_mut_args(
    g: Grammar,
    name_required: bool,
    ps: Seq<(MutOut, Spanned<TupleView>)>,
    e: Sexp,
)
    requires
        e.items().len() > 0,
    ensures
        g.mut_args(name_required, e.tail()) == Ok::<
            Seq<(MutOut, Spanned<TupleView>)>,
            ErrorView,
        >(ps) <==> ps.len() == e.items().len() - 1 && forall|i: int|
            0 <= i < ps.len() ==> (#[trigger] ps[i]).0 == MutOut::Mut && arg1_form(
                g,
                name_required,
                ps[i].1,
                e.items()[i + 1],
            ),
{
    let es = e.items();
    let rest = es.drop_first();
    lemma_tail(e);
    law_args1(g, name_required, rest);
    let rs = rest.map_values(|x: Sexp| g.arg1(name_required, x));
    match g.args1(name_required, rest) {
        Ok(qs) => {
            let all = qs.map_values(|p: Spanned<TupleView>| (MutOut::Mut, p));
            if all == ps {
                assert forall|i: int| 0 <= i < ps.len() implies (#[trigger] ps[i]).0 == MutOut::Mut
                    && arg1_form(g, name_required, ps[i].1, es[i + 1]) by {
                    assert(all[i] == (MutOut::Mut, qs[i]));
                    assert(rs[i] == Ok::<Spanned<TupleView>, ErrorView>(qs[i]));
                    law_arg1(g, name_required, qs[i], es[i + 1]);
                }
            }
            if ps.len() == es.len() - 1 && forall|i: int|
                0 <= i < ps.len() ==> (#[trigger] ps[i]).0 == MutOut::Mut && arg1_form(
                    g,
                    name_required,
                    ps[i].1,
                    es[i + 1],
                ) {
                assert forall|i: int| 0 <= i < ps.len() implies all[i] == ps[i] by {
                    assert(ps[i].0 == MutOut::Mut);
                    assert(rs[i] == Ok::<Spanned<TupleView>, ErrorView>(qs[i]));
                    law_arg1(g, name_required, ps[i].1, es[i + 1]);
                }
                assert(all =~= ps);
            }
        },
        Err(x) => {
            let i = choose|i: int|
                0 <= i < rs.len() && #[trigger] rs[i] == Err::<Spanned<TupleView>, ErrorView>(x)
                    && forall|j: int| 0 <= j < i ==> #[trigger] rs[j] is Ok;
            assert(g.arg1(name_required, es[i + 1]) == Err::<Spanned<TupleView>, ErrorView>(x));
            if ps.len() == es.len() - 1 {
                law_arg1(g, name_required, ps[i].1, es[i + 1]);
                assert(!(ps[i].0 == MutOut::Mut && arg1_form(
                    g,
                    name_required,
                    ps[i].1,
                    es[i + 1],
                )));
            }
        },
    }
}

/// The entries of a parameter list are read one by one, up to the first that is wrong, and their
/// arguments are put together in order.
pub proof fn law_args(g: Grammar, name_required: bool, es: Seq<Sexp>)
    ensures
        ({
            let rs = es.map_values(|e: Sexp| g.arg(name_required, e));
            match g.args(name_required, es) {
                Ok(ps) => exists|parts: Seq<Seq<(MutOut, Spanned<TupleView>)>>| #[trigger]
                    collected(
                        rs,
                        Ok::<Seq<Seq<(MutOut, Spanned<TupleView>)>>, ErrorView>(parts),
                    ) && ps == parts.flatten(),
                Err(x) => collected(
                    rs,
                    Err::<Seq<Seq<(MutOut, Spanned<TupleView>)>>, ErrorView>(x),
                ),
            }
        }),
    decreases es.len(),
{
    let rs = es.map_values(|e: Sexp| g.arg(name_required, e));
    if es.len() == 0 {
        let parts = Seq::<Seq<(MutOut, Spanned<TupleView>)>>::empty();
        assert(collected(rs, Ok::<Seq<Seq<(MutOut, Spanned<TupleView>)>>, ErrorView>(parts)));
        assert(parts.flatten() =~= Seq::empty());
    } else {
        let rest = es.drop_first();
        law_args(g, name_required, rest);
        let more = rest.map_values(|e: Sexp| g.arg(name_required, e));
        assert(rs.drop_first() =~= more);
        assert(rs[0] == g.arg(name_required, es[0]));
        match g.args(name_required, rest) {
            Ok(qs) => {
                let parts = choose|parts: Seq<Seq<(MutOut, Spanned<TupleView>)>>| #[trigger]
                    collected(
                        more,
                        Ok::<Seq<Seq<(MutOut, Spanned<TupleView>)>>, ErrorView>(parts),
                    ) && qs == parts.flatten();
                let tail = Ok::<Seq<Seq<(MutOut, Spanned<TupleView>)>>, ErrorView>(parts);
                match rs[0] {
                    Ok(p) => {
                        let all = seq![p] + parts;
                        lemma_collected(rs, tail, Ok(all));
                        assert(all.first() == p);
                        assert(all.drop_first() =~= parts);
                        assert(all.flatten() == p + parts.flatten());
                    },
                    Err(x) => {
                        lemma_collected(rs, tail, Err(x));
                    },
                }
            },
            Err(y) => {
                let tail = Err::<Seq<Seq<(MutOut, Spanned<TupleView>)>>, ErrorView>(y);
                match rs[0] {
                    Ok(p) => {
                        lemma_collected(rs, tail, Err(y));
                    },
                    Err(x) => {
                        lemma_collected(rs, tail, Err(x));
                    },
                }
            },
        }
    }
}

} // verus!
