//! What holds of the parser as a whole.

use super::expr::Branch;
use super::item::{after_colon, colon_index, GroupView, ItemsView};
use super::mm0::{lemma_names, mm0_term, Mm0State};
use super::types::head_and_args;
use super::{head_keyword_of, keyword_of, Grammar};
use crate::ast::{CallKindView, CallView, ExprView, ItemView, Mm0View, RenamesView};
use crate::ast::{TupleView, TypeView, VariantType, VariantView};
use crate::entity::Entity;
use crate::env::{ArgKind, Environment, Intrinsic, TermId};
use crate::error::ErrorView;
use crate::keyword::Keyword;
use crate::lisp::{lemma_items_smaller, lemma_size_of_element, lemma_tail, lemma_tail_smaller};
use crate::lisp::{lemma_unwrapped_list, sizes, AtomId, Sexp, Syntax, UNDER};
use crate::span::{FileSpan, Spanned};
use vstd::prelude::*;

verus! {

// ---------------------------------------------------------------------------------------------
// Keywords

/// The keyword at the head of a list is found through any annotations, on the list and on its head.
pub proof fn law_keywords_through_annotations(kw: Map<u32, Keyword>, e: Sexp)
    ensures
        keyword_of(kw, e) == keyword_of(kw, e.unwrapped()),
        head_keyword_of(kw, e) == head_keyword_of(kw, e.unwrapped()),
{
    lemma_unwrapped_twice(e);
    lemma_unwrapped_list(e);
}

/// What is under all annotations has none around it.
pub proof fn lemma_unwrapped_twice(e: Sexp)
    ensures
        e.unwrapped().unwrapped() == e.unwrapped(),
        e.unwrapped() !is Annot,
    decreases e,
{
    match e {
        Sexp::Annot(_, x) => {
            lemma_unwrapped_twice(*x);
        },
        _ => {},
    }
}

// ---------------------------------------------------------------------------------------------
// Tuple patterns

/// Whether all the variables in a tuple pattern are ghost.
pub open spec fn all_ghost(p: TupleView) -> bool
    decreases p,
{
    match p {
        TupleView::Name(ghost, _) => ghost,
        TupleView::Typed(p, _) => all_ghost(p.k),
        TupleView::Tuple(ps) => forall|i: int| 0 <= i < ps.len() ==> all_ghost(#[trigger] ps[i].k),
    }
}

/// Whether every `_` in a tuple pattern is ghost.
pub open spec fn holes_ghost(p: TupleView) -> bool
    decreases p,
{
    match p {
        TupleView::Name(ghost, a) => a.0 == UNDER ==> ghost,
        TupleView::Typed(p, _) => holes_ghost(p.k),
        TupleView::Tuple(ps) => forall|i: int|
            0 <= i < ps.len() ==> holes_ghost(#[trigger] ps[i].k),
    }
}

/// In a tuple pattern that is read as ghost, all the variables are ghost. In any tuple pattern,
/// every `_` is.
pub proof fn law_ghost_patterns(g: Grammar, ghost: bool, e: Sexp)
    ensures
        g.tuple_pattern(ghost, e) matches Ok(p) ==> holes_ghost(p.k) && (ghost ==> all_ghost(p.k)),
    decreases e.size(), 0nat,
{
    lemma_items_smaller(e);
    lemma_tail_smaller(e);
    if e.as_atom() is None && e.is_list() {
        match g.head_keyword(e) {
            Some((Keyword::Colon, rest)) => {
                if let Some((p, ty)) = rest.pair() {
                    law_ghost_patterns(g, ghost, p);
                }
            },
            Some((Keyword::GhostKw, rest)) => {
                lemma_ghost_patterns(g, true, rest.items());
            },
            _ => {
                lemma_ghost_patterns(g, ghost, e.items());
            },
        }
    }
}

proof fn lemma_ghost_patterns(g: Grammar, ghost: bool, es: Seq<Sexp>)
    ensures
        g.tuple_patterns(ghost, es) matches Ok(ps) ==> ps.len() == es.len() && forall|i: int|
            0 <= i < ps.len() ==> holes_ghost((#[trigger] ps[i]).k) && (ghost ==> all_ghost(
                ps[i].k,
            )),
    decreases sizes(es), 1 + es.len(),
{
    if es.len() > 0 {
        law_ghost_patterns(g, ghost, es[0]);
        lemma_ghost_patterns(g, ghost, es.drop_first());
        match (g.tuple_pattern(ghost, es[0]), g.tuple_patterns(ghost, es.drop_first())) {
            (Ok(p), Ok(ps)) => {
                let all = seq![p] + ps;
                assert(g.tuple_patterns(ghost, es) == Ok::<Seq<Spanned<TupleView>>, ErrorView>(all));
                assert forall|i: int| 0 <= i < all.len() implies holes_ghost(
                    (#[trigger] all[i]).k,
                ) && (ghost ==> all_ghost(all[i].k)) by {
                    if i > 0 {
                        assert(all[i] == ps[i - 1]);
                    }
                }
            },
            _ => {},
        }
    }
}

// ---------------------------------------------------------------------------------------------
// Calls

/// Whether an element of a call gives its variant.
pub open spec fn is_variant_form(g: Grammar, e: Sexp) -> bool {
    g.head_keyword(e) matches Some((Keyword::Variant, _))
}

/// The arguments of a call are its elements that give no variant, in order. There is an error
/// exactly where more than one element gives a variant.
pub proof fn law_call_arguments(g: Grammar, es: Seq<Sexp>)
    ensures
        match g.call_parts(Seq::empty(), None, es) {
            Ok((args, variant)) => {
                &&& args == es.filter(|x: Sexp| !is_variant_form(g, x))
                &&& es.len() - args.len() == (if variant is Some {
                    1int
                } else {
                    0int
                })
            },
            Err(_) => es.len() - es.filter(|x: Sexp| !is_variant_form(g, x)).len() > 1,
        },
{
    lemma_call_parts(g, Seq::empty(), None, es);
    let plain = |x: Sexp| !is_variant_form(g, x);
    assert(Seq::<Sexp>::empty() + es.filter(plain) =~= es.filter(plain));
}

proof fn lemma_call_parts(g: Grammar, args: Seq<Sexp>, variant: Option<Sexp>, es: Seq<Sexp>)
    ensures
        ({
            let plain = es.filter(|x: Sexp| !is_variant_form(g, x));
            let given = if variant is Some {
                1int
            } else {
                0int
            };
            &&& plain.len() <= es.len()
            &&& match g.call_parts(args, variant, es) {
                Ok((all, v)) => {
                    &&& all == args + plain
                    &&& es.len() - plain.len() + given == (if v is Some {
                        1int
                    } else {
                        0int
                    })
                },
                Err(_) => es.len() - plain.len() + given > 1,
            }
        }),
    decreases es.len(),
{
    let p = |x: Sexp| !is_variant_form(g, x);
    if es.len() == 0 {
        assert(es.filter(p) =~= Seq::empty());
        assert(args + es.filter(p) =~= args);
    } else {
        let rest = es.drop_first();
        assert(es =~= seq![es[0]] + rest);
        Seq::filter_distributes_over_add(seq![es[0]], rest, p);
        assert(seq![es[0]].drop_last() =~= Seq::empty());
        reveal_with_fuel(Seq::filter, 2);
        assert(seq![es[0]].filter(p) =~= (if p(es[0]) {
            seq![es[0]]
        } else {
            Seq::empty()
        }));
        if p(es[0]) {
            lemma_call_parts(g, args.push(es[0]), variant, rest);
            assert(args.push(es[0]) + rest.filter(p) =~= args + es.filter(p));
        } else {
            lemma_call_parts(g, args, variant, rest);
            lemma_call_parts(g, args, Some(g.head_keyword(es[0]).unwrap().1), rest);
            assert(es.filter(p) =~= rest.filter(p));
        }
    }
}

/// A label hides any other meaning of its name: a call of it is a jump.
pub proof fn law_labels_shadow(g: Grammar, names: Map<u32, Entity>, out: bool, c: CallView)
    ensures
        g.call_kind(names, true, out, c) == Ok::<CallKindView, ErrorView>(
            CallKindView::Jump(c.f.k, c.args),
        ),
{
}

// ---------------------------------------------------------------------------------------------
// Types

/// The type arguments and the value arguments of a user defined type are together the arguments
/// that are written.
pub proof fn law_user_type_arguments(g: Grammar, names: Map<u32, Entity>, e: Sexp)
    ensures
        g.ty_kind(names, e) matches Ok(TypeView::User(a, tys, vals)) ==> {
            &&& head_and_args(e) matches Some((head, args))
            &&& head.as_atom() == Some(a)
            &&& args == tys + vals
        },
{
    if let Some((head, args)) = head_and_args(e) {
        if let Ok(TypeView::User(a, tys, vals)) = g.ty_kind(names, e) {
            assert(args =~= args.take(tys.len() as int) + args.skip(tys.len() as int));
        }
    }
}

// ---------------------------------------------------------------------------------------------
// Places

/// Whether a place is that of the construct that is read, or starts no earlier than it.
pub open spec fn within(g: Grammar, e: ErrorView) -> bool {
    e.pos.start >= g.base.span.start
}

/// What is read from a value stands in the file of the construct around it, and starts no earlier.
pub proof fn law_places(g: Grammar, e: Sexp)
    ensures
        g.fspan_of(e).file == g.base.file,
        g.fspan_of(e).span.start >= g.base.span.start,
        e.fspan() is None ==> g.fspan_of(e) == g.base,
{
}

/// A complaint about an expression is about a place that starts no earlier than the construct that
/// is read.
pub proof fn law_expr_error_places(g: Grammar, e: Sexp)
    ensures
        g.expr(e) matches Err(x) ==> within(g, x),
{
    lemma_decl_error_places(g, e);
    if let Some((k, rest)) = g.head_keyword(e) {
        if rest.items().len() > 0 {
            lemma_decl_error_places(g, rest.items()[0]);
            if let Ok(ExprView::Let { with, .. }) = g.decl_asgn(rest.items()[0]) {
                lemma_renames_error_places(g, with, rest.tail().items());
            }
            if let Ok(ExprView::Assign { with, .. }) = g.decl_asgn(rest.items()[0]) {
                lemma_renames_error_places(g, with, rest.tail().items());
            }
        }
        lemma_if_error_places(g, e, rest.items());
        lemma_match_error_places(g, Seq::empty(), rest.tail().items());
    }
    if e.items().len() > 0 {
        if let Some((_, head)) = g.head_keyword(e.items()[0]) {
            lemma_label_error_places(g, Seq::empty(), None, head.tail().items());
        }
        lemma_call_error_places(g, Seq::empty(), None, e.tail().items());
    }
}

/// A complaint about a tuple pattern is about a place that starts no earlier than the construct
/// that is read.
pub proof fn law_pattern_error_places(g: Grammar, ghost: bool, e: Sexp)
    ensures
        g.tuple_pattern(ghost, e) matches Err(x) ==> within(g, x),
    decreases e.size(), 0nat,
{
    lemma_items_smaller(e);
    lemma_tail_smaller(e);
    if e.as_atom() is None && e.is_list() {
        match g.head_keyword(e) {
            Some((Keyword::Colon, rest)) => {
                if let Some((p, ty)) = rest.pair() {
                    law_pattern_error_places(g, ghost, p);
                }
            },
            Some((Keyword::GhostKw, rest)) => {
                lemma_patterns_error_places(g, true, rest.items());
            },
            _ => {
                lemma_patterns_error_places(g, ghost, e.items());
            },
        }
    }
}

proof fn lemma_patterns_error_places(g: Grammar, ghost: bool, es: Seq<Sexp>)
    ensures
        g.tuple_patterns(ghost, es) matches Err(x) ==> within(g, x),
    decreases sizes(es), 1 + es.len(),
{
    if es.len() > 0 {
        law_pattern_error_places(g, ghost, es[0]);
        lemma_patterns_error_places(g, ghost, es.drop_first());
    }
}

proof fn lemma_decl_error_places(g: Grammar, e: Sexp)
    ensures
        g.decl_asgn(e) matches Err(x) ==> within(g, x),
{
    if let Some((_, rest)) = g.head_keyword(e) {
        if let Some((lhs, _)) = rest.pair() {
            law_pattern_error_places(g, false, lhs);
        }
    }
}

proof fn lemma_rename_group_error_places(g: Grammar, with: RenamesView, es: Seq<Sexp>)
    ensures
        g.rename_group(with, es) matches Err(x) ==> within(g, x),
    decreases es.len(),
{
    if es.len() > 0 {
        if let Ok(Some(r)) = g.rename(es[0]) {
            lemma_rename_group_error_places(g, with.with(r), es.drop_first());
        }
    }
}

proof fn lemma_renames_error_places(g: Grammar, with: RenamesView, es: Seq<Sexp>)
    ensures
        g.renames(with, es) matches Err(x) ==> within(g, x),
    decreases es.len(),
{
    if es.len() > 0 {
        match g.rename(es[0]) {
            Ok(Some(r)) => {
                lemma_renames_error_places(g, with.with(r), es.drop_first());
            },
            Ok(None) => {
                lemma_rename_group_error_places(g, with, es[0].items());
                if let Ok(w) = g.rename_group(with, es[0].items()) {
                    lemma_renames_error_places(g, w, es.drop_first());
                }
            },
            Err(_) => {},
        }
    }
}

proof fn lemma_if_error_places(g: Grammar, e: Sexp, es: Seq<Sexp>)
    ensures
        g.if_branches(e, es) matches Err(x) ==> within(g, x),
    decreases es.len(),
{
    if es.len() >= 2 {
        let rest = g.after_else(es.skip(2));
        if rest.len() > 0 {
            lemma_if_error_places(g, e, rest.drop_first());
        }
    }
}

proof fn lemma_match_error_places(g: Grammar, done: Seq<(Sexp, Sexp)>, es: Seq<Sexp>)
    ensures
        g.match_branches(done, es) matches Err(x) ==> within(g, x),
    decreases es.len(),
{
    if es.len() > 0 {
        if let Some((_, rest)) = g.head_keyword(es[0]) {
            if let Some(b) = rest.pair() {
                lemma_match_error_places(g, done.push(b), es.drop_first());
            }
        }
    }
}

proof fn lemma_label_error_places(
    g: Grammar,
    args: Seq<Spanned<TupleView>>,
    variant: Option<VariantView>,
    es: Seq<Sexp>,
)
    ensures
        g.label_parts(args, variant, es) matches Err(x) ==> within(g, x),
    decreases es.len(),
{
    if es.len() > 0 {
        law_pattern_error_places(g, false, es[0]);
        match g.variant(es[0]) {
            Some(v) => {
                lemma_label_error_places(g, args, Some(v), es.drop_first());
            },
            None => {
                if let Ok(arg) = g.arg1(true, es[0]) {
                    lemma_label_error_places(g, args.push(arg), variant, es.drop_first());
                }
            },
        }
    }
}

proof fn lemma_call_error_places(
    g: Grammar,
    args: Seq<Sexp>,
    variant: Option<Sexp>,
    es: Seq<Sexp>,
)
    ensures
        g.call_parts(args, variant, es) matches Err(x) ==> within(g, x),
    decreases es.len(),
{
    if es.len() > 0 {
        match g.head_keyword(es[0]) {
            Some((Keyword::Variant, rest)) => {
                lemma_call_error_places(g, args, Some(rest), es.drop_first());
            },
            _ => {
                lemma_call_error_places(g, args.push(es[0]), variant, es.drop_first());
            },
        }
    }
}

/// A complaint about a type, a proposition, a pattern or a call is about a place that starts no
/// earlier than the construct that is read.
pub proof fn law_type_error_places(
    g: Grammar,
    names: Map<u32, Entity>,
    e: Sexp,
    label: bool,
    out: bool,
    c: CallView,
)
    ensures
        g.ty(names, e) matches Err(x) ==> within(g, x),
        g.prop(names, e) matches Err(x) ==> within(g, x),
        g.pattern(names, e) matches Err(x) ==> within(g, x),
        g.call_kind(names, label, out, c) matches Err(x) ==> within(g, x),
{
    law_expr_error_places(g, e);
    if let Some((_, args)) = head_and_args(e) {
        lemma_patterns_error_places(g, false, args);
        if args.len() > 0 {
            lemma_patterns_error_places(g, false, args.drop_last());
        }
    }
}

/// A complaint about an item is about a place that starts no earlier than the construct that is
/// read.
pub proof fn law_item_error_places(g: Grammar, it: ItemsView)
    ensures
        g.next_item(it).1 matches Err(x) ==> within(g, x),
    decreases
            it.forms().items().len(),
            (if it is New {
                0int
            } else {
                1int
            }),
{
    let forms = it.forms();
    lemma_tail(forms);
    match it {
        ItemsView::New(rest) => {
            if rest.items().len() > 0 {
                lemma_group_error_places(g, rest.items()[0]);
                match g.item_group(rest.items()[0]) {
                    Ok(GroupView::Global(es)) => {
                        law_item_error_places(g, ItemsView::Global(es, rest.tail()));
                    },
                    Ok(GroupView::Const(es)) => {
                        law_item_error_places(g, ItemsView::Const(es, rest.tail()));
                    },
                    _ => {},
                }
            }
        },
        ItemsView::Global(es, rest) => {
            if es.items().len() == 0 {
                law_item_error_places(g, ItemsView::New(rest));
            } else {
                lemma_decl_error_places(g, es.items()[0]);
            }
        },
        ItemsView::Const(es, rest) => {
            if es.items().len() == 0 {
                law_item_error_places(g, ItemsView::New(rest));
            } else {
                lemma_decl_error_places(g, es.items()[0]);
            }
        },
    }
}

proof fn lemma_group_error_places(g: Grammar, e: Sexp)
    ensures
        g.item_group(e) matches Err(x) ==> within(g, x),
{
    if let Some((_, rest)) = g.head_keyword(e) {
        if rest.items().len() > 0 {
            lemma_signature_error_places(g, rest.items()[0]);
            lemma_args1_error_places(g, true, rest.items()[0].tail().items());
            lemma_args1_error_places(g, false, rest.tail().items());
        }
    }
}

proof fn lemma_signature_error_places(g: Grammar, e: Sexp)
    ensures
        g.signature(e) matches Err(x) ==> within(g, x),
{
    let es = e.tail().items();
    lemma_args_error_places(g, true, es.take(colon_index(es)));
    lemma_args_error_places(g, false, after_colon(es));
}

proof fn lemma_args1_error_places(g: Grammar, name_required: bool, es: Seq<Sexp>)
    ensures
        g.args1(name_required, es) matches Err(x) ==> within(g, x),
    decreases es.len(),
{
    if es.len() > 0 {
        law_pattern_error_places(g, false, es[0]);
        lemma_args1_error_places(g, name_required, es.drop_first());
    }
}

proof fn lemma_args_error_places(g: Grammar, name_required: bool, es: Seq<Sexp>)
    ensures
        g.args(name_required, es) matches Err(x) ==> within(g, x),
    decreases es.len(),
{
    if es.len() > 0 {
        lemma_arg_error_places(g, name_required, es[0]);
        lemma_args_error_places(g, name_required, es.drop_first());
    }
}

proof fn lemma_arg_error_places(g: Grammar, name_required: bool, e: Sexp)
    ensures
        g.arg(name_required, e) matches Err(x) ==> within(g, x),
{
    law_pattern_error_places(g, false, e);
    if let Some((_, rest)) = g.head_keyword(e) {
        lemma_args1_error_places(g, name_required, rest.items());
        if rest.items().len() > 0 {
            law_pattern_error_places(g, false, rest.items()[0]);
        }
        if rest.items().len() > 1 {
            law_pattern_error_places(g, false, rest.items()[1]);
        }
    }
}

/// A complaint about a formula is about a place that starts no earlier than the construct that is
/// read.
pub proof fn law_formula_error_places<T>(
    g: Grammar,
    ans: Seq<Option<T>>,
    st: Mm0State<T>,
    e: Sexp,
)
    ensures
        g.mm0_node(ans, st, e).1 matches Err(x) ==> within(g, x),
        g.mm0_node_opt(ans, st, e).1 matches Err(x) ==> within(g, x),
    decreases e.size(), 1nat,
{
    lemma_tail_smaller(e);
    if e.as_atom() is None && e.items().len() > 0 {
        if let Some(a) = e.items()[0].as_atom() {
            if let Some((t, params)) = g.env.term_of(a) {
                let args = e.tail().items();
                lemma_formula_args_error_places(g, ans, st, Seq::empty(), true, params, args);
                if args.len() == params.len() {
                    assert(g.mm0_node_opt(ans, st, e) == mm0_term(
                        t,
                        st.dummies,
                        g.mm0_args(ans, st, Seq::empty(), true, params, args),
                    ));
                }
            }
        }
    }
}

proof fn lemma_formula_args_error_places<T>(
    g: Grammar,
    ans: Seq<Option<T>>,
    st: Mm0State<T>,
    done: Seq<Mm0View>,
    constant: bool,
    params: Seq<ArgKind>,
    es: Seq<Sexp>,
)
    ensures
        g.mm0_args(ans, st, done, constant, params, es).1 matches Err(x) ==> within(g, x),
    decreases sizes(es), 2 + es.len(),
{
    if es.len() > 0 && params.len() > 0 {
        match params[0] {
            ArgKind::Bound => {
                if let Some(a) = es[0].as_atom() {
                    lemma_formula_args_error_places(
                        g,
                        ans,
                        st.bind(a),
                        done.push(Mm0View::Const(es[0])),
                        constant,
                        params.drop_first(),
                        es.drop_first(),
                    );
                }
            },
            ArgKind::Reg => {
                law_formula_error_places(g, ans, st, es[0]);
                if let (st1, Ok(n)) = g.mm0_node(ans, st, es[0]) {
                    lemma_formula_args_error_places(
                        g,
                        ans,
                        st1,
                        done.push(n),
                        constant && n is Const,
                        params.drop_first(),
                        es.drop_first(),
                    );
                }
            },
        }
    }
}

/// Whether two outcomes are the same, but for the places of complaints.
pub open spec fn same_but_places<T>(r: Result<T, ErrorView>, s: Result<T, ErrorView>) -> bool {
    match (r, s) {
        (Ok(x), Ok(y)) => x == y,
        (Err(x), Err(y)) => x.msg == y.msg,
        _ => false,
    }
}

/// An annotation around an expression tells where it stands, and changes nothing else.
pub proof fn law_annotations_only_place(g: Grammar, fsp: FileSpan, e: Sexp)
    ensures
        same_but_places(g.expr_kind(Sexp::Annot(fsp, Box::new(e))), g.expr_kind(e)),
{
    let f = Sexp::Annot(fsp, Box::new(e));
    lemma_unwrapped_list(e);
    lemma_unwrapped_list(f);
    if let Some((k, rest)) = g.head_keyword(e) {
        lemma_if_annotation(g, f, e, rest.items());
    }
}

proof fn lemma_if_annotation(g: Grammar, f: Sexp, e: Sexp, es: Seq<Sexp>)
    ensures
        same_but_places(g.if_branches(f, es), g.if_branches(e, es)),
    decreases es.len(),
{
    if es.len() >= 2 {
        let rest = g.after_else(es.skip(2));
        if rest.len() > 0 {
            lemma_if_annotation(g, f, e, rest.drop_first());
        }
    }
}

// ---------------------------------------------------------------------------------------------
// Subexpressions

/// Whether all elements of a list are smaller than `n`.
pub open spec fn items_below(e: Sexp, n: nat) -> bool {
    forall|i: int| 0 <= i < e.items().len() ==> (#[trigger] e.items()[i]).size() < n
}

/// Whether all S-expressions in a sequence are smaller than `n`.
pub open spec fn below(es: Seq<Sexp>, n: nat) -> bool {
    forall|i: int| 0 <= i < es.len() ==> (#[trigger] es[i]).size() < n
}

/// Whether the S-expressions in a variant are smaller than `n`.
pub open spec fn variant_below(v: VariantView, n: nat) -> bool {
    &&& v.k.0.size() < n
    &&& match v.k.1 {
        VariantType::Down => true,
        VariantType::UpLt(x) => x.size() < n,
        VariantType::UpLe(x) => x.size() < n,
    }
}

/// Whether the conditions of branches, and what is done in them, are smaller than `n`.
pub open spec fn branches_below(bs: Seq<Branch>, n: nat) -> bool {
    forall|i: int|
        0 <= i < bs.len() ==> (#[trigger] bs[i]).1.size() < n && bs[i].2.size() < n
}

/// Whether the patterns of branches, and what is done in them, are smaller than `n`.
pub open spec fn arms_below(bs: Seq<(Sexp, Sexp)>, n: nat) -> bool {
    forall|i: int|
        0 <= i < bs.len() ==> (#[trigger] bs[i]).0.size() < n && bs[i].1.size() < n
}

/// Whether the subexpressions of an expression are smaller than `n`.
pub open spec fn subexpressions_below(k: ExprView, n: nat) -> bool {
    match k {
        ExprView::Proj(x, _) => x.size() < n,
        ExprView::Let { rhs, .. } => rhs.size() < n,
        ExprView::Assign { lhs, rhs, .. } => lhs.size() < n && rhs.size() < n,
        ExprView::Call(c) => below(c.args, n) && (c.variant matches Some(v) ==> v.size() < n),
        ExprView::Entail(p, args) => p.size() < n && below(args, n),
        ExprView::Block(body) => items_below(body, n),
        ExprView::Label(l) => items_below(l.body, n) && (l.variant matches Some(v)
            ==> variant_below(v, n)),
        ExprView::If { branches, els } => branches_below(branches, n) && (els matches Some(x)
            ==> x.size() < n),
        ExprView::Match(c, branches) => c.size() < n && arms_below(branches, n),
        ExprView::While { cond, var, body, .. } => cond.size() < n && items_below(body, n) && (
        var matches Some(v) ==> variant_below(v, n)),
        _ => true,
    }
}

/// An expression is read shallowly: what is left to be read in it is smaller than it.
pub proof fn law_subexpressions_smaller(g: Grammar, e: Sexp)
    ensures
        g.expr_kind(e) matches Ok(k) ==> subexpressions_below(k, e.size()),
{
    lemma_unwrapped_list(e);
    match e.unwrapped() {
        Sexp::DottedList(es, r) => {
            if !r.is_list() && es.len() == 1 {
                lemma_size_of_element(es, 0);
            } else {
                lemma_list_expr_below(g, e);
            }
        },
        Sexp::List(_) => {
            lemma_list_expr_below(g, e);
        },
        _ => {},
    }
}

proof fn lemma_list_expr_below(g: Grammar, e: Sexp)
    ensures
        g.list_expr(e) matches Ok(k) ==> subexpressions_below(k, e.size()),
{
    let n = e.size();
    lemma_list_parts(e);
    match g.head_keyword(e) {
        Some((Keyword::ColonEq, _)) => {
            lemma_decl_below(g, e);
        },
        Some((Keyword::ArrowL, _)) => {
            lemma_decl_below(g, e);
        },
        Some((Keyword::With, rest)) => {
            lemma_with_below(g, e, rest, n);
        },
        Some((Keyword::If, rest)) => {
            lemma_if_below(g, e, rest.items(), n);
        },
        Some((Keyword::Match, rest)) => {
            lemma_tail(rest);
            lemma_match_below(g, Seq::empty(), rest.tail().items(), n);
        },
        Some((Keyword::While, rest)) => {
            lemma_while_below(g, e, rest, n);
        },
        Some((Keyword::Begin, _)) => {},
        Some((Keyword::Entail, _)) => {},
        _ => {
            if e.items().len() > 0 {
                let h = e.items()[0];
                match g.head_keyword(h) {
                    Some((Keyword::Begin, head)) => {
                        lemma_list_parts(h);
                        lemma_tail(head);
                        lemma_label_below(g, Seq::empty(), None, head.tail().items(), n);
                    },
                    _ => {
                        lemma_call_below(g, Seq::empty(), None, e.tail().items(), n);
                    },
                }
            }
        },
    }
}

proof fn lemma_with_below(g: Grammar, e: Sexp, rest: Sexp, n: nat)
    requires
        items_below(rest, n),
    ensures
        g.with_expr(e, rest) matches Ok(k) ==> subexpressions_below(k, n),
{
    if rest.items().len() > 0 {
        lemma_decl_below(g, rest.items()[0]);
    }
}

proof fn lemma_while_below(g: Grammar, e: Sexp, rest: Sexp, n: nat)
    requires
        items_below(rest, n),
    ensures
        g.while_expr(e, rest) matches Ok(k) ==> subexpressions_below(k, n),
{
    if rest.items().len() > 0 {
        let body = rest.tail();
        lemma_tail(rest);
        lemma_tail(body);
        lemma_list_parts(rest.items()[0]);
        if body.items().len() > 0 {
            lemma_variant_below(g, body.items()[0]);
        }
    }
}

/// The elements of a list are smaller than it, and so is what follows the first.
proof fn lemma_list_parts(e: Sexp)
    ensures
        items_below(e, e.size()),
        items_below(e.tail(), e.size()),
        e.items().len() > 0 ==> e.tail().items() == e.items().drop_first() && e.tail().size()
            < e.size(),
    decreases e,
{
    lemma_tail(e);
    lemma_tail_smaller(e);
    assert forall|i: int| 0 <= i < e.items().len() implies (#[trigger] e.items()[i]).size()
        < e.size() by {
        lemma_items_smaller(e);
        lemma_size_of_element(e.items(), i);
    }
    if e.items().len() > 0 {
        match e {
            Sexp::List(es) => {
                lemma_size_positive(es[0]);
                assert(sizes(es) == es[0].size() + sizes(es.drop_first()));
                assert(e.tail().size() == 1 + sizes(es.drop_first()));
            },
            Sexp::DottedList(es, r) => {
                if es.len() == 0 {
                    lemma_list_parts(*r);
                    assert(e.items() =~= r.items());
                } else {
                    lemma_size_positive(es[0]);
                    assert(sizes(es) == es[0].size() + sizes(es.drop_first()));
                    if es.len() > 1 {
                        assert(e.tail().size() == 1 + sizes(es.drop_first()) + r.size());
                    }
                }
            },
            Sexp::Annot(_, x) => {
                lemma_list_parts(*x);
            },
            _ => {},
        }
    }
}

proof fn lemma_decl_below(g: Grammar, e: Sexp)
    ensures
        g.decl_asgn(e) matches Ok(k) ==> subexpressions_below(k, e.size()),
{
    lemma_list_parts(e);
}

proof fn lemma_variant_below(g: Grammar, e: Sexp)
    ensures
        g.variant(e) matches Some(v) ==> variant_below(v, e.size()),
{
    lemma_list_parts(e);
}

proof fn lemma_if_below(g: Grammar, e: Sexp, es: Seq<Sexp>, n: nat)
    requires
        below(es, n),
    ensures
        g.if_branches(e, es) matches Ok((bs, els)) ==> branches_below(bs, n) && (els matches Some(x)
            ==> x.size() < n),
    decreases es.len(),
{
    if es.len() >= 2 {
        lemma_list_parts(es[0]);
        let rest = g.after_else(es.skip(2));
        if rest.len() > 0 {
            assert(below(rest.drop_first(), n));
            lemma_if_below(g, e, rest.drop_first(), n);
        }
    }
}

proof fn lemma_match_below(g: Grammar, done: Seq<(Sexp, Sexp)>, es: Seq<Sexp>, n: nat)
    requires
        below(es, n),
        arms_below(done, n),
    ensures
        g.match_branches(done, es) matches Ok(bs) ==> arms_below(bs, n),
    decreases es.len(),
{
    if es.len() > 0 {
        lemma_list_parts(es[0]);
        if let Some((_, rest)) = g.head_keyword(es[0]) {
            if let Some(b) = rest.pair() {
                lemma_match_below(g, done.push(b), es.drop_first(), n);
            }
        }
    }
}

proof fn lemma_label_below(
    g: Grammar,
    args: Seq<Spanned<TupleView>>,
    variant: Option<VariantView>,
    es: Seq<Sexp>,
    n: nat,
)
    requires
        below(es, n),
        variant matches Some(v) ==> variant_below(v, n),
    ensures
        g.label_parts(args, variant, es) matches Ok((_, Some(v))) ==> variant_below(v, n),
    decreases es.len(),
{
    if es.len() > 0 {
        lemma_variant_below(g, es[0]);
        match g.variant(es[0]) {
            Some(v) => {
                lemma_label_below(g, args, Some(v), es.drop_first(), n);
            },
            None => {
                if let Ok(arg) = g.arg1(true, es[0]) {
                    lemma_label_below(g, args.push(arg), variant, es.drop_first(), n);
                }
            },
        }
    }
}

proof fn lemma_call_below(
    g: Grammar,
    args: Seq<Sexp>,
    variant: Option<Sexp>,
    es: Seq<Sexp>,
    n: nat,
)
    requires
        below(args, n),
        below(es, n),
        variant matches Some(v) ==> v.size() < n,
    ensures
        g.call_parts(args, variant, es) matches Ok((xs, v)) ==> below(xs, n) && (v matches Some(x)
            ==> x.size() < n),
    decreases es.len(),
{
    if es.len() > 0 {
        lemma_list_parts(es[0]);
        match g.head_keyword(es[0]) {
            Some((Keyword::Variant, rest)) => {
                lemma_call_below(g, args, Some(rest), es.drop_first(), n);
            },
            _ => {
                lemma_call_below(g, args.push(es[0]), variant, es.drop_first(), n);
            },
        }
    }
}

// ---------------------------------------------------------------------------------------------
// Items

/// A bound on the number of items that an iteration has still to go through.
pub open spec fn items_left(it: ItemsView) -> nat {
    sizes(it.forms().items()) + sizes(it.decls())
}

/// Every step of an iteration over items makes progress, until nothing is left. Then it ends, and
/// stays at its end.
pub proof fn law_next_item_progress(g: Grammar, it: ItemsView)
    ensures
        ({
            let (rest, r) = g.next_item(it);
            &&& r == Ok::<Option<Spanned<ItemView>>, ErrorView>(None) ==> {
                &&& rest.forms().items().len() == 0
                &&& rest.decls().len() == 0
                &&& g.next_item(rest) == (rest, r)
            }
            &&& r != Ok::<Option<Spanned<ItemView>>, ErrorView>(None) ==> items_left(rest)
                < items_left(it)
        }),
    decreases
            it.forms().items().len(),
            (if it is New {
                0int
            } else {
                1int
            }),
{
    let forms = it.forms();
    lemma_tail(forms);
    match it {
        ItemsView::New(rest) => {
            if rest.items().len() > 0 {
                let form = rest.items()[0];
                lemma_size_positive(form);
                match g.item_group(form) {
                    Ok(GroupView::Global(es)) => {
                        lemma_tail_smaller(form);
                        law_next_item_progress(g, ItemsView::Global(es, rest.tail()));
                    },
                    Ok(GroupView::Const(es)) => {
                        lemma_tail_smaller(form);
                        law_next_item_progress(g, ItemsView::Const(es, rest.tail()));
                    },
                    _ => {},
                }
            }
        },
        ItemsView::Global(es, rest) => {
            lemma_tail(es);
            if es.items().len() == 0 {
                law_next_item_progress(g, ItemsView::New(rest));
            } else {
                lemma_size_positive(es.items()[0]);
            }
        },
        ItemsView::Const(es, rest) => {
            lemma_tail(es);
            if es.items().len() == 0 {
                law_next_item_progress(g, ItemsView::New(rest));
            } else {
                lemma_size_positive(es.items()[0]);
            }
        },
    }
}

proof fn lemma_size_positive(e: Sexp)
    ensures
        e.size() > 0,
{
}

/// What an iteration over items gives until its end: items, and complaints about what is wrong.
pub open spec fn all_items(g: Grammar, it: ItemsView) -> Seq<Result<Spanned<ItemView>, ErrorView>>
    decreases items_left(it),
{
    proof {
        law_next_item_progress(g, it);
    }
    match g.next_item(it) {
        (_, Ok(None)) => Seq::empty(),
        (rest, Ok(Some(item))) => seq![Ok(item)] + all_items(g, rest),
        (rest, Err(x)) => seq![Err(x)] + all_items(g, rest),
    }
}

/// What a group of declarations gives, one by one.
pub open spec fn decl_items(g: Grammar, is_const: bool, es: Seq<Sexp>) -> Seq<
    Result<Spanned<ItemView>, ErrorView>,
> {
    es.map_values(|e: Sexp| g.decl_item(is_const, e))
}

/// What one form at the top level gives.
pub open spec fn form_items(g: Grammar, e: Sexp) -> Seq<Result<Spanned<ItemView>, ErrorView>> {
    match g.item_group(e) {
        Ok(GroupView::Item(item)) => seq![Ok(item)],
        Ok(GroupView::Global(es)) => decl_items(g, false, es.items()),
        Ok(GroupView::Const(es)) => decl_items(g, true, es.items()),
        Err(x) => seq![Err(x)],
    }
}

/// What all the forms at the top level give, in order.
pub open spec fn program_items(g: Grammar, es: Seq<Sexp>) -> Seq<
    Result<Spanned<ItemView>, ErrorView>,
>
    decreases es.len(),
{
    if es.len() == 0 {
        Seq::empty()
    } else {
        form_items(g, es[0]) + program_items(g, es.drop_first())
    }
}

/// An iteration over the items of a program goes through its forms in order, and through the
/// declarations of each group one by one. A complaint does not end it.
pub proof fn law_items_of_program(g: Grammar, e: Sexp)
    ensures
        all_items(g, ItemsView::New(e)) == program_items(g, e.items()),
    decreases e.items().len(), 1nat, 0nat,
{
    law_next_item_progress(g, ItemsView::New(e));
    lemma_tail(e);
    if e.items().len() > 0 {
        let rest = e.tail();
        match g.item_group(e.items()[0]) {
            Ok(GroupView::Item(_)) => {
                law_items_of_program(g, rest);
            },
            Err(_) => {
                law_items_of_program(g, rest);
            },
            Ok(GroupView::Global(es)) => {
                lemma_items_of_group(g, false, es, rest);
                assert(g.next_item(ItemsView::New(e)) == g.next_item(ItemsView::Global(es, rest)));
                law_next_item_progress(g, ItemsView::Global(es, rest));
            },
            Ok(GroupView::Const(es)) => {
                lemma_items_of_group(g, true, es, rest);
                assert(g.next_item(ItemsView::New(e)) == g.next_item(ItemsView::Const(es, rest)));
                law_next_item_progress(g, ItemsView::Const(es, rest));
            },
        }
    }
}

/// The group of declarations with what is left of it.
spec fn group(is_const: bool, es: Sexp, rest: Sexp) -> ItemsView {
    if is_const {
        ItemsView::Const(es, rest)
    } else {
        ItemsView::Global(es, rest)
    }
}

proof fn lemma_items_of_group(g: Grammar, is_const: bool, es: Sexp, rest: Sexp)
    ensures
        all_items(g, group(is_const, es, rest)) == decl_items(g, is_const, es.items())
            + program_items(g, rest.items()),
    decreases rest.items().len(), 2nat, es.items().len(),
{
    let it = group(is_const, es, rest);
    law_next_item_progress(g, it);
    lemma_tail(es);
    let decls = decl_items(g, is_const, es.items());
    if es.items().len() == 0 {
        law_items_of_program(g, rest);
        law_next_item_progress(g, ItemsView::New(rest));
        assert(g.next_item(it) == g.next_item(ItemsView::New(rest)));
        assert(decls + program_items(g, rest.items()) =~= program_items(g, rest.items()));
    } else {
        lemma_items_of_group(g, is_const, es.tail(), rest);
        let more = decl_items(g, is_const, es.tail().items());
        assert(decls =~= seq![decls[0]] + more);
        assert(decls + program_items(g, rest.items()) =~= seq![decls[0]] + (more + program_items(
            g,
            rest.items(),
        )));
    }
}

// ---------------------------------------------------------------------------------------------
// Formulas

impl<T> Mm0State<T> {
    /// The places of the variables are those in the substitution, one for each variable.
    pub open spec fn consistent(self) -> bool {
        &&& self.vars.dom().finite()
        &&& self.vars.dom().len() == self.subst.len()
        &&& forall|a: u32| #[trigger]
            self.vars.contains_key(a) ==> self.vars[a] < self.subst.len()
        &&& forall|a: u32, b: u32|
            #![trigger self.vars[a], self.vars[b]]
            self.vars.contains_key(a) && self.vars.contains_key(b) && self.vars[a] == self.vars[b]
                ==> a == b
    }

    /// Nothing that was known is lost.
    pub open spec fn grows_to(self, st: Mm0State<T>) -> bool {
        &&& self.subst.is_prefix_of(st.subst)
        &&& self.asked.is_prefix_of(st.asked)
        &&& forall|a: u32| #[trigger]
            self.vars.contains_key(a) ==> st.vars.contains_key(a) && st.vars[a] == self.vars[a]
    }
}

/// Whether the variables in a formula are among the first `n`, and every term in it has as many
/// arguments as it is declared with, and a variable in one of them.
pub open spec fn well_formed(env: Environment, n: nat, f: Mm0View) -> bool
    decreases f,
{
    match f {
        Mm0View::Const(_) => true,
        Mm0View::Var(i) => i < n,
        Mm0View::Expr(t, fs) => {
            &&& exists|a: AtomId| #[trigger]
                env.term_of(a) matches Some((t2, params)) && t2 == t && params.len() == fs.len()
            &&& exists|i: int| 0 <= i < fs.len() && #[trigger] fs[i] !is Const
            &&& forall|i: int| 0 <= i < fs.len() ==> well_formed(env, n, #[trigger] fs[i])
        },
    }
}

/// A formula stays well formed as more variables are met.
proof fn lemma_well_formed_grows(env: Environment, n: nat, m: nat, f: Mm0View)
    requires
        well_formed(env, n, f),
        n <= m,
    ensures
        well_formed(env, m, f),
    decreases f,
{
    if let Mm0View::Expr(t, fs) = f {
        assert forall|i: int| 0 <= i < fs.len() implies well_formed(env, m, #[trigger] fs[i]) by {
            lemma_well_formed_grows(env, n, m, fs[i]);
        }
    }
}

/// At first there are no variables, and they have no places.
pub proof fn law_formula_start<T>()
    ensures
        Mm0State::<T>::start().consistent(),
{
}

/// A formula that is read is well formed over its substitution. Each variable has one place in it,
/// and no two variables have the same. A formula that is taken for constant is kept as it is
/// written. The names that are bound are the same after the formula as before it.
pub proof fn law_formulas<T>(g: Grammar, ans: Seq<Option<T>>, st: Mm0State<T>, e: Sexp)
    requires
        st.consistent(),
    ensures
        ({
            let (st1, r) = g.mm0_node(ans, st, e);
            &&& st1.consistent()
            &&& st.grows_to(st1)
            &&& r matches Ok(f) ==> {
                &&& st1.dummies == st.dummies
                &&& well_formed(g.env, st1.subst.len(), f)
                &&& f matches Mm0View::Const(x) ==> x == e
            }
        }),
    decreases e.size(), 1nat,
{
    lemma_formula_opt(g, ans, st, e);
}

proof fn lemma_formula_opt<T>(g: Grammar, ans: Seq<Option<T>>, st: Mm0State<T>, e: Sexp)
    requires
        st.consistent(),
    ensures
        ({
            let (st1, r) = g.mm0_node_opt(ans, st, e);
            &&& st1.consistent()
            &&& st.grows_to(st1)
            &&& r matches Ok(f) ==> st1.dummies == st.dummies
            &&& r matches Ok(Some(f)) ==> f !is Const && well_formed(g.env, st1.subst.len(), f)
        }),
    decreases e.size(), 0nat,
{
    lemma_tail_smaller(e);
    match e.as_atom() {
        Some(a) => {
            if !st.dummies.contains(a) && !st.vars.contains_key(a.0) {
                lemma_names(st.vars.dom(), a.0);
            }
        },
        None => {
            if e.items().len() > 0 {
                if let Some(a) = e.items()[0].as_atom() {
                    if let Some((t, params)) = g.env.term_of(a) {
                        let args = e.tail().items();
                        if args.len() == params.len() {
                            lemma_formula_args(g, ans, st, Seq::empty(), true, params, args);
                            let found = g.mm0_args(ans, st, Seq::empty(), true, params, args);
                            assert(g.mm0_node_opt(ans, st, e) == mm0_term(t, st.dummies, found));
                        }
                    }
                }
            }
        },
    }
}

/// Whether the arguments of a term are well formed, and one of them has a variable in it unless
/// `constant` holds.
spec fn well_formed_args(env: Environment, n: nat, fs: Seq<Mm0View>, constant: bool) -> bool {
    &&& forall|i: int| 0 <= i < fs.len() ==> well_formed(env, n, #[trigger] fs[i])
    &&& !constant ==> exists|i: int| 0 <= i < fs.len() && #[trigger] fs[i] !is Const
}

proof fn lemma_grows_to<T>(a: Mm0State<T>, b: Mm0State<T>, c: Mm0State<T>)
    requires
        a.grows_to(b),
        b.grows_to(c),
    ensures
        a.grows_to(c),
{
}

proof fn lemma_formula_args<T>(
    g: Grammar,
    ans: Seq<Option<T>>,
    st: Mm0State<T>,
    done: Seq<Mm0View>,
    constant: bool,
    params: Seq<ArgKind>,
    es: Seq<Sexp>,
)
    requires
        st.consistent(),
        params.len() == es.len(),
        well_formed_args(g.env, st.subst.len(), done, constant),
    ensures
        ({
            let (st1, r) = g.mm0_args(ans, st, done, constant, params, es);
            &&& st1.consistent()
            &&& st.grows_to(st1)
            &&& r matches Ok((fs, c)) ==> {
                &&& fs.len() == done.len() + es.len()
                &&& well_formed_args(g.env, st1.subst.len(), fs, c)
            }
        }),
    decreases sizes(es), 2 + es.len(),
{
    if es.len() > 0 {
        match params[0] {
            ArgKind::Bound => {
                if let Some(a) = es[0].as_atom() {
                    let more = done.push(Mm0View::Const(es[0]));
                    if !constant {
                        let i = choose|i: int| 0 <= i < done.len() && #[trigger] done[i] !is Const;
                        assert(more[i] !is Const);
                    }
                    lemma_formula_args(
                        g,
                        ans,
                        st.bind(a),
                        more,
                        constant,
                        params.drop_first(),
                        es.drop_first(),
                    );
                    assert(st.grows_to(st.bind(a)));
                    lemma_grows_to(
                        st,
                        st.bind(a),
                        g.mm0_args(ans, st, done, constant, params, es).0,
                    );
                }
            },
            ArgKind::Reg => {
                law_formulas(g, ans, st, es[0]);
                if let (st1, Ok(n)) = g.mm0_node(ans, st, es[0]) {
                    let more = done.push(n);
                    assert forall|i: int| 0 <= i < more.len() implies well_formed(
                        g.env,
                        st1.subst.len(),
                        #[trigger] more[i],
                    ) by {
                        if i < done.len() {
                            lemma_well_formed_grows(
                                g.env,
                                st.subst.len(),
                                st1.subst.len(),
                                done[i],
                            );
                        }
                    }
                    if !constant {
                        let i = choose|i: int| 0 <= i < done.len() && #[trigger] done[i] !is Const;
                        assert(more[i] !is Const);
                    } else if n !is Const {
                        assert(more[done.len() as int] !is Const);
                    }
                    lemma_formula_args(
                        g,
                        ans,
                        st1,
                        more,
                        constant && n is Const,
                        params.drop_first(),
                        es.drop_first(),
                    );
                    lemma_grows_to(st, st1, g.mm0_args(ans, st, done, constant, params, es).0);
                }
            },
        }
    }
}

/// The variables in a formula, as they occur from left to right.
pub open spec fn occurrences(f: Mm0View) -> Seq<u32>
    decreases f,
{
    match f {
        Mm0View::Const(_) => Seq::empty(),
        Mm0View::Var(i) => seq![i],
        Mm0View::Expr(_, fs) => all_occurrences(fs),
    }
}

/// The variables in formulas in a row.
pub open spec fn all_occurrences(fs: Seq<Mm0View>) -> Seq<u32>
    decreases fs,
{
    if fs.len() == 0 {
        Seq::empty()
    } else {
        all_occurrences(fs.drop_last()) + occurrences(fs.last())
    }
}

/// Whether the places in `vs` are those below `n`, and each of them has an occurrence with nothing
/// but smaller ones before.
pub open spec fn numbered_in_order(vs: Seq<u32>, n: nat) -> bool {
    &&& forall|k: int| 0 <= k < vs.len() ==> (#[trigger] vs[k]) < n
    &&& forall|i: int| 0 <= i < n ==> #[trigger] first_occurs(vs, i)
}

/// Whether `i` occurs with nothing but smaller ones before.
pub open spec fn first_occurs(vs: Seq<u32>, i: int) -> bool {
    exists|k: int|
        0 <= k < vs.len() && #[trigger] vs[k] == i && forall|j: int|
            0 <= j < k ==> (#[trigger] vs[j]) < i
}

/// The places in the substitution of a formula are numbered by the first occurrences of the
/// variables in it, from left to right. Every place occurs in the formula.
pub proof fn law_formula_numbering<T>(g: Grammar, ans: Seq<Option<T>>, e: Sexp)
    ensures
        ({
            let (st, r) = g.mm0_node(ans, Mm0State::start(), e);
            r matches Ok(f) ==> numbered_in_order(occurrences(f), st.subst.len())
        }),
{
    let st = Mm0State::<T>::start();
    lemma_numbering(g, ans, st, e);
    if let (st1, Ok(f)) = g.mm0_node(ans, st, e) {
        let vs = occurrences(f);
        lemma_counted(0, vs);
        assert forall|i: int| 0 <= i < st1.subst.len() implies #[trigger] first_occurs(vs, i) by {
            lemma_counted_first(0, vs, i);
        }
    }
}

/// Goes through places with the number of those met so far. A place is one that was met, or the
/// next. The result is the number in the end.
spec fn counted(n: nat, vs: Seq<u32>) -> Option<nat>
    decreases vs.len(),
{
    if vs.len() == 0 {
        Some(n)
    } else {
        match counted(n, vs.drop_last()) {
            Some(m) => if vs.last() < m {
                Some(m)
            } else if vs.last() == m {
                Some(m + 1)
            } else {
                None
            },
            None => None,
        }
    }
}

/// The places that were gone through are less than the number in the end.
proof fn lemma_counted(n: nat, vs: Seq<u32>)
    ensures
        counted(n, vs) matches Some(m) ==> n <= m && forall|k: int|
            0 <= k < vs.len() ==> (#[trigger] vs[k]) < m,
    decreases vs.len(),
{
    if vs.len() > 0 {
        let before = vs.drop_last();
        lemma_counted(n, before);
        if let Some(m) = counted(n, vs) {
            assert forall|k: int| 0 <= k < vs.len() implies (#[trigger] vs[k]) < m by {
                if k < before.len() {
                    assert(vs[k] == before[k]);
                }
            }
        }
    }
}

/// A place that was counted has an occurrence with nothing but smaller ones before.
proof fn lemma_counted_first(n: nat, vs: Seq<u32>, i: int)
    requires
        counted(n, vs) matches Some(m) && n <= i < m,
    ensures
        first_occurs(vs, i),
    decreases vs.len(),
{
    let before = vs.drop_last();
    lemma_counted(n, before);
    let m = counted(n, before).unwrap();
    if i < m {
        lemma_counted_first(n, before, i);
        let k = choose|k: int|
            0 <= k < before.len() && #[trigger] before[k] == i && forall|j: int|
                0 <= j < k ==> (#[trigger] before[j]) < i;
        assert(vs[k] == i);
        assert forall|j: int| 0 <= j < k implies (#[trigger] vs[j]) < i by {
            assert(vs[j] == before[j]);
        }
    } else {
        let k = vs.len() - 1;
        assert(vs[k] == i);
        assert forall|j: int| 0 <= j < k implies (#[trigger] vs[j]) < i by {
            assert(vs[j] == before[j]);
        }
    }
}

/// Going through places in two parts.
proof fn lemma_counted_add(n: nat, a: Seq<u32>, b: Seq<u32>)
    ensures
        counted(n, a + b) == (match counted(n, a) {
            Some(m) => counted(m, b),
            None => None,
        }),
    decreases b.len(),
{
    if b.len() == 0 {
        assert(a + b =~= a);
    } else {
        assert((a + b).drop_last() =~= a + b.drop_last());
        lemma_counted_add(n, a, b.drop_last());
    }
}

/// The variables in a formula count on from those that were met before.
proof fn lemma_numbering<T>(g: Grammar, ans: Seq<Option<T>>, st: Mm0State<T>, e: Sexp)
    requires
        st.consistent(),
    ensures
        ({
            let (st1, r) = g.mm0_node(ans, st, e);
            r matches Ok(f) ==> counted(st.subst.len(), occurrences(f)) == Some(st1.subst.len())
        }),
    decreases e.size(), 1nat,
{
    let n = st.subst.len();
    lemma_tail_smaller(e);
    reveal_with_fuel(counted, 2);
    match e.as_atom() {
        Some(a) => {
            if !st.dummies.contains(a) && !st.vars.contains_key(a.0) {
                lemma_names(st.vars.dom(), a.0);
            }
            if let (_, Ok(Mm0View::Var(i))) = g.mm0_node(ans, st, e) {
                assert(seq![i].drop_last() =~= Seq::empty());
            }
        },
        None => {
            if e.items().len() > 0 {
                if let Some(a) = e.items()[0].as_atom() {
                    if let Some((t, params)) = g.env.term_of(a) {
                        let args = e.tail().items();
                        if args.len() == params.len() {
                            let none = Seq::<Mm0View>::empty();
                            lemma_numbering_args(g, ans, st, n, none, true, params, args);
                            let found = g.mm0_args(ans, st, none, true, params, args);
                            assert(g.mm0_node_opt(ans, st, e) == mm0_term(t, st.dummies, found));
                        }
                    }
                }
            }
        },
    }
}

/// The variables in the arguments of a term count on from the `n` that were met before it. Where
/// the arguments are taken for constant there are none.
proof fn lemma_numbering_args<T>(
    g: Grammar,
    ans: Seq<Option<T>>,
    st: Mm0State<T>,
    n: nat,
    done: Seq<Mm0View>,
    constant: bool,
    params: Seq<ArgKind>,
    es: Seq<Sexp>,
)
    requires
        st.consistent(),
        params.len() == es.len(),
        counted(n, all_occurrences(done)) == Some(st.subst.len()),
        constant ==> all_occurrences(done).len() == 0,
    ensures
        ({
            let (st1, r) = g.mm0_args(ans, st, done, constant, params, es);
            r matches Ok((fs, c)) ==> {
                &&& counted(n, all_occurrences(fs)) == Some(st1.subst.len())
                &&& c ==> all_occurrences(fs).len() == 0
            }
        }),
    decreases sizes(es), 2 + es.len(),
{
    if es.len() > 0 {
        match params[0] {
            ArgKind::Bound => {
                if let Some(a) = es[0].as_atom() {
                    let f = Mm0View::Const(es[0]);
                    let more = done.push(f);
                    assert(more.drop_last() =~= done);
                    assert(occurrences(f).len() == 0);
                    assert(all_occurrences(more) =~= all_occurrences(done));
                    lemma_numbering_args(
                        g,
                        ans,
                        st.bind(a),
                        n,
                        more,
                        constant,
                        params.drop_first(),
                        es.drop_first(),
                    );
                }
            },
            ArgKind::Reg => {
                law_formulas(g, ans, st, es[0]);
                lemma_numbering(g, ans, st, es[0]);
                if let (st1, Ok(f)) = g.mm0_node(ans, st, es[0]) {
                    let more = done.push(f);
                    assert(more.drop_last() =~= done);
                    assert(all_occurrences(more) == all_occurrences(done) + occurrences(f));
                    lemma_counted_add(n, all_occurrences(done), occurrences(f));
                    lemma_numbering_args(
                        g,
                        ans,
                        st1,
                        n,
                        more,
                        constant && f is Const,
                        params.drop_first(),
                        es.drop_first(),
                    );
                }
            },
        }
    }
}

impl<T> Mm0State<T> {
    /// Whether the variables are the names to which `ans` has an answer, and each stands for what
    /// it was answered. A name is not asked for again once it has an answer.
    pub open spec fn answered_by(self, ans: Seq<Option<T>>) -> bool {
        &&& forall|a: u32| #[trigger] self.vars.contains_key(a) ==> self.given(ans, a)
        &&& forall|k: int|
            0 <= k < self.asked.len() && ans[k] is Some ==> self.vars.contains_key(
                (#[trigger] self.asked[k]).1.0,
            )
        &&& forall|j: int, k: int|
            #![trigger self.asked[j], self.asked[k]]
            0 <= j < k < self.asked.len() && self.asked[j].1 == self.asked[k].1 ==> ans[j] is None
    }

    /// Whether the variable `a` stands for what was answered when it was asked for.
    pub open spec fn given(self, ans: Seq<Option<T>>, a: u32) -> bool {
        exists|k: int|
            0 <= k < self.asked.len() && (#[trigger] self.asked[k]).1.0 == a && ans[k] == Some(
                self.subst[self.vars[a] as int],
            )
    }
}

/// Whether a formula is one of `e`. Its variables stand where `e` has the names with these places,
/// its terms where `e` has their names, and all else is as in `e`.
pub open spec fn formula_of(env: Environment, vars: Map<u32, u32>, f: Mm0View, e: Sexp) -> bool
    decreases f,
{
    match f {
        Mm0View::Const(x) => x == e,
        Mm0View::Var(i) => e.as_atom() matches Some(a) && vars.contains_key(a.0) && vars[a.0] == i,
        Mm0View::Expr(t, fs) => {
            let args = e.tail().items();
            &&& term_at(env, t, e)
            &&& fs.len() == args.len()
            &&& forall|i: int|
                0 <= i < fs.len() ==> formula_of(env, vars, #[trigger] fs[i], args[i])
        },
    }
}

/// Whether the head of `e` is the name of a term.
pub open spec fn term_at(env: Environment, t: TermId, e: Sexp) -> bool {
    &&& e.as_atom() is None
    &&& e.items().len() > 0
    &&& e.items()[0].as_atom() matches Some(a) && env.term_of(a) matches Some((t2, _)) && t2 == t
}

/// Every variable in a formula stands where a name was written, and its place in the substitution
/// holds what was answered for that name. No name is asked for again once it has an answer.
pub proof fn law_formula_sources<T>(g: Grammar, ans: Seq<Option<T>>, e: Sexp)
    ensures
        ({
            let (st, r) = g.mm0_node(ans, Mm0State::start(), e);
            &&& st.answered_by(ans)
            &&& r matches Ok(f) ==> formula_of(g.env, st.vars, f, e)
        }),
{
    lemma_sources(g, ans, Mm0State::start(), e);
}

/// A formula stays one of its source as more variables are met.
proof fn lemma_formula_of_grows(
    env: Environment,
    vars: Map<u32, u32>,
    more: Map<u32, u32>,
    f: Mm0View,
    e: Sexp,
)
    requires
        formula_of(env, vars, f, e),
        forall|a: u32| #[trigger]
            vars.contains_key(a) ==> more.contains_key(a) && more[a] == vars[a],
    ensures
        formula_of(env, more, f, e),
    decreases f,
{
    if let Mm0View::Expr(_, fs) = f {
        let args = e.tail().items();
        assert forall|i: int| 0 <= i < fs.len() implies formula_of(
            env,
            more,
            #[trigger] fs[i],
            args[i],
        ) by {
            lemma_formula_of_grows(env, vars, more, fs[i], args[i]);
        }
    }
}

/// Asking for one more name, which has no answer so far.
proof fn lemma_ask<T>(ans: Seq<Option<T>>, st: Mm0State<T>, e: Sexp, a: AtomId)
    requires
        st.consistent(),
        st.answered_by(ans),
        !st.vars.contains_key(a.0),
    ensures
        match ans[st.asked.len() as int] {
            Some(v) => st.ask(e, a).meet(a, v).answered_by(ans),
            None => st.ask(e, a).answered_by(ans),
        },
{
    let n = st.asked.len() as int;
    let st1 = match ans[n] {
        Some(v) => st.ask(e, a).meet(a, v),
        None => st.ask(e, a),
    };
    lemma_names(st.vars.dom(), a.0);
    assert(st1.asked[n] == (e, a));
    assert forall|b: u32| #[trigger] st1.vars.contains_key(b) implies st1.given(ans, b) by {
        if st.vars.contains_key(b) {
            assert(st.given(ans, b));
            let k = choose|k: int|
                0 <= k < st.asked.len() && (#[trigger] st.asked[k]).1.0 == b && ans[k] == Some(
                    st.subst[st.vars[b] as int],
                );
            assert(st1.asked[k] == st.asked[k]);
        }
    }
    assert forall|k: int|
        0 <= k < st1.asked.len() && ans[k] is Some implies st1.vars.contains_key(
        (#[trigger] st1.asked[k]).1.0,
    ) by {
        if k < n {
            assert(st1.asked[k] == st.asked[k]);
        }
    }
    assert forall|j: int, k: int|
        #![trigger st1.asked[j], st1.asked[k]]
        0 <= j < k < st1.asked.len() && st1.asked[j].1 == st1.asked[k].1 implies ans[j] is None by {
        assert(st1.asked[j] == st.asked[j]);
        if k < n {
            assert(st1.asked[k] == st.asked[k]);
        }
    }
}

/// The names that are bound have nothing to do with the answers.
proof fn lemma_bound_names<T>(ans: Seq<Option<T>>, st: Mm0State<T>, dummies: Seq<AtomId>)
    requires
        st.answered_by(ans),
    ensures
        (Mm0State { dummies, ..st }).answered_by(ans),
{
    let st1 = Mm0State { dummies, ..st };
    assert forall|a: u32| #[trigger] st1.vars.contains_key(a) implies st1.given(ans, a) by {
        assert(st.given(ans, a));
        let k = choose|k: int|
            0 <= k < st.asked.len() && (#[trigger] st.asked[k]).1.0 == a && ans[k] == Some(
                st.subst[st.vars[a] as int],
            );
        assert(st1.asked[k] == st.asked[k]);
    }
}

/// A formula that is read is one of its source, and the answers stay those that were given.
proof fn lemma_sources<T>(g: Grammar, ans: Seq<Option<T>>, st: Mm0State<T>, e: Sexp)
    requires
        st.consistent(),
        st.answered_by(ans),
    ensures
        ({
            let (st1, r) = g.mm0_node(ans, st, e);
            &&& st1.answered_by(ans)
            &&& r matches Ok(f) ==> formula_of(g.env, st1.vars, f, e)
        }),
    decreases e.size(), 1nat,
{
    lemma_tail_smaller(e);
    match e.as_atom() {
        Some(a) => {
            if !st.dummies.contains(a) && !st.vars.contains_key(a.0) {
                lemma_ask(ans, st, e, a);
            }
        },
        None => {
            if e.items().len() > 0 {
                if let Some(a) = e.items()[0].as_atom() {
                    if let Some((t, params)) = g.env.term_of(a) {
                        let args = e.tail().items();
                        if args.len() == params.len() {
                            let none = Seq::<Mm0View>::empty();
                            let before = Seq::<Sexp>::empty();
                            lemma_sources_args(g, ans, st, before, none, true, params, args);
                            let found = g.mm0_args(ans, st, none, true, params, args);
                            assert(g.mm0_node_opt(ans, st, e) == mm0_term(t, st.dummies, found));
                            assert(before + args =~= args);
                            lemma_bound_names(ans, found.0, st.dummies);
                        }
                    }
                }
            }
        },
    }
}

/// The arguments of a term are those of their sources, after `done`, which are those of `before`.
proof fn lemma_sources_args<T>(
    g: Grammar,
    ans: Seq<Option<T>>,
    st: Mm0State<T>,
    before: Seq<Sexp>,
    done: Seq<Mm0View>,
    constant: bool,
    params: Seq<ArgKind>,
    es: Seq<Sexp>,
)
    requires
        st.consistent(),
        st.answered_by(ans),
        params.len() == es.len(),
        done.len() == before.len(),
        forall|i: int|
            0 <= i < done.len() ==> formula_of(g.env, st.vars, #[trigger] done[i], before[i]),
    ensures
        ({
            let (st1, r) = g.mm0_args(ans, st, done, constant, params, es);
            let all = before + es;
            &&& st1.answered_by(ans)
            &&& r matches Ok((fs, _)) ==> {
                &&& fs.len() == all.len()
                &&& forall|i: int|
                    0 <= i < fs.len() ==> formula_of(g.env, st1.vars, #[trigger] fs[i], all[i])
            }
        }),
    decreases sizes(es), 2 + es.len(),
{
    if es.len() == 0 {
        assert(before + es =~= before);
    } else {
        let seen = before.push(es[0]);
        assert(seen + es.drop_first() =~= before + es);
        match params[0] {
            ArgKind::Bound => {
                if let Some(a) = es[0].as_atom() {
                    let st1 = st.bind(a);
                    let more = done.push(Mm0View::Const(es[0]));
                    lemma_bound_names(ans, st, st1.dummies);
                    lemma_sources_args(
                        g,
                        ans,
                        st1,
                        seen,
                        more,
                        constant,
                        params.drop_first(),
                        es.drop_first(),
                    );
                }
            },
            ArgKind::Reg => {
                law_formulas(g, ans, st, es[0]);
                lemma_sources(g, ans, st, es[0]);
                if let (st1, Ok(f)) = g.mm0_node(ans, st, es[0]) {
                    let more = done.push(f);
                    assert forall|i: int| 0 <= i < more.len() implies formula_of(
                        g.env,
                        st1.vars,
                        #[trigger] more[i],
                        seen[i],
                    ) by {
                        if i < done.len() {
                            lemma_formula_of_grows(g.env, st.vars, st1.vars, done[i], before[i]);
                        }
                    }
                    lemma_sources_args(
                        g,
                        ans,
                        st1,
                        seen,
                        more,
                        constant && f is Const,
                        params.drop_first(),
                        es.drop_first(),
                    );
                }
            },
        }
    }
}

// ---------------------------------------------------------------------------------------------
// Values and tables

/// The elements of a dotted list are those before the dot and those of the list after it. An
/// annotation changes neither the elements nor whether the list is a proper one.
pub proof fn law_lists(es: Seq<Sexp>, r: Sexp, fsp: FileSpan)
    ensures
        Sexp::List(es).items() == es,
        Sexp::List(es).is_list(),
        Sexp::DottedList(es, Box::new(r)).items() == es + r.items(),
        Sexp::DottedList(es, Box::new(r)).is_list() == r.is_list(),
        Sexp::Annot(fsp, Box::new(r)).items() == r.items(),
        Sexp::Annot(fsp, Box::new(r)).is_list() == r.is_list(),
        Sexp::Annot(fsp, Box::new(r)).as_atom() == r.as_atom(),
        Sexp::Annot(fsp, Box::new(r)).as_int() == r.as_int(),
        Sexp::Annot(fsp, Box::new(r)).fspan() == Some(fsp),
        r.as_atom() is Some ==> r.items().len() == 0 && !r.is_list(),
{
    lemma_unwrapped_list(r);
}

/// The syntax objects that stand for keywords are those of the forms that MMC shares with the Lisp
/// reader, and each stands for the keyword of its own form.
pub proof fn law_syntax_words(s: Syntax, k: Keyword)
    ensures
        Keyword::of_syntax(s) == Some(k) <==> {
            ||| s == Syntax::Begin && k == Keyword::Begin
            ||| s == Syntax::If && k == Keyword::If
            ||| s == Syntax::Match && k == Keyword::Match
        },
{
}

/// A name is a term or a system routine exactly where the tables say so.
pub proof fn law_environment(
    env: Environment,
    a: AtomId,
    t: TermId,
    params: Seq<ArgKind>,
    i: Intrinsic,
)
    ensures
        env.term_of(a) == Some((t, params)) <==> {
            &&& (a.0 as int) < env.data@.len()
            &&& env.data@[a.0 as int].term == Some(t)
            &&& (t.0 as int) < env.terms@.len()
            &&& env.terms@[t.0 as int]@ == params
        },
        env.intrinsic_of(a) == Some(i) <==> {
            &&& (a.0 as int) < env.data@.len()
            &&& env.data@[a.0 as int].intrinsic == Some(i)
        },
{
}

} // verus!
