//! How items are written.

use super::expressions::{is_variant, law_decl, let_form};
use super::item::{after_colon, colon_index, lemma_colon_index, GroupView, ProcWord, Signature};
use super::laws::lemma_unwrapped_twice;
use super::readback::{is_triple, law_head_keywords, law_variants, lemma_pair, starts_with};
use super::readback::variant_form;
use super::Grammar;
use crate::ast::{ItemView, MutOut, ProcKind, ProcView, TupleView, VariantView};
use crate::error::ErrorView;
use crate::keyword::Keyword;
use crate::lisp::{lemma_tail, lemma_unwrapped_list, AtomId, Sexp, COLON};
use crate::span::Spanned;
use vstd::prelude::*;

verus! {

/// The arguments that are read from the entries of a parameter list.
pub open spec fn read_args(
    g: Grammar,
    name_required: bool,
    ps: Seq<(MutOut, Spanned<TupleView>)>,
    es: Seq<Sexp>,
) -> bool {
    g.args(name_required, es) == Ok::<Seq<(MutOut, Spanned<TupleView>)>, ErrorView>(ps)
}

/// The arguments that are read in a row.
pub open spec fn read_args1(
    g: Grammar,
    name_required: bool,
    ps: Seq<Spanned<TupleView>>,
    es: Seq<Sexp>,
) -> bool {
    g.args1(name_required, es) == Ok::<Seq<Spanned<TupleView>>, ErrorView>(ps)
}

/// Whether an element is the name `:`.
pub open spec fn is_colon(e: Sexp) -> bool {
    e.as_atom() == Some(AtomId(COLON))
}

/// Whether a row is split in two by the first `:` in it, or has no `:` and is the first part.
pub open spec fn split_by_colon(es: Seq<Sexp>, before: Seq<Sexp>, after: Seq<Sexp>) -> bool {
    &&& forall|i: int| 0 <= i < before.len() ==> !is_colon(#[trigger] before[i])
    &&& if before.len() < es.len() {
        is_colon(es[before.len() as int]) && es == before.push(es[before.len() as int]) + after
    } else {
        es == before && after.len() == 0
    }
}

/// The first `:` splits a row, and it is the only one that does.
pub proof fn law_colons(es: Seq<Sexp>)
    ensures
        split_by_colon(es, es.take(colon_index(es)), after_colon(es)),
        forall|before: Seq<Sexp>, after: Seq<Sexp>| #[trigger]
            split_by_colon(es, before, after) ==> before == es.take(colon_index(es)) && after
                == after_colon(es),
{
    lemma_colon_index(es);
    lemma_first_colon(es);
    let n = colon_index(es);
    if n < es.len() {
        assert(es =~= es.take(n).push(es[n]) + es.skip(n + 1));
    } else {
        assert(es.take(n) =~= es);
    }
    assert forall|before: Seq<Sexp>, after: Seq<Sexp>| #[trigger]
        split_by_colon(es, before, after) implies before == es.take(n) && after == after_colon(
        es,
    ) by {
        let m = before.len() as int;
        if m < es.len() {
            let all = before.push(es[m]) + after;
            assert forall|i: int| 0 <= i < m implies es[i] == before[i] by {
                assert(all[i] == before[i]);
            }
            if n < m {
                assert(!is_colon(before[n]));
            }
            assert(n == m);
            assert(before =~= es.take(n));
            assert(after =~= es.skip(n + 1));
        } else {
            if n < m {
                assert(!is_colon(before[n]));
            }
            assert(before =~= es.take(n));
            assert(after =~= Seq::empty());
        }
    }
}

proof fn lemma_first_colon(es: Seq<Sexp>)
    ensures
        colon_index(es) < es.len() ==> is_colon(es[colon_index(es)]),
        forall|i: int| 0 <= i < colon_index(es) ==> !is_colon(#[trigger] es[i]),
    decreases es.len(),
{
    lemma_colon_index(es);
    if es.len() > 0 && !is_colon(es[0]) {
        let rest = es.drop_first();
        lemma_first_colon(rest);
        lemma_colon_index(rest);
        assert forall|i: int| 0 <= i < colon_index(es) implies !is_colon(#[trigger] es[i]) by {
            if i > 0 {
                assert(es[i] == rest[i - 1]);
            }
        }
    }
}

/// `name` or `(name args.. : rets..)`.
pub open spec fn signature_form(g: Grammar, s: Signature, e: Sexp) -> bool {
    let es = e.items();
    match e.as_atom() {
        Some(a) => s.name.k == a && s.name.span == g.fspan_of(e) && s.args.len() == 0
            && s.rets.len() == 0,
        None => {
            &&& es.len() > 0
            &&& es[0].as_atom() == Some(s.name.k)
            &&& s.name.span == g.fspan_of(es[0])
            &&& exists|before: Seq<Sexp>, after: Seq<Sexp>| #[trigger]
                split_by_colon(es.skip(1), before, after) && read_args(g, true, s.args, before)
                    && read_args(g, false, s.rets, after)
        },
    }
}

/// What is read as a signature is exactly what is written as one.
pub proof fn law_signatures(g: Grammar, s: Signature, e: Sexp)
    ensures
        g.signature(e) == Ok::<Signature, ErrorView>(s) <==> signature_form(g, s, e),
{
    let es = e.items();
    lemma_unwrapped_list(e);
    lemma_unwrapped_twice(e);
    lemma_tail(e);
    if let Some(a) = e.as_atom() {
        if s.args.len() == 0 && s.rets.len() == 0 {
            assert(s.args =~= Seq::empty());
            assert(s.rets =~= Seq::empty());
        }
    } else if es.len() > 0 {
        let rest = es.skip(1);
        assert(rest =~= e.tail().items());
        law_colons(rest);
        if signature_form(g, s, e) {
            let (before, after) = choose|before: Seq<Sexp>, after: Seq<Sexp>| #[trigger]
                split_by_colon(rest, before, after) && read_args(g, true, s.args, before)
                    && read_args(g, false, s.rets, after);
            assert(before == rest.take(colon_index(rest)));
        }
    }
}

/// The kind of a procedure that starts with the given word.
pub open spec fn proc_kind_form(g: Grammar, kind: ProcKind, name: AtomId, e: Sexp) -> bool {
    match kind {
        ProcKind::Proc => starts_with(g, e, Keyword::Proc),
        ProcKind::Func => starts_with(g, e, Keyword::Func),
        ProcKind::Intrinsic(i) => starts_with(g, e, Keyword::Intrinsic) && g.env.intrinsic_of(name)
            == Some(i) && e.items().len() == 2,
    }
}

/// `(proc signature body..)`, `(func signature body..)` or `(intrinsic signature)`. The body may
/// start with a variant, which stays in it.
pub open spec fn proc_form(g: Grammar, p: ProcView, e: Sexp) -> bool {
    let es = e.items();
    &&& es.len() >= 2
    &&& signature_form(g, (Signature { name: p.name, args: p.args, rets: p.rets }), es[1])
    &&& proc_kind_form(g, p.kind, p.name.k, e)
    &&& match p.variant {
        Some(v) => es.len() > 2 && variant_form(g, v, es[2]),
        None => es.len() > 2 ==> !is_variant(g, es[2]),
    }
    &&& p.body == e.tail().tail()
    &&& p.body.items() == es.skip(2)
}

proof fn lemma_proc(g: Grammar, p: ProcView, word: ProcWord, k: Keyword, e: Sexp)
    requires
        starts_with(g, e, k),
        match word {
            ProcWord::Proc => k == Keyword::Proc,
            ProcWord::Func => k == Keyword::Func,
            ProcWord::Intrinsic => k == Keyword::Intrinsic,
        },
    ensures
        g.procedure(e, word, e.tail()) == Ok::<ProcView, ErrorView>(p) <==> proc_form(g, p, e),
{
    let es = e.items();
    let rest = e.tail();
    lemma_tail(e);
    lemma_tail(rest);
    if es.len() >= 2 {
        assert(rest.items()[0] == es[1]);
        assert(rest.tail().items() =~= es.skip(2));
        let s = Signature { name: p.name, args: p.args, rets: p.rets };
        law_signatures(g, s, es[1]);
        if let Ok(s2) = g.signature(es[1]) {
            law_signatures(g, s2, es[1]);
        }
        if es.len() > 2 {
            assert(rest.tail().items()[0] == es[2]);
            if let Some(v) = p.variant {
                law_variants(g, v, es[2]);
            }
            if let Some(v) = g.variant(es[2]) {
                law_variants(g, v, es[2]);
            }
            if is_variant(g, es[2]) {
                let v = choose|v: VariantView| #[trigger] variant_form(g, v, es[2]);
                law_variants(g, v, es[2]);
            }
        }
    }
}

/// `name` or `(name args..)`.
pub open spec fn named_form(
    g: Grammar,
    name: Spanned<AtomId>,
    args: Seq<Spanned<TupleView>>,
    e: Sexp,
) -> bool {
    let es = e.items();
    match e.as_atom() {
        Some(a) => name.k == a && name.span == g.fspan_of(e) && args.len() == 0,
        None => {
            &&& es.len() > 0
            &&& es[0].as_atom() == Some(name.k)
            &&& name.span == g.fspan_of(es[0])
            &&& read_args1(g, true, args, es.skip(1))
        },
    }
}

proof fn lemma_named(
    g: Grammar,
    name: Spanned<AtomId>,
    args: Seq<Spanned<TupleView>>,
    e: Sexp,
)
    ensures
        g.name_and_tyargs(e) == Ok::<(Spanned<AtomId>, Seq<Spanned<TupleView>>), ErrorView>(
            (name, args),
        ) <==> named_form(g, name, args, e),
{
    let es = e.items();
    lemma_unwrapped_list(e);
    lemma_unwrapped_twice(e);
    lemma_tail(e);
    if es.len() > 0 {
        assert(es.skip(1) =~= e.tail().items());
    }
    if args.len() == 0 {
        assert(args =~= Seq::empty());
    }
}

/// An item that is a form of its own: a procedure, `(typedef name ty)` or `(struct name field..)`.
pub open spec fn item_form(g: Grammar, k: ItemView, e: Sexp) -> bool {
    let es = e.items();
    match k {
        ItemView::Proc(p) => proc_form(g, p, e),
        ItemView::Typedef { name, args, val } => is_triple(g, Keyword::Typedef, e) && named_form(
            g,
            name,
            args,
            es[1],
        ) && val == es[2],
        ItemView::Struct { name, args, fields } => {
            &&& starts_with(g, e, Keyword::Struct)
            &&& es.len() >= 2
            &&& named_form(g, name, args, es[1])
            &&& read_args1(g, false, fields, es.skip(2))
        },
        _ => false,
    }
}

/// What is read as an item, or as a group of declarations, is exactly what is written as one. An item
/// stands where it is written, and the declarations of a group are what follows its word.
pub proof fn law_item_groups(g: Grammar, it: Spanned<ItemView>, u: Sexp, e: Sexp)
    ensures
        g.item_group(e) == Ok::<GroupView, ErrorView>(GroupView::Item(it)) <==> it.span
            == g.fspan_of(e) && item_form(g, it.k, e),
        g.item_group(e) == Ok::<GroupView, ErrorView>(GroupView::Global(u)) <==> starts_with(
            g,
            e,
            Keyword::Global,
        ) && u == e.tail(),
        g.item_group(e) == Ok::<GroupView, ErrorView>(GroupView::Const(u)) <==> starts_with(
            g,
            e,
            Keyword::Const,
        ) && u == e.tail(),
        e.items().len() > 0 ==> e.tail().items() == e.items().skip(1),
{
    let es = e.items();
    lemma_tail(e);
    if es.len() > 0 {
        assert(es.skip(1) =~= es.drop_first());
    }
    law_head_keywords(g, e, Keyword::Proc);
    law_head_keywords(g, e, Keyword::Func);
    law_head_keywords(g, e, Keyword::Intrinsic);
    law_head_keywords(g, e, Keyword::Global);
    law_head_keywords(g, e, Keyword::Const);
    law_head_keywords(g, e, Keyword::Typedef);
    law_head_keywords(g, e, Keyword::Struct);
    if starts_with(g, e, Keyword::Proc) {
        lemma_proc_item(g, it, ProcWord::Proc, Keyword::Proc, e);
    } else if starts_with(g, e, Keyword::Func) {
        lemma_proc_item(g, it, ProcWord::Func, Keyword::Func, e);
    } else if starts_with(g, e, Keyword::Intrinsic) {
        lemma_proc_item(g, it, ProcWord::Intrinsic, Keyword::Intrinsic, e);
    } else if starts_with(g, e, Keyword::Typedef) {
        lemma_pair(g, Keyword::Typedef, e);
        if is_triple(g, Keyword::Typedef, e) {
            if let ItemView::Typedef { name, args, .. } = it.k {
                lemma_named(g, name, args, es[1]);
            }
        }
    } else if starts_with(g, e, Keyword::Struct) {
        lemma_tail(e.tail());
        if es.len() >= 2 {
            assert(e.tail().items()[0] == es[1]);
            assert(e.tail().tail().items() =~= es.skip(2));
            if let ItemView::Struct { name, args, .. } = it.k {
                lemma_named(g, name, args, es[1]);
            }
            if let Ok((name, args)) = g.name_and_tyargs(es[1]) {
                lemma_named(g, name, args, es[1]);
            }
        }
    }
}

proof fn lemma_proc_item(
    g: Grammar,
    it: Spanned<ItemView>,
    word: ProcWord,
    k: Keyword,
    e: Sexp,
)
    requires
        starts_with(g, e, k),
        match word {
            ProcWord::Proc => k == Keyword::Proc,
            ProcWord::Func => k == Keyword::Func,
            ProcWord::Intrinsic => k == Keyword::Intrinsic,
        },
    ensures
        g.proc_item(e, word, e.tail()) == Ok::<GroupView, ErrorView>(GroupView::Item(it))
            <==> it.span == g.fspan_of(e) && item_form(g, it.k, e),
        g.proc_item(e, word, e.tail()) matches Ok(x) ==> x is Item,
{
    if let ItemView::Proc(p) = it.k {
        lemma_proc(g, p, word, k, e);
    }
    if let Ok(p) = g.procedure(e, word, e.tail()) {
        lemma_proc(g, p, word, k, e);
    }
}

/// What is read as a global variable or as a constant is exactly what is written as a declaration.
pub proof fn law_decl_items(g: Grammar, is_const: bool, it: Spanned<ItemView>, e: Sexp)
    ensures
        g.decl_item(is_const, e) == Ok::<Spanned<ItemView>, ErrorView>(it) <==> it.span
            == g.fspan_of(e) && match it.k {
            ItemView::Const(lhs, rhs) => is_const && let_form(g, lhs, rhs, e),
            ItemView::Global(lhs, rhs) => !is_const && let_form(g, lhs, rhs, e),
            _ => false,
        },
{
    match it.k {
        ItemView::Const(lhs, rhs) => {
            law_decl(g, Spanned { span: it.span, k: (lhs, rhs) }, e);
        },
        ItemView::Global(lhs, rhs) => {
            law_decl(g, Spanned { span: it.span, k: (lhs, rhs) }, e);
        },
        _ => {},
    }
    if let Ok(d) = g.decl(e) {
        law_decl(g, d, e);
    }
}

} // verus!
