//! What is complained about, and where.

use super::expressions::{is_group, is_projection, is_variant, law_rename, rename_form, ungrouped};
use super::item::{after_colon, colon_index, lemma_colon_index, ProcWord};
use super::laws::lemma_unwrapped_twice;
use super::meanings::{constructor, constructor_args, entity_of, prop_entity};
use super::mm0::{mm0_term, Mm0State};
use super::pattern::Rename;
use super::readback::{is_triple, is_word, law_head_keywords, law_variants, lemma_pair};
use super::readback::{lemma_elements_smaller, starts_with, variant_form};
use super::scopes::applied;
use super::types::{head_and_args, prop_constructor};
use super::Grammar;
use crate::ast::{ExprView, Mm0View, RenamesView, TupleView, VariantView};
use crate::entity::{Entity, PrimProp, PrimType, TypeTc};
use crate::env::ArgKind;
use crate::error::{ErrorView, Message};
use crate::keyword::Keyword;
use crate::lisp::{lemma_items_smaller, lemma_tail, lemma_tail_smaller, lemma_unwrapped_list};
use crate::lisp::{sizes, AtomId, Sexp, COLON, UNDER};
use crate::span::{FileSpan, Spanned};
use vstd::prelude::*;

verus! {

/// Whether a complaint is about `e`, with the given message.
pub open spec fn about(g: Grammar, x: ErrorView, e: Sexp, msg: Message<Sexp>) -> bool {
    x.pos == g.span_of(e) && x.msg == msg
}

/// The place of a value is the one that it carries, where that lies in the file of the construct that
/// is read and starts no earlier. Otherwise it is the place of the construct.
pub proof fn law_own_places(g: Grammar, e: Sexp, fsp: FileSpan)
    ensures
        e.fspan() == Some(fsp) && fsp.file == g.base.file && fsp.span.start >= g.base.span.start
            ==> g.span_of(e) == fsp.span,
        e.fspan() == Some(fsp) && (fsp.file != g.base.file || fsp.span.start < g.base.span.start)
            ==> g.span_of(e) == g.base.span,
        e.fspan() is None ==> g.span_of(e) == g.base.span,
        e.fspan() == Some(fsp) <==> (e matches Sexp::Annot(f, _) && f == fsp),
        g.fspan_of(e).file == g.base.file,
        g.fspan_of(e).span == g.span_of(e),
{
}

// ---------------------------------------------------------------------------------------------
// Tuple patterns and arguments

/// A complaint about a tuple pattern: it is neither a name nor a list, or the list that starts with a
/// colon is not a pattern and a type, or there is a complaint about one of its parts.
pub open spec fn tuple_complaint(g: Grammar, x: ErrorView, e: Sexp) -> bool
    decreases e.size(),
{
    let es = e.items();
    &&& e.as_atom() is None
    &&& if !e.is_list() {
        about(g, x, e, Message::TuplePattern(e))
    } else if starts_with(g, e, Keyword::Colon) {
        if es.len() == 3 {
            es[1].size() < e.size() && tuple_complaint(g, x, es[1])
        } else {
            about(g, x, e, Message::ColonSyntax)
        }
    } else {
        exists|i: int|
            0 <= i < es.len() && (starts_with(g, e, Keyword::GhostKw) ==> i > 0) && (
            #[trigger] es[i]).size() < e.size() && tuple_complaint(g, x, es[i])
    }
}

/// Every complaint about a tuple pattern is one of these.
pub proof fn law_tuple_complaints(g: Grammar, ghost: bool, x: ErrorView, e: Sexp)
    requires
        g.tuple_pattern(ghost, e) == Err::<Spanned<TupleView>, ErrorView>(x),
    ensures
        tuple_complaint(g, x, e),
    decreases e.size(), 0nat,
{
    let es = e.items();
    lemma_items_smaller(e);
    lemma_tail_smaller(e);
    lemma_elements_smaller(e);
    lemma_tail(e);
    law_head_keywords(g, e, Keyword::Colon);
    law_head_keywords(g, e, Keyword::GhostKw);
    if e.is_list() {
        if starts_with(g, e, Keyword::Colon) {
            lemma_pair(g, Keyword::Colon, e);
            if es.len() == 3 {
                law_tuple_complaints(g, ghost, x, es[1]);
            }
        } else if starts_with(g, e, Keyword::GhostKw) {
            let rest = es.drop_first();
            let i = lemma_patterns_complaint(g, true, x, rest);
            assert(es[i + 1] == rest[i]);
        } else {
            let i = lemma_patterns_complaint(g, ghost, x, es);
            assert(tuple_complaint(g, x, es[i]));
        }
    }
}

proof fn lemma_patterns_complaint(g: Grammar, ghost: bool, x: ErrorView, es: Seq<Sexp>) -> (i: int)
    requires
        g.tuple_patterns(ghost, es) == Err::<Seq<Spanned<TupleView>>, ErrorView>(x),
    ensures
        0 <= i < es.len(),
        tuple_complaint(g, x, es[i]),
    decreases sizes(es), 1 + es.len(),
{
    if es.len() == 0 {
        0
    } else {
        match g.tuple_pattern(ghost, es[0]) {
            Ok(_) => {
                let i = lemma_patterns_complaint(g, ghost, x, es.drop_first());
                i + 1
            },
            Err(_) => {
                law_tuple_complaints(g, ghost, x, es[0]);
                0
            },
        }
    }
}

/// A complaint about an argument.
pub open spec fn arg1_complaint(g: Grammar, name_required: bool, x: ErrorView, e: Sexp) -> bool {
    if e.items().len() > 0 && e.items()[0].as_atom() == Some(AtomId(COLON)) {
        tuple_complaint(g, x, e)
    } else {
        name_required && e.as_atom() is None && about(g, x, e, Message::ArgIdentifier)
    }
}

/// Every complaint about an argument is one of these.
pub proof fn law_arg1_complaints(g: Grammar, name_required: bool, x: ErrorView, e: Sexp)
    requires
        g.arg1(name_required, e) == Err::<Spanned<TupleView>, ErrorView>(x),
    ensures
        arg1_complaint(g, name_required, x, e),
{
    if e.items().len() > 0 && e.items()[0].as_atom() == Some(AtomId(COLON)) {
        law_tuple_complaints(g, false, x, e);
    }
}

proof fn lemma_args1_complaint(
    g: Grammar,
    name_required: bool,
    x: ErrorView,
    es: Seq<Sexp>,
) -> (i: int)
    requires
        g.args1(name_required, es) == Err::<Seq<Spanned<TupleView>>, ErrorView>(x),
    ensures
        0 <= i < es.len(),
        arg1_complaint(g, name_required, x, es[i]),
    decreases es.len(),
{
    if es.len() == 0 {
        0
    } else {
        match g.arg1(name_required, es[0]) {
            Ok(_) => {
                let i = lemma_args1_complaint(g, name_required, x, es.drop_first());
                i + 1
            },
            Err(_) => {
                law_arg1_complaints(g, name_required, x, es[0]);
                0
            },
        }
    }
}

/// A complaint about an entry of a parameter list.
pub open spec fn arg_complaint(g: Grammar, name_required: bool, x: ErrorView, e: Sexp) -> bool {
    let es = e.items();
    if starts_with(g, e, Keyword::Mut) {
        exists|i: int|
            1 <= i < es.len() && arg1_complaint(g, name_required, x, #[trigger] es[i])
    } else if starts_with(g, e, Keyword::Out) {
        if es.len() == 2 {
            arg1_complaint(g, name_required, x, es[1])
        } else if es.len() == 3 && e.is_list() {
            if es[1].as_atom() is None {
                about(g, x, es[1], Message::OutSyntax)
            } else {
                arg1_complaint(g, name_required, x, es[2])
            }
        } else {
            about(g, x, e, Message::OutSyntax)
        }
    } else {
        arg1_complaint(g, name_required, x, e)
    }
}

/// Every complaint about an entry of a parameter list is one of these.
pub proof fn law_arg_complaints(g: Grammar, name_required: bool, x: ErrorView, e: Sexp)
    requires
        g.arg(name_required, e) is Err,
        g.arg(name_required, e)->Err_0 == x,
    ensures
        arg_complaint(g, name_required, x, e),
{
    let es = e.items();
    lemma_tail(e);
    law_head_keywords(g, e, Keyword::Mut);
    law_head_keywords(g, e, Keyword::Out);
    if starts_with(g, e, Keyword::Mut) {
        let rest = es.drop_first();
        let i = lemma_args1_complaint(g, name_required, x, rest);
        assert(es[i + 1] == rest[i]);
    } else if starts_with(g, e, Keyword::Out) {
        if es.len() == 2 {
            law_arg1_complaints(g, name_required, x, es[1]);
        } else if es.len() == 3 && e.is_list() {
            lemma_pair(g, Keyword::Out, e);
            if es[1].as_atom() is Some {
                law_arg1_complaints(g, name_required, x, es[2]);
            }
        }
    } else {
        law_arg1_complaints(g, name_required, x, e);
    }
}

proof fn lemma_args_complaint(
    g: Grammar,
    name_required: bool,
    x: ErrorView,
    es: Seq<Sexp>,
) -> (i: int)
    requires
        g.args(name_required, es) is Err,
        g.args(name_required, es)->Err_0 == x,
    ensures
        0 <= i < es.len(),
        arg_complaint(g, name_required, x, es[i]),
    decreases es.len(),
{
    if es.len() == 0 {
        0
    } else {
        match g.arg(name_required, es[0]) {
            Ok(_) => {
                let i = lemma_args_complaint(g, name_required, x, es.drop_first());
                i + 1
            },
            Err(_) => {
                law_arg_complaints(g, name_required, x, es[0]);
                0
            },
        }
    }
}

// ---------------------------------------------------------------------------------------------
// Declarations and renamings

/// A complaint about a declaration or an assignment.
pub open spec fn decl_complaint(g: Grammar, x: ErrorView, e: Sexp) -> bool {
    if is_triple(g, Keyword::ColonEq, e) {
        tuple_complaint(g, x, e.items()[1])
    } else {
        !is_triple(g, Keyword::ArrowL, e) && about(g, x, e, Message::DeclSyntax)
    }
}

/// Every complaint about a declaration or an assignment is one of these.
pub proof fn law_decl_complaints(g: Grammar, x: ErrorView, e: Sexp)
    requires
        g.decl_asgn(e) is Err,
        g.decl_asgn(e)->Err_0 == x,
    ensures
        decl_complaint(g, x, e),
{
    law_head_keywords(g, e, Keyword::ColonEq);
    law_head_keywords(g, e, Keyword::ArrowL);
    if starts_with(g, e, Keyword::ColonEq) {
        lemma_pair(g, Keyword::ColonEq, e);
        if is_triple(g, Keyword::ColonEq, e) {
            law_tuple_complaints(g, false, x, e.items()[1]);
        }
    }
    if starts_with(g, e, Keyword::ArrowL) {
        lemma_pair(g, Keyword::ArrowL, e);
    }
}

/// A complaint about renamings in a row: about the first that is none.
pub open spec fn renames_complaint(g: Grammar, x: ErrorView, es: Seq<Sexp>) -> bool {
    exists|i: int|
        0 <= i < es.len() && about(g, x, #[trigger] es[i], Message::WithRename) && forall|r: Rename|
            !#[trigger] rename_form(g, r, es[i])
}

proof fn lemma_group_complaint(g: Grammar, with: RenamesView, x: ErrorView, es: Seq<Sexp>) -> (i:
    int)
    requires
        g.rename_group(with, es) == Err::<RenamesView, ErrorView>(x),
    ensures
        0 <= i < es.len(),
        about(g, x, es[i], Message::WithRename),
        forall|r: Rename| !#[trigger] rename_form(g, r, es[i]),
    decreases es.len(),
{
    if es.len() == 0 {
        0
    } else {
        let y = es[0];
        match g.rename(y) {
            Ok(Some(r)) => {
                let i = lemma_group_complaint(g, with.with(r), x, es.drop_first());
                i + 1
            },
            _ => {
                lemma_wrong_rename(g, y);
                0
            },
        }
    }
}

proof fn lemma_wrong_rename(g: Grammar, y: Sexp)
    ensures
        !(g.rename(y) matches Ok(Some(_))) ==> forall|r: Rename| !#[trigger] rename_form(g, r, y),
        g.rename(y) matches Err(x) ==> about(g, x, y, Message::WithRename) && !is_group(g, y),
        g.rename(y) matches Ok(Some(_)) ==> !is_group(g, y),
        g.rename(y) matches Ok(None) ==> is_group(g, y),
{
    assert forall|r: Rename| !(g.rename(y) matches Ok(Some(_))) implies !#[trigger] rename_form(
        g,
        r,
        y,
    ) by {
        law_rename(g, r, y);
    }
    law_rename(g, Rename::New(AtomId(0), AtomId(0)), y);
    law_head_keywords(g, y, Keyword::ArrowL);
    law_head_keywords(g, y, Keyword::ArrowR);
}

/// Every complaint about renamings is one of these.
pub proof fn law_renames_complaints(g: Grammar, with: RenamesView, x: ErrorView, es: Seq<Sexp>)
    requires
        g.renames(with, es) == Err::<RenamesView, ErrorView>(x),
    ensures
        renames_complaint(g, x, ungrouped(g, es)),
    decreases es.len(),
{
    if es.len() > 0 {
        let y = es[0];
        let rest = es.drop_first();
        let more = ungrouped(g, rest);
        let all = ungrouped(g, es);
        lemma_wrong_rename(g, y);
        match g.rename(y) {
            Ok(Some(r)) => {
                law_renames_complaints(g, with.with(r), x, rest);
                lemma_complaint_later(g, x, seq![y], more);
            },
            Ok(None) => {
                match g.rename_group(with, y.items()) {
                    Ok(w) => {
                        law_renames_complaints(g, w, x, rest);
                        lemma_complaint_later(g, x, y.items(), more);
                    },
                    Err(_) => {
                        let i = lemma_group_complaint(g, with, x, y.items());
                        assert(all[i] == y.items()[i]);
                    },
                }
            },
            Err(_) => {
                assert(all[0] == y);
            },
        }
    }
}

proof fn lemma_complaint_later(g: Grammar, x: ErrorView, before: Seq<Sexp>, es: Seq<Sexp>)
    requires
        renames_complaint(g, x, es),
    ensures
        renames_complaint(g, x, before + es),
{
    let i = choose|i: int|
        0 <= i < es.len() && about(g, x, #[trigger] es[i], Message::WithRename) && forall|
            r: Rename,
        |
            !#[trigger] rename_form(g, r, es[i]);
    assert((before + es)[before.len() + i] == es[i]);
}

// ---------------------------------------------------------------------------------------------
// Expressions

/// A complaint about a condition with a hypothesis.
pub open spec fn hypothesis_complaint(g: Grammar, x: ErrorView, cond: Sexp) -> bool {
    &&& starts_with(g, cond, Keyword::Colon)
    &&& if is_triple(g, Keyword::Colon, cond) {
        cond.items()[1].as_atom() is None && about(
            g,
            x,
            cond.items()[1],
            Message::HypothesisName,
        )
    } else {
        about(g, x, cond, Message::ColonSyntax)
    }
}

/// A complaint about the branches of an `if`: a condition or what is done is missing, or there is a
/// complaint about a condition.
pub open spec fn if_complaint(g: Grammar, x: ErrorView, e: Sexp, es: Seq<Sexp>) -> bool {
    ||| about(g, x, e, Message::IfSyntax)
    ||| exists|i: int| 0 <= i < es.len() - 1 && hypothesis_complaint(g, x, #[trigger] es[i])
}

proof fn lemma_if_complaint(g: Grammar, x: ErrorView, e: Sexp, es: Seq<Sexp>)
    requires
        g.if_branches(e, es) is Err,
        g.if_branches(e, es)->Err_0 == x,
    ensures
        if_complaint(g, x, e, es),
        es.len() < 2 ==> about(g, x, e, Message::IfSyntax),
    decreases es.len(),
{
    if es.len() >= 2 {
        let cond = es[0];
        law_head_keywords(g, cond, Keyword::Colon);
        if starts_with(g, cond, Keyword::Colon) {
            lemma_pair(g, Keyword::Colon, cond);
        }
        let rest = g.after_else(es.skip(2));
        if rest.len() >= 3 && g.is_atom_keyword(rest[0], Keyword::If) {
            if g.if_branch(es[0], es[1]) is Ok {
                let more = rest.drop_first();
                lemma_if_complaint(g, x, e, more);
                if !about(g, x, e, Message::IfSyntax) {
                    let i = choose|i: int|
                        0 <= i < more.len() - 1 && hypothesis_complaint(g, x, #[trigger] more[i]);
                    let n = es.len() - more.len();
                    assert(more =~= es.skip(n));
                    assert(es[n + i] == more[i]);
                }
            }
        }
    }
}

/// A complaint about the branches of a `match`: about the first that is none.
pub open spec fn match_complaint(g: Grammar, x: ErrorView, es: Seq<Sexp>) -> bool {
    exists|i: int|
        0 <= i < es.len() && about(g, x, #[trigger] es[i], Message::MatchSyntax) && !is_triple(
            g,
            Keyword::Arrow,
            es[i],
        ) && forall|j: int| 0 <= j < i ==> is_triple(g, Keyword::Arrow, #[trigger] es[j])
}

proof fn lemma_match_complaint(
    g: Grammar,
    done: Seq<(Sexp, Sexp)>,
    x: ErrorView,
    es: Seq<Sexp>,
)
    requires
        g.match_branches(done, es) is Err,
        g.match_branches(done, es)->Err_0 == x,
    ensures
        match_complaint(g, x, es),
    decreases es.len(),
{
    if es.len() > 0 {
        let y = es[0];
        let rest = es.drop_first();
        law_head_keywords(g, y, Keyword::Arrow);
        if starts_with(g, y, Keyword::Arrow) {
            lemma_pair(g, Keyword::Arrow, y);
        }
        if is_triple(g, Keyword::Arrow, y) {
            lemma_match_complaint(g, done.push((y.items()[1], y.items()[2])), x, rest);
            let i = choose|i: int|
                0 <= i < rest.len() && about(g, x, #[trigger] rest[i], Message::MatchSyntax)
                    && !is_triple(g, Keyword::Arrow, rest[i]) && forall|j: int|
                    0 <= j < i ==> is_triple(g, Keyword::Arrow, #[trigger] rest[j]);
            assert(es[i + 1] == rest[i]);
            assert forall|j: int| 0 <= j < i + 1 implies is_triple(
                g,
                Keyword::Arrow,
                #[trigger] es[j],
            ) by {
                if j > 0 {
                    assert(es[j] == rest[j - 1]);
                }
            }
        } else {
            assert(about(g, x, es[0], Message::MatchSyntax));
        }
    }
}

/// A complaint about the parameters of a label: a second variant, or a complaint about a parameter.
pub open spec fn label_complaint(g: Grammar, x: ErrorView, es: Seq<Sexp>) -> bool {
    exists|i: int|
        0 <= i < es.len() && if is_variant(g, #[trigger] es[i]) {
            about(g, x, es[i], Message::LabelVariants) && exists|j: int|
                0 <= j < i && is_variant(g, #[trigger] es[j])
        } else {
            arg1_complaint(g, true, x, es[i])
        }
}

proof fn lemma_variant_known(g: Grammar, e: Sexp)
    ensures
        g.variant(e) is Some <==> is_variant(g, e),
{
    if let Some(v) = g.variant(e) {
        law_variants(g, v, e);
    }
    if is_variant(g, e) {
        let v = choose|v: VariantView| #[trigger] variant_form(g, v, e);
        law_variants(g, v, e);
    }
}

proof fn lemma_label_complaint(
    g: Grammar,
    args: Seq<Spanned<TupleView>>,
    variant: Option<VariantView>,
    x: ErrorView,
    all: Seq<Sexp>,
    n: int,
)
    requires
        0 <= n <= all.len(),
        variant is Some ==> exists|j: int| 0 <= j < n && is_variant(g, #[trigger] all[j]),
        g.label_parts(args, variant, all.skip(n)) is Err,
        g.label_parts(args, variant, all.skip(n))->Err_0 == x,
    ensures
        label_complaint(g, x, all),
    decreases all.len() - n,
{
    let es = all.skip(n);
    if es.len() > 0 {
        let y = all[n];
        assert(es[0] == y);
        assert(es.drop_first() =~= all.skip(n + 1));
        lemma_variant_known(g, y);
        match g.variant(y) {
            Some(v) => {
                if variant is None {
                    assert(is_variant(g, all[n]));
                    lemma_label_complaint(g, args, Some(v), x, all, n + 1);
                }
            },
            None => match g.arg1(true, y) {
                Ok(arg) => {
                    lemma_label_complaint(g, args.push(arg), variant, x, all, n + 1);
                },
                Err(_) => {
                    law_arg1_complaints(g, true, x, y);
                },
            },
        }
    }
}

/// A complaint about the arguments of a call: a second variant.
pub open spec fn call_complaint(g: Grammar, x: ErrorView, es: Seq<Sexp>) -> bool {
    exists|i: int|
        0 <= i < es.len() && starts_with(g, #[trigger] es[i], Keyword::Variant) && about(
            g,
            x,
            es[i],
            Message::CallVariants,
        ) && exists|j: int| 0 <= j < i && starts_with(g, #[trigger] es[j], Keyword::Variant)
}

proof fn lemma_call_complaint(
    g: Grammar,
    args: Seq<Sexp>,
    variant: Option<Sexp>,
    x: ErrorView,
    all: Seq<Sexp>,
    n: int,
)
    requires
        0 <= n <= all.len(),
        variant is Some ==> exists|j: int|
            0 <= j < n && starts_with(g, #[trigger] all[j], Keyword::Variant),
        g.call_parts(args, variant, all.skip(n)) is Err,
        g.call_parts(args, variant, all.skip(n))->Err_0 == x,
    ensures
        call_complaint(g, x, all),
    decreases all.len() - n,
{
    let es = all.skip(n);
    if es.len() > 0 {
        let y = all[n];
        assert(es[0] == y);
        assert(es.drop_first() =~= all.skip(n + 1));
        law_head_keywords(g, y, Keyword::Variant);
        if starts_with(g, y, Keyword::Variant) {
            if variant is None {
                assert(starts_with(g, all[n], Keyword::Variant));
                lemma_call_complaint(g, args, Some(y.tail()), x, all, n + 1);
            }
        } else {
            lemma_call_complaint(g, args.push(y), variant, x, all, n + 1);
        }
    }
}

/// A complaint about a loop.
pub open spec fn while_complaint(g: Grammar, x: ErrorView, e: Sexp) -> bool {
    let es = e.items();
    if es.len() == 1 {
        about(g, x, e, Message::WhileSyntax)
    } else if starts_with(g, es[1], Keyword::Colon) && !(is_triple(g, Keyword::Colon, es[1])
        && es[1].items()[1].as_atom() is Some) {
        about(g, x, e, Message::WhilePattern)
    } else {
        &&& es.len() > 3
        &&& is_variant(g, es[2])
        &&& is_variant(g, es[3])
        &&& about(g, x, es[3], Message::WhileVariants)
    }
}

/// A complaint about an expression of the shape of a list, which its first word decides.
pub open spec fn list_complaint(g: Grammar, x: ErrorView, e: Sexp) -> bool {
    let es = e.items();
    if starts_with(g, e, Keyword::ColonEq) || starts_with(g, e, Keyword::ArrowL) {
        decl_complaint(g, x, e)
    } else if starts_with(g, e, Keyword::With) {
        if es.len() == 1 {
            about(g, x, e, Message::WithSyntax)
        } else {
            decl_complaint(g, x, es[1]) || renames_complaint(g, x, ungrouped(g, es.skip(2)))
        }
    } else if starts_with(g, e, Keyword::If) {
        if_complaint(g, x, e, es.skip(1))
    } else if starts_with(g, e, Keyword::Match) {
        if es.len() == 1 {
            about(g, x, e, Message::MatchSyntax)
        } else {
            match_complaint(g, x, es.skip(2))
        }
    } else if starts_with(g, e, Keyword::While) {
        while_complaint(g, x, e)
    } else if starts_with(g, e, Keyword::Entail) {
        es.len() == 1 && about(g, x, e, Message::EntailProof)
    } else if starts_with(g, e, Keyword::Begin) || es.len() == 0 {
        false
    } else if starts_with(g, es[0], Keyword::Begin) {
        let hs = es[0].items();
        if hs.len() == 1 || hs[1].as_atom() is None {
            about(g, x, es[0], Message::LabelName)
        } else {
            label_complaint(g, x, hs.skip(2))
        }
    } else if es[0].as_atom() is None {
        about(g, x, es[0], Message::CallHead)
    } else {
        call_complaint(g, x, es.skip(1))
    }
}

/// A complaint about an expression.
pub open spec fn expr_complaint(g: Grammar, x: ErrorView, e: Sexp) -> bool {
    match e.unwrapped() {
        Sexp::List(_) => list_complaint(g, x, e),
        Sexp::DottedList(es, r) => if is_projection(e) {
            if r.as_int() is Some {
                about(g, x, e, Message::FieldRange)
            } else {
                r.as_atom() is None && about(g, x, e, Message::FieldSyntax)
            }
        } else {
            list_complaint(g, x, e)
        },
        Sexp::Atom(_) | Sexp::Bool(_) | Sexp::Number(_) => false,
        _ => about(g, x, e, Message::UnknownExpr),
    }
}

/// Every complaint about an expression is one of these.
pub proof fn law_expr_complaints(g: Grammar, x: ErrorView, e: Sexp)
    requires
        g.expr_kind(e) is Err,
        g.expr_kind(e)->Err_0 == x,
    ensures
        expr_complaint(g, x, e),
{
    match e.unwrapped() {
        Sexp::List(_) => {
            lemma_list_complaint(g, x, e);
        },
        Sexp::DottedList(_, _) => {
            if !is_projection(e) {
                lemma_list_complaint(g, x, e);
            }
        },
        _ => {},
    }
}

proof fn lemma_list_complaint(g: Grammar, x: ErrorView, e: Sexp)
    requires
        g.list_expr(e) is Err,
        g.list_expr(e)->Err_0 == x,
    ensures
        list_complaint(g, x, e),
{
    let es = e.items();
    lemma_tail(e);
    lemma_tail(e.tail());
    assert forall|k: Keyword| #[trigger]
        starts_with(g, e, k) <==> (g.head_keyword(e) matches Some((k2, _)) && k2 == k) by {
        law_head_keywords(g, e, k);
    }
    law_head_keywords(g, e, Keyword::If);
    if es.len() > 0 {
        assert(e.tail().items() =~= es.skip(1));
        if es.len() > 1 {
            assert(e.tail().tail().items() =~= es.skip(2));
            assert(e.tail().items()[0] == es[1]);
        }
    }
    if starts_with(g, e, Keyword::ColonEq) || starts_with(g, e, Keyword::ArrowL) {
        law_decl_complaints(g, x, e);
    } else if starts_with(g, e, Keyword::With) {
        if es.len() > 1 {
            lemma_with_complaint(g, x, e);
        }
    } else if starts_with(g, e, Keyword::If) {
        lemma_if_complaint(g, x, e, es.skip(1));
    } else if starts_with(g, e, Keyword::Match) {
        if es.len() > 1 {
            lemma_match_complaint(g, Seq::empty(), x, es.skip(2));
        }
    } else if starts_with(g, e, Keyword::While) {
        lemma_while_complaint(g, x, e);
    } else if starts_with(g, e, Keyword::Entail) {
    } else if starts_with(g, e, Keyword::Begin) || es.len() == 0 {
    } else {
        let h = es[0];
        law_head_keywords(g, h, Keyword::Begin);
        if starts_with(g, h, Keyword::Begin) {
            let hs = h.items();
            lemma_tail(h);
            lemma_tail(h.tail());
            if hs.len() > 1 {
                assert(h.tail().items()[0] == hs[1]);
                assert(h.tail().tail().items() =~= hs.skip(2));
                if hs[1].as_atom() is Some {
                    assert(hs.skip(2).skip(0) =~= hs.skip(2));
                    lemma_label_complaint(g, Seq::empty(), None, x, hs.skip(2), 0);
                }
            }
        } else if h.as_atom() is Some {
            assert(es.skip(1).skip(0) =~= es.skip(1));
            lemma_call_complaint(g, Seq::empty(), None, x, es.skip(1), 0);
        }
    }
}

proof fn lemma_with_complaint(g: Grammar, x: ErrorView, e: Sexp)
    requires
        e.items().len() > 1,
        g.with_expr(e, e.tail()) is Err,
        g.with_expr(e, e.tail())->Err_0 == x,
    ensures
        decl_complaint(g, x, e.items()[1]) || renames_complaint(
            g,
            x,
            ungrouped(g, e.items().skip(2)),
        ),
{
    let es = e.items();
    lemma_tail(e);
    lemma_tail(e.tail());
    let d = es[1];
    assert(e.tail().items()[0] == d);
    assert(e.tail().tail().items() =~= es.skip(2));
    match g.decl_asgn(d) {
        Ok(ExprView::Let { with, .. }) => {
            law_renames_complaints(g, with, x, es.skip(2));
        },
        Ok(ExprView::Assign { with, .. }) => {
            law_renames_complaints(g, with, x, es.skip(2));
        },
        Ok(_) => {},
        Err(_) => {
            law_decl_complaints(g, x, d);
        },
    }
}

proof fn lemma_while_complaint(g: Grammar, x: ErrorView, e: Sexp)
    requires
        e.items().len() > 0,
        g.while_expr(e, e.tail()) is Err,
        g.while_expr(e, e.tail())->Err_0 == x,
    ensures
        while_complaint(g, x, e),
{
    let es = e.items();
    let rest = e.tail();
    lemma_tail(e);
    lemma_tail(rest);
    if es.len() > 1 {
        let c = es[1];
        assert(rest.items()[0] == c);
        law_head_keywords(g, c, Keyword::Colon);
        if starts_with(g, c, Keyword::Colon) {
            lemma_pair(g, Keyword::Colon, c);
        }
        let b = rest.tail();
        assert(b.items() =~= es.skip(2));
        if es.len() > 2 {
            assert(b.items()[0] == es[2]);
            lemma_variant_known(g, es[2]);
        }
        if es.len() > 3 {
            assert(b.items()[1] == es[3]);
            lemma_variant_known(g, es[3]);
        }
    }
}

// ---------------------------------------------------------------------------------------------
// Types, propositions and the patterns of a `match`

proof fn lemma_split(e: Sexp)
    ensures
        head_and_args(e) == (match constructor(e) {
            Some(head) => Some((head, constructor_args(e))),
            None => None,
        }),
{
    lemma_tail(e);
    if e.items().len() > 0 {
        assert(e.items().skip(1) =~= e.items().drop_first());
    }
}

/// A complaint about one of the tuple patterns in a row.
pub open spec fn some_tuple_complaint(g: Grammar, x: ErrorView, es: Seq<Sexp>) -> bool {
    exists|i: int| 0 <= i < es.len() && tuple_complaint(g, x, #[trigger] es[i])
}

/// A complaint about a proposition: there is none, or its constructor has too few or too many
/// arguments, or there is a complaint about a binder or about the expression that it is.
pub open spec fn prop_complaint(
    g: Grammar,
    names: Map<u32, Entity>,
    x: ErrorView,
    e: Sexp,
) -> bool {
    let args = constructor_args(e);
    match constructor(e) {
        None => about(g, x, e, Message::EmptyProp),
        Some(head) => match prop_entity(names, head) {
            Some(word) => if (word == PrimProp::All || word == PrimProp::Ex) && args.len() > 0 {
                some_tuple_complaint(g, x, args.drop_last())
            } else {
                about(g, x, head, Message::PropArity)
            },
            None => expr_complaint(g, x, e),
        },
    }
}

/// Every complaint about a proposition is one of these.
pub proof fn law_prop_complaints(g: Grammar, names: Map<u32, Entity>, x: ErrorView, e: Sexp)
    requires
        g.prop_kind(names, e) is Err,
        g.prop_kind(names, e)->Err_0 == x,
    ensures
        prop_complaint(g, names, x, e),
{
    lemma_split(e);
    let args = constructor_args(e);
    if let Some(head) = constructor(e) {
        assert(prop_constructor(names, head) == prop_entity(names, head));
        match prop_entity(names, head) {
            Some(word) => {
                if (word == PrimProp::All || word == PrimProp::Ex) && args.len() > 0 {
                    let i = lemma_patterns_complaint(g, false, x, args.drop_last());
                    assert(tuple_complaint(g, x, args.drop_last()[i]));
                }
            },
            None => {
                law_expr_complaints(g, x, e);
            },
        }
    }
}

/// A complaint about a type. Those about the number of arguments of a primitive type are about the
/// whole type, and the others about its constructor.
pub open spec fn type_complaint(
    g: Grammar,
    names: Map<u32, Entity>,
    x: ErrorView,
    e: Sexp,
) -> bool {
    let args = constructor_args(e);
    constructor(e) matches Some(head) && match head.as_atom() {
        None => if is_word(g, head, Keyword::If) {
            about(g, x, head, Message::TypeArity) && args.len() != 3
        } else {
            about(g, x, head, Message::ExpectedAtom)
        },
        Some(a) => if a == AtomId(UNDER) {
            about(g, x, head, Message::TypeHole)
        } else {
            match entity_of(names, a) {
                None => about(g, x, head, Message::UnknownType(a)) && args.len() > 0,
                Some(Entity::Type(_, TypeTc::Unchecked)) => false,
                Some(Entity::Type(_, TypeTc::Typed(ty))) => about(
                    g,
                    x,
                    head,
                    Message::TypeArity,
                ) && args.len() != ty.tyargs + ty.args,
                Some(Entity::Prim(p)) => match p.ty {
                    Some(word) => if word == PrimType::Struct {
                        some_tuple_complaint(g, x, args)
                    } else {
                        about(g, x, e, Message::TypeArity)
                    },
                    None => if p.prop is Some || p.op is Some {
                        prop_complaint(g, names, x, e)
                    } else {
                        about(g, x, head, Message::NotAType)
                    },
                },
                Some(_) => about(g, x, head, Message::NotAType),
            }
        },
    }
}

/// Every complaint about a type is one of these.
pub proof fn law_type_complaints(g: Grammar, names: Map<u32, Entity>, x: ErrorView, e: Sexp)
    requires
        g.ty_kind(names, e) is Err,
        g.ty_kind(names, e)->Err_0 == x,
    ensures
        type_complaint(g, names, x, e),
{
    lemma_split(e);
    let args = constructor_args(e);
    if let Some(head) = constructor(e) {
        law_head_keywords(g, head, Keyword::If);
        if let Some(a) = head.as_atom() {
            if let Some(Entity::Prim(p)) = entity_of(names, a) {
                if p.ty == Some(PrimType::Struct) && a != AtomId(UNDER) {
                    let i = lemma_patterns_complaint(g, false, x, args);
                    assert(tuple_complaint(g, x, args[i]));
                }
                if p.ty is None && (p.prop is Some || p.op is Some) && a != AtomId(UNDER) {
                    law_prop_complaints(g, names, x, e);
                }
            }
        }
    }
}

/// A complaint about a pattern of a `match`.
pub open spec fn pattern_complaint(g: Grammar, x: ErrorView, e: Sexp) -> bool {
    if starts_with(g, e, Keyword::Colon) {
        if is_triple(g, Keyword::Colon, e) {
            about(g, x, e.items()[1], Message::HypothesisName) && e.items()[1].as_atom() is None
        } else {
            about(g, x, e, Message::ColonSyntax)
        }
    } else if starts_with(g, e, Keyword::With) {
        about(g, x, e, Message::WithSyntax) && !is_triple(g, Keyword::With, e)
    } else {
        about(g, x, e, Message::PatternSyntax) && !starts_with(g, e, Keyword::Or)
    }
}

/// Every complaint about a pattern of a `match` is one of these.
pub proof fn law_match_pattern_complaints(
    g: Grammar,
    names: Map<u32, Entity>,
    x: ErrorView,
    e: Sexp,
)
    requires
        g.pattern_kind(names, e) is Err,
        g.pattern_kind(names, e)->Err_0 == x,
    ensures
        pattern_complaint(g, x, e),
{
    lemma_unwrapped_list(e);
    lemma_unwrapped_twice(e);
    law_head_keywords(g, e, Keyword::Colon);
    law_head_keywords(g, e, Keyword::With);
    law_head_keywords(g, e, Keyword::Or);
    if starts_with(g, e, Keyword::Colon) {
        lemma_pair(g, Keyword::Colon, e);
    }
    if starts_with(g, e, Keyword::With) {
        lemma_pair(g, Keyword::With, e);
    }
}

// ---------------------------------------------------------------------------------------------
// Items

/// A complaint about a signature.
pub open spec fn signature_complaint(g: Grammar, x: ErrorView, e: Sexp) -> bool {
    let es = e.items();
    &&& e.as_atom() is None
    &&& if !(e.unwrapped() is List || e.unwrapped() is DottedList) {
        about(g, x, e, Message::ProcSyntax)
    } else if es.len() == 0 {
        about(g, x, e, Message::ProcName)
    } else if es[0].as_atom() is None {
        about(g, x, es[0], Message::ProcAtom)
    } else {
        exists|i: int, named: bool|
            1 <= i < es.len() && #[trigger] arg_complaint(g, named, x, es[i])
    }
}

/// Every complaint about a signature is one of these.
pub proof fn law_signature_complaints(g: Grammar, x: ErrorView, e: Sexp)
    requires
        g.signature(e) is Err,
        g.signature(e)->Err_0 == x,
    ensures
        signature_complaint(g, x, e),
{
    let es = e.items();
    lemma_unwrapped_list(e);
    lemma_unwrapped_twice(e);
    lemma_tail(e);
    if e.unwrapped() is List || e.unwrapped() is DottedList {
        if es.len() > 0 && es[0].as_atom() is Some {
            let rest = e.tail().items();
            lemma_colon_index(rest);
            let n = colon_index(rest);
            match g.args(true, rest.take(n)) {
                Ok(_) => {
                    let i = lemma_args_complaint(g, false, x, after_colon(rest));
                    assert(after_colon(rest)[i] == es[n + 2 + i]);
                    assert(arg_complaint(g, false, x, es[n + 2 + i]));
                },
                Err(_) => {
                    let i = lemma_args_complaint(g, true, x, rest.take(n));
                    assert(rest.take(n)[i] == es[i + 1]);
                    assert(arg_complaint(g, true, x, es[i + 1]));
                },
            }
        }
    }
}

/// A complaint about a procedure.
pub open spec fn proc_complaint(g: Grammar, x: ErrorView, e: Sexp) -> bool {
    let es = e.items();
    if es.len() == 1 {
        about(g, x, e.tail(), Message::ProcSyntax)
    } else if g.signature(es[1]) is Err {
        signature_complaint(g, x, es[1])
    } else {
        &&& starts_with(g, e, Keyword::Intrinsic)
        &&& if g.signature(es[1]) matches Ok(s) && g.env.intrinsic_of(s.name.k) is None {
            about(g, x, e, Message::UnknownIntrinsic)
        } else {
            es.len() > 2 && about(g, x, es[2], Message::IntrinsicBody)
        }
    }
}

/// A complaint about the name of a type and its parameters.
pub open spec fn named_complaint(g: Grammar, x: ErrorView, e: Sexp) -> bool {
    let es = e.items();
    &&& e.as_atom() is None
    &&& if es.len() == 0 {
        about(g, x, e, Message::TypedefSyntax)
    } else if es[0].as_atom() is None {
        about(g, x, es[0], Message::TypedefAtom)
    } else {
        exists|i: int| 1 <= i < es.len() && arg1_complaint(g, true, x, #[trigger] es[i])
    }
}

/// A complaint about a form at the top level.
pub open spec fn item_complaint(g: Grammar, x: ErrorView, e: Sexp) -> bool {
    let es = e.items();
    if starts_with(g, e, Keyword::Proc) || starts_with(g, e, Keyword::Func) || starts_with(
        g,
        e,
        Keyword::Intrinsic,
    ) {
        proc_complaint(g, x, e)
    } else if starts_with(g, e, Keyword::Typedef) {
        if is_triple(g, Keyword::Typedef, e) {
            named_complaint(g, x, es[1])
        } else {
            about(g, x, e, Message::TypedefSyntax)
        }
    } else if starts_with(g, e, Keyword::Struct) {
        if es.len() == 1 {
            about(g, x, e, Message::StructName)
        } else {
            named_complaint(g, x, es[1]) || exists|i: int|
                2 <= i < es.len() && arg1_complaint(g, false, x, #[trigger] es[i])
        }
    } else {
        &&& !starts_with(g, e, Keyword::Global)
        &&& !starts_with(g, e, Keyword::Const)
        &&& about(g, x, e, Message::UnknownItem(e))
    }
}

/// Every complaint about a form at the top level is one of these.
pub proof fn law_item_complaints(g: Grammar, x: ErrorView, e: Sexp)
    requires
        g.item_group(e) is Err,
        g.item_group(e)->Err_0 == x,
    ensures
        item_complaint(g, x, e),
{
    let es = e.items();
    lemma_tail(e);
    lemma_tail(e.tail());
    law_head_keywords(g, e, Keyword::Proc);
    law_head_keywords(g, e, Keyword::Func);
    law_head_keywords(g, e, Keyword::Intrinsic);
    law_head_keywords(g, e, Keyword::Global);
    law_head_keywords(g, e, Keyword::Const);
    law_head_keywords(g, e, Keyword::Typedef);
    law_head_keywords(g, e, Keyword::Struct);
    if es.len() > 1 {
        assert(e.tail().items()[0] == es[1]);
        assert(e.tail().tail().items() =~= es.skip(2));
    }
    if starts_with(g, e, Keyword::Proc) {
        lemma_proc_complaint(g, x, ProcWord::Proc, e);
    } else if starts_with(g, e, Keyword::Func) {
        lemma_proc_complaint(g, x, ProcWord::Func, e);
    } else if starts_with(g, e, Keyword::Intrinsic) {
        lemma_proc_complaint(g, x, ProcWord::Intrinsic, e);
    } else if starts_with(g, e, Keyword::Typedef) {
        lemma_pair(g, Keyword::Typedef, e);
        if is_triple(g, Keyword::Typedef, e) {
            lemma_named_complaint(g, x, es[1]);
        }
    } else if starts_with(g, e, Keyword::Struct) {
        if es.len() > 1 {
            if g.name_and_tyargs(es[1]) is Err {
                lemma_named_complaint(g, x, es[1]);
            } else {
                let i = lemma_args1_complaint(g, false, x, es.skip(2));
                assert(es.skip(2)[i] == es[i + 2]);
            }
        }
    }
}

proof fn lemma_named_complaint(g: Grammar, x: ErrorView, e: Sexp)
    requires
        g.name_and_tyargs(e) is Err,
        g.name_and_tyargs(e)->Err_0 == x,
    ensures
        named_complaint(g, x, e),
{
    let es = e.items();
    lemma_unwrapped_list(e);
    lemma_unwrapped_twice(e);
    lemma_tail(e);
    if es.len() > 0 && es[0].as_atom() is Some {
        let i = lemma_args1_complaint(g, true, x, e.tail().items());
        assert(es[i + 1] == e.tail().items()[i]);
    }
}

proof fn lemma_proc_complaint(g: Grammar, x: ErrorView, word: ProcWord, e: Sexp)
    requires
        e.items().len() > 0,
        word == ProcWord::Intrinsic <==> starts_with(g, e, Keyword::Intrinsic),
        g.procedure(e, word, e.tail()) is Err,
        g.procedure(e, word, e.tail())->Err_0 == x,
    ensures
        proc_complaint(g, x, e),
{
    let es = e.items();
    lemma_tail(e);
    lemma_tail(e.tail());
    if es.len() > 1 {
        assert(e.tail().items()[0] == es[1]);
        assert(e.tail().tail().items() =~= es.skip(2));
        if es.len() > 2 {
            assert(e.tail().tail().items()[0] == es[2]);
        }
        if g.signature(es[1]) is Err {
            law_signature_complaints(g, x, es[1]);
        }
    }
}

// ---------------------------------------------------------------------------------------------
// Formulas

/// A complaint about a formula: about a name or the head of a list that is no term, or about the
/// number of arguments of a term, or about what is neither a name nor a list, or about an argument
/// for a bound variable that is no name.
pub open spec fn formula_complaint(g: Grammar, x: ErrorView, e: Sexp) -> bool
    decreases e.size(),
{
    proof {
        lemma_tail_smaller(e);
    }
    let args = e.tail().items();
    match e.as_atom() {
        Some(a) => match g.env.term_of(a) {
            None => about(g, x, e, Message::UnknownTerm(a)),
            Some((_, params)) => params.len() > 0 && about(
                g,
                x,
                e,
                Message::TermArity(params.len() as usize),
            ),
        },
        None => if e.items().len() == 0 {
            about(g, x, e, Message::BadExpr(e))
        } else {
            let head = e.items()[0];
            match head.as_atom() {
                None => about(g, x, head, Message::ExpectedAtom),
                Some(a) => match g.env.term_of(a) {
                    None => about(g, x, head, Message::UnknownTerm(a)),
                    Some((_, params)) => if params.len() != args.len() {
                        about(g, x, head, Message::TermArity(params.len() as usize))
                    } else {
                        exists|i: int|
                            0 <= i < args.len() && match params[i] {
                                ArgKind::Bound => (#[trigger] args[i]).as_atom() is None && about(
                                    g,
                                    x,
                                    args[i],
                                    Message::ExpectedAtom,
                                ),
                                ArgKind::Reg => formula_complaint(g, x, args[i]),
                            }
                    },
                },
            }
        },
    }
}

/// Every complaint about a formula is one of these.
pub proof fn law_formula_complaints<T>(
    g: Grammar,
    ans: Seq<Option<T>>,
    st: Mm0State<T>,
    x: ErrorView,
    e: Sexp,
)
    requires
        g.mm0_node(ans, st, e).1 == Err::<Mm0View, ErrorView>(x),
    ensures
        formula_complaint(g, x, e),
    decreases e.size(), 1nat,
{
    lemma_tail_smaller(e);
    if e.as_atom() is None {
        let args = e.tail().items();
        if let Some((t, params)) = applied(g.env, e) {
            if params.len() == args.len() {
                let none = Seq::<Mm0View>::empty();
                let found = g.mm0_args(ans, st, none, true, params, args);
                assert(g.mm0_node_opt(ans, st, e) == mm0_term(t, st.dummies, found));
                let i = lemma_formula_args_complaint(g, ans, st, none, true, params, args, x);
                assert(0 <= i < args.len());
                assert(match params[i] {
                    ArgKind::Bound => args[i].as_atom() is None && about(
                        g,
                        x,
                        args[i],
                        Message::ExpectedAtom,
                    ),
                    ArgKind::Reg => formula_complaint(g, x, args[i]),
                });
            }
        }
    }
}

proof fn lemma_formula_args_complaint<T>(
    g: Grammar,
    ans: Seq<Option<T>>,
    st: Mm0State<T>,
    done: Seq<Mm0View>,
    constant: bool,
    params: Seq<ArgKind>,
    es: Seq<Sexp>,
    x: ErrorView,
) -> (i: int)
    requires
        params.len() == es.len(),
        g.mm0_args(ans, st, done, constant, params, es).1 == Err::<
            (Seq<Mm0View>, bool),
            ErrorView,
        >(x),
    ensures
        0 <= i < es.len(),
        match params[i] {
            ArgKind::Bound => es[i].as_atom() is None && about(g, x, es[i], Message::ExpectedAtom),
            ArgKind::Reg => formula_complaint(g, x, es[i]),
        },
    decreases sizes(es), 2 + es.len(),
{
    if es.len() == 0 {
        0
    } else {
        match params[0] {
            ArgKind::Bound => match es[0].as_atom() {
                Some(a) => {
                    let i = lemma_formula_args_complaint(
                        g,
                        ans,
                        st.bind(a),
                        done.push(Mm0View::Const(es[0])),
                        constant,
                        params.drop_first(),
                        es.drop_first(),
                        x,
                    );
                    i + 1
                },
                None => 0,
            },
            ArgKind::Reg => match g.mm0_node(ans, st, es[0]) {
                (st1, Ok(n)) => {
                    let i = lemma_formula_args_complaint(
                        g,
                        ans,
                        st1,
                        done.push(n),
                        constant && n is Const,
                        params.drop_first(),
                        es.drop_first(),
                        x,
                    );
                    i + 1
                },
                (_, Err(_)) => {
                    law_formula_complaints(g, ans, st, x, es[0]);
                    0
                },
            },
        }
    }
}

} // verus!
