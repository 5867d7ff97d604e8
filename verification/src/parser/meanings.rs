//! What calls, types, propositions and the patterns of a `match` mean, read from what is made of them
//! back to what is written.

use super::call::{answered, break_target};
use super::expressions::{expr_form, law_expressions};
use super::laws::lemma_unwrapped_twice;
use super::readback::{is_triple, is_word, law_head_keywords, lemma_all_patterns, lemma_pair};
use super::readback::{law_tuple_patterns, starts_with, tuple_form};
use super::types::{head_and_args, prop_constructor};
use super::Grammar;
use crate::ast::{CallKindView, CallView, NAryCall, PatternView, PropView, TupleView};
use crate::ast::TypeView;
use crate::entity::{Entity, PrimOp, PrimProp, PrimType, ProcTc, TypeTc};
use crate::error::{ErrorView, Message};
use crate::keyword::Keyword;
use crate::lisp::{lemma_tail, lemma_unwrapped_list, AtomId, Sexp, UNDER};
use crate::size::Size;
use crate::span::Spanned;
use vstd::prelude::*;

verus! {

/// What a name stands for, if it stands for anything.
pub open spec fn entity_of(names: Map<u32, Entity>, a: AtomId) -> Option<Entity> {
    if names.contains_key(a.0) {
        Some(names[a.0])
    } else {
        None
    }
}

/// A part that may be left out, as a row.
pub open spec fn optional(x: Option<Sexp>) -> Seq<Sexp> {
    match x {
        Some(x) => seq![x],
        None => Seq::empty(),
    }
}

/// Whether a number lies in a range that may have no end.
pub open spec fn in_arity(n: nat, arity: (nat, Option<nat>)) -> bool {
    arity.0 <= n && (arity.1 matches Some(m) ==> n <= m)
}

// ---------------------------------------------------------------------------------------------
// Operations

/// The operation that is written for an operation on any number of arguments.
pub open spec fn nary_word(n: NAryCall) -> PrimOp {
    match n {
        NAryCall::Add => PrimOp::Add,
        NAryCall::And => PrimOp::And,
        NAryCall::Or => PrimOp::Or,
        NAryCall::Assert => PrimOp::Assert,
        NAryCall::BitAnd => PrimOp::BitAnd,
        NAryCall::BitNot => PrimOp::BitNot,
        NAryCall::BitOr => PrimOp::BitOr,
        NAryCall::BitXor => PrimOp::BitXor,
        NAryCall::List => PrimOp::List,
        NAryCall::Mul => PrimOp::Mul,
        NAryCall::Not => PrimOp::Not,
        NAryCall::Le => PrimOp::Le,
        NAryCall::Lt => PrimOp::Lt,
        NAryCall::Eq => PrimOp::Eq,
        NAryCall::Ne => PrimOp::Ne,
        NAryCall::GhostList => PrimOp::GhostOp,
        NAryCall::Return => PrimOp::Return,
    }
}

/// The operation that is written for what a call means.
pub open spec fn call_word(k: CallKindView) -> Option<PrimOp> {
    match k {
        CallKindView::NAry(n, _) => Some(nary_word(n)),
        CallKindView::Neg(_) => Some(PrimOp::Sub),
        CallKindView::Sub(_, _) => Some(PrimOp::Sub),
        CallKindView::Shl(_, _) => Some(PrimOp::Shl),
        CallKindView::Shr(_, _) => Some(PrimOp::Shr),
        CallKindView::Typed(_, _) => Some(PrimOp::Typed),
        CallKindView::As(_, _) => Some(PrimOp::As),
        CallKindView::Cast(_, _) => Some(PrimOp::Cast),
        CallKindView::Pun(_, _) => Some(PrimOp::Pun),
        CallKindView::Sn(_, _) => Some(PrimOp::Sn),
        CallKindView::Index(_, _, _) => Some(PrimOp::Index),
        CallKindView::Slice(_, _, _) => Some(PrimOp::Slice),
        CallKindView::Uninit => Some(PrimOp::Uninit),
        CallKindView::Mm0(_) => Some(PrimOp::Pure),
        CallKindView::Ref(_) => Some(PrimOp::Ref),
        CallKindView::TypeofBang(_) => Some(PrimOp::TypeofBang),
        CallKindView::Typeof(_) => Some(PrimOp::Typeof),
        CallKindView::Sizeof(_) => Some(PrimOp::Sizeof),
        CallKindView::Unreachable(_) => Some(PrimOp::Unreachable),
        CallKindView::Break(_, _) => Some(PrimOp::Break),
        _ => None,
    }
}

/// The arguments in what a call means, from left to right, with a proof at the end. The label of a
/// `break` is not among them.
pub open spec fn call_arguments(k: CallKindView) -> Seq<Sexp> {
    match k {
        CallKindView::NAry(_, es) => es,
        CallKindView::Neg(e) => seq![e],
        CallKindView::Sub(e, es) => seq![e] + es,
        CallKindView::Shl(a, b) => seq![a, b],
        CallKindView::Shr(a, b) => seq![a, b],
        CallKindView::Typed(e, ty) => seq![e, ty],
        CallKindView::As(e, ty) => seq![e, ty],
        CallKindView::Cast(e, pf) => seq![e] + optional(pf),
        CallKindView::Pun(e, pf) => seq![e] + optional(pf),
        CallKindView::Sn(e, pf) => seq![e] + optional(pf),
        CallKindView::Index(a, i, pf) => seq![a, i] + optional(pf),
        CallKindView::Slice(a, i, pf) => seq![a, i] + optional(pf),
        CallKindView::Mm0(e) => seq![e],
        CallKindView::Ref(e) => seq![e],
        CallKindView::TypeofBang(e) => seq![e],
        CallKindView::Typeof(e) => seq![e],
        CallKindView::Sizeof(ty) => seq![ty],
        CallKindView::Unreachable(pf) => optional(pf),
        CallKindView::Jump(_, es) => es,
        CallKindView::Break(_, es) => es,
        _ => Seq::empty(),
    }
}

/// How many arguments an operation takes.
pub open spec fn op_arity(prim: PrimOp) -> (nat, Option<nat>) {
    match prim {
        PrimOp::Sub => (1, None),
        PrimOp::Shl | PrimOp::Shr | PrimOp::Typed | PrimOp::As => (2, Some(2)),
        PrimOp::Cast | PrimOp::Pun | PrimOp::Sn => (1, Some(2)),
        PrimOp::Index | PrimOp::Slice => (2, Some(3)),
        PrimOp::Uninit => (0, Some(0)),
        PrimOp::Pure | PrimOp::Ref | PrimOp::TypeofBang | PrimOp::Typeof | PrimOp::Sizeof => (
            1,
            Some(1),
        ),
        PrimOp::Unreachable => (0, Some(1)),
        _ => (0, None),
    }
}

/// How many arguments a complaint says that there should be.
pub open spec fn expected_arguments(msg: Message<Sexp>) -> Option<(nat, Option<nat>)> {
    match msg {
        Message::Expected0 => Some((0, Some(0))),
        Message::Expected1 => Some((1, Some(1))),
        Message::Expected1Or2 => Some((1, Some(2))),
        Message::Expected1OrMore => Some((1, None)),
        Message::Expected2 => Some((2, Some(2))),
        Message::Expected2Or3 => Some((2, Some(3))),
        _ => None,
    }
}

/// Whether the operation `prim` with these arguments means `k`. The arguments stay in the order in
/// which they are written. A `break` out of a label has the label as its first argument. A
/// subtraction from nothing is a negation.
pub open spec fn operation_form(k: CallKindView, prim: PrimOp, out: bool, args: Seq<Sexp>) -> bool {
    &&& call_word(k) == Some(prim)
    &&& in_arity(args.len(), op_arity(prim))
    &&& match k {
        CallKindView::Break(Some(a), es) => out && args.len() == es.len() + 1 && args[0].as_atom()
            == Some(a) && args.skip(1) == es,
        CallKindView::Break(None, es) => args == es && (args.len() > 0 && out
            ==> args[0].as_atom() is None),
        CallKindView::Neg(e) => args == seq![e],
        CallKindView::Sub(e, es) => es.len() > 0 && args == seq![e] + es,
        _ => args == call_arguments(k),
    }
}

/// What an operation means is exactly what its arguments make of it. There is a complaint exactly
/// where there are too few or too many, and it says how many there should be, but for `unreachable`,
/// which can do without its argument.
pub proof fn law_operations(g: Grammar, prim: PrimOp, out: bool, args: Seq<Sexp>, k: CallKindView)
    ensures
        g.op_kind(prim, out, args) == Ok::<CallKindView, ErrorView>(k) <==> operation_form(
            k,
            prim,
            out,
            args,
        ),
        g.op_kind(prim, out, args) is Ok <==> in_arity(args.len(), op_arity(prim)),
        g.op_kind(prim, out, args) matches Err(x) ==> x.pos == g.base.span && (prim
            != PrimOp::Unreachable ==> expected_arguments(x.msg) == Some(op_arity(prim))),
{
    lemma_operation(g, prim, out, args);
    if operation_form(k, prim, out, args) {
        if let Ok(k2) = g.op_kind(prim, out, args) {
            lemma_operation_unique(k, k2, prim, out, args);
        }
    }
}

/// What an operation means is made from its arguments.
#[verifier::spinoff_prover]
#[verifier::rlimit(50)]
proof fn lemma_operation(g: Grammar, prim: PrimOp, out: bool, args: Seq<Sexp>)
    ensures
        g.op_kind(prim, out, args) matches Ok(k) ==> operation_form(k, prim, out, args),
        g.op_kind(prim, out, args) is Ok <==> in_arity(args.len(), op_arity(prim)),
        g.op_kind(prim, out, args) matches Err(x) ==> x.pos == g.base.span && (prim
            != PrimOp::Unreachable ==> expected_arguments(x.msg) == Some(op_arity(prim))),
{
    if let Ok(k) = g.op_kind(prim, out, args) {
        match k {
            CallKindView::Break(Some(_), es) => {
                assert(args.skip(1) =~= es);
            },
            CallKindView::Break(None, _) => {},
            CallKindView::Neg(e) => {
                assert(args =~= seq![e]);
            },
            CallKindView::Sub(e, es) => {
                assert(args =~= seq![e] + es);
            },
            _ => {
                assert(args =~= call_arguments(k));
            },
        }
    }
}

/// An operation with given arguments means one thing only.
#[verifier::spinoff_prover]
#[verifier::rlimit(50)]
proof fn lemma_operation_unique(
    k: CallKindView,
    k2: CallKindView,
    prim: PrimOp,
    out: bool,
    args: Seq<Sexp>,
)
    requires
        operation_form(k, prim, out, args),
        operation_form(k2, prim, out, args),
    ensures
        k == k2,
{
    lemma_parts(k, args);
    lemma_parts(k2, args);
    match (k, k2) {
        (CallKindView::Sub(_, es), CallKindView::Sub(_, es2)) => {
            assert(es =~= args.skip(1));
            assert(es2 =~= args.skip(1));
        },
        _ => {},
    }
}

/// The parts of what a call means are its arguments.
proof fn lemma_parts(k: CallKindView, args: Seq<Sexp>)
    ensures
        args == call_arguments(k) ==> match k {
            CallKindView::Neg(e) => args.len() == 1 && args[0] == e,
            CallKindView::Sub(e, es) => args.len() == 1 + es.len() && args[0] == e,
            CallKindView::Shl(a, b) => args.len() == 2 && args[0] == a && args[1] == b,
            CallKindView::Shr(a, b) => args.len() == 2 && args[0] == a && args[1] == b,
            CallKindView::Typed(a, b) => args.len() == 2 && args[0] == a && args[1] == b,
            CallKindView::As(a, b) => args.len() == 2 && args[0] == a && args[1] == b,
            CallKindView::Cast(e, pf) => args[0] == e && args.len() == (if pf is Some {
                2int
            } else {
                1int
            }) && (pf matches Some(x) ==> args[1] == x),
            CallKindView::Pun(e, pf) => args[0] == e && args.len() == (if pf is Some {
                2int
            } else {
                1int
            }) && (pf matches Some(x) ==> args[1] == x),
            CallKindView::Sn(e, pf) => args[0] == e && args.len() == (if pf is Some {
                2int
            } else {
                1int
            }) && (pf matches Some(x) ==> args[1] == x),
            CallKindView::Index(a, i, pf) => args[0] == a && args[1] == i && args.len() == (if pf
                is Some {
                3int
            } else {
                2int
            }) && (pf matches Some(x) ==> args[2] == x),
            CallKindView::Slice(a, i, pf) => args[0] == a && args[1] == i && args.len() == (if pf
                is Some {
                3int
            } else {
                2int
            }) && (pf matches Some(x) ==> args[2] == x),
            CallKindView::Mm0(e) => args[0] == e,
            CallKindView::Ref(e) => args[0] == e,
            CallKindView::TypeofBang(e) => args[0] == e,
            CallKindView::Typeof(e) => args[0] == e,
            CallKindView::Sizeof(e) => args[0] == e,
            CallKindView::Unreachable(pf) => args.len() == (if pf is Some {
                1int
            } else {
                0int
            }) && (pf matches Some(x) ==> args[0] == x),
            _ => true,
        },
{
}

/// What a call means goes by what its function is: a label that is in scope, or else what the name
/// stands for. A call of a procedure is kept whole, with the number of its type arguments.
pub proof fn law_call_meanings(
    g: Grammar,
    names: Map<u32, Entity>,
    label: bool,
    out: bool,
    c: CallView,
)
    ensures
        ({
            let f = c.f.k;
            let r = g.call_kind(names, label, out, c);
            &&& label ==> (r matches Ok(CallKindView::Jump(a, es)) && a == f && es == c.args)
            &&& !label ==> match entity_of(names, f) {
                None => r matches Err(x) && x.pos == g.base.span && x.msg
                    == Message::<Sexp>::UnknownFunction(f),
                Some(Entity::Const(_)) => r matches Ok(CallKindView::Const(a)) && a == f,
                Some(Entity::Global(_)) => r matches Ok(CallKindView::Global(a)) && a == f,
                Some(Entity::Type(_, _)) => r matches Err(x) && x.pos == g.base.span && x.msg
                    == Message::<Sexp>::NotAFunction,
                Some(Entity::Proc(_, ProcTc::Typed { tyargs })) => r matches Ok(
                    CallKindView::Call(c2, n),
                ) && c2 == c && n == tyargs,
                Some(Entity::Proc(_, ProcTc::Unchecked)) => r matches Ok(CallKindView::Error),
                Some(Entity::Prim(p)) => match p.op {
                    Some(op) => match r {
                        Ok(k) => operation_form(k, op, out, c.args),
                        Err(_) => !in_arity(c.args.len(), op_arity(op)),
                    },
                    None => r matches Err(x) && x.pos == g.base.span && x.msg
                        == Message::<Sexp>::NotAFunction,
                },
            }
        }),
{
    if let Some(Entity::Prim(p)) = entity_of(names, c.f.k) {
        if let Some(op) = p.op {
            lemma_operation(g, op, out, c.args);
        }
    }
}

// ---------------------------------------------------------------------------------------------
// Constructors and arguments

/// The constructor of a type or of a proposition: the first element of a list, or what is no list.
pub open spec fn constructor(e: Sexp) -> Option<Sexp> {
    if e.items().len() > 0 {
        Some(e.items()[0])
    } else if e.is_list() {
        None
    } else {
        Some(e)
    }
}

/// The arguments of the constructor: the other elements.
pub open spec fn constructor_args(e: Sexp) -> Seq<Sexp> {
    if e.items().len() > 0 {
        e.items().skip(1)
    } else {
        Seq::empty()
    }
}

proof fn lemma_constructor(e: Sexp)
    ensures
        head_and_args(e) == (match constructor(e) {
            Some(head) => Some((head, constructor_args(e))),
            None => None,
        }),
{
    lemma_tail(e);
    if e.items().len() > 0 {
        assert(e.items().skip(1) =~= e.items().drop_first());
    }
}

/// Tuple patterns in a row, one by one.
pub open spec fn patterns_form(g: Grammar, ps: Seq<Spanned<TupleView>>, es: Seq<Sexp>) -> bool {
    ps.len() == es.len() && forall|i: int|
        0 <= i < ps.len() ==> tuple_form(g, false, #[trigger] ps[i], es[i])
}

/// What is read as tuple patterns in a row is exactly what is written so.
pub proof fn law_patterns_in_a_row(g: Grammar, ps: Seq<Spanned<TupleView>>, es: Seq<Sexp>)
    ensures
        g.tuple_patterns(false, es) == Ok::<Seq<Spanned<TupleView>>, ErrorView>(ps)
            <==> patterns_form(g, ps, es),
{
    if ps.len() == es.len() {
        lemma_all_patterns(g, false, ps, es);
        assert forall|i: int| 0 <= i < ps.len() implies (g.tuple_pattern(false, es[i]) == Ok::<
            Spanned<TupleView>,
            ErrorView,
        >(#[trigger] ps[i]) <==> tuple_form(g, false, ps[i], es[i])) by {
            law_tuple_patterns(g, false, ps[i], es[i]);
        }
        if patterns_form(g, ps, es) {
            assert forall|i: int| 0 <= i < ps.len() implies g.tuple_pattern(false, es[i]) == Ok::<
                Spanned<TupleView>,
                ErrorView,
            >(#[trigger] ps[i]) by {}
        }
    } else {
        super::readback::lemma_tuple_patterns(g, false, es);
    }
}

// ---------------------------------------------------------------------------------------------
// Propositions

/// The constructor that is written for a proposition.
pub open spec fn prop_word(p: PropView) -> Option<PrimProp> {
    match p {
        PropView::All(_, _) => Some(PrimProp::All),
        PropView::Ex(_, _) => Some(PrimProp::Ex),
        PropView::And(_) => Some(PrimProp::And),
        PropView::Or(_) => Some(PrimProp::Or),
        PropView::Imp(_, _) => Some(PrimProp::Imp),
        PropView::Sep(_) => Some(PrimProp::Star),
        PropView::Wand(_, _) => Some(PrimProp::Wand),
        PropView::Mm0(_) => Some(PrimProp::Pure),
        PropView::Moved(_) => Some(PrimProp::Moved),
        PropView::Eq(_, _) => Some(PrimProp::Eq),
        PropView::Pure(_) => None,
    }
}

/// Whether these are the arguments in a proposition, from left to right. The last argument of a
/// quantifier is its body.
pub open spec fn prop_arguments(g: Grammar, p: PropView, args: Seq<Sexp>) -> bool {
    match p {
        PropView::All(ps, body) => args.len() > 0 && body == args.last() && patterns_form(
            g,
            ps,
            args.drop_last(),
        ),
        PropView::Ex(ps, body) => args.len() > 0 && body == args.last() && patterns_form(
            g,
            ps,
            args.drop_last(),
        ),
        PropView::And(es) => args == es,
        PropView::Or(es) => args == es,
        PropView::Sep(es) => args == es,
        PropView::Imp(a, b) => args == seq![a, b],
        PropView::Wand(a, b) => args == seq![a, b],
        PropView::Eq(a, b) => args == seq![a, b],
        PropView::Mm0(e) => args == seq![e],
        PropView::Moved(e) => args == seq![e],
        PropView::Pure(_) => false,
    }
}

/// The proposition constructor that a name stands for.
pub open spec fn prop_entity(names: Map<u32, Entity>, head: Sexp) -> Option<PrimProp> {
    match head.as_atom() {
        Some(a) => match entity_of(names, a) {
            Some(Entity::Prim(p)) => p.prop,
            _ => None,
        },
        None => None,
    }
}

/// A proposition: a constructor with its arguments, or an expression.
pub open spec fn prop_form(g: Grammar, names: Map<u32, Entity>, p: PropView, e: Sexp) -> bool {
    match constructor(e) {
        Some(head) => match prop_entity(names, head) {
            Some(word) => prop_word(p) == Some(word) && prop_arguments(g, p, constructor_args(e)),
            None => p matches PropView::Pure(k) && expr_form(g, k, e),
        },
        None => false,
    }
}

/// What is read as a proposition is exactly what is written as one, and stands where it is written.
pub proof fn law_props(
    g: Grammar,
    names: Map<u32, Entity>,
    p: PropView,
    x: Spanned<PropView>,
    e: Sexp,
)
    ensures
        g.prop_kind(names, e) == Ok::<PropView, ErrorView>(p) <==> prop_form(g, names, p, e),
        g.prop(names, e) == Ok::<Spanned<PropView>, ErrorView>(x) <==> x.span == g.fspan_of(e)
            && prop_form(g, names, x.k, e),
{
    lemma_prop(g, names, p, e);
    lemma_prop(g, names, x.k, e);
}

proof fn lemma_prop(g: Grammar, names: Map<u32, Entity>, p: PropView, e: Sexp)
    ensures
        g.prop_kind(names, e) == Ok::<PropView, ErrorView>(p) <==> prop_form(g, names, p, e),
{
    lemma_constructor(e);
    if let Some(head) = constructor(e) {
        assert(prop_constructor(names, head) == prop_entity(names, head));
        match prop_entity(names, head) {
            Some(word) => {
                lemma_prim_prop(g, head, word, constructor_args(e), p);
            },
            None => {
                if let PropView::Pure(k) = p {
                    law_expressions(g, k, g.at(e, k), e);
                }
                if let Ok(k) = g.expr_kind(e) {
                    law_expressions(g, k, g.at(e, k), e);
                }
            },
        }
    }
}

proof fn lemma_prim_prop(g: Grammar, head: Sexp, word: PrimProp, args: Seq<Sexp>, p: PropView)
    ensures
        g.prim_prop(head, word, args) == Ok::<PropView, ErrorView>(p) <==> prop_word(p) == Some(
            word,
        ) && prop_arguments(g, p, args),
{
    match p {
        PropView::All(ps, body) => {
            if args.len() > 0 {
                law_patterns_in_a_row(g, ps, args.drop_last());
            }
        },
        PropView::Ex(ps, body) => {
            if args.len() > 0 {
                law_patterns_in_a_row(g, ps, args.drop_last());
            }
        },
        PropView::Imp(a, b) => {
            lemma_two(args, a, b);
        },
        PropView::Wand(a, b) => {
            lemma_two(args, a, b);
        },
        PropView::Eq(a, b) => {
            lemma_two(args, a, b);
        },
        PropView::Mm0(a) => {
            lemma_one(args, a);
        },
        PropView::Moved(a) => {
            lemma_one(args, a);
        },
        _ => {},
    }
}

proof fn lemma_one(args: Seq<Sexp>, a: Sexp)
    ensures
        args == seq![a] <==> args.len() == 1 && args[0] == a,
{
    if args.len() == 1 && args[0] == a {
        assert(args =~= seq![a]);
    }
}

proof fn lemma_two(args: Seq<Sexp>, a: Sexp, b: Sexp)
    ensures
        args == seq![a, b] <==> args.len() == 2 && args[0] == a && args[1] == b,
{
    if args.len() == 2 && args[0] == a && args[1] == b {
        assert(args =~= seq![a, b]);
    }
}

// ---------------------------------------------------------------------------------------------
// Types

/// The word that is written for an integer type.
pub open spec fn int_word(signed: bool, sz: Size) -> PrimType {
    match sz {
        Size::S8 => if signed {
            PrimType::I8
        } else {
            PrimType::U8
        },
        Size::S16 => if signed {
            PrimType::I16
        } else {
            PrimType::U16
        },
        Size::S32 => if signed {
            PrimType::I32
        } else {
            PrimType::U32
        },
        Size::S64 => if signed {
            PrimType::I64
        } else {
            PrimType::U64
        },
        Size::Inf => if signed {
            PrimType::Int
        } else {
            PrimType::Nat
        },
    }
}

/// The constructor that is written for a primitive type.
pub open spec fn type_word(k: TypeView) -> Option<PrimType> {
    match k {
        TypeView::Array(_, _) => Some(PrimType::Array),
        TypeView::Bool => Some(PrimType::Bool),
        TypeView::Int(sz) => Some(int_word(true, sz)),
        TypeView::UInt(sz) => Some(int_word(false, sz)),
        TypeView::Input => Some(PrimType::Input),
        TypeView::Output => Some(PrimType::Output),
        TypeView::Own(_) => Some(PrimType::Own),
        TypeView::Shr(_, _) => Some(PrimType::Ref),
        TypeView::RefSn(_) => Some(PrimType::RefSn),
        TypeView::Sn(_) => Some(PrimType::Sn),
        TypeView::List(_) => Some(PrimType::List),
        TypeView::Struct(_) => Some(PrimType::Struct),
        TypeView::And(_) => Some(PrimType::And),
        TypeView::Or(_) => Some(PrimType::Or),
        TypeView::Moved(_) => Some(PrimType::Moved),
        TypeView::GhostTy(_) => Some(PrimType::GhostTy),
        TypeView::Uninit(_) => Some(PrimType::Uninit),
        _ => None,
    }
}

/// Whether these are the arguments in a primitive type, from left to right.
pub open spec fn type_arguments(g: Grammar, k: TypeView, args: Seq<Sexp>) -> bool {
    match k {
        TypeView::Array(ty, n) => args == seq![ty, n],
        TypeView::Own(ty) => args == seq![ty],
        TypeView::Shr(lft, ty) => lft is None && args == seq![ty],
        TypeView::RefSn(e) => args == seq![e],
        TypeView::Sn(e) => args == seq![e],
        TypeView::Moved(ty) => args == seq![ty],
        TypeView::GhostTy(ty) => args == seq![ty],
        TypeView::Uninit(ty) => args == seq![ty],
        TypeView::List(es) => args == es,
        TypeView::And(es) => args == es,
        TypeView::Or(es) => args == es,
        TypeView::Struct(ps) => patterns_form(g, ps, args),
        _ => args.len() == 0,
    }
}

/// A type: `()`, a conditional, a variable, or a constructor with its arguments. A user defined type
/// has its type arguments before its value arguments. A name that is a proposition or an operation,
/// and no type, makes a proposition.
pub open spec fn type_form(g: Grammar, names: Map<u32, Entity>, k: TypeView, e: Sexp) -> bool {
    let args = constructor_args(e);
    match constructor(e) {
        None => k is Unit,
        Some(head) => match head.as_atom() {
            None => is_word(g, head, Keyword::If) && (k matches TypeView::If(c, t, f) && args
                == seq![c, t, f]),
            Some(a) => a != AtomId(UNDER) && match entity_of(names, a) {
                None => args.len() == 0 && (k matches TypeView::Var(b) && b == a),
                Some(Entity::Type(_, TypeTc::Unchecked)) => k is Error,
                Some(Entity::Type(_, TypeTc::Typed(ty))) => k matches TypeView::User(b, tys, vals)
                    && b == a && args == tys + vals && tys.len() == ty.tyargs && vals.len()
                    == ty.args,
                Some(Entity::Prim(p)) => match p.ty {
                    Some(word) => type_word(k) == Some(word) && type_arguments(g, k, args),
                    None => (p.prop is Some || p.op is Some) && (k matches TypeView::Prop(q)
                        && prop_form(g, names, q, e)),
                },
                Some(_) => false,
            },
        },
    }
}

/// What is read as a type is exactly what is written as one, and stands where it is written.
pub proof fn law_types(
    g: Grammar,
    names: Map<u32, Entity>,
    k: TypeView,
    x: Spanned<TypeView>,
    e: Sexp,
)
    ensures
        g.ty_kind(names, e) == Ok::<TypeView, ErrorView>(k) <==> type_form(g, names, k, e),
        g.ty(names, e) == Ok::<Spanned<TypeView>, ErrorView>(x) <==> x.span == g.fspan_of(e)
            && type_form(g, names, x.k, e),
{
    lemma_type(g, names, k, e);
    lemma_type(g, names, x.k, e);
}

proof fn lemma_type(g: Grammar, names: Map<u32, Entity>, k: TypeView, e: Sexp)
    ensures
        g.ty_kind(names, e) == Ok::<TypeView, ErrorView>(k) <==> type_form(g, names, k, e),
{
    lemma_constructor(e);
    let args = constructor_args(e);
    if let Some(head) = constructor(e) {
        law_head_keywords(g, head, Keyword::If);
        match head.as_atom() {
            None => {
                if let TypeView::If(c, t, f) = k {
                    if args.len() == 3 && args[0] == c && args[1] == t && args[2] == f {
                        assert(args =~= seq![c, t, f]);
                    }
                }
            },
            Some(a) => match entity_of(names, a) {
                Some(Entity::Prim(p)) => match p.ty {
                    Some(word) => {
                        lemma_prim_ty(g, e, word, args, k);
                    },
                    None => {
                        if let TypeView::Prop(q) = k {
                            lemma_prop(g, names, q, e);
                        }
                        if let Ok(q) = g.prop_kind(names, e) {
                            lemma_prop(g, names, q, e);
                        }
                    },
                },
                Some(Entity::Type(_, TypeTc::Typed(ty))) => {
                    if let TypeView::User(_, tys, vals) = k {
                        if args == tys + vals && tys.len() == ty.tyargs {
                            assert(args.take(ty.tyargs as int) =~= tys);
                            assert(args.skip(ty.tyargs as int) =~= vals);
                        }
                        if args.len() == ty.tyargs + ty.args {
                            assert(args =~= args.take(ty.tyargs as int) + args.skip(
                                ty.tyargs as int,
                            ));
                        }
                    }
                },
                _ => {},
            },
        }
    }
}

#[verifier::spinoff_prover]
#[verifier::rlimit(50)]
proof fn lemma_prim_ty(g: Grammar, e: Sexp, word: PrimType, args: Seq<Sexp>, k: TypeView)
    ensures
        g.prim_ty(e, word, args) == Ok::<TypeView, ErrorView>(k) <==> type_word(k) == Some(word)
            && type_arguments(g, k, args),
{
    match k {
        TypeView::Array(ty, n) => {
            lemma_two(args, ty, n);
        },
        TypeView::Own(a) => {
            lemma_one(args, a);
        },
        TypeView::Shr(_, a) => {
            lemma_one(args, a);
        },
        TypeView::RefSn(a) => {
            lemma_one(args, a);
        },
        TypeView::Sn(a) => {
            lemma_one(args, a);
        },
        TypeView::Moved(a) => {
            lemma_one(args, a);
        },
        TypeView::GhostTy(a) => {
            lemma_one(args, a);
        },
        TypeView::Uninit(a) => {
            lemma_one(args, a);
        },
        TypeView::Struct(ps) => {
            law_patterns_in_a_row(g, ps, args);
        },
        _ => {},
    }
}

// ---------------------------------------------------------------------------------------------
// The patterns of a `match`

/// A pattern of a `match`: a name, a number, `{h : pattern}`, `(with pattern guard)` or
/// `(or pattern..)`. The name of a constant stands for its value.
pub open spec fn pattern_form(g: Grammar, names: Map<u32, Entity>, k: PatternView, e: Sexp) -> bool {
    let es = e.items();
    match k {
        PatternView::Var(a) => e.as_atom() == Some(a) && !(entity_of(names, a) matches Some(
            Entity::Const(_),
        )),
        PatternView::Const(a) => e.as_atom() == Some(a) && (entity_of(names, a) matches Some(
            Entity::Const(_),
        )),
        PatternView::Number(n) => e.as_int() == Some(n),
        PatternView::Hyped(h, p) => is_triple(g, Keyword::Colon, e) && es[1].as_atom() == Some(h)
            && p == es[2],
        PatternView::With(p, c) => is_triple(g, Keyword::With, e) && p == es[1] && c == es[2],
        PatternView::Or(rest) => starts_with(g, e, Keyword::Or) && rest == e.tail()
            && rest.items() == es.skip(1),
    }
}

/// What is read as a pattern of a `match` is exactly what is written as one, and stands where it is
/// written.
pub proof fn law_match_patterns(
    g: Grammar,
    names: Map<u32, Entity>,
    k: PatternView,
    x: Spanned<PatternView>,
    e: Sexp,
)
    ensures
        g.pattern_kind(names, e) == Ok::<PatternView, ErrorView>(k) <==> pattern_form(
            g,
            names,
            k,
            e,
        ),
        g.pattern(names, e) == Ok::<Spanned<PatternView>, ErrorView>(x) <==> x.span == g.fspan_of(e)
            && pattern_form(g, names, x.k, e),
{
    lemma_match_pattern(g, names, k, e);
    lemma_match_pattern(g, names, x.k, e);
}

proof fn lemma_match_pattern(g: Grammar, names: Map<u32, Entity>, k: PatternView, e: Sexp)
    ensures
        g.pattern_kind(names, e) == Ok::<PatternView, ErrorView>(k) <==> pattern_form(
            g,
            names,
            k,
            e,
        ),
{
    let es = e.items();
    lemma_unwrapped_list(e);
    lemma_unwrapped_twice(e);
    lemma_tail(e);
    law_head_keywords(g, e, Keyword::Colon);
    law_head_keywords(g, e, Keyword::With);
    law_head_keywords(g, e, Keyword::Or);
    if starts_with(g, e, Keyword::Colon) {
        lemma_pair(g, Keyword::Colon, e);
    }
    if starts_with(g, e, Keyword::With) {
        lemma_pair(g, Keyword::With, e);
    }
    if es.len() > 0 {
        assert(es.skip(1) =~= es.drop_first());
    }
}

// ---------------------------------------------------------------------------------------------
// Questions

/// The second question about a call comes up exactly where it is a `break` whose first argument is a
/// name, and it is about that name. Where it does not come up, its answer does not matter.
pub proof fn law_break_questions(
    g: Grammar,
    names: Map<u32, Entity>,
    c: CallView,
    a: AtomId,
    label: bool,
    out: bool,
)
    ensures
        break_target(names, c) == Some(a) <==> {
            &&& entity_of(names, c.f.k) matches Some(Entity::Prim(p)) && p.op == Some(PrimOp::Break)
            &&& c.args.len() > 0
            &&& c.args[0].as_atom() == Some(a)
        },
        label || break_target(names, c) is None ==> g.call_kind(names, label, out, c)
            == g.call_kind(names, label, !out, c),
{
}

/// The answers about a call are those that are given, to the question about its function, and to the
/// question about the first argument of a `break` where its function is no label.
pub proof fn law_call_answers<F: FnMut(AtomId) -> bool>(
    is_label: F,
    names: Map<u32, Entity>,
    c: CallView,
    label: bool,
    out: bool,
)
    requires
        answered(is_label, names, c, label, out),
    ensures
        call_ensures(is_label, (c.f.k,), label),
        !label ==> (break_target(names, c) matches Some(a) ==> call_ensures(is_label, (a,), out)),
{
}

} // verus!
