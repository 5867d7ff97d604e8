//! How values and their models correspond, part by part.

use crate::ast::{CallExpr, CallKind, CallKindView, CallView, ExprKind, ExprView, ItemKind};
use crate::ast::{ItemView, Label, LabelView, Mm0ExprNode, Mm0View, MutOut, PatternKind};
use crate::ast::{PatternView, Proc, ProcView, PropKind, PropView, Renames, RenamesView};
use crate::ast::{TuplePatternKind, TupleView, TypeKind, TypeView, VariantType};
use crate::ast::{lemma_term_model, lemma_tuple_model};
use crate::error::{outcome, ElabError, Message};
use crate::lisp::{lemma_list_model, AtomId, LispKind, LispVal, Sexp};
use crate::number::{magnitude, Int};
use crate::span::Spanned;
use vstd::prelude::*;

verus! {

/// Whether the second sequence has the models of the elements of the first, in their order.
pub open spec fn listed<T: DeepView>(vs: Vec<T>, xs: Seq<T::V>) -> bool {
    &&& vs@.len() == xs.len()
    &&& forall|i: int| #![trigger xs[i]] 0 <= i < xs.len() ==> vs@[i].deep_view() == xs[i]
}

/// Whether both are there or neither is, and the second is the model of the first.
pub open spec fn maybe<T: DeepView>(v: Option<T>, x: Option<T::V>) -> bool {
    &&& v is Some <==> x is Some
    &&& v is Some ==> v->0.deep_view() == x->0
}

/// The model of a vector has the models of its elements.
pub proof fn lemma_listed<T: DeepView>(vs: Vec<T>, xs: Seq<T::V>)
    ensures
        vs.deep_view() == xs <==> listed(vs, xs),
{
    if listed(vs, xs) {
        assert(vs.deep_view() =~= xs);
    }
}

/// A Lisp value and its model have the same shape, the same names and numbers, and parts that
/// correspond.
pub proof fn law_value_models(k: LispKind, x: Sexp)
    ensures
        k.model() == x <==> match (k, x) {
            (LispKind::List(es), Sexp::List(xs)) => listed(es, xs),
            (LispKind::DottedList(es, r), Sexp::DottedList(xs, y)) => listed(es, xs) && r@ == *y,
            (LispKind::Atom(a), Sexp::Atom(b)) => a == b,
            (LispKind::Number(n), Sexp::Number(m)) => n@ == m,
            (LispKind::String(s), Sexp::String(t)) => s@ == t,
            (LispKind::Bool(b), Sexp::Bool(c)) => b == c,
            (LispKind::Syntax(s), Sexp::Syntax(t)) => s == t,
            (LispKind::Undef, Sexp::Undef) => true,
            (LispKind::Annot(s, e), Sexp::Annot(t, y)) => s == t && e@ == *y,
            _ => false,
        },
{
    lemma_list_model(k);
    match (k, x) {
        (LispKind::List(es), Sexp::List(xs)) => {
            lemma_listed(es, xs);
        },
        (LispKind::DottedList(es, r), Sexp::DottedList(xs, y)) => {
            lemma_listed(es, xs);
        },
        _ => {},
    }
}

/// One more digit in the lowest place multiplies the digits above it by the base, and the sign turns
/// a number into its negation.
pub proof fn law_number_models(digits: Seq<u32>, low: u32, a: Int, b: Int)
    ensures
        magnitude(Seq::empty()) == 0,
        magnitude(seq![low] + digits) == low + 0x1_0000_0000 * magnitude(digits),
        !a.negative ==> a@ == magnitude(a.digits@),
        a.negative && !b.negative && a.digits@ == b.digits@ ==> a@ == -b@,
{
    assert((seq![low] + digits).drop_first() =~= digits);
}

/// A tuple pattern and its model have the same shape, the same names, and parts that correspond.
pub proof fn law_tuple_models(k: TuplePatternKind, v: TupleView)
    ensures
        k.deep_view() == v <==> match (k, v) {
            (TuplePatternKind::Name(g, a), TupleView::Name(h, b)) => g == h && a == b,
            (TuplePatternKind::Typed(p, ty), TupleView::Typed(q, x)) => p.span == q.span
                && p.k.deep_view() == q.k && ty@ == x,
            (TuplePatternKind::Tuple(ps), TupleView::Tuple(qs)) => listed(ps, qs),
            _ => false,
        },
{
    match (k, v) {
        (TuplePatternKind::Tuple(ps), TupleView::Tuple(qs)) => {
            lemma_tuple_model(ps);
            lemma_listed(ps, qs);
        },
        _ => {},
    }
}

/// The parts of statements and their models correspond by name.
pub proof fn law_part_models(
    c: CallExpr,
    d: CallView,
    l: Label,
    m: LabelView,
    r: Renames,
    s: RenamesView,
    v: VariantType<LispVal>,
    w: VariantType<Sexp>,
    x: MutOut,
)
    ensures
        c.deep_view() == d <==> {
            &&& c.f == d.f
            &&& listed(c.args, d.args)
            &&& maybe(c.variant, d.variant)
        },
        l.deep_view() == m <==> {
            &&& l.name == m.name
            &&& listed(l.args, m.args)
            &&& maybe(l.variant, m.variant)
            &&& l.body@ == m.body
        },
        r.deep_view() == s <==> r.old@ == s.old && r.new@ == s.new,
        v.deep_view() == w <==> match (v, w) {
            (VariantType::Down, VariantType::Down) => true,
            (VariantType::UpLt(a), VariantType::UpLt(b)) => a@ == b,
            (VariantType::UpLe(a), VariantType::UpLe(b)) => a@ == b,
            _ => false,
        },
        x.deep_view() == x,
{
    lemma_listed(c.args, d.args);
    lemma_listed(l.args, m.args);
    assert(r.old.deep_view() =~= r.old@);
    assert(r.new.deep_view() =~= r.new@);
}

/// An expression and its model are of the same kind, and their parts correspond.
pub proof fn law_expr_models(k: ExprKind, v: ExprView)
    ensures
        k.deep_view() == v <==> match (k, v) {
            (ExprKind::Unit, ExprView::Unit) => true,
            (ExprKind::Hole, ExprView::Hole) => true,
            (ExprKind::Var(a), ExprView::Var(b)) => a == b,
            (ExprKind::Bool(a), ExprView::Bool(b)) => a == b,
            (ExprKind::Int(a), ExprView::Int(b)) => a@ == b,
            (ExprKind::Proj(a, f), ExprView::Proj(b, g)) => a@ == b && f == g,
            (
                ExprKind::Let { lhs, rhs, with },
                ExprView::Let { lhs: l, rhs: r, with: w },
            ) => lhs.span == l.span && lhs.k.deep_view() == l.k && rhs@ == r && with.deep_view()
                == w,
            (
                ExprKind::Assign { lhs, rhs, with },
                ExprView::Assign { lhs: l, rhs: r, with: w },
            ) => lhs@ == l && rhs@ == r && with.deep_view() == w,
            (ExprKind::Call(c), ExprView::Call(d)) => c.deep_view() == d,
            (ExprKind::Entail(a, es), ExprView::Entail(b, xs)) => a@ == b && listed(es, xs),
            (ExprKind::Block(a), ExprView::Block(b)) => a@ == b,
            (ExprKind::Label(l), ExprView::Label(m)) => l.deep_view() == m,
            (ExprKind::If { branches, els }, ExprView::If { branches: b, els: e }) => {
                &&& branches@.len() == b.len()
                &&& forall|i: int| #![trigger b[i]] 0 <= i < b.len() ==> {
                    &&& branches@[i].0 == b[i].0
                    &&& branches@[i].1@ == b[i].1
                    &&& branches@[i].2@ == b[i].2
                }
                &&& maybe(els, e)
            },
            (ExprKind::Match(a, branches), ExprView::Match(x, b)) => {
                &&& a@ == x
                &&& branches@.len() == b.len()
                &&& forall|i: int| #![trigger b[i]] 0 <= i < b.len() ==> branches@[i].0@ == b[i].0
                    && branches@[i].1@ == b[i].1
            },
            (
                ExprKind::While { hyp, cond, var, body },
                ExprView::While { hyp: h, cond: c, var: w, body: b },
            ) => hyp == h && cond@ == c && maybe(var, w) && body@ == b,
            _ => false,
        },
{
    match (k, v) {
        (ExprKind::Entail(a, es), ExprView::Entail(b, xs)) => {
            lemma_listed(es, xs);
        },
        (ExprKind::If { branches, els }, ExprView::If { branches: b, els: e }) => {
            lemma_listed(branches, b);
        },
        (ExprKind::Match(a, branches), ExprView::Match(x, b)) => {
            lemma_listed(branches, b);
        },
        _ => {},
    }
}

/// An item and its model are of the same kind, and their parts correspond.
pub proof fn law_item_models(k: ItemKind, v: ItemView, p: Proc, q: ProcView)
    ensures
        k.deep_view() == v <==> match (k, v) {
            (ItemKind::Proc(a), ItemView::Proc(b)) => a.deep_view() == b,
            (ItemKind::Global(lhs, rhs), ItemView::Global(l, r)) => lhs.span == l.span
                && lhs.k.deep_view() == l.k && rhs@ == r,
            (ItemKind::Const(lhs, rhs), ItemView::Const(l, r)) => lhs.span == l.span
                && lhs.k.deep_view() == l.k && rhs@ == r,
            (
                ItemKind::Typedef { name, args, val },
                ItemView::Typedef { name: n, args: a, val: x },
            ) => name == n && listed(args, a) && val@ == x,
            (
                ItemKind::Struct { name, args, fields },
                ItemView::Struct { name: n, args: a, fields: f },
            ) => name == n && listed(args, a) && listed(fields, f),
            _ => false,
        },
        p.deep_view() == q <==> {
            &&& p.name == q.name
            &&& listed(p.args, q.args)
            &&& listed(p.rets, q.rets)
            &&& maybe(p.variant, q.variant)
            &&& p.kind == q.kind
            &&& p.body@ == q.body
        },
{
    lemma_listed(p.args, q.args);
    lemma_listed(p.rets, q.rets);
    match (k, v) {
        (
            ItemKind::Typedef { name, args, val },
            ItemView::Typedef { name: n, args: a, val: x },
        ) => {
            lemma_listed(args, a);
        },
        (
            ItemKind::Struct { name, args, fields },
            ItemView::Struct { name: n, args: a, fields: f },
        ) => {
            lemma_listed(args, a);
            lemma_listed(fields, f);
        },
        _ => {},
    }
}

/// A pattern of a `match` and its model are of the same kind, and their parts correspond.
pub proof fn law_pattern_models(k: PatternKind, v: PatternView)
    ensures
        k.deep_view() == v <==> match (k, v) {
            (PatternKind::Var(a), PatternView::Var(b)) => a == b,
            (PatternKind::Const(a), PatternView::Const(b)) => a == b,
            (PatternKind::Number(a), PatternView::Number(b)) => a@ == b,
            (PatternKind::Hyped(h, p), PatternView::Hyped(i, x)) => h == i && p@ == x,
            (PatternKind::With(p, g), PatternView::With(x, y)) => p@ == x && g@ == y,
            (PatternKind::Or(a), PatternView::Or(b)) => a@ == b,
            _ => false,
        },
{
}

/// A proposition and its model are of the same kind, and their parts correspond.
pub proof fn law_prop_models(k: PropKind, v: PropView)
    ensures
        k.deep_view() == v <==> match (k, v) {
            (PropKind::All(ps, a), PropView::All(qs, x)) => listed(ps, qs) && a@ == x,
            (PropKind::Ex(ps, a), PropView::Ex(qs, x)) => listed(ps, qs) && a@ == x,
            (PropKind::And(es), PropView::And(xs)) => listed(es, xs),
            (PropKind::Or(es), PropView::Or(xs)) => listed(es, xs),
            (PropKind::Imp(a, b), PropView::Imp(x, y)) => a@ == x && b@ == y,
            (PropKind::Sep(es), PropView::Sep(xs)) => listed(es, xs),
            (PropKind::Wand(a, b), PropView::Wand(x, y)) => a@ == x && b@ == y,
            (PropKind::Mm0(a), PropView::Mm0(x)) => a@ == x,
            (PropKind::Moved(a), PropView::Moved(x)) => a@ == x,
            (PropKind::Eq(a, b), PropView::Eq(x, y)) => a@ == x && b@ == y,
            (PropKind::Pure(a), PropView::Pure(x)) => a.deep_view() == x,
            _ => false,
        },
{
    match (k, v) {
        (PropKind::All(ps, a), PropView::All(qs, x)) => {
            lemma_listed(ps, qs);
        },
        (PropKind::Ex(ps, a), PropView::Ex(qs, x)) => {
            lemma_listed(ps, qs);
        },
        (PropKind::And(es), PropView::And(xs)) => {
            lemma_listed(es, xs);
        },
        (PropKind::Or(es), PropView::Or(xs)) => {
            lemma_listed(es, xs);
        },
        (PropKind::Sep(es), PropView::Sep(xs)) => {
            lemma_listed(es, xs);
        },
        _ => {},
    }
}

/// A type and its model are of the same kind, and their parts correspond.
pub proof fn law_type_models(k: TypeKind, v: TypeView)
    ensures
        k.deep_view() == v <==> match (k, v) {
            (TypeKind::Unit, TypeView::Unit) => true,
            (TypeKind::Array(a, b), TypeView::Array(x, y)) => a@ == x && b@ == y,
            (TypeKind::Bool, TypeView::Bool) => true,
            (TypeKind::Int(a), TypeView::Int(b)) => a == b,
            (TypeKind::UInt(a), TypeView::UInt(b)) => a == b,
            (TypeKind::Input, TypeView::Input) => true,
            (TypeKind::Output, TypeView::Output) => true,
            (TypeKind::Own(a), TypeView::Own(x)) => a@ == x,
            (TypeKind::Shr(l, a), TypeView::Shr(m, x)) => l == m && a@ == x,
            (TypeKind::RefSn(a), TypeView::RefSn(x)) => a@ == x,
            (TypeKind::Sn(a), TypeView::Sn(x)) => a@ == x,
            (TypeKind::List(es), TypeView::List(xs)) => listed(es, xs),
            (TypeKind::Struct(ps), TypeView::Struct(qs)) => listed(ps, qs),
            (TypeKind::And(es), TypeView::And(xs)) => listed(es, xs),
            (TypeKind::Or(es), TypeView::Or(xs)) => listed(es, xs),
            (TypeKind::Moved(a), TypeView::Moved(x)) => a@ == x,
            (TypeKind::GhostTy(a), TypeView::GhostTy(x)) => a@ == x,
            (TypeKind::Uninit(a), TypeView::Uninit(x)) => a@ == x,
            (TypeKind::If(a, b, c), TypeView::If(x, y, z)) => a@ == x && b@ == y && c@ == z,
            (TypeKind::Prop(a), TypeView::Prop(b)) => a.deep_view() == b,
            (TypeKind::Var(a), TypeView::Var(b)) => a == b,
            (TypeKind::User(a, es, fs), TypeView::User(b, xs, ys)) => a == b && listed(es, xs)
                && listed(fs, ys),
            (TypeKind::Error, TypeView::Error) => true,
            _ => false,
        },
{
    match (k, v) {
        (TypeKind::List(es), TypeView::List(xs)) => {
            lemma_listed(es, xs);
        },
        (TypeKind::Struct(ps), TypeView::Struct(qs)) => {
            lemma_listed(ps, qs);
        },
        (TypeKind::And(es), TypeView::And(xs)) => {
            lemma_listed(es, xs);
        },
        (TypeKind::Or(es), TypeView::Or(xs)) => {
            lemma_listed(es, xs);
        },
        (TypeKind::User(a, es, fs), TypeView::User(b, xs, ys)) => {
            lemma_listed(es, xs);
            lemma_listed(fs, ys);
        },
        _ => {},
    }
}

/// The meaning of a call and its model are of the same kind, and their parts correspond.
pub proof fn law_call_models(k: CallKind, v: CallKindView)
    ensures
        k.deep_view() == v <==> match (k, v) {
            (CallKind::Const(a), CallKindView::Const(b)) => a == b,
            (CallKind::Global(a), CallKindView::Global(b)) => a == b,
            (CallKind::NAry(o, es), CallKindView::NAry(p, xs)) => o == p && listed(es, xs),
            (CallKind::Neg(a), CallKindView::Neg(x)) => a@ == x,
            (CallKind::Sub(a, es), CallKindView::Sub(x, xs)) => a@ == x && listed(es, xs),
            (CallKind::Shl(a, b), CallKindView::Shl(x, y)) => a@ == x && b@ == y,
            (CallKind::Shr(a, b), CallKindView::Shr(x, y)) => a@ == x && b@ == y,
            (CallKind::Typed(a, b), CallKindView::Typed(x, y)) => a@ == x && b@ == y,
            (CallKind::As(a, b), CallKindView::As(x, y)) => a@ == x && b@ == y,
            (CallKind::Cast(a, p), CallKindView::Cast(x, q)) => a@ == x && maybe(p, q),
            (CallKind::Pun(a, p), CallKindView::Pun(x, q)) => a@ == x && maybe(p, q),
            (CallKind::Sn(a, p), CallKindView::Sn(x, q)) => a@ == x && maybe(p, q),
            (CallKind::Index(a, b, p), CallKindView::Index(x, y, q)) => a@ == x && b@ == y
                && maybe(p, q),
            (CallKind::Slice(a, b, p), CallKindView::Slice(x, y, q)) => a@ == x && b@ == y
                && maybe(p, q),
            (CallKind::Uninit, CallKindView::Uninit) => true,
            (CallKind::Mm0(a), CallKindView::Mm0(x)) => a@ == x,
            (CallKind::Ref(a), CallKindView::Ref(x)) => a@ == x,
            (CallKind::TypeofBang(a), CallKindView::TypeofBang(x)) => a@ == x,
            (CallKind::Typeof(a), CallKindView::Typeof(x)) => a@ == x,
            (CallKind::Sizeof(a), CallKindView::Sizeof(x)) => a@ == x,
            (CallKind::Unreachable(p), CallKindView::Unreachable(q)) => maybe(p, q),
            (CallKind::Jump(a, es), CallKindView::Jump(b, xs)) => a == b && listed(es, xs),
            (CallKind::Break(a, es), CallKindView::Break(b, xs)) => a == b && listed(es, xs),
            (CallKind::Call(c, n), CallKindView::Call(d, m)) => c.deep_view() == d && n == m,
            (CallKind::Error, CallKindView::Error) => true,
            _ => false,
        },
{
    match (k, v) {
        (CallKind::NAry(o, es), CallKindView::NAry(p, xs)) => {
            lemma_listed(es, xs);
        },
        (CallKind::Sub(a, es), CallKindView::Sub(x, xs)) => {
            lemma_listed(es, xs);
        },
        (CallKind::Jump(a, es), CallKindView::Jump(b, xs)) => {
            lemma_listed(es, xs);
        },
        (CallKind::Break(a, es), CallKindView::Break(b, xs)) => {
            lemma_listed(es, xs);
        },
        _ => {},
    }
}

/// A formula and its model have the same shape, the same terms and variables, and parts that
/// correspond.
pub proof fn law_formula_models(k: Mm0ExprNode, v: Mm0View)
    ensures
        k.deep_view() == v <==> match (k, v) {
            (Mm0ExprNode::Const(a), Mm0View::Const(x)) => a@ == x,
            (Mm0ExprNode::Var(n), Mm0View::Var(m)) => n == m,
            (Mm0ExprNode::Expr(t, es), Mm0View::Expr(u, xs)) => t == u && listed(es, xs),
            _ => false,
        },
{
    match (k, v) {
        (Mm0ExprNode::Expr(t, es), Mm0View::Expr(u, xs)) => {
            lemma_term_model(t, es);
            lemma_listed(es, xs);
        },
        _ => {},
    }
}

/// A complaint and its model have the same place and the same text, and quote the same value or name.
pub proof fn law_error_models(err: ElabError, shown: Seq<char>)
    ensures
        err.deep_view().pos == err.pos,
        err.deep_view().msg.shown_with(shown) == err.msg.shown_with(shown),
        err.msg matches Message::TuplePattern(e) ==> err.deep_view().msg == Message::TuplePattern(e@),
        err.msg matches Message::UnknownItem(e) ==> err.deep_view().msg == Message::UnknownItem(e@),
        err.msg matches Message::BadExpr(e) ==> err.deep_view().msg == Message::BadExpr(e@),
        err.msg matches Message::UnknownType(a) ==> err.deep_view().msg == Message::<
            Sexp,
        >::UnknownType(a),
        err.msg matches Message::UnknownFunction(a) ==> err.deep_view().msg == Message::<
            Sexp,
        >::UnknownFunction(a),
        err.msg matches Message::UnknownTerm(a) ==> err.deep_view().msg == Message::<
            Sexp,
        >::UnknownTerm(a),
{
}

/// What is read is read as its model, and a refusal is a refusal.
pub proof fn law_outcomes<T: DeepView>(r: Result<Spanned<T>, ElabError>, a: AtomId)
    ensures
        outcome(r) is Ok <==> r is Ok,
        r matches Ok(x) ==> {
            &&& outcome(r)->Ok_0.span == x.span
            &&& outcome(r)->Ok_0.k == x.k.deep_view()
        },
        r matches Err(e) ==> outcome(r)->Err_0 == e.deep_view(),
        a.deep_view() == a,
{
}

} // verus!
