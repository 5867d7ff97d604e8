//! The abstract syntax of MMC, one level deep: subexpressions remain Lisp values.

use crate::env::{Intrinsic, TermId};
use crate::lisp::{AtomId, LispVal, Sexp};
use crate::number::Int;
use crate::size::Size;
use crate::span::Spanned;
use crate::uncons::Uncons;
use std::rc::Rc;
use vstd::prelude::*;

verus! {

// ---------------------------------------------------------------------------------------------
// Tuple patterns

/// A tuple pattern, which destructures the results of an expression.
#[derive(Debug)]
pub enum TuplePatternKind {
    /// A variable binding, or `_`. The `bool` is true if the variable is ghost.
    Name(bool, AtomId),
    /// A type ascription.
    Typed(Box<Spanned<TuplePatternKind>>, LispVal),
    /// A tuple.
    Tuple(Vec<Spanned<TuplePatternKind>>),
}

/// A tuple pattern with its position.
pub type TuplePattern = Spanned<TuplePatternKind>;

/// The model of a tuple pattern.
pub enum TupleView {
    Name(bool, AtomId),
    Typed(Box<Spanned<TupleView>>, Sexp),
    Tuple(Seq<Spanned<TupleView>>),
}

impl TuplePatternKind {
    /// The model of a tuple pattern.
    pub open spec fn model(self) -> TupleView
        decreases self,
    {
        match self {
            TuplePatternKind::Name(ghost, a) => TupleView::Name(ghost, a),
            TuplePatternKind::Typed(p, ty) => TupleView::Typed(
                Box::new(Spanned { span: p.span, k: p.k.model() }),
                ty@,
            ),
            TuplePatternKind::Tuple(ps) => TupleView::Tuple(
                Seq::new(
                    ps@.len(),
                    |i: int|
                        if 0 <= i < ps@.len() {
                            Spanned { span: ps@[i].span, k: ps@[i].k.model() }
                        } else {
                            arbitrary()
                        },
                ),
            ),
        }
    }
}

impl DeepView for TuplePatternKind {
    type V = TupleView;

    open spec fn deep_view(&self) -> TupleView {
        self.model()
    }
}

/// A tuple of patterns, with its parts seen through `deep_view`.
pub proof fn lemma_tuple_model(ps: Vec<TuplePattern>)
    ensures
        TuplePatternKind::Tuple(ps).deep_view() == TupleView::Tuple(ps.deep_view()),
{
    assert(TuplePatternKind::Tuple(ps).model()->Tuple_0 =~= ps.deep_view());
}

// ---------------------------------------------------------------------------------------------
// Arguments, variants and renamings

/// How an argument of a procedure is passed.
#[derive(Clone, Copy, Debug, PartialEq, Eq, Structural)]
pub enum MutOut {
    /// By value.
    ByValue,
    /// As a `mut` argument.
    Mut,
    /// As an `out` argument, which gives the new value of the named `mut` argument.
    Out(AtomId),
}

impl DeepView for MutOut {
    type V = MutOut;

    open spec fn deep_view(&self) -> MutOut {
        *self
    }
}

/// The direction in which a variant changes.
#[derive(Debug)]
pub enum VariantType<V> {
    /// It decreases to zero.
    Down,
    /// It increases while it is less than the bound.
    UpLt(V),
    /// It increases while it is at most the bound.
    UpLe(V),
}

impl<V: DeepView> DeepView for VariantType<V> {
    type V = VariantType<V::V>;

    open spec fn deep_view(&self) -> VariantType<V::V> {
        match *self {
            VariantType::Down => VariantType::Down,
            VariantType::UpLt(e) => VariantType::UpLt(e.deep_view()),
            VariantType::UpLe(e) => VariantType::UpLe(e.deep_view()),
        }
    }
}

/// A variant: an expression and the direction in which it changes.
pub type Variant = Spanned<(LispVal, VariantType<LispVal>)>;

/// The model of a variant.
pub type VariantView = Spanned<(Sexp, VariantType<Sexp>)>;

/// The renamings that follow an assignment.
#[derive(Debug)]
pub struct Renames {
    /// `(from, to)` for each `from -> to`: the old value of `from` is now called `to`.
    pub old: Vec<(AtomId, AtomId)>,
    /// `(from, to)` for each `to <- from`: the new value of `from` is called `to`.
    pub new: Vec<(AtomId, AtomId)>,
}

/// The model of renamings.
pub struct RenamesView {
    pub old: Seq<(AtomId, AtomId)>,
    pub new: Seq<(AtomId, AtomId)>,
}

impl DeepView for Renames {
    type V = RenamesView;

    open spec fn deep_view(&self) -> RenamesView {
        RenamesView { old: self.old.deep_view(), new: self.new.deep_view() }
    }
}

// ---------------------------------------------------------------------------------------------
// Expressions

/// The name of a field.
#[derive(Clone, Copy, Debug, PartialEq, Eq, Structural)]
pub enum FieldName {
    /// A field by its number.
    Number(u32),
    /// A field by its name.
    Named(AtomId),
}

/// An expression of the shape of a function call.
#[derive(Debug)]
pub struct CallExpr {
    /// The function.
    pub f: Spanned<AtomId>,
    /// The arguments.
    pub args: Vec<LispVal>,
    /// The variant, if one is given.
    pub variant: Option<LispVal>,
}

/// The model of a call.
pub struct CallView {
    pub f: Spanned<AtomId>,
    pub args: Seq<Sexp>,
    pub variant: Option<Sexp>,
}

impl DeepView for CallExpr {
    type V = CallView;

    open spec fn deep_view(&self) -> CallView {
        CallView {
            f: self.f,
            args: self.args.deep_view(),
            variant: self.variant.deep_view(),
        }
    }
}

/// A label: a block that can be jumped to.
#[derive(Debug)]
pub struct Label {
    /// The name.
    pub name: AtomId,
    /// The parameters.
    pub args: Vec<TuplePattern>,
    /// The variant, if one is given.
    pub variant: Option<Box<Variant>>,
    /// The statements.
    pub body: Uncons,
}

/// The model of a label.
pub struct LabelView {
    pub name: AtomId,
    pub args: Seq<Spanned<TupleView>>,
    pub variant: Option<VariantView>,
    pub body: Sexp,
}

impl DeepView for Label {
    type V = LabelView;

    open spec fn deep_view(&self) -> LabelView {
        LabelView {
            name: self.name,
            args: self.args.deep_view(),
            variant: self.variant.deep_view(),
            body: self.body@,
        }
    }
}

/// An expression.
#[allow(inconsistent_fields)]
#[derive(Debug)]
pub enum ExprKind {
    /// `()`
    Unit,
    /// `_`
    Hole,
    /// A variable.
    Var(AtomId),
    /// A truth value.
    Bool(bool),
    /// A number.
    Int(Int),
    /// A field of a value.
    Proj(LispVal, FieldName),
    /// `{lhs := rhs}`
    Let { lhs: Box<TuplePattern>, rhs: LispVal, with: Renames },
    /// `{lhs <- rhs}`
    Assign { lhs: LispVal, rhs: LispVal, with: Renames },
    /// A function call, or an operation.
    Call(CallExpr),
    /// A proof, with the facts that it is given.
    Entail(LispVal, Vec<LispVal>),
    /// A block of statements.
    Block(Uncons),
    /// A label.
    Label(Label),
    /// `if`: the branches, each with the name of its hypothesis, and the last `else`.
    If { branches: Vec<(Option<AtomId>, LispVal, LispVal)>, els: Option<LispVal> },
    /// `match`
    Match(LispVal, Vec<(LispVal, LispVal)>),
    /// `while`
    While {
        hyp: Option<Spanned<AtomId>>,
        cond: LispVal,
        var: Option<Box<Variant>>,
        body: Uncons,
    },
}

/// An expression with its position.
pub type Expr = Spanned<ExprKind>;

/// The model of an expression.
#[allow(inconsistent_fields)]
pub enum ExprView {
    Unit,
    Hole,
    Var(AtomId),
    Bool(bool),
    Int(int),
    Proj(Sexp, FieldName),
    Let { lhs: Spanned<TupleView>, rhs: Sexp, with: RenamesView },
    Assign { lhs: Sexp, rhs: Sexp, with: RenamesView },
    Call(CallView),
    Entail(Sexp, Seq<Sexp>),
    Block(Sexp),
    Label(LabelView),
    If { branches: Seq<(Option<AtomId>, Sexp, Sexp)>, els: Option<Sexp> },
    Match(Sexp, Seq<(Sexp, Sexp)>),
    While { hyp: Option<Spanned<AtomId>>, cond: Sexp, var: Option<VariantView>, body: Sexp },
}

impl DeepView for ExprKind {
    type V = ExprView;

    open spec fn deep_view(&self) -> ExprView {
        match *self {
            ExprKind::Unit => ExprView::Unit,
            ExprKind::Hole => ExprView::Hole,
            ExprKind::Var(a) => ExprView::Var(a),
            ExprKind::Bool(b) => ExprView::Bool(b),
            ExprKind::Int(n) => ExprView::Int(n@),
            ExprKind::Proj(e, f) => ExprView::Proj(e@, f),
            ExprKind::Let { lhs, rhs, with } => ExprView::Let {
                lhs: lhs.deep_view(),
                rhs: rhs@,
                with: with.deep_view(),
            },
            ExprKind::Assign { lhs, rhs, with } => ExprView::Assign {
                lhs: lhs@,
                rhs: rhs@,
                with: with.deep_view(),
            },
            ExprKind::Call(c) => ExprView::Call(c.deep_view()),
            ExprKind::Entail(e, es) => ExprView::Entail(e@, es.deep_view()),
            ExprKind::Block(u) => ExprView::Block(u@),
            ExprKind::Label(l) => ExprView::Label(l.deep_view()),
            ExprKind::If { branches, els } => ExprView::If {
                branches: branches.deep_view(),
                els: els.deep_view(),
            },
            ExprKind::Match(e, branches) => ExprView::Match(e@, branches.deep_view()),
            ExprKind::While { hyp, cond, var, body } => ExprView::While {
                hyp,
                cond: cond@,
                var: var.deep_view(),
                body: body@,
            },
        }
    }
}

// ---------------------------------------------------------------------------------------------
// Items

/// The kind of a procedure.
#[derive(Clone, Copy, Debug, PartialEq, Eq, Structural)]
pub enum ProcKind {
    /// A function: a pure procedure.
    Func,
    /// A procedure.
    Proc,
    /// A routine that the compiler provides.
    Intrinsic(Intrinsic),
}

/// A procedure or function.
#[derive(Debug)]
pub struct Proc {
    /// The name.
    pub name: Spanned<AtomId>,
    /// The arguments.
    pub args: Vec<(MutOut, TuplePattern)>,
    /// The results.
    pub rets: Vec<(MutOut, TuplePattern)>,
    /// The variant, if the body starts with one.
    pub variant: Option<Box<Variant>>,
    /// The kind.
    pub kind: ProcKind,
    /// The statements.
    pub body: Uncons,
}

/// The model of a procedure.
pub struct ProcView {
    pub name: Spanned<AtomId>,
    pub args: Seq<(MutOut, Spanned<TupleView>)>,
    pub rets: Seq<(MutOut, Spanned<TupleView>)>,
    pub variant: Option<VariantView>,
    pub kind: ProcKind,
    pub body: Sexp,
}

impl DeepView for Proc {
    type V = ProcView;

    open spec fn deep_view(&self) -> ProcView {
        ProcView {
            name: self.name,
            args: self.args.deep_view(),
            rets: self.rets.deep_view(),
            variant: self.variant.deep_view(),
            kind: self.kind,
            body: self.body@,
        }
    }
}

/// A top level item.
#[derive(Debug)]
pub enum ItemKind {
    /// A procedure or function.
    Proc(Proc),
    /// A global variable.
    Global(Box<TuplePattern>, LispVal),
    /// A named constant.
    Const(Box<TuplePattern>, LispVal),
    /// A type definition.
    Typedef { name: Spanned<AtomId>, args: Vec<TuplePattern>, val: LispVal },
    /// A structure definition.
    Struct { name: Spanned<AtomId>, args: Vec<TuplePattern>, fields: Vec<TuplePattern> },
}

/// A top level item with its position.
pub type Item = Spanned<ItemKind>;

/// The model of an item.
pub enum ItemView {
    Proc(ProcView),
    Global(Spanned<TupleView>, Sexp),
    Const(Spanned<TupleView>, Sexp),
    Typedef { name: Spanned<AtomId>, args: Seq<Spanned<TupleView>>, val: Sexp },
    Struct {
        name: Spanned<AtomId>,
        args: Seq<Spanned<TupleView>>,
        fields: Seq<Spanned<TupleView>>,
    },
}

impl DeepView for ItemKind {
    type V = ItemView;

    open spec fn deep_view(&self) -> ItemView {
        match *self {
            ItemKind::Proc(p) => ItemView::Proc(p.deep_view()),
            ItemKind::Global(lhs, rhs) => ItemView::Global(lhs.deep_view(), rhs@),
            ItemKind::Const(lhs, rhs) => ItemView::Const(lhs.deep_view(), rhs@),
            ItemKind::Typedef { name, args, val } => ItemView::Typedef {
                name,
                args: args.deep_view(),
                val: val@,
            },
            ItemKind::Struct { name, args, fields } => ItemView::Struct {
                name,
                args: args.deep_view(),
                fields: fields.deep_view(),
            },
        }
    }
}

// ---------------------------------------------------------------------------------------------
// Match patterns

/// A pattern of a `match`.
#[derive(Debug)]
pub enum PatternKind {
    /// A variable binding.
    Var(AtomId),
    /// A named constant.
    Const(AtomId),
    /// A number.
    Number(Int),
    /// A pattern with the name of its hypothesis.
    Hyped(AtomId, LispVal),
    /// A pattern with a guard.
    With(LispVal, LispVal),
    /// A disjunction.
    Or(Uncons),
}

/// A pattern with its position.
pub type Pattern = Spanned<PatternKind>;

/// The model of a pattern.
pub enum PatternView {
    Var(AtomId),
    Const(AtomId),
    Number(int),
    Hyped(AtomId, Sexp),
    With(Sexp, Sexp),
    Or(Sexp),
}

impl DeepView for PatternKind {
    type V = PatternView;

    open spec fn deep_view(&self) -> PatternView {
        match *self {
            PatternKind::Var(a) => PatternView::Var(a),
            PatternKind::Const(a) => PatternView::Const(a),
            PatternKind::Number(n) => PatternView::Number(n@),
            PatternKind::Hyped(h, p) => PatternView::Hyped(h, p@),
            PatternKind::With(p, g) => PatternView::With(p@, g@),
            PatternKind::Or(u) => PatternView::Or(u@),
        }
    }
}

// ---------------------------------------------------------------------------------------------
// Types and propositions

/// The lifetime of a shared reference: the place that it points into.
#[derive(Clone, Copy, Debug, PartialEq, Eq, Structural)]
pub struct Lifetime(pub AtomId);

/// A proposition.
#[derive(Debug)]
pub enum PropKind {
    /// A universal quantifier.
    All(Vec<TuplePattern>, LispVal),
    /// An existential quantifier.
    Ex(Vec<TuplePattern>, LispVal),
    /// A conjunction.
    And(Vec<LispVal>),
    /// A disjunction.
    Or(Vec<LispVal>),
    /// An implication.
    Imp(LispVal, LispVal),
    /// A separating conjunction.
    Sep(Vec<LispVal>),
    /// A separating implication.
    Wand(LispVal, LispVal),
    /// A formula of the logic.
    Mm0(LispVal),
    /// What is left of a proposition after it has been moved away.
    Moved(LispVal),
    /// An equation.
    Eq(LispVal, LispVal),
    /// A truth value.
    Pure(ExprKind),
}

/// A proposition with its position.
pub type Prop = Spanned<PropKind>;

/// The model of a proposition.
pub enum PropView {
    All(Seq<Spanned<TupleView>>, Sexp),
    Ex(Seq<Spanned<TupleView>>, Sexp),
    And(Seq<Sexp>),
    Or(Seq<Sexp>),
    Imp(Sexp, Sexp),
    Sep(Seq<Sexp>),
    Wand(Sexp, Sexp),
    Mm0(Sexp),
    Moved(Sexp),
    Eq(Sexp, Sexp),
    Pure(ExprView),
}

impl DeepView for PropKind {
    type V = PropView;

    open spec fn deep_view(&self) -> PropView {
        match *self {
            PropKind::All(ps, e) => PropView::All(ps.deep_view(), e@),
            PropKind::Ex(ps, e) => PropView::Ex(ps.deep_view(), e@),
            PropKind::And(es) => PropView::And(es.deep_view()),
            PropKind::Or(es) => PropView::Or(es.deep_view()),
            PropKind::Imp(a, b) => PropView::Imp(a@, b@),
            PropKind::Sep(es) => PropView::Sep(es.deep_view()),
            PropKind::Wand(a, b) => PropView::Wand(a@, b@),
            PropKind::Mm0(e) => PropView::Mm0(e@),
            PropKind::Moved(e) => PropView::Moved(e@),
            PropKind::Eq(a, b) => PropView::Eq(a@, b@),
            PropKind::Pure(e) => PropView::Pure(e.deep_view()),
        }
    }
}

/// A type.
#[derive(Debug)]
pub enum TypeKind {
    /// `()`
    Unit,
    /// An array with its element type and its length.
    Array(LispVal, LispVal),
    /// The type of truth values.
    Bool,
    /// Signed integers.
    Int(Size),
    /// Unsigned integers.
    UInt(Size),
    /// The input token.
    Input,
    /// The output token.
    Output,
    /// An owned pointer.
    Own(LispVal),
    /// A shared reference.
    Shr(Option<Lifetime>, LispVal),
    /// The singleton type of a pointer.
    RefSn(LispVal),
    /// The singleton type of a value.
    Sn(LispVal),
    /// A tuple.
    List(Vec<LispVal>),
    /// A dependent tuple.
    Struct(Vec<TuplePattern>),
    /// An intersection.
    And(Vec<LispVal>),
    /// A union.
    Or(Vec<LispVal>),
    /// What is left of a value after it has been moved away.
    Moved(LispVal),
    /// A value that is not present at run time.
    GhostTy(LispVal),
    /// A value that may not have been written.
    Uninit(LispVal),
    /// A conditional type.
    If(LispVal, LispVal, LispVal),
    /// A proposition.
    Prop(PropKind),
    /// A type variable.
    Var(AtomId),
    /// A user defined type with its type arguments and its value arguments.
    User(AtomId, Vec<LispVal>, Vec<LispVal>),
    /// A type that has been found to be wrong.
    Error,
}

/// A type with its position.
pub type Type = Spanned<TypeKind>;

/// The model of a type.
pub enum TypeView {
    Unit,
    Array(Sexp, Sexp),
    Bool,
    Int(Size),
    UInt(Size),
    Input,
    Output,
    Own(Sexp),
    Shr(Option<Lifetime>, Sexp),
    RefSn(Sexp),
    Sn(Sexp),
    List(Seq<Sexp>),
    Struct(Seq<Spanned<TupleView>>),
    And(Seq<Sexp>),
    Or(Seq<Sexp>),
    Moved(Sexp),
    GhostTy(Sexp),
    Uninit(Sexp),
    If(Sexp, Sexp, Sexp),
    Prop(PropView),
    Var(AtomId),
    User(AtomId, Seq<Sexp>, Seq<Sexp>),
    Error,
}

impl DeepView for TypeKind {
    type V = TypeView;

    open spec fn deep_view(&self) -> TypeView {
        match *self {
            TypeKind::Unit => TypeView::Unit,
            TypeKind::Array(ty, n) => TypeView::Array(ty@, n@),
            TypeKind::Bool => TypeView::Bool,
            TypeKind::Int(sz) => TypeView::Int(sz),
            TypeKind::UInt(sz) => TypeView::UInt(sz),
            TypeKind::Input => TypeView::Input,
            TypeKind::Output => TypeView::Output,
            TypeKind::Own(ty) => TypeView::Own(ty@),
            TypeKind::Shr(lft, ty) => TypeView::Shr(lft, ty@),
            TypeKind::RefSn(e) => TypeView::RefSn(e@),
            TypeKind::Sn(e) => TypeView::Sn(e@),
            TypeKind::List(es) => TypeView::List(es.deep_view()),
            TypeKind::Struct(ps) => TypeView::Struct(ps.deep_view()),
            TypeKind::And(es) => TypeView::And(es.deep_view()),
            TypeKind::Or(es) => TypeView::Or(es.deep_view()),
            TypeKind::Moved(ty) => TypeView::Moved(ty@),
            TypeKind::GhostTy(ty) => TypeView::GhostTy(ty@),
            TypeKind::Uninit(ty) => TypeView::Uninit(ty@),
            TypeKind::If(c, t, e) => TypeView::If(c@, t@, e@),
            TypeKind::Prop(p) => TypeView::Prop(p.deep_view()),
            TypeKind::Var(a) => TypeView::Var(a),
            TypeKind::User(a, tys, es) => TypeView::User(a, tys.deep_view(), es.deep_view()),
            TypeKind::Error => TypeView::Error,
        }
    }
}

// ---------------------------------------------------------------------------------------------
// Calls

/// An operation on any number of arguments.
#[derive(Clone, Copy, Debug, PartialEq, Eq, Structural)]
pub enum NAryCall {
    Add,
    And,
    Or,
    Assert,
    BitAnd,
    BitNot,
    BitOr,
    BitXor,
    List,
    Mul,
    Not,
    Le,
    Lt,
    Eq,
    Ne,
    GhostList,
    Return,
}

/// What an expression of the shape of a call means.
#[derive(Debug)]
pub enum CallKind {
    /// A named constant.
    Const(AtomId),
    /// A global variable.
    Global(AtomId),
    /// An operation on any number of arguments.
    NAry(NAryCall, Vec<LispVal>),
    /// A negation.
    Neg(LispVal),
    /// A subtraction of all the others from the first.
    Sub(LispVal, Vec<LispVal>),
    /// A left shift.
    Shl(LispVal, LispVal),
    /// A right shift.
    Shr(LispVal, LispVal),
    /// A type ascription.
    Typed(LispVal, LispVal),
    /// A truncating cast.
    As(LispVal, LispVal),
    /// A cast, with its proof.
    Cast(LispVal, Option<LispVal>),
    /// A reinterpretation, with its proof.
    Pun(LispVal, Option<LispVal>),
    /// A singleton, with its proof.
    Sn(LispVal, Option<LispVal>),
    /// An element of an array, with the proof that it is there.
    Index(LispVal, LispVal, Option<LispVal>),
    /// A part of an array, with the proof that it is there.
    Slice(LispVal, LispVal, Option<LispVal>),
    /// An unwritten value.
    Uninit,
    /// A formula of the logic.
    Mm0(LispVal),
    /// A reference.
    Ref(LispVal),
    /// The type of an expression, which is consumed.
    TypeofBang(LispVal),
    /// The type of an expression.
    Typeof(LispVal),
    /// The size of a type.
    Sizeof(LispVal),
    /// A place that is not reached, with its proof.
    Unreachable(Option<LispVal>),
    /// A jump to a label.
    Jump(AtomId, Vec<LispVal>),
    /// A way out of a loop or of the block with the given label.
    Break(Option<AtomId>, Vec<LispVal>),
    /// A call, with the number of its type arguments.
    Call(CallExpr, u32),
    /// A call of something that has been found to be wrong.
    Error,
}

/// The model of what a call means.
pub enum CallKindView {
    Const(AtomId),
    Global(AtomId),
    NAry(NAryCall, Seq<Sexp>),
    Neg(Sexp),
    Sub(Sexp, Seq<Sexp>),
    Shl(Sexp, Sexp),
    Shr(Sexp, Sexp),
    Typed(Sexp, Sexp),
    As(Sexp, Sexp),
    Cast(Sexp, Option<Sexp>),
    Pun(Sexp, Option<Sexp>),
    Sn(Sexp, Option<Sexp>),
    Index(Sexp, Sexp, Option<Sexp>),
    Slice(Sexp, Sexp, Option<Sexp>),
    Uninit,
    Mm0(Sexp),
    Ref(Sexp),
    TypeofBang(Sexp),
    Typeof(Sexp),
    Sizeof(Sexp),
    Unreachable(Option<Sexp>),
    Jump(AtomId, Seq<Sexp>),
    Break(Option<AtomId>, Seq<Sexp>),
    Call(CallView, u32),
    Error,
}

impl DeepView for CallKind {
    type V = CallKindView;

    open spec fn deep_view(&self) -> CallKindView {
        match *self {
            CallKind::Const(a) => CallKindView::Const(a),
            CallKind::Global(a) => CallKindView::Global(a),
            CallKind::NAry(op, es) => CallKindView::NAry(op, es.deep_view()),
            CallKind::Neg(e) => CallKindView::Neg(e@),
            CallKind::Sub(e, es) => CallKindView::Sub(e@, es.deep_view()),
            CallKind::Shl(a, b) => CallKindView::Shl(a@, b@),
            CallKind::Shr(a, b) => CallKindView::Shr(a@, b@),
            CallKind::Typed(e, ty) => CallKindView::Typed(e@, ty@),
            CallKind::As(e, ty) => CallKindView::As(e@, ty@),
            CallKind::Cast(e, pf) => CallKindView::Cast(e@, pf.deep_view()),
            CallKind::Pun(e, pf) => CallKindView::Pun(e@, pf.deep_view()),
            CallKind::Sn(e, pf) => CallKindView::Sn(e@, pf.deep_view()),
            CallKind::Index(a, i, pf) => CallKindView::Index(a@, i@, pf.deep_view()),
            CallKind::Slice(a, i, pf) => CallKindView::Slice(a@, i@, pf.deep_view()),
            CallKind::Uninit => CallKindView::Uninit,
            CallKind::Mm0(e) => CallKindView::Mm0(e@),
            CallKind::Ref(e) => CallKindView::Ref(e@),
            CallKind::TypeofBang(e) => CallKindView::TypeofBang(e@),
            CallKind::Typeof(e) => CallKindView::Typeof(e@),
            CallKind::Sizeof(ty) => CallKindView::Sizeof(ty@),
            CallKind::Unreachable(pf) => CallKindView::Unreachable(pf.deep_view()),
            CallKind::Jump(a, es) => CallKindView::Jump(a, es.deep_view()),
            CallKind::Break(a, es) => CallKindView::Break(a, es.deep_view()),
            CallKind::Call(c, n) => CallKindView::Call(c.deep_view(), n),
            CallKind::Error => CallKindView::Error,
        }
    }
}

// ---------------------------------------------------------------------------------------------
// Formulas of the logic

/// A formula of the logic with variables of the program in it.
#[derive(Debug)]
pub enum Mm0ExprNode {
    /// A part without variables of the program.
    Const(LispVal),
    /// The variable with this place in the substitution.
    Var(u32),
    /// A term constructor with its arguments.
    Expr(TermId, Vec<Mm0ExprNode>),
}

/// The model of a formula.
pub enum Mm0View {
    Const(Sexp),
    Var(u32),
    Expr(TermId, Seq<Mm0View>),
}

impl Mm0ExprNode {
    /// The model of a formula.
    pub open spec fn model(self) -> Mm0View
        decreases self,
    {
        match self {
            Mm0ExprNode::Const(e) => Mm0View::Const(e@),
            Mm0ExprNode::Var(n) => Mm0View::Var(n),
            Mm0ExprNode::Expr(t, es) => Mm0View::Expr(
                t,
                Seq::new(
                    es@.len(),
                    |i: int|
                        if 0 <= i < es@.len() {
                            es@[i].model()
                        } else {
                            arbitrary()
                        },
                ),
            ),
        }
    }
}

impl DeepView for Mm0ExprNode {
    type V = Mm0View;

    open spec fn deep_view(&self) -> Mm0View {
        self.model()
    }
}

/// A term with its arguments, with these seen through `deep_view`.
pub proof fn lemma_term_model(t: TermId, es: Vec<Mm0ExprNode>)
    ensures
        Mm0ExprNode::Expr(t, es).deep_view() == Mm0View::Expr(t, es.deep_view()),
{
    assert(Mm0ExprNode::Expr(t, es).model()->Expr_1 =~= es.deep_view());
}

/// A formula with what its variables stand for.
#[derive(Debug)]
pub struct Mm0Expr<T> {
    /// What the variables stand for, by their numbers.
    pub subst: Vec<T>,
    /// The formula.
    pub expr: Rc<Mm0ExprNode>,
}

} // verus!
