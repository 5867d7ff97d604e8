//! The names that are in scope while a program is read.

use crate::span::FileSpan;
use vstd::prelude::*;

verus! {

/// A primitive type constructor.
#[derive(Clone, Copy, Debug, PartialEq, Eq, Structural)]
pub enum PrimType {
    Array,
    Bool,
    I8,
    I16,
    I32,
    I64,
    Int,
    U8,
    U16,
    U32,
    U64,
    Nat,
    Input,
    Output,
    Own,
    Ref,
    RefSn,
    Sn,
    List,
    Struct,
    And,
    Or,
    Moved,
    GhostTy,
    Uninit,
}

/// A primitive proposition constructor.
#[derive(Clone, Copy, Debug, PartialEq, Eq, Structural)]
pub enum PrimProp {
    All,
    Ex,
    And,
    Or,
    Imp,
    Star,
    Wand,
    Pure,
    Moved,
    Eq,
}

/// A primitive operation.
#[derive(Clone, Copy, Debug, PartialEq, Eq, Structural)]
pub enum PrimOp {
    Add,
    And,
    Or,
    Assert,
    BitAnd,
    BitNot,
    BitOr,
    BitXor,
    Index,
    List,
    Mul,
    Not,
    Le,
    Lt,
    Eq,
    Ne,
    GhostOp,
    Return,
    Sub,
    Shl,
    Shr,
    Typed,
    As,
    Cast,
    Pun,
    Sn,
    Slice,
    Uninit,
    Pure,
    Ref,
    TypeofBang,
    Typeof,
    Sizeof,
    Unreachable,
    Break,
}

/// A primitive name. One name may be a type, a proposition and an operation at once.
#[derive(Clone, Copy, Debug, PartialEq, Eq, Structural)]
pub struct Prim {
    /// What the name means as a type constructor.
    pub ty: Option<PrimType>,
    /// What it means as a proposition constructor.
    pub prop: Option<PrimProp>,
    /// What it means as an operation.
    pub op: Option<PrimOp>,
}

/// The arity of a user defined type constructor.
#[derive(Clone, Copy, Debug, PartialEq, Eq, Structural)]
pub struct TypeTy {
    /// The number of type arguments, which come first.
    pub tyargs: u32,
    /// The number of value arguments, which follow.
    pub args: usize,
}

/// What is known of a user defined type.
#[derive(Clone, Copy, Debug, PartialEq, Eq, Structural)]
pub enum TypeTc {
    /// The type has been declared but not checked.
    Unchecked,
    /// The type has been checked.
    Typed(TypeTy),
}

/// What is known of a procedure.
#[derive(Clone, Copy, Debug, PartialEq, Eq, Structural)]
pub enum ProcTc {
    /// The procedure has been declared but not checked.
    Unchecked,
    /// The procedure has been checked.
    Typed {
        /// The number of type arguments.
        tyargs: u32,
    },
}

/// What a name stands for.
#[derive(Clone, Copy, Debug, PartialEq, Eq, Structural)]
pub enum Entity {
    /// A user defined type.
    Type(FileSpan, TypeTc),
    /// A procedure or function.
    Proc(FileSpan, ProcTc),
    /// A global variable.
    Global(FileSpan),
    /// A named constant.
    Const(FileSpan),
    /// A primitive.
    Prim(Prim),
}

} // verus!
