//! The keywords of MMC.

use crate::lisp::Syntax;
use vstd::prelude::*;

verus! {

/// A keyword. Which atom stands for which keyword is up to the keyword table of the parser.
#[derive(Clone, Copy, Debug, PartialEq, Eq, Structural)]
pub enum Keyword {
    /// `=>`
    Arrow,
    /// `<-`
    ArrowL,
    /// `->`
    ArrowR,
    /// `begin`
    Begin,
    /// `:`
    Colon,
    /// `:=`
    ColonEq,
    /// `const`
    Const,
    /// `else`
    Else,
    /// `entail`
    Entail,
    /// `func`
    Func,
    /// `ghost`
    GhostKw,
    /// `global`
    Global,
    /// `if`
    If,
    /// `intrinsic`
    Intrinsic,
    /// `<=`
    Le,
    /// `<`
    Lt,
    /// `match`
    Match,
    /// `mut`
    Mut,
    /// `or`
    Or,
    /// `out`
    Out,
    /// `proc`
    Proc,
    /// `struct`
    Struct,
    /// `typedef`
    Typedef,
    /// `variant`
    Variant,
    /// `while`
    While,
    /// `with`
    With,
}

impl Keyword {
    /// The keyword that a syntax object stands for.
    pub open spec fn of_syntax(s: Syntax) -> Option<Keyword> {
        match s {
            Syntax::Begin => Some(Keyword::Begin),
            Syntax::If => Some(Keyword::If),
            Syntax::Match => Some(Keyword::Match),
            _ => None,
        }
    }

    /// Reads a syntax object as a keyword.
    pub fn from_syntax(s: Syntax) -> (r: Option<Keyword>)
        ensures
            r == Keyword::of_syntax(s),
    {
        match s {
            Syntax::Begin => Some(Keyword::Begin),
            Syntax::If => Some(Keyword::If),
            Syntax::Match => Some(Keyword::Match),
            _ => None,
        }
    }
}

} // verus!
