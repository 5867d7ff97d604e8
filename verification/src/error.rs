//! What can be wrong with a program.

use crate::lisp::{AtomId, LispVal, Sexp};
use crate::span::Span;
use crate::text::{decimal, decimal_text};
use vstd::prelude::*;
use vstd::string::StringExecFns;

verus! {

/// A complaint. The values that some complaints quote are of type `V`.
#[derive(Debug)]
pub enum Message<V> {
    /// "argument syntax error: expecting identifier"
    ArgIdentifier,
    /// "'out' syntax error"
    OutSyntax,
    /// "':' syntax error"
    ColonSyntax,
    /// "tuple pattern syntax error: " and the value
    TuplePattern(V),
    /// "decl: syntax error"
    DeclSyntax,
    /// "decl: assignment not allowed here"
    DeclAssignment,
    /// "with: expected {old -> old'} or {new' <- new}"
    WithRename,
    /// "'with' syntax error"
    WithSyntax,
    /// "field access: index out of range"
    FieldRange,
    /// "field access syntax error"
    FieldSyntax,
    /// "if: syntax error"
    IfSyntax,
    /// "expecting hypothesis name"
    HypothesisName,
    /// "match: syntax error"
    MatchSyntax,
    /// "while: syntax error"
    WhileSyntax,
    /// "while: bad pattern"
    WhilePattern,
    /// "while: two variants"
    WhileVariants,
    /// "entail: expected proof"
    EntailProof,
    /// "label: expected label name"
    LabelName,
    /// "label: two variants"
    LabelVariants,
    /// "only variables can be called like functions"
    CallHead,
    /// "call: two variants"
    CallVariants,
    /// "unknown expression"
    UnknownExpr,
    /// "func/proc: syntax error"
    ProcSyntax,
    /// "func/proc syntax error: expecting function name"
    ProcName,
    /// "func/proc syntax error: expecting an atom"
    ProcAtom,
    /// "unknown intrinsic"
    UnknownIntrinsic,
    /// "intrinsic: unexpected body"
    IntrinsicBody,
    /// "typedef: syntax error"
    TypedefSyntax,
    /// "typedef: expected an atom"
    TypedefAtom,
    /// "struct: expecting name"
    StructName,
    /// "MMC: unknown top level item: " and the value
    UnknownItem(V),
    /// "pattern syntax error"
    PatternSyntax,
    /// "expecting a type"
    TypeHole,
    /// "unexpected number of arguments"
    TypeArity,
    /// "expected a type"
    NotAType,
    /// "unknown type constructor '...'", with the name
    UnknownType(AtomId),
    /// "expected an atom"
    ExpectedAtom,
    /// "expecting a proposition, got ()"
    EmptyProp,
    /// "incorrect number of arguments"
    PropArity,
    /// "unknown function '...'", with the name
    UnknownFunction(AtomId),
    /// "expected 0 arguments"
    Expected0,
    /// "expected 1 argument"
    Expected1,
    /// "expected 1 or 2 arguments"
    Expected1Or2,
    /// "expected 1 or more arguments"
    Expected1OrMore,
    /// "expected 2 arguments"
    Expected2,
    /// "expected 2 or 3 arguments"
    Expected2Or3,
    /// "parse_expr unimplemented entity type"
    NotAFunction,
    /// "term '...' not declared", with the name
    UnknownTerm(AtomId),
    /// "expected ... arguments", with the number
    TermArity(usize),
    /// "bad expression " and the value
    BadExpr(V),
}

impl<V> Message<V> {
    /// The complaint as text, where the value or the name that it quotes is printed as `shown`.
    pub open spec fn shown_with(self, shown: Seq<char>) -> Seq<char> {
        match self {
            Message::ArgIdentifier => "argument syntax error: expecting identifier"@,
            Message::OutSyntax => "'out' syntax error"@,
            Message::ColonSyntax => "':' syntax error"@,
            Message::TuplePattern(_) => "tuple pattern syntax error: "@ + shown,
            Message::DeclSyntax => "decl: syntax error"@,
            Message::DeclAssignment => "decl: assignment not allowed here"@,
            Message::WithRename => "with: expected {old -> old'} or {new' <- new}"@,
            Message::WithSyntax => "'with' syntax error"@,
            Message::FieldRange => "field access: index out of range"@,
            Message::FieldSyntax => "field access syntax error"@,
            Message::IfSyntax => "if: syntax error"@,
            Message::HypothesisName => "expecting hypothesis name"@,
            Message::MatchSyntax => "match: syntax error"@,
            Message::WhileSyntax => "while: syntax error"@,
            Message::WhilePattern => "while: bad pattern"@,
            Message::WhileVariants => "while: two variants"@,
            Message::EntailProof => "entail: expected proof"@,
            Message::LabelName => "label: expected label name"@,
            Message::LabelVariants => "label: two variants"@,
            Message::CallHead => "only variables can be called like functions"@,
            Message::CallVariants => "call: two variants"@,
            Message::UnknownExpr => "unknown expression"@,
            Message::ProcSyntax => "func/proc: syntax error"@,
            Message::ProcName => "func/proc syntax error: expecting function name"@,
            Message::ProcAtom => "func/proc syntax error: expecting an atom"@,
            Message::UnknownIntrinsic => "unknown intrinsic"@,
            Message::IntrinsicBody => "intrinsic: unexpected body"@,
            Message::TypedefSyntax => "typedef: syntax error"@,
            Message::TypedefAtom => "typedef: expected an atom"@,
            Message::StructName => "struct: expecting name"@,
            Message::UnknownItem(_) => "MMC: unknown top level item: "@ + shown,
            Message::PatternSyntax => "pattern syntax error"@,
            Message::TypeHole => "expecting a type"@,
            Message::TypeArity => "unexpected number of arguments"@,
            Message::NotAType => "expected a type"@,
            Message::UnknownType(_) => "unknown type constructor '"@ + shown + "'"@,
            Message::ExpectedAtom => "expected an atom"@,
            Message::EmptyProp => "expecting a proposition, got ()"@,
            Message::PropArity => "incorrect number of arguments"@,
            Message::UnknownFunction(_) => "unknown function '"@ + shown + "'"@,
            Message::Expected0 => "expected 0 arguments"@,
            Message::Expected1 => "expected 1 argument"@,
            Message::Expected1Or2 => "expected 1 or 2 arguments"@,
            Message::Expected1OrMore => "expected 1 or more arguments"@,
            Message::Expected2 => "expected 2 arguments"@,
            Message::Expected2Or3 => "expected 2 or 3 arguments"@,
            Message::NotAFunction => "parse_expr unimplemented entity type"@,
            Message::UnknownTerm(_) => "term '"@ + shown + "' not declared"@,
            Message::TermArity(n) => "expected "@ + decimal(n as int) + " arguments"@,
            Message::BadExpr(_) => "bad expression "@ + shown,
        }
    }

    /// The complaint as text, where the value or the name that it quotes is printed as `shown`.
    pub fn text(&self, shown: &str) -> (r: String)
        ensures
            r@ == self.shown_with(shown@),
    {
        match self {
            Message::ArgIdentifier => "argument syntax error: expecting identifier".to_owned(),
            Message::OutSyntax => "'out' syntax error".to_owned(),
            Message::ColonSyntax => "':' syntax error".to_owned(),
            Message::TuplePattern(_) => "tuple pattern syntax error: ".to_owned().concat(shown),
            Message::DeclSyntax => "decl: syntax error".to_owned(),
            Message::DeclAssignment => "decl: assignment not allowed here".to_owned(),
            Message::WithRename => "with: expected {old -> old'} or {new' <- new}".to_owned(),
            Message::WithSyntax => "'with' syntax error".to_owned(),
            Message::FieldRange => "field access: index out of range".to_owned(),
            Message::FieldSyntax => "field access syntax error".to_owned(),
            Message::IfSyntax => "if: syntax error".to_owned(),
            Message::HypothesisName => "expecting hypothesis name".to_owned(),
            Message::MatchSyntax => "match: syntax error".to_owned(),
            Message::WhileSyntax => "while: syntax error".to_owned(),
            Message::WhilePattern => "while: bad pattern".to_owned(),
            Message::WhileVariants => "while: two variants".to_owned(),
            Message::EntailProof => "entail: expected proof".to_owned(),
            Message::LabelName => "label: expected label name".to_owned(),
            Message::LabelVariants => "label: two variants".to_owned(),
            Message::CallHead => "only variables can be called like functions".to_owned(),
            Message::CallVariants => "call: two variants".to_owned(),
            Message::UnknownExpr => "unknown expression".to_owned(),
            Message::ProcSyntax => "func/proc: syntax error".to_owned(),
            Message::ProcName => "func/proc syntax error: expecting function name".to_owned(),
            Message::ProcAtom => "func/proc syntax error: expecting an atom".to_owned(),
            Message::UnknownIntrinsic => "unknown intrinsic".to_owned(),
            Message::IntrinsicBody => "intrinsic: unexpected body".to_owned(),
            Message::TypedefSyntax => "typedef: syntax error".to_owned(),
            Message::TypedefAtom => "typedef: expected an atom".to_owned(),
            Message::StructName => "struct: expecting name".to_owned(),
            Message::UnknownItem(_) => "MMC: unknown top level item: ".to_owned().concat(shown),
            Message::PatternSyntax => "pattern syntax error".to_owned(),
            Message::TypeHole => "expecting a type".to_owned(),
            Message::TypeArity => "unexpected number of arguments".to_owned(),
            Message::NotAType => "expected a type".to_owned(),
            Message::UnknownType(_) => "unknown type constructor '".to_owned().concat(shown).concat("'"),
            Message::ExpectedAtom => "expected an atom".to_owned(),
            Message::EmptyProp => "expecting a proposition, got ()".to_owned(),
            Message::PropArity => "incorrect number of arguments".to_owned(),
            Message::UnknownFunction(_) => "unknown function '".to_owned().concat(shown).concat("'"),
            Message::Expected0 => "expected 0 arguments".to_owned(),
            Message::Expected1 => "expected 1 argument".to_owned(),
            Message::Expected1Or2 => "expected 1 or 2 arguments".to_owned(),
            Message::Expected1OrMore => "expected 1 or more arguments".to_owned(),
            Message::Expected2 => "expected 2 arguments".to_owned(),
            Message::Expected2Or3 => "expected 2 or 3 arguments".to_owned(),
            Message::NotAFunction => "parse_expr unimplemented entity type".to_owned(),
            Message::UnknownTerm(_) => "term '".to_owned().concat(shown).concat("' not declared"),
            Message::TermArity(n) => "expected ".to_owned().concat(decimal_text(*n as u64).as_str()).concat(
                " arguments",
            ),
            Message::BadExpr(_) => "bad expression ".to_owned().concat(shown),
        }
    }
}

/// A complaint and the place that it is about.
#[derive(Debug)]
pub struct ElabError {
    /// Where.
    pub pos: Span,
    /// What.
    pub msg: Message<LispVal>,
}

/// The model of a complaint with its place.
pub struct ErrorView {
    pub pos: Span,
    pub msg: Message<Sexp>,
}

impl<V: DeepView> DeepView for Message<V> {
    type V = Message<V::V>;

    open spec fn deep_view(&self) -> Message<V::V> {
        match *self {
            Message::ArgIdentifier => Message::ArgIdentifier,
            Message::OutSyntax => Message::OutSyntax,
            Message::ColonSyntax => Message::ColonSyntax,
            Message::TuplePattern(e) => Message::TuplePattern(e.deep_view()),
            Message::DeclSyntax => Message::DeclSyntax,
            Message::DeclAssignment => Message::DeclAssignment,
            Message::WithRename => Message::WithRename,
            Message::WithSyntax => Message::WithSyntax,
            Message::FieldRange => Message::FieldRange,
            Message::FieldSyntax => Message::FieldSyntax,
            Message::IfSyntax => Message::IfSyntax,
            Message::HypothesisName => Message::HypothesisName,
            Message::MatchSyntax => Message::MatchSyntax,
            Message::WhileSyntax => Message::WhileSyntax,
            Message::WhilePattern => Message::WhilePattern,
            Message::WhileVariants => Message::WhileVariants,
            Message::EntailProof => Message::EntailProof,
            Message::LabelName => Message::LabelName,
            Message::LabelVariants => Message::LabelVariants,
            Message::CallHead => Message::CallHead,
            Message::CallVariants => Message::CallVariants,
            Message::UnknownExpr => Message::UnknownExpr,
            Message::ProcSyntax => Message::ProcSyntax,
            Message::ProcName => Message::ProcName,
            Message::ProcAtom => Message::ProcAtom,
            Message::UnknownIntrinsic => Message::UnknownIntrinsic,
            Message::IntrinsicBody => Message::IntrinsicBody,
            Message::TypedefSyntax => Message::TypedefSyntax,
            Message::TypedefAtom => Message::TypedefAtom,
            Message::StructName => Message::StructName,
            Message::UnknownItem(e) => Message::UnknownItem(e.deep_view()),
            Message::PatternSyntax => Message::PatternSyntax,
            Message::TypeHole => Message::TypeHole,
            Message::TypeArity => Message::TypeArity,
            Message::NotAType => Message::NotAType,
            Message::UnknownType(a) => Message::UnknownType(a),
            Message::ExpectedAtom => Message::ExpectedAtom,
            Message::EmptyProp => Message::EmptyProp,
            Message::PropArity => Message::PropArity,
            Message::UnknownFunction(a) => Message::UnknownFunction(a),
            Message::Expected0 => Message::Expected0,
            Message::Expected1 => Message::Expected1,
            Message::Expected1Or2 => Message::Expected1Or2,
            Message::Expected1OrMore => Message::Expected1OrMore,
            Message::Expected2 => Message::Expected2,
            Message::Expected2Or3 => Message::Expected2Or3,
            Message::NotAFunction => Message::NotAFunction,
            Message::UnknownTerm(a) => Message::UnknownTerm(a),
            Message::TermArity(n) => Message::TermArity(n),
            Message::BadExpr(e) => Message::BadExpr(e.deep_view()),
        }
    }
}

impl DeepView for ElabError {
    type V = ErrorView;

    open spec fn deep_view(&self) -> ErrorView {
        ErrorView { pos: self.pos, msg: self.msg.deep_view() }
    }
}

/// The model of what a parsing function returns.
pub open spec fn outcome<T: DeepView>(r: Result<T, ElabError>) -> Result<T::V, ErrorView> {
    match r {
        Ok(x) => Ok(x.deep_view()),
        Err(e) => Err(e.deep_view()),
    }
}

impl ElabError {
    /// A complaint about a place.
    pub fn new_e(pos: Span, msg: Message<LispVal>) -> (r: ElabError)
        ensures
            r.pos == pos,
            r.msg == msg,
            r.deep_view() == (ErrorView { pos, msg: msg.deep_view() }),
    {
        ElabError { pos, msg }
    }
}

} // verus!
