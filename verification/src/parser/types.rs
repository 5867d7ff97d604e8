//! Types, propositions and the patterns of a `match`.

use super::{as_keyword, error_at, get_atom, keyword_of, lookup, spanned, Grammar, Parser};
use crate::ast::{Pattern, PatternKind, PatternView, Prop, PropKind, PropView};
use crate::ast::{TuplePattern, Type, TypeKind, TypeView};
use crate::entity::{Entity, Prim, PrimProp, PrimType, TypeTc};
use crate::error::{outcome, ElabError, ErrorView, Message};
use crate::keyword::Keyword;
use crate::lisp::{AtomId, LispKind, LispVal, Sexp, UNDER};
use crate::size::Size;
use crate::span::{FileSpan, Spanned};
use crate::uncons::Uncons;
use crate::vecs::clone_range;
use std::collections::HashMap;
use vstd::prelude::*;

verus! {

// ---------------------------------------------------------------------------------------------
// The patterns of a `match`

impl Grammar {
    /// A pattern of a `match`.
    pub open spec fn pattern(self, names: Map<u32, Entity>, e: Sexp) -> Result<
        Spanned<PatternView>,
        ErrorView,
    > {
        match self.pattern_kind(names, e) {
            Ok(k) => Ok(self.at(e, k)),
            Err(x) => Err(x),
        }
    }

    /// A pattern of a `match`, without its place. The name of a constant stands for its value, and
    /// any other name binds a variable.
    pub open spec fn pattern_kind(self, names: Map<u32, Entity>, e: Sexp) -> Result<
        PatternView,
        ErrorView,
    > {
        match e.unwrapped() {
            Sexp::Atom(a) => if lookup(names, a) matches Some(Entity::Const(_)) {
                Ok(PatternView::Const(a))
            } else {
                Ok(PatternView::Var(a))
            },
            Sexp::List(_) => self.list_pattern(e),
            Sexp::DottedList(_, _) => self.list_pattern(e),
            Sexp::Number(n) => Ok(PatternView::Number(n)),
            _ => Err(self.error(e, Message::PatternSyntax)),
        }
    }

    /// `{h : pattern}`, `(or patterns..)` or `(with pattern guard)`.
    pub open spec fn list_pattern(self, e: Sexp) -> Result<PatternView, ErrorView> {
        match self.head_keyword(e) {
            Some((Keyword::Colon, rest)) => match rest.pair() {
                Some((h, p)) => match h.as_atom() {
                    Some(a) => Ok(PatternView::Hyped(a, p)),
                    None => Err(self.error(h, Message::HypothesisName)),
                },
                None => Err(self.error(e, Message::ColonSyntax)),
            },
            Some((Keyword::Or, rest)) => Ok(PatternView::Or(rest)),
            Some((Keyword::With, rest)) => match rest.pair() {
                Some((p, g)) => Ok(PatternView::With(p, g)),
                None => Err(self.error(e, Message::WithSyntax)),
            },
            _ => Err(self.error(e, Message::PatternSyntax)),
        }
    }
}

impl<'a> Parser<'a> {
    /// Parse a pattern expression (shallowly).
    pub fn parse_pattern(&self, base: &FileSpan, names: &HashMap<u32, Entity>, e: &LispVal) -> (r:
        Result<Pattern, ElabError>)
        ensures
            outcome(r) == self.grammar(*base).pattern(names@, e@),
    {
        let k = match e.unwrapped() {
            LispKind::Atom(a) => match get_atom(names, *a) {
                Some(Entity::Const(_)) => PatternKind::Const(*a),
                _ => PatternKind::Var(*a),
            },
            LispKind::List(_) | LispKind::DottedList(_, _) => self.parse_list_pattern(base, e)?,
            LispKind::Number(n) => PatternKind::Number(n.clone()),
            _ => {
                return Err(error_at(base, e, Message::PatternSyntax));
            },
        };
        Ok(spanned(base, e, k))
    }

    fn parse_list_pattern(&self, base: &FileSpan, e: &LispVal) -> (r: Result<
        PatternKind,
        ElabError,
    >)
        ensures
            outcome(r) == self.grammar(*base).list_pattern(e@),
    {
        match self.head_keyword(e) {
            Some((Keyword::Colon, u)) => match u.pair() {
                Some((h, p)) => match h.as_atom() {
                    Some(a) => Ok(PatternKind::Hyped(a, p)),
                    None => Err(error_at(base, &h, Message::HypothesisName)),
                },
                None => Err(error_at(base, e, Message::ColonSyntax)),
            },
            Some((Keyword::Or, u)) => Ok(PatternKind::Or(u)),
            Some((Keyword::With, u)) => match u.pair() {
                Some((p, g)) => Ok(PatternKind::With(p, g)),
                None => Err(error_at(base, e, Message::WithSyntax)),
            },
            _ => Err(error_at(base, e, Message::PatternSyntax)),
        }
    }
}

// ---------------------------------------------------------------------------------------------
// Types

/// A constructor with its arguments. What is no list is a constructor without arguments. For `()`
/// there is none.
pub open spec fn head_and_args(e: Sexp) -> Option<(Sexp, Seq<Sexp>)> {
    if e.items().len() > 0 {
        Some((e.items()[0], e.tail().items()))
    } else if e.is_list() {
        None
    } else {
        Some((e, Seq::empty()))
    }
}

impl Grammar {
    /// A type.
    pub open spec fn ty(self, names: Map<u32, Entity>, e: Sexp) -> Result<
        Spanned<TypeView>,
        ErrorView,
    > {
        match self.ty_kind(names, e) {
            Ok(k) => Ok(self.at(e, k)),
            Err(x) => Err(x),
        }
    }

    /// A type, without its place.
    pub open spec fn ty_kind(self, names: Map<u32, Entity>, e: Sexp) -> Result<
        TypeView,
        ErrorView,
    > {
        match head_and_args(e) {
            None => Ok(TypeView::Unit),
            Some((head, args)) => match head.as_atom() {
                Some(a) => self.named_ty(names, e, head, a, args),
                None => match keyword_of(self.kw, head) {
                    Some(Keyword::If) => if args.len() == 3 {
                        Ok(TypeView::If(args[0], args[1], args[2]))
                    } else {
                        Err(self.error(head, Message::TypeArity))
                    },
                    _ => Err(self.error(head, Message::ExpectedAtom)),
                },
            },
        }
    }

    /// A type whose constructor is the name `a`.
    pub open spec fn named_ty(
        self,
        names: Map<u32, Entity>,
        e: Sexp,
        head: Sexp,
        a: AtomId,
        args: Seq<Sexp>,
    ) -> Result<TypeView, ErrorView> {
        if a.0 == UNDER {
            Err(self.error(head, Message::TypeHole))
        } else {
            match lookup(names, a) {
                Some(Entity::Prim(p)) => match p.ty {
                    Some(prim) => self.prim_ty(e, prim, args),
                    None => if p.prop is Some || p.op is Some {
                        match self.prop_kind(names, e) {
                            Ok(k) => Ok(TypeView::Prop(k)),
                            Err(x) => Err(x),
                        }
                    } else {
                        Err(self.error(head, Message::NotAType))
                    },
                },
                Some(Entity::Type(_, TypeTc::Typed(ty))) => if args.len() == ty.tyargs + ty.args {
                    Ok(
                        TypeView::User(
                            a,
                            args.take(ty.tyargs as int),
                            args.skip(ty.tyargs as int),
                        ),
                    )
                } else {
                    Err(self.error(head, Message::TypeArity))
                },
                Some(Entity::Type(_, TypeTc::Unchecked)) => Ok(TypeView::Error),
                Some(_) => Err(self.error(head, Message::NotAType)),
                None => if args.len() == 0 {
                    Ok(TypeView::Var(a))
                } else {
                    Err(self.error(head, Message::UnknownType(a)))
                },
            }
        }
    }

    /// A primitive type with its arguments.
    pub open spec fn prim_ty(self, e: Sexp, prim: PrimType, args: Seq<Sexp>) -> Result<
        TypeView,
        ErrorView,
    > {
        match prim {
            PrimType::Array if args.len() == 2 => Ok(TypeView::Array(args[0], args[1])),
            PrimType::Bool if args.len() == 0 => Ok(TypeView::Bool),
            PrimType::I8 if args.len() == 0 => Ok(TypeView::Int(Size::S8)),
            PrimType::I16 if args.len() == 0 => Ok(TypeView::Int(Size::S16)),
            PrimType::I32 if args.len() == 0 => Ok(TypeView::Int(Size::S32)),
            PrimType::I64 if args.len() == 0 => Ok(TypeView::Int(Size::S64)),
            PrimType::Int if args.len() == 0 => Ok(TypeView::Int(Size::Inf)),
            PrimType::U8 if args.len() == 0 => Ok(TypeView::UInt(Size::S8)),
            PrimType::U16 if args.len() == 0 => Ok(TypeView::UInt(Size::S16)),
            PrimType::U32 if args.len() == 0 => Ok(TypeView::UInt(Size::S32)),
            PrimType::U64 if args.len() == 0 => Ok(TypeView::UInt(Size::S64)),
            PrimType::Nat if args.len() == 0 => Ok(TypeView::UInt(Size::Inf)),
            PrimType::Input if args.len() == 0 => Ok(TypeView::Input),
            PrimType::Output if args.len() == 0 => Ok(TypeView::Output),
            PrimType::Own if args.len() == 1 => Ok(TypeView::Own(args[0])),
            PrimType::Ref if args.len() == 1 => Ok(TypeView::Shr(None, args[0])),
            PrimType::RefSn if args.len() == 1 => Ok(TypeView::RefSn(args[0])),
            PrimType::Sn if args.len() == 1 => Ok(TypeView::Sn(args[0])),
            PrimType::List => Ok(TypeView::List(args)),
            PrimType::Struct => match self.tuple_patterns(false, args) {
                Ok(ps) => Ok(TypeView::Struct(ps)),
                Err(x) => Err(x),
            },
            PrimType::And => Ok(TypeView::And(args)),
            PrimType::Or => Ok(TypeView::Or(args)),
            PrimType::Moved if args.len() == 1 => Ok(TypeView::Moved(args[0])),
            PrimType::GhostTy if args.len() == 1 => Ok(TypeView::GhostTy(args[0])),
            PrimType::Uninit if args.len() == 1 => Ok(TypeView::Uninit(args[0])),
            _ => Err(self.error(e, Message::TypeArity)),
        }
    }

    /// A proposition.
    pub open spec fn prop(self, names: Map<u32, Entity>, e: Sexp) -> Result<
        Spanned<PropView>,
        ErrorView,
    > {
        match self.prop_kind(names, e) {
            Ok(k) => Ok(self.at(e, k)),
            Err(x) => Err(x),
        }
    }

    /// A proposition, without its place. What is not built by a proposition constructor is an
    /// expression.
    pub open spec fn prop_kind(self, names: Map<u32, Entity>, e: Sexp) -> Result<
        PropView,
        ErrorView,
    > {
        match head_and_args(e) {
            None => Err(self.error(e, Message::EmptyProp)),
            Some((head, args)) => match prop_constructor(names, head) {
                Some(prim) => self.prim_prop(head, prim, args),
                None => match self.expr_kind(e) {
                    Ok(k) => Ok(PropView::Pure(k)),
                    Err(x) => Err(x),
                },
            },
        }
    }

    /// A primitive proposition with its arguments.
    pub open spec fn prim_prop(self, head: Sexp, prim: PrimProp, args: Seq<Sexp>) -> Result<
        PropView,
        ErrorView,
    > {
        match prim {
            PrimProp::All if args.len() > 0 => match self.tuple_patterns(false, args.drop_last()) {
                Ok(ps) => Ok(PropView::All(ps, args.last())),
                Err(x) => Err(x),
            },
            PrimProp::Ex if args.len() > 0 => match self.tuple_patterns(false, args.drop_last()) {
                Ok(ps) => Ok(PropView::Ex(ps, args.last())),
                Err(x) => Err(x),
            },
            PrimProp::And => Ok(PropView::And(args)),
            PrimProp::Or => Ok(PropView::Or(args)),
            PrimProp::Imp if args.len() == 2 => Ok(PropView::Imp(args[0], args[1])),
            PrimProp::Star => Ok(PropView::Sep(args)),
            PrimProp::Wand if args.len() == 2 => Ok(PropView::Wand(args[0], args[1])),
            PrimProp::Pure if args.len() == 1 => Ok(PropView::Mm0(args[0])),
            PrimProp::Moved if args.len() == 1 => Ok(PropView::Moved(args[0])),
            PrimProp::Eq if args.len() == 2 => Ok(PropView::Eq(args[0], args[1])),
            _ => Err(self.error(head, Message::PropArity)),
        }
    }
}

/// The proposition constructor that a head names.
pub open spec fn prop_constructor(names: Map<u32, Entity>, head: Sexp) -> Option<PrimProp> {
    match head.as_atom() {
        Some(a) => match lookup(names, a) {
            Some(Entity::Prim(p)) => p.prop,
            _ => None,
        },
        None => None,
    }
}

fn split_head(e: &LispVal) -> (r: Option<(LispVal, Vec<LispVal>)>)
    ensures
        r.deep_view() == head_and_args(e@),
{
    let mut u = Uncons::new(e.clone());
    match u.next() {
        None => if u.is_empty() {
            None
        } else {
            let args: Vec<LispVal> = Vec::new();
            assert(args.deep_view() =~= Seq::empty());
            Some((u.as_lisp(), args))
        },
        Some(head) => Some((head, u.collect())),
    }
}

impl<'a> Parser<'a> {
    /// Parse a type (shallowly).
    pub fn parse_ty(&self, base: &FileSpan, names: &HashMap<u32, Entity>, e: &LispVal) -> (r: Result<
        Type,
        ElabError,
    >)
        ensures
            outcome(r) == self.grammar(*base).ty(names@, e@),
    {
        let (head, args) = match split_head(e) {
            None => {
                return Ok(spanned(base, e, TypeKind::Unit));
            },
            Some(ha) => ha,
        };
        let k = match head.as_atom() {
            Some(a) => self.parse_named_ty(base, names, e, &head, a, args)?,
            None => match as_keyword(self.kw, &head) {
                Some(Keyword::If) => if args.len() == 3 {
                    TypeKind::If(args[0].clone(), args[1].clone(), args[2].clone())
                } else {
                    return Err(error_at(base, &head, Message::TypeArity));
                },
                _ => {
                    return Err(error_at(base, &head, Message::ExpectedAtom));
                },
            },
        };
        Ok(spanned(base, e, k))
    }

    fn parse_named_ty(
        &self,
        base: &FileSpan,
        names: &HashMap<u32, Entity>,
        e: &LispVal,
        head: &LispVal,
        a: AtomId,
        args: Vec<LispVal>,
    ) -> (r: Result<TypeKind, ElabError>)
        ensures
            outcome(r) == self.grammar(*base).named_ty(
                names@,
                e@,
                head@,
                a,
                args.deep_view(),
            ),
    {
        assert(args.deep_view().len() == args@.len());
        if a.0 == UNDER {
            return Err(error_at(base, head, Message::TypeHole));
        }
        match get_atom(names, a) {
            Some(Entity::Prim(p)) => match p.ty {
                Some(prim) => self.parse_prim_ty(base, e, prim, args),
                None => if p.prop.is_some() || p.op.is_some() {
                    let prop = self.parse_prop(base, names, e)?;
                    Ok(TypeKind::Prop(prop.k))
                } else {
                    Err(error_at(base, head, Message::NotAType))
                },
            },
            Some(Entity::Type(_, TypeTc::Typed(ty))) => {
                let n = ty.tyargs as usize;
                if args.len() >= n && args.len() - n == ty.args {
                    let tys = clone_range(&args, 0, n);
                    let vals = clone_range(&args, n, args.len());
                    assert(args.deep_view().subrange(0, n as int) =~= args.deep_view().take(
                        n as int,
                    ));
                    assert(args.deep_view().subrange(n as int, args@.len() as int)
                        =~= args.deep_view().skip(n as int));
                    Ok(TypeKind::User(a, tys, vals))
                } else {
                    Err(error_at(base, head, Message::TypeArity))
                }
            },
            Some(Entity::Type(_, TypeTc::Unchecked)) => Ok(TypeKind::Error),
            Some(_) => Err(error_at(base, head, Message::NotAType)),
            None => if args.len() == 0 {
                Ok(TypeKind::Var(a))
            } else {
                Err(error_at(base, head, Message::UnknownType(a)))
            },
        }
    }

    fn parse_prim_ty(&self, base: &FileSpan, e: &LispVal, prim: PrimType, args: Vec<LispVal>) -> (r:
        Result<TypeKind, ElabError>)
        ensures
            outcome(r) == self.grammar(*base).prim_ty(e@, prim, args.deep_view()),
    {
        assert(args.deep_view().len() == args@.len());
        match prim {
            PrimType::Array if args.len() == 2 => Ok(TypeKind::Array(args[0].clone(), args[1].clone())),
            PrimType::Bool if args.len() == 0 => Ok(TypeKind::Bool),
            PrimType::I8 if args.len() == 0 => Ok(TypeKind::Int(Size::S8)),
            PrimType::I16 if args.len() == 0 => Ok(TypeKind::Int(Size::S16)),
            PrimType::I32 if args.len() == 0 => Ok(TypeKind::Int(Size::S32)),
            PrimType::I64 if args.len() == 0 => Ok(TypeKind::Int(Size::S64)),
            PrimType::Int if args.len() == 0 => Ok(TypeKind::Int(Size::Inf)),
            PrimType::U8 if args.len() == 0 => Ok(TypeKind::UInt(Size::S8)),
            PrimType::U16 if args.len() == 0 => Ok(TypeKind::UInt(Size::S16)),
            PrimType::U32 if args.len() == 0 => Ok(TypeKind::UInt(Size::S32)),
            PrimType::U64 if args.len() == 0 => Ok(TypeKind::UInt(Size::S64)),
            PrimType::Nat if args.len() == 0 => Ok(TypeKind::UInt(Size::Inf)),
            PrimType::Input if args.len() == 0 => Ok(TypeKind::Input),
            PrimType::Output if args.len() == 0 => Ok(TypeKind::Output),
            PrimType::Own if args.len() == 1 => Ok(TypeKind::Own(args[0].clone())),
            PrimType::Ref if args.len() == 1 => Ok(TypeKind::Shr(None, args[0].clone())),
            PrimType::RefSn if args.len() == 1 => Ok(TypeKind::RefSn(args[0].clone())),
            PrimType::Sn if args.len() == 1 => Ok(TypeKind::Sn(args[0].clone())),
            PrimType::List => Ok(TypeKind::List(args)),
            PrimType::Struct => {
                let ps = self.parse_tuple_patterns(base, false, Uncons::of_vec(args))?;
                Ok(TypeKind::Struct(ps))
            },
            PrimType::And => Ok(TypeKind::And(args)),
            PrimType::Or => Ok(TypeKind::Or(args)),
            PrimType::Moved if args.len() == 1 => Ok(TypeKind::Moved(args[0].clone())),
            PrimType::GhostTy if args.len() == 1 => Ok(TypeKind::GhostTy(args[0].clone())),
            PrimType::Uninit if args.len() == 1 => Ok(TypeKind::Uninit(args[0].clone())),
            _ => Err(error_at(base, e, Message::TypeArity)),
        }
    }

    /// Parse a proposition (shallowly).
    pub fn parse_prop(&self, base: &FileSpan, names: &HashMap<u32, Entity>, e: &LispVal) -> (r:
        Result<Prop, ElabError>)
        ensures
            outcome(r) == self.grammar(*base).prop(names@, e@),
    {
        let (head, args) = match split_head(e) {
            None => {
                return Err(error_at(base, e, Message::EmptyProp));
            },
            Some(ha) => ha,
        };
        let entity = match head.as_atom() {
            Some(a) => get_atom(names, a),
            None => None,
        };
        let k = match entity {
            Some(Entity::Prim(Prim { prop: Some(prim), .. })) => self.parse_prim_prop(
                base,
                &head,
                prim,
                args,
            )?,
            _ => {
                let x = self.parse_expr(base, e.clone())?;
                PropKind::Pure(x.k)
            },
        };
        Ok(spanned(base, e, k))
    }

    fn parse_prim_prop(&self, base: &FileSpan, head: &LispVal, prim: PrimProp, args: Vec<LispVal>)
        -> (r: Result<PropKind, ElabError>)
        ensures
            outcome(r) == self.grammar(*base).prim_prop(head@, prim, args.deep_view()),
    {
        assert(args.deep_view().len() == args@.len());
        match prim {
            PrimProp::All if args.len() > 0 => {
                let (ps, last) = self.parse_binders(base, args)?;
                Ok(PropKind::All(ps, last))
            },
            PrimProp::Ex if args.len() > 0 => {
                let (ps, last) = self.parse_binders(base, args)?;
                Ok(PropKind::Ex(ps, last))
            },
            PrimProp::And => Ok(PropKind::And(args)),
            PrimProp::Or => Ok(PropKind::Or(args)),
            PrimProp::Imp if args.len() == 2 => Ok(PropKind::Imp(args[0].clone(), args[1].clone())),
            PrimProp::Star => Ok(PropKind::Sep(args)),
            PrimProp::Wand if args.len() == 2 => Ok(
                PropKind::Wand(args[0].clone(), args[1].clone()),
            ),
            PrimProp::Pure if args.len() == 1 => Ok(PropKind::Mm0(args[0].clone())),
            PrimProp::Moved if args.len() == 1 => Ok(PropKind::Moved(args[0].clone())),
            PrimProp::Eq if args.len() == 2 => Ok(PropKind::Eq(args[0].clone(), args[1].clone())),
            _ => Err(error_at(base, head, Message::PropArity)),
        }
    }

    /// Parse the binders of a quantifier, which its body follows.
    fn parse_binders(&self, base: &FileSpan, args: Vec<LispVal>) -> (r: Result<
        (Vec<TuplePattern>, LispVal),
        ElabError,
    >)
        requires
            args@.len() > 0,
        ensures
            match (r, self.grammar(*base).tuple_patterns(false, args.deep_view().drop_last())) {
                (Ok((ps, last)), Ok(qs)) => ps.deep_view() == qs && last@
                    == args.deep_view().last(),
                (Err(x), Err(y)) => x.deep_view() == y,
                _ => false,
            },
    {
        let ghost all = args.deep_view();
        let mut binders = args;
        let last = binders.remove(binders.len() - 1);
        assert(binders.deep_view() =~= all.drop_last());
        let ps = self.parse_tuple_patterns(base, false, Uncons::of_vec(binders))?;
        Ok((ps, last))
    }
}

} // verus!
