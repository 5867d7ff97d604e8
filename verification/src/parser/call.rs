//! What an expression of the shape of a call means.

use super::{get_atom, lookup, Grammar, Parser};
use crate::ast::{CallExpr, CallKind, CallKindView, CallView, NAryCall};
use crate::entity::{Entity, Prim, PrimOp, ProcTc};
use crate::error::{outcome, ElabError, ErrorView, Message};
use crate::lisp::{AtomId, LispVal, Sexp};
use crate::span::FileSpan;
use std::collections::HashMap;
use vstd::prelude::*;

verus! {

/// The atom that the first argument is.
pub open spec fn first_atom(args: Seq<Sexp>) -> Option<AtomId> {
    if args.len() > 0 {
        args[0].as_atom()
    } else {
        None
    }
}

/// The operation that a name stands for.
pub open spec fn op_of(names: Map<u32, Entity>, f: AtomId) -> Option<PrimOp> {
    match lookup(names, f) {
        Some(Entity::Prim(p)) => p.op,
        _ => None,
    }
}

/// The atom that a `break` has as its first argument.
pub open spec fn break_target(names: Map<u32, Entity>, c: CallView) -> Option<AtomId> {
    if op_of(names, c.f.k) == Some(PrimOp::Break) {
        first_atom(c.args)
    } else {
        None
    }
}

/// Whether `label` is an answer of `is_label` on the function of a call, and `out` one on the atom
/// that a `break` has as its first argument. The second question comes up only where the function
/// is not a label.
pub open spec fn answered<F: FnMut(AtomId) -> bool>(
    is_label: F,
    names: Map<u32, Entity>,
    c: CallView,
    label: bool,
    out: bool,
) -> bool {
    &&& call_ensures(is_label, (c.f.k,), label)
    &&& match break_target(names, c) {
        Some(a) => !label ==> call_ensures(is_label, (a,), out),
        None => true,
    }
}

impl Grammar {
    /// A complaint about the construct as a whole.
    pub open spec fn here(self, msg: Message<Sexp>) -> ErrorView {
        ErrorView { pos: self.base.span, msg }
    }

    /// What a call means. `label` tells whether the function is the name of a label that is in
    /// scope, and `out` whether the first argument is.
    pub open spec fn call_kind(
        self,
        names: Map<u32, Entity>,
        label: bool,
        out: bool,
        c: CallView,
    ) -> Result<CallKindView, ErrorView> {
        let f = c.f.k;
        if label {
            Ok(CallKindView::Jump(f, c.args))
        } else {
            match lookup(names, f) {
                None => Err(self.here(Message::UnknownFunction(f))),
                Some(Entity::Const(_)) => Ok(CallKindView::Const(f)),
                Some(Entity::Global(_)) => Ok(CallKindView::Global(f)),
                Some(Entity::Prim(Prim { op: Some(prim), .. })) => self.op_kind(
                    prim,
                    out,
                    c.args,
                ),
                Some(Entity::Proc(_, ProcTc::Typed { tyargs })) => Ok(
                    CallKindView::Call(c, tyargs),
                ),
                Some(Entity::Proc(_, ProcTc::Unchecked)) => Ok(CallKindView::Error),
                Some(_) => Err(self.here(Message::NotAFunction)),
            }
        }
    }

    /// What a primitive operation means with the given arguments.
    pub open spec fn op_kind(self, prim: PrimOp, out: bool, args: Seq<Sexp>) -> Result<
        CallKindView,
        ErrorView,
    > {
        match prim {
            PrimOp::Add => Ok(CallKindView::NAry(NAryCall::Add, args)),
            PrimOp::And => Ok(CallKindView::NAry(NAryCall::And, args)),
            PrimOp::Or => Ok(CallKindView::NAry(NAryCall::Or, args)),
            PrimOp::Assert => Ok(CallKindView::NAry(NAryCall::Assert, args)),
            PrimOp::BitAnd => Ok(CallKindView::NAry(NAryCall::BitAnd, args)),
            PrimOp::BitNot => Ok(CallKindView::NAry(NAryCall::BitNot, args)),
            PrimOp::BitOr => Ok(CallKindView::NAry(NAryCall::BitOr, args)),
            PrimOp::BitXor => Ok(CallKindView::NAry(NAryCall::BitXor, args)),
            PrimOp::Index => if args.len() == 2 {
                Ok(CallKindView::Index(args[0], args[1], None))
            } else if args.len() == 3 {
                Ok(CallKindView::Index(args[0], args[1], Some(args[2])))
            } else {
                Err(self.here(Message::Expected2Or3))
            },
            PrimOp::List => Ok(CallKindView::NAry(NAryCall::List, args)),
            PrimOp::Mul => Ok(CallKindView::NAry(NAryCall::Mul, args)),
            PrimOp::Not => Ok(CallKindView::NAry(NAryCall::Not, args)),
            PrimOp::Le => Ok(CallKindView::NAry(NAryCall::Le, args)),
            PrimOp::Lt => Ok(CallKindView::NAry(NAryCall::Lt, args)),
            PrimOp::Eq => Ok(CallKindView::NAry(NAryCall::Eq, args)),
            PrimOp::Ne => Ok(CallKindView::NAry(NAryCall::Ne, args)),
            PrimOp::GhostOp => Ok(CallKindView::NAry(NAryCall::GhostList, args)),
            PrimOp::Return => Ok(CallKindView::NAry(NAryCall::Return, args)),
            PrimOp::Sub => if args.len() == 0 {
                Err(self.here(Message::Expected1OrMore))
            } else if args.len() == 1 {
                Ok(CallKindView::Neg(args[0]))
            } else {
                Ok(CallKindView::Sub(args[0], args.drop_first()))
            },
            PrimOp::Shl => if args.len() == 2 {
                Ok(CallKindView::Shl(args[0], args[1]))
            } else {
                Err(self.here(Message::Expected2))
            },
            PrimOp::Shr => if args.len() == 2 {
                Ok(CallKindView::Shr(args[0], args[1]))
            } else {
                Err(self.here(Message::Expected2))
            },
            PrimOp::Typed => if args.len() == 2 {
                Ok(CallKindView::Typed(args[0], args[1]))
            } else {
                Err(self.here(Message::Expected2))
            },
            PrimOp::As => if args.len() == 2 {
                Ok(CallKindView::As(args[0], args[1]))
            } else {
                Err(self.here(Message::Expected2))
            },
            PrimOp::Cast => if args.len() == 1 {
                Ok(CallKindView::Cast(args[0], None))
            } else if args.len() == 2 {
                Ok(CallKindView::Cast(args[0], Some(args[1])))
            } else {
                Err(self.here(Message::Expected1Or2))
            },
            PrimOp::Pun => if args.len() == 1 {
                Ok(CallKindView::Pun(args[0], None))
            } else if args.len() == 2 {
                Ok(CallKindView::Pun(args[0], Some(args[1])))
            } else {
                Err(self.here(Message::Expected1Or2))
            },
            PrimOp::Sn => if args.len() == 1 {
                Ok(CallKindView::Sn(args[0], None))
            } else if args.len() == 2 {
                Ok(CallKindView::Sn(args[0], Some(args[1])))
            } else {
                Err(self.here(Message::Expected1Or2))
            },
            PrimOp::Slice => if args.len() == 2 {
                Ok(CallKindView::Slice(args[0], args[1], None))
            } else if args.len() == 3 {
                Ok(CallKindView::Slice(args[0], args[1], Some(args[2])))
            } else {
                Err(self.here(Message::Expected2Or3))
            },
            PrimOp::Uninit => if args.len() == 0 {
                Ok(CallKindView::Uninit)
            } else {
                Err(self.here(Message::Expected0))
            },
            PrimOp::Pure => if args.len() == 1 {
                Ok(CallKindView::Mm0(args[0]))
            } else {
                Err(self.here(Message::Expected1))
            },
            PrimOp::Ref => if args.len() == 1 {
                Ok(CallKindView::Ref(args[0]))
            } else {
                Err(self.here(Message::Expected1))
            },
            PrimOp::TypeofBang => if args.len() == 1 {
                Ok(CallKindView::TypeofBang(args[0]))
            } else {
                Err(self.here(Message::Expected1))
            },
            PrimOp::Typeof => if args.len() == 1 {
                Ok(CallKindView::Typeof(args[0]))
            } else {
                Err(self.here(Message::Expected1))
            },
            PrimOp::Sizeof => if args.len() == 1 {
                Ok(CallKindView::Sizeof(args[0]))
            } else {
                Err(self.here(Message::Expected1))
            },
            PrimOp::Unreachable => if args.len() == 0 {
                Ok(CallKindView::Unreachable(None))
            } else if args.len() == 1 {
                Ok(CallKindView::Unreachable(Some(args[0])))
            } else {
                Err(self.here(Message::Expected1))
            },
            PrimOp::Break => match first_atom(args) {
                Some(a) if out => Ok(CallKindView::Break(Some(a), args.drop_first())),
                _ => Ok(CallKindView::Break(None, args)),
            },
        }
    }
}

/// A complaint about the construct as a whole.
fn error_here(base: &FileSpan, msg: Message<LispVal>) -> (r: ElabError)
    ensures
        r.deep_view() == (ErrorView { pos: base.span, msg: msg.deep_view() }),
{
    ElabError::new_e(base.span, msg)
}

impl<'a> Parser<'a> {
    /// Parse an expression that looks like a function call (shallowly).
    pub fn parse_call(
        &self,
        base: &FileSpan,
        names: &HashMap<u32, Entity>,
        is_label: impl FnMut(AtomId) -> bool,
        call: CallExpr,
    ) -> (r: Result<CallKind, ElabError>)
        requires
            call_requires(is_label, (call.f.k,)),
            break_target(names@, call.deep_view()) matches Some(a) ==> call_requires(
                is_label,
                (a,),
            ),
        ensures
            exists|label: bool, out: bool| #[trigger]
                answered(is_label, names@, call.deep_view(), label, out) && outcome(r)
                    == self.grammar(*base).call_kind(names@, label, out, call.deep_view()),
    {
        let mut ask = is_label;
        let label = ask(call.f.k);
        let mut out = false;
        if !label {
            if let Some(Entity::Prim(Prim { op: Some(PrimOp::Break), .. })) = get_atom(
                names,
                call.f.k,
            ) {
                assert(call.args.deep_view().len() == call.args@.len());
                if call.args.len() > 0 {
                    if let Some(a) = call.args[0].as_atom() {
                        out = ask(a);
                    }
                }
            }
        }
        assert(answered(is_label, names@, call.deep_view(), label, out));
        self.resolve_call(base, names, label, out, call)
    }

    /// What a call means, where it is known whether the function is the name of a label that is in
    /// scope, and whether the first argument is.
    pub fn resolve_call(
        &self,
        base: &FileSpan,
        names: &HashMap<u32, Entity>,
        label: bool,
        out: bool,
        call: CallExpr,
    ) -> (r: Result<CallKind, ElabError>)
        ensures
            outcome(r) == self.grammar(*base).call_kind(names@, label, out, call.deep_view()),
    {
        let f = call.f.k;
        if label {
            return Ok(CallKind::Jump(f, call.args));
        }
        match get_atom(names, f) {
            None => Err(error_here(base, Message::UnknownFunction(f))),
            Some(Entity::Const(_)) => Ok(CallKind::Const(f)),
            Some(Entity::Global(_)) => Ok(CallKind::Global(f)),
            Some(Entity::Prim(Prim { op: Some(prim), .. })) => self.resolve_op(
                base,
                prim,
                out,
                call.args,
            ),
            Some(Entity::Proc(_, ProcTc::Typed { tyargs })) => Ok(CallKind::Call(call, tyargs)),
            Some(Entity::Proc(_, ProcTc::Unchecked)) => Ok(CallKind::Error),
            Some(_) => Err(error_here(base, Message::NotAFunction)),
        }
    }

    fn resolve_op(&self, base: &FileSpan, prim: PrimOp, out: bool, args: Vec<LispVal>) -> (r: Result<
        CallKind,
        ElabError,
    >)
        ensures
            outcome(r) == self.grammar(*base).op_kind(prim, out, args.deep_view()),
    {
        let ghost all = args.deep_view();
        assert(all.len() == args@.len());
        match prim {
            PrimOp::Add => Ok(CallKind::NAry(NAryCall::Add, args)),
            PrimOp::And => Ok(CallKind::NAry(NAryCall::And, args)),
            PrimOp::Or => Ok(CallKind::NAry(NAryCall::Or, args)),
            PrimOp::Assert => Ok(CallKind::NAry(NAryCall::Assert, args)),
            PrimOp::BitAnd => Ok(CallKind::NAry(NAryCall::BitAnd, args)),
            PrimOp::BitNot => Ok(CallKind::NAry(NAryCall::BitNot, args)),
            PrimOp::BitOr => Ok(CallKind::NAry(NAryCall::BitOr, args)),
            PrimOp::BitXor => Ok(CallKind::NAry(NAryCall::BitXor, args)),
            PrimOp::Index => if args.len() == 2 {
                Ok(CallKind::Index(args[0].clone(), args[1].clone(), None))
            } else if args.len() == 3 {
                Ok(CallKind::Index(args[0].clone(), args[1].clone(), Some(args[2].clone())))
            } else {
                Err(error_here(base, Message::Expected2Or3))
            },
            PrimOp::List => Ok(CallKind::NAry(NAryCall::List, args)),
            PrimOp::Mul => Ok(CallKind::NAry(NAryCall::Mul, args)),
            PrimOp::Not => Ok(CallKind::NAry(NAryCall::Not, args)),
            PrimOp::Le => Ok(CallKind::NAry(NAryCall::Le, args)),
            PrimOp::Lt => Ok(CallKind::NAry(NAryCall::Lt, args)),
            PrimOp::Eq => Ok(CallKind::NAry(NAryCall::Eq, args)),
            PrimOp::Ne => Ok(CallKind::NAry(NAryCall::Ne, args)),
            PrimOp::GhostOp => Ok(CallKind::NAry(NAryCall::GhostList, args)),
            PrimOp::Return => Ok(CallKind::NAry(NAryCall::Return, args)),
            PrimOp::Sub => if args.len() == 0 {
                Err(error_here(base, Message::Expected1OrMore))
            } else {
                let mut rest = args;
                let first = rest.remove(0);
                assert(first@ == all[0]);
                assert(rest.deep_view() =~= all.drop_first());
                if rest.len() == 0 {
                    Ok(CallKind::Neg(first))
                } else {
                    Ok(CallKind::Sub(first, rest))
                }
            },
            PrimOp::Shl => if args.len() == 2 {
                Ok(CallKind::Shl(args[0].clone(), args[1].clone()))
            } else {
                Err(error_here(base, Message::Expected2))
            },
            PrimOp::Shr => if args.len() == 2 {
                Ok(CallKind::Shr(args[0].clone(), args[1].clone()))
            } else {
                Err(error_here(base, Message::Expected2))
            },
            PrimOp::Typed => if args.len() == 2 {
                Ok(CallKind::Typed(args[0].clone(), args[1].clone()))
            } else {
                Err(error_here(base, Message::Expected2))
            },
            PrimOp::As => if args.len() == 2 {
                Ok(CallKind::As(args[0].clone(), args[1].clone()))
            } else {
                Err(error_here(base, Message::Expected2))
            },
            PrimOp::Cast => if args.len() == 1 {
                Ok(CallKind::Cast(args[0].clone(), None))
            } else if args.len() == 2 {
                Ok(CallKind::Cast(args[0].clone(), Some(args[1].clone())))
            } else {
                Err(error_here(base, Message::Expected1Or2))
            },
            PrimOp::Pun => if args.len() == 1 {
                Ok(CallKind::Pun(args[0].clone(), None))
            } else if args.len() == 2 {
                Ok(CallKind::Pun(args[0].clone(), Some(args[1].clone())))
            } else {
                Err(error_here(base, Message::Expected1Or2))
            },
            PrimOp::Sn => if args.len() == 1 {
                Ok(CallKind::Sn(args[0].clone(), None))
            } else if args.len() == 2 {
                Ok(CallKind::Sn(args[0].clone(), Some(args[1].clone())))
            } else {
                Err(error_here(base, Message::Expected1Or2))
            },
            PrimOp::Slice => if args.len() == 2 {
                Ok(CallKind::Slice(args[0].clone(), args[1].clone(), None))
            } else if args.len() == 3 {
                Ok(CallKind::Slice(args[0].clone(), args[1].clone(), Some(args[2].clone())))
            } else {
                Err(error_here(base, Message::Expected2Or3))
            },
            PrimOp::Uninit => if args.len() == 0 {
                Ok(CallKind::Uninit)
            } else {
                Err(error_here(base, Message::Expected0))
            },
            PrimOp::Pure => if args.len() == 1 {
                Ok(CallKind::Mm0(args[0].clone()))
            } else {
                Err(error_here(base, Message::Expected1))
            },
            PrimOp::Ref => if args.len() == 1 {
                Ok(CallKind::Ref(args[0].clone()))
            } else {
                Err(error_here(base, Message::Expected1))
            },
            PrimOp::TypeofBang => if args.len() == 1 {
                Ok(CallKind::TypeofBang(args[0].clone()))
            } else {
                Err(error_here(base, Message::Expected1))
            },
            PrimOp::Typeof => if args.len() == 1 {
                Ok(CallKind::Typeof(args[0].clone()))
            } else {
                Err(error_here(base, Message::Expected1))
            },
            PrimOp::Sizeof => if args.len() == 1 {
                Ok(CallKind::Sizeof(args[0].clone()))
            } else {
                Err(error_here(base, Message::Expected1))
            },
            PrimOp::Unreachable => if args.len() == 0 {
                Ok(CallKind::Unreachable(None))
            } else if args.len() == 1 {
                Ok(CallKind::Unreachable(Some(args[0].clone())))
            } else {
                Err(error_here(base, Message::Expected1))
            },
            PrimOp::Break => {
                if out && args.len() > 0 {
                    if let Some(a) = args[0].as_atom() {
                        let mut rest = args;
                        rest.remove(0);
                        assert(rest.deep_view() =~= all.drop_first());
                        return Ok(CallKind::Break(Some(a), rest));
                    }
                }
                Ok(CallKind::Break(None, args))
            },
        }
    }
}

} // verus!
