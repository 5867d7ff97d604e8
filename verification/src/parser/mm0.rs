//! Formulas of the logic, with variables of the program in them.

use super::{error_at, Grammar, Parser};
use crate::ast::{lemma_term_model, Mm0Expr, Mm0ExprNode, Mm0View};
use crate::env::{ArgKind, TermId};
use crate::error::{outcome, ElabError, ErrorView, Message};
use crate::lisp::{lemma_tail_smaller, sizes, AtomId, LispVal, Sexp};
use crate::span::FileSpan;
use crate::uncons::Uncons;
use crate::vecs::{empty_vec, push_to};
use std::collections::HashMap;
use std::rc::Rc;
use vstd::prelude::*;

verus! {

/// What is known while a formula is read.
#[verifier::ext_equal]
pub struct Mm0State<T> {
    /// What the variables of the program that have been met stand for.
    pub subst: Seq<T>,
    /// The places of these variables in the substitution.
    pub vars: Map<u32, u32>,
    /// The names that are bound here.
    pub dummies: Seq<AtomId>,
    /// The names that have been looked up among the variables of the program, each with the place
    /// where it stands.
    pub asked: Seq<(Sexp, AtomId)>,
}

impl<T> Mm0State<T> {
    /// Nothing is known at first.
    pub open spec fn start() -> Mm0State<T> {
        Mm0State {
            subst: Seq::empty(),
            vars: Map::empty(),
            dummies: Seq::empty(),
            asked: Seq::empty(),
        }
    }

    /// A name has been looked up.
    pub open spec fn ask(self, e: Sexp, a: AtomId) -> Mm0State<T> {
        Mm0State { asked: self.asked.push((e, a)), ..self }
    }

    /// A new variable has been met.
    pub open spec fn meet(self, a: AtomId, v: T) -> Mm0State<T> {
        Mm0State {
            subst: self.subst.push(v),
            vars: self.vars.insert(a.0, self.subst.len() as u32),
            ..self
        }
    }

    /// A name is bound from here on.
    pub open spec fn bind(self, a: AtomId) -> Mm0State<T> {
        Mm0State { dummies: self.dummies.push(a), ..self }
    }
}

/// A term, given what was found of its arguments. The names that they bind are no longer bound after
/// it. Where no argument has variables of the program in it, neither has the term.
pub open spec fn mm0_term<T>(
    t: TermId,
    dummies: Seq<AtomId>,
    args: (Mm0State<T>, Result<(Seq<Mm0View>, bool), ErrorView>),
) -> (Mm0State<T>, Result<Option<Mm0View>, ErrorView>) {
    match args.1 {
        Ok((ns, constant)) => (
            Mm0State { dummies, ..args.0 },
            if constant {
                Ok(None)
            } else {
                Ok(Some(Mm0View::Expr(t, ns)))
            },
        ),
        Err(x) => (args.0, Err(x)),
    }
}

impl Grammar {
    /// A formula. The parts without variables of the program are kept as they are.
    pub open spec fn mm0_node<T>(self, ans: Seq<Option<T>>, st: Mm0State<T>, e: Sexp) -> (
        Mm0State<T>,
        Result<Mm0View, ErrorView>,
    )
        decreases e.size(), 1nat,
    {
        let (st, r) = self.mm0_node_opt(ans, st, e);
        (
            st,
            match r {
                Ok(Some(n)) => Ok(n),
                Ok(None) => Ok(Mm0View::Const(e)),
                Err(x) => Err(x),
            },
        )
    }

    /// A formula, where it has variables of the program in it. `ans` are the answers to the
    /// questions whether a name is a variable of the program, in the order in which they come up.
    pub open spec fn mm0_node_opt<T>(self, ans: Seq<Option<T>>, st: Mm0State<T>, e: Sexp) -> (
        Mm0State<T>,
        Result<Option<Mm0View>, ErrorView>,
    )
        decreases e.size(), 0nat,
    {
        proof {
            lemma_tail_smaller(e);
        }
        match e.as_atom() {
            Some(a) => if st.dummies.contains(a) {
                (st, Ok(None))
            } else if st.vars.contains_key(a.0) {
                (st, Ok(Some(Mm0View::Var(st.vars[a.0]))))
            } else {
                match ans[st.asked.len() as int] {
                    Some(v) => (
                        st.ask(e, a).meet(a, v),
                        Ok(Some(Mm0View::Var(st.subst.len() as u32))),
                    ),
                    None => (st.ask(e, a), self.mm0_constant(e, a)),
                }
            },
            None => if e.items().len() == 0 {
                (st, Err(self.error(e, Message::BadExpr(e))))
            } else {
                let head = e.items()[0];
                let args = e.tail().items();
                match head.as_atom() {
                    None => (st, Err(self.error(head, Message::ExpectedAtom))),
                    Some(a) => match self.env.term_of(a) {
                        None => (st, Err(self.error(head, Message::UnknownTerm(a)))),
                        Some((t, params)) => if args.len() != params.len() {
                            (
                                st,
                                Err(self.error(head, Message::TermArity(params.len() as usize))),
                            )
                        } else {
                            mm0_term(
                                t,
                                st.dummies,
                                self.mm0_args(ans, st, Seq::empty(), true, params, args),
                            )
                        },
                    },
                }
            },
        }
    }

    /// A name that is not a variable of the program must be a term without arguments.
    pub open spec fn mm0_constant(self, e: Sexp, a: AtomId) -> Result<Option<Mm0View>, ErrorView> {
        match self.env.term_of(a) {
            None => Err(self.error(e, Message::UnknownTerm(a))),
            Some((_, params)) => if params.len() != 0 {
                Err(self.error(e, Message::TermArity(params.len() as usize)))
            } else {
                Ok(None)
            },
        }
    }

    /// The arguments of a term, after those in `done`, and whether none of them has variables of
    /// the program in it. A bound variable is bound in the arguments after it.
    pub open spec fn mm0_args<T>(
        self,
        ans: Seq<Option<T>>,
        st: Mm0State<T>,
        done: Seq<Mm0View>,
        constant: bool,
        params: Seq<ArgKind>,
        es: Seq<Sexp>,
    ) -> (Mm0State<T>, Result<(Seq<Mm0View>, bool), ErrorView>)
        decreases sizes(es), 2 + es.len(),
    {
        if es.len() == 0 || params.len() == 0 {
            (st, Ok((done, constant)))
        } else {
            match params[0] {
                ArgKind::Bound => match es[0].as_atom() {
                    Some(a) => self.mm0_args(
                        ans,
                        st.bind(a),
                        done.push(Mm0View::Const(es[0])),
                        constant,
                        params.drop_first(),
                        es.drop_first(),
                    ),
                    None => (st, Err(self.error(es[0], Message::ExpectedAtom))),
                },
                ArgKind::Reg => match self.mm0_node(ans, st, es[0]) {
                    (st1, Ok(n)) => self.mm0_args(
                        ans,
                        st1,
                        done.push(n),
                        constant && n is Const,
                        params.drop_first(),
                        es.drop_first(),
                    ),
                    (st1, Err(x)) => (st1, Err(x)),
                },
            }
        }
    }
}

/// An answer to the question whether a name is a variable of the program.
pub struct Answer<T> {
    /// The place where the name stands.
    pub e: LispVal,
    /// The name.
    pub a: AtomId,
    /// What it stands for.
    pub v: Option<T>,
}

/// The answers as a sequence of values.
pub open spec fn values<T>(log: Seq<Answer<T>>) -> Seq<Option<T>> {
    log.map_values(|x: Answer<T>| x.v)
}

/// The questions that were answered.
pub open spec fn questions<T>(log: Seq<Answer<T>>) -> Seq<(Sexp, AtomId)> {
    log.map_values(|x: Answer<T>| (x.e@, x.a))
}

/// Whether the answers are those of `get`.
pub open spec fn from_get<T, F: FnMut(&LispVal, AtomId) -> Option<T>>(
    get: F,
    log: Seq<Answer<T>>,
) -> bool {
    forall|i: int|
        0 <= i < log.len() ==> call_ensures(get, (&(#[trigger] log[i]).e, log[i].a), log[i].v)
}

/// Whether `ans` starts with the answers in the log.
pub open spec fn extends<T>(ans: Seq<Option<T>>, log: Seq<Answer<T>>) -> bool {
    log.len() <= ans.len() && forall|i: int| 0 <= i < log.len() ==> #[trigger] ans[i] == log[i].v
}

/// The state of the parser of formulas.
struct Mm0<T> {
    subst: Vec<T>,
    vars: HashMap<u32, u32>,
    dummies: Vec<AtomId>,
    log: Ghost<Seq<Answer<T>>>,
}

impl<T> Mm0<T> {
    spec fn state(self) -> Mm0State<T> {
        Mm0State {
            subst: self.subst@,
            vars: self.vars@,
            dummies: self.dummies@,
            asked: questions(self.log@),
        }
    }

    spec fn wf(self) -> bool {
        &&& self.vars@.dom().finite()
        &&& self.vars@.dom().len() == self.subst@.len()
    }
}

/// There are no more than 2^32 names. With one left out, their number is a `u32`.
pub proof fn lemma_names(s: Set<u32>, a: u32)
    requires
        s.finite(),
        !s.contains(a),
    ensures
        s.len() <= u32::MAX,
{
    let f = |k: u32| k as int;
    let t = s.map(f);
    let all = vstd::set_lib::set_int_range(0, u32::MAX + 1);
    vstd::set_lib::lemma_int_range(0, u32::MAX + 1);
    vstd::set_lib::lemma_map_size(s, t, f);
    assert(t.subset_of(all.remove(a as int)));
    vstd::set_lib::lemma_len_subset(t, all.remove(a as int));
}

fn contains_atom(v: &Vec<AtomId>, a: AtomId) -> (r: bool)
    ensures
        r == v@.contains(a),
{
    let mut i: usize = 0;
    while i < v.len()
        invariant
            i <= v@.len(),
            forall|j: int| 0 <= j < i ==> v@[j] != a,
        decreases v@.len() - i,
    {
        if v[i] == a {
            return true;
        }
        i = i + 1;
    }
    false
}

impl<'a> Parser<'a> {
    /// Parse an MM0 expression. This is a sort of hybrid of MMC and MM0 syntax because it is MM0
    /// syntax in the term constructors with variables drawn from the MMC context. For example,
    /// `(begin {x := 1} {y := 2} (pure $ x + x = y $))` will work, where `+` and `=` are the MM0
    /// term constructors `add` and `eq`, while `x` and `y` are program variables in the MMC context.
    pub fn parse_mm0_expr<T, F: FnMut(&LispVal, AtomId) -> Option<T>>(
        &self,
        base: &FileSpan,
        e: LispVal,
        get: F,
    ) -> (r: Result<Mm0Expr<T>, ElabError>)
        requires
            forall|x: LispVal, a: AtomId| #[trigger] call_requires(get, (&x, a)),
        ensures
            exists|log: Seq<Answer<T>>|
                {
                    let (st, n) = #[trigger] self.grammar(*base).mm0_node(
                        values(log),
                        Mm0State::start(),
                        e@,
                    );
                    &&& from_get(get, log)
                    &&& st.asked == questions(log)
                    &&& match (r, n) {
                        (Ok(x), Ok(n)) => x.subst@ == st.subst && x.expr.deep_view() == n,
                        (Err(x), Err(y)) => x.deep_view() == y,
                        _ => false,
                    }
                },
    {
        let mut st: Mm0<T> = Mm0 {
            subst: Vec::new(),
            vars: HashMap::new(),
            dummies: Vec::new(),
            log: Ghost(Seq::empty()),
        };
        assert(st.state() =~= Mm0State::start());
        let ghost src = e@;
        let mut ask = get;
        let r = self.mm0_parse_node(base, &mut ask, &mut st, e);
        proof {
            assert(extends(values(st.log@), st.log@));
            assert(self.grammar(*base).mm0_node(values(st.log@), Mm0State::start(), src) == (
                st.state(),
                outcome(r),
            ));
        }
        match r {
            Ok(n) => Ok(Mm0Expr { subst: st.subst, expr: Rc::new(n) }),
            Err(x) => Err(x),
        }
    }

    fn mm0_parse_node<T, F: FnMut(&LispVal, AtomId) -> Option<T>>(
        &self,
        base: &FileSpan,
        get: &mut F,
        st: &mut Mm0<T>,
        e: LispVal,
    ) -> (r: Result<Mm0ExprNode, ElabError>)
        requires
            forall|x: LispVal, a: AtomId| #[trigger] call_requires(*old(get), (&x, a)),
            old(st).wf(),
            from_get(*old(get), old(st).log@),
        ensures
            final(st).wf(),
            *final(get) == *old(get),
            from_get(*old(get), final(st).log@),
            old(st).log@.is_prefix_of(final(st).log@),
            r is Ok ==> final(st).dummies@ == old(st).dummies@,
            forall|ans: Seq<Option<T>>|
                extends(ans, final(st).log@) ==> #[trigger] self.grammar(*base).mm0_node(
                    ans,
                    old(st).state(),
                    e@,
                ) == (final(st).state(), outcome(r)),
        decreases e@.size(), 1nat,
    {
        let ghost g = self.grammar(*base);
        let ghost st0 = st.state();
        let ghost src = e@;
        let r = self.mm0_parse_node_opt(base, get, st, &e);
        proof {
            assert forall|ans: Seq<Option<T>>| extends(ans, st.log@) implies (
            #[trigger] g.mm0_node(ans, st0, src)).0 == st.state() && g.mm0_node(ans, st0, src).1
                == (match outcome(r) {
                Ok(Some(n)) => Ok(n),
                Ok(None) => Ok(Mm0View::Const(src)),
                Err(x) => Err(x),
            }) by {
                assert(g.mm0_node_opt(ans, st0, src) == (st.state(), outcome(r)));
            }
        }
        match r {
            Ok(Some(n)) => Ok(n),
            Ok(None) => Ok(Mm0ExprNode::Const(e)),
            Err(x) => Err(x),
        }
    }

    fn mm0_parse_node_opt<T, F: FnMut(&LispVal, AtomId) -> Option<T>>(
        &self,
        base: &FileSpan,
        get: &mut F,
        st: &mut Mm0<T>,
        e: &LispVal,
    ) -> (r: Result<Option<Mm0ExprNode>, ElabError>)
        requires
            forall|x: LispVal, a: AtomId| #[trigger] call_requires(*old(get), (&x, a)),
            old(st).wf(),
            from_get(*old(get), old(st).log@),
        ensures
            final(st).wf(),
            *final(get) == *old(get),
            from_get(*old(get), final(st).log@),
            old(st).log@.is_prefix_of(final(st).log@),
            r is Ok ==> final(st).dummies@ == old(st).dummies@,
            forall|ans: Seq<Option<T>>|
                extends(ans, final(st).log@) ==> #[trigger] self.grammar(*base).mm0_node_opt(
                    ans,
                    old(st).state(),
                    e@,
                ) == (final(st).state(), outcome(r)),
        decreases e@.size(), 0nat,
    {
        proof {
            lemma_tail_smaller(e@);
        }
        match e.as_atom() {
            Some(a) => self.mm0_parse_name(base, get, st, e, a),
            None => {
                let mut u = Uncons::new(e.clone());
                let head = match u.next() {
                    Some(head) => head,
                    None => {
                        return Err(error_at(base, e, Message::BadExpr(e.clone())));
                    },
                };
                let a = match head.as_atom() {
                    Some(a) => a,
                    None => {
                        return Err(error_at(base, &head, Message::ExpectedAtom));
                    },
                };
                let (t, params) = match self.fe.env.term(a) {
                    Some(tp) => tp,
                    None => {
                        return Err(error_at(base, &head, Message::UnknownTerm(a)));
                    },
                };
                if u.len() != params.len() {
                    return Err(error_at(base, &head, Message::TermArity(params.len())));
                }
                let len = st.dummies.len();
                let ghost g = self.grammar(*base);
                let ghost st0 = *st;
                let ghost es = u@.items();
                let r = self.mm0_parse_args(base, get, st, params, u);
                let ghost st1 = *st;
                let ghost found = outcome(r);
                proof {
                    assert forall|ans: Seq<Option<T>>| extends(ans, st1.log@) implies (
                    #[trigger] g.mm0_node_opt(ans, st0.state(), e@)) == mm0_term(
                        t,
                        st0.dummies@,
                        (st1.state(), found),
                    ) by {
                        assert(g.mm0_args(ans, st0.state(), Seq::empty(), true, params@, es) == (
                            st1.state(),
                            found,
                        ));
                    }
                }
                let (args, constant) = r?;
                st.dummies.truncate(len);
                assert(st.dummies@ =~= st0.dummies@);
                if constant {
                    Ok(None)
                } else {
                    proof {
                        lemma_term_model(t, args);
                    }
                    Ok(Some(Mm0ExprNode::Expr(t, args)))
                }
            },
        }
    }

    fn mm0_parse_name<T, F: FnMut(&LispVal, AtomId) -> Option<T>>(
        &self,
        base: &FileSpan,
        get: &mut F,
        st: &mut Mm0<T>,
        e: &LispVal,
        a: AtomId,
    ) -> (r: Result<Option<Mm0ExprNode>, ElabError>)
        requires
            forall|x: LispVal, a: AtomId| #[trigger] call_requires(*old(get), (&x, a)),
            old(st).wf(),
            from_get(*old(get), old(st).log@),
            e@.as_atom() == Some(a),
        ensures
            final(st).wf(),
            *final(get) == *old(get),
            from_get(*old(get), final(st).log@),
            old(st).log@.is_prefix_of(final(st).log@),
            r is Ok ==> final(st).dummies@ == old(st).dummies@,
            forall|ans: Seq<Option<T>>|
                extends(ans, final(st).log@) ==> #[trigger] self.grammar(*base).mm0_node_opt(
                    ans,
                    old(st).state(),
                    e@,
                ) == (final(st).state(), outcome(r)),
    {
        if contains_atom(&st.dummies, a) {
            return Ok(None);
        }
        if let Some(n) = st.vars.get(&a.0) {
            return Ok(Some(Mm0ExprNode::Var(*n)));
        }
        let ghost before = *st;
        let v = get(e, a);
        let ghost answer = Answer { e: *e, a, v };
        proof {
            st.log@ = st.log@.push(answer);
            assert(questions(st.log@) =~= questions(before.log@).push((e@, a)));
            assert(st.log@[before.log@.len() as int] == answer);
        }
        match v {
            Some(v) => {
                proof {
                    lemma_names(st.vars@.dom(), a.0);
                }
                let n = st.subst.len() as u32;
                st.vars.insert(a.0, n);
                st.subst.push(v);
                Ok(Some(Mm0ExprNode::Var(n)))
            },
            None => match self.fe.env.term(a) {
                Some((_, params)) => if params.len() != 0 {
                    Err(error_at(base, e, Message::TermArity(params.len())))
                } else {
                    Ok(None)
                },
                None => Err(error_at(base, e, Message::UnknownTerm(a))),
            },
        }
    }

    fn mm0_parse_args<T, F: FnMut(&LispVal, AtomId) -> Option<T>>(
        &self,
        base: &FileSpan,
        get: &mut F,
        st: &mut Mm0<T>,
        params: &Vec<ArgKind>,
        u: Uncons,
    ) -> (r: Result<(Vec<Mm0ExprNode>, bool), ElabError>)
        requires
            forall|x: LispVal, a: AtomId| #[trigger] call_requires(*old(get), (&x, a)),
            old(st).wf(),
            from_get(*old(get), old(st).log@),
            u@.items().len() == params@.len(),
        ensures
            final(st).wf(),
            *final(get) == *old(get),
            from_get(*old(get), final(st).log@),
            old(st).log@.is_prefix_of(final(st).log@),
            r is Ok ==> old(st).dummies@.is_prefix_of(final(st).dummies@),
            forall|ans: Seq<Option<T>>|
                extends(ans, final(st).log@) ==> #[trigger] self.grammar(*base).mm0_args(
                    ans,
                    old(st).state(),
                    Seq::empty(),
                    true,
                    params@,
                    u@.items(),
                ) == (final(st).state(), outcome(r)),
        decreases sizes(u@.items()), 2nat,
    {
        let ghost g = self.grammar(*base);
        let ghost st0 = *st;
        let mut it = u;
        let mut i: usize = 0;
        let mut constant = true;
        let mut args: Vec<Mm0ExprNode> = empty_vec();
        assert(params@.skip(0) =~= params@);
        while i < params.len()
            invariant
                g == self.grammar(*base),
                st0 == *old(st),
                forall|x: LispVal, a: AtomId| #[trigger] call_requires(*get, (&x, a)),
                i <= params@.len(),
                it@.items().len() == params@.len() - i,
                sizes(it@.items()) <= sizes(u@.items()),
                st.wf(),
                *get == *old(get),
                from_get(*get, st.log@),
                st0.log@.is_prefix_of(st.log@),
                st0.dummies@.is_prefix_of(st.dummies@),
                forall|ans: Seq<Option<T>>|
                    extends(ans, st.log@) ==> #[trigger] g.mm0_args(
                        ans,
                        st0.state(),
                        Seq::empty(),
                        true,
                        params@,
                        u@.items(),
                    ) == g.mm0_args(
                        ans,
                        st.state(),
                        args.deep_view(),
                        constant,
                        params@.skip(i as int),
                        it@.items(),
                    ),
            decreases params@.len() - i,
        {
            let ghost es = it@.items();
            let ghost st1 = *st;
            let ghost done = args.deep_view();
            proof {
                assert(params@.skip(i as int).drop_first() =~= params@.skip(i + 1));
            }
            match it.next() {
                Some(x) => match params[i] {
                    ArgKind::Bound => match x.as_atom() {
                        Some(a) => {
                            st.dummies.push(a);
                            assert(st.state() =~= st1.state().bind(a));
                            push_to(&mut args, Mm0ExprNode::Const(x));
                        },
                        None => {
                            return Err(error_at(base, &x, Message::ExpectedAtom));
                        },
                    },
                    ArgKind::Reg => {
                        let r = self.mm0_parse_node(base, get, st, x);
                        proof {
                            assert forall|ans: Seq<Option<T>>| extends(ans, st.log@) implies {
                                let all = #[trigger] g.mm0_args(
                                    ans,
                                    st0.state(),
                                    Seq::empty(),
                                    true,
                                    params@,
                                    u@.items(),
                                );
                                match r {
                                    Ok(n) => all == g.mm0_args(
                                        ans,
                                        st.state(),
                                        done.push(n.deep_view()),
                                        constant && n.deep_view() is Const,
                                        params@.skip(i + 1),
                                        es.drop_first(),
                                    ),
                                    Err(y) => all.0 == st.state() && all.1 == Err::<
                                        (Seq<Mm0View>, bool),
                                        ErrorView,
                                    >(y.deep_view()),
                                }
                            } by {
                                assert(extends(ans, st1.log@));
                                assert(g.mm0_node(ans, st1.state(), es[0]) == (
                                    st.state(),
                                    outcome(r),
                                ));
                            }
                        }
                        let n = r?;
                        if let Mm0ExprNode::Const(_) = &n {
                        } else {
                            constant = false;
                        }
                        push_to(&mut args, n);
                    },
                },
                None => {},
            }
            i = i + 1;
        }
        Ok((args, constant))
    }
}

} // verus!
