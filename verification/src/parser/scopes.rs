//! The scopes of the names that a formula binds.

use super::laws::law_formulas;
use super::mm0::{from_get, mm0_term, questions, values, Answer, Mm0State};
use super::Grammar;
use crate::ast::Mm0View;
use crate::env::{ArgKind, Environment, TermId};
use crate::lisp::{lemma_tail_smaller, sizes, AtomId, LispVal, Sexp};
use vstd::prelude::*;

verus! {

/// The term that a list starts with, with the kinds of its parameters.
pub open spec fn applied(env: Environment, e: Sexp) -> Option<(TermId, Seq<ArgKind>)> {
    if e.items().len() == 0 {
        None
    } else {
        match e.items()[0].as_atom() {
            Some(a) => env.term_of(a),
            None => None,
        }
    }
}

/// The places where names stand that nothing around them binds, from left to right. An argument for
/// a bound variable binds its name in the arguments after it.
pub open spec fn free_names(env: Environment, bound: Set<AtomId>, e: Sexp) -> Seq<(Sexp, AtomId)>
    decreases e.size(), 0nat,
{
    proof {
        lemma_tail_smaller(e);
    }
    match e.as_atom() {
        Some(a) => if bound.contains(a) {
            Seq::empty()
        } else {
            seq![(e, a)]
        },
        None => match applied(env, e) {
            Some((_, params)) => free_in_args(env, bound, params, e.tail().items()),
            None => Seq::empty(),
        },
    }
}

/// The places where free names stand in the arguments of a term.
pub open spec fn free_in_args(
    env: Environment,
    bound: Set<AtomId>,
    params: Seq<ArgKind>,
    es: Seq<Sexp>,
) -> Seq<(Sexp, AtomId)>
    decreases sizes(es), 1 + es.len(),
{
    if es.len() == 0 || params.len() == 0 {
        Seq::empty()
    } else {
        match params[0] {
            ArgKind::Bound => free_in_args(
                env,
                match es[0].as_atom() {
                    Some(a) => bound.insert(a),
                    None => bound,
                },
                params.drop_first(),
                es.drop_first(),
            ),
            ArgKind::Reg => free_names(env, bound, es[0]) + free_in_args(
                env,
                bound,
                params.drop_first(),
                es.drop_first(),
            ),
        }
    }
}

/// The names bound around the argument number `i` of a term: those bound around the term, and those
/// that the arguments before it bind.
pub open spec fn bound_at(
    bound: Set<AtomId>,
    params: Seq<ArgKind>,
    args: Seq<Sexp>,
    i: int,
) -> Set<AtomId>
    decreases i,
{
    if i <= 0 {
        bound
    } else {
        let before = bound_at(bound, params, args, i - 1);
        match (params[i - 1], args[i - 1].as_atom()) {
            (ArgKind::Bound, Some(a)) => before.insert(a),
            _ => before,
        }
    }
}

/// Which names have been asked for, where, and which of them had an answer.
#[verifier::ext_equal]
pub struct Asking {
    pub known: Set<u32>,
    pub asked: Seq<(Sexp, AtomId)>,
}

/// Asks for the names at these places one after the other, but for those that had an answer.
pub open spec fn asking<T>(ans: Seq<Option<T>>, s: Asking, places: Seq<(Sexp, AtomId)>) -> Asking
    decreases places.len(),
{
    if places.len() == 0 {
        s
    } else {
        let t = asking(ans, s, places.drop_last());
        let (e, a) = places.last();
        if t.known.contains(a.0) {
            t
        } else {
            Asking {
                known: if ans[t.asked.len() as int] is Some {
                    t.known.insert(a.0)
                } else {
                    t.known
                },
                asked: t.asked.push((e, a)),
            }
        }
    }
}

/// Nothing has been asked for.
pub open spec fn nothing_asked() -> Asking {
    Asking { known: Set::empty(), asked: Seq::empty() }
}

/// Whether every list in a formula starts with a term and has as many arguments as the term, and
/// there are names where it binds variables.
pub open spec fn readable(env: Environment, e: Sexp) -> bool
    decreases e.size(),
{
    proof {
        lemma_tail_smaller(e);
    }
    e.as_atom() is Some || {
        let args = e.tail().items();
        applied(env, e) matches Some((_, params)) && params.len() == args.len() && forall|i: int|
            0 <= i < args.len() ==> match params[i] {
                ArgKind::Bound => (#[trigger] args[i]).as_atom() is Some,
                ArgKind::Reg => readable(env, args[i]),
            }
    }
}

/// Whether a name is that of a term without arguments.
pub open spec fn nullary(env: Environment, a: AtomId) -> bool {
    env.term_of(a) matches Some((_, params)) && params.len() == 0
}

/// Whether the names that were asked for from number `n` on, and had no answer, are terms.
pub open spec fn rest_are_terms<T>(
    env: Environment,
    ans: Seq<Option<T>>,
    asked: Seq<(Sexp, AtomId)>,
    n: int,
) -> bool {
    forall|k: int|
        n <= k < asked.len() && ans[k] is None ==> nullary(env, (#[trigger] asked[k]).1)
}

/// Whether the name that stands here was asked for here, and had no answer.
pub open spec fn unanswered<T>(
    ans: Seq<Option<T>>,
    asked: Seq<(Sexp, AtomId)>,
    e: Sexp,
    a: AtomId,
) -> bool {
    exists|k: int| 0 <= k < asked.len() && #[trigger] asked[k] == (e, a) && ans[k] is None
}

/// The part of a formula that stands for the argument number `i`.
pub open spec fn part(f: Mm0View, args: Seq<Sexp>, i: int) -> Mm0View {
    match f {
        Mm0View::Expr(_, fs) => fs[i],
        _ => Mm0View::Const(args[i]),
    }
}

/// Whether a formula respects the scopes of the names in its source. A variable stands only where
/// its name is not bound. A name stands for itself only where it is bound, or had no answer.
pub open spec fn scoped<T>(
    env: Environment,
    ans: Seq<Option<T>>,
    asked: Seq<(Sexp, AtomId)>,
    bound: Set<AtomId>,
    f: Mm0View,
    e: Sexp,
) -> bool
    decreases e.size(),
{
    proof {
        lemma_tail_smaller(e);
    }
    match e.as_atom() {
        Some(a) => match f {
            Mm0View::Var(_) => !bound.contains(a),
            Mm0View::Const(x) => x == e && (bound.contains(a) || unanswered(ans, asked, e, a)),
            Mm0View::Expr(_, _) => false,
        },
        None => {
            let args = e.tail().items();
            &&& f !is Var
            &&& f matches Mm0View::Expr(_, fs) ==> fs.len() == args.len()
            &&& applied(env, e) matches Some((_, params)) && forall|i: int|
                0 <= i < args.len() ==> match params[i] {
                    ArgKind::Bound => part(f, args, i) == Mm0View::Const(#[trigger] args[i]),
                    ArgKind::Reg => scoped(
                        env,
                        ans,
                        asked,
                        bound_at(bound, params, args, i),
                        part(f, args, i),
                        args[i],
                    ),
                }
        },
    }
}

/// The names that are asked for are those that nothing binds, in the order in which they stand, but
/// for those that had an answer. A formula is read exactly where it is built from terms and the names
/// without an answer are terms. No variable stands where its name is bound.
pub proof fn law_formula_scopes<T>(g: Grammar, ans: Seq<Option<T>>, e: Sexp)
    ensures
        ({
            let (st, r) = g.mm0_node(ans, Mm0State::start(), e);
            let s = asking(ans, nothing_asked(), free_names(g.env, Set::empty(), e));
            &&& r is Ok <==> readable(g.env, e) && rest_are_terms(g.env, ans, s.asked, 0)
            &&& r is Ok ==> st.asked == s.asked && st.vars.dom() == s.known
            &&& r matches Ok(f) ==> scoped(g.env, ans, st.asked, Set::empty(), f, e)
        }),
{
    let st = Mm0State::<T>::start();
    assert(st.vars.dom() =~= Set::empty());
    assert(asked_in(st) == nothing_asked());
    lemma_scopes(g, ans, st, Set::empty(), e);
}

/// What has been asked for.
spec fn asked_in<T>(st: Mm0State<T>) -> Asking {
    Asking { known: st.vars.dom(), asked: st.asked }
}

/// Asking in two parts.
proof fn lemma_asking_add<T>(
    ans: Seq<Option<T>>,
    s: Asking,
    a: Seq<(Sexp, AtomId)>,
    b: Seq<(Sexp, AtomId)>,
)
    ensures
        asking(ans, s, a + b) == asking(ans, asking(ans, s, a), b),
    decreases b.len(),
{
    if b.len() == 0 {
        assert(a + b =~= a);
    } else {
        assert((a + b).drop_last() =~= a + b.drop_last());
        lemma_asking_add(ans, s, a, b.drop_last());
    }
}

/// What was asked for stays so.
proof fn lemma_asking_prefix<T>(ans: Seq<Option<T>>, s: Asking, places: Seq<(Sexp, AtomId)>)
    ensures
        s.asked.is_prefix_of(asking(ans, s, places).asked),
    decreases places.len(),
{
    if places.len() > 0 {
        lemma_asking_prefix(ans, s, places.drop_last());
    }
}

/// A formula respects the scopes of names after more has been asked for.
proof fn lemma_scoped_grows<T>(
    env: Environment,
    ans: Seq<Option<T>>,
    asked: Seq<(Sexp, AtomId)>,
    more: Seq<(Sexp, AtomId)>,
    bound: Set<AtomId>,
    f: Mm0View,
    e: Sexp,
)
    requires
        scoped(env, ans, asked, bound, f, e),
        asked.is_prefix_of(more),
    ensures
        scoped(env, ans, more, bound, f, e),
    decreases e.size(),
{
    lemma_tail_smaller(e);
    match e.as_atom() {
        Some(a) => {
            if unanswered(ans, asked, e, a) {
                let k = choose|k: int|
                    0 <= k < asked.len() && #[trigger] asked[k] == (e, a) && ans[k] is None;
                assert(more[k] == (e, a));
            }
        },
        None => {
            let args = e.tail().items();
            let params = applied(env, e).unwrap().1;
            assert forall|i: int| 0 <= i < args.len() implies match params[i] {
                ArgKind::Bound => part(f, args, i) == Mm0View::Const(#[trigger] args[i]),
                ArgKind::Reg => scoped(
                    env,
                    ans,
                    more,
                    bound_at(bound, params, args, i),
                    part(f, args, i),
                    args[i],
                ),
            } by {
                if params[i] == ArgKind::Reg {
                    lemma_scoped_grows(
                        env,
                        ans,
                        asked,
                        more,
                        bound_at(bound, params, args, i),
                        part(f, args, i),
                        args[i],
                    );
                }
            }
        },
    }
}

/// Whether the names that are bound are these.
spec fn binds<T>(st: Mm0State<T>, bound: Set<AtomId>) -> bool {
    forall|a: AtomId| #[trigger] bound.contains(a) <==> st.dummies.contains(a)
}

proof fn lemma_scopes<T>(
    g: Grammar,
    ans: Seq<Option<T>>,
    st: Mm0State<T>,
    bound: Set<AtomId>,
    e: Sexp,
)
    requires
        st.consistent(),
        binds(st, bound),
    ensures
        ({
            let (st1, r) = g.mm0_node(ans, st, e);
            let s = asking(ans, asked_in(st), free_names(g.env, bound, e));
            &&& r is Ok <==> readable(g.env, e) && rest_are_terms(
                g.env,
                ans,
                s.asked,
                st.asked.len() as int,
            )
            &&& r matches Ok(f) ==> {
                &&& asked_in(st1) == s
                &&& scoped(g.env, ans, st1.asked, bound, f, e)
            }
        }),
    decreases e.size(), 1nat,
{
    lemma_tail_smaller(e);
    let n = st.asked.len() as int;
    match e.as_atom() {
        Some(a) => {
            reveal_with_fuel(asking, 2);
            let places = free_names(g.env, bound, e);
            if bound.contains(a) {
                assert(st.dummies.contains(a));
            } else {
                assert(places.drop_last() =~= Seq::empty());
                assert(asking(ans, asked_in(st), places.drop_last()) == asked_in(st));
                if !st.vars.contains_key(a.0) {
                    let s = asking(ans, asked_in(st), places);
                    assert(s.asked[n] == (e, a));
                    let (st1, r) = g.mm0_node(ans, st, e);
                    if r is Ok {
                        assert(asked_in(st1) =~= s);
                    }
                }
            }
        },
        None => {
            let args = e.tail().items();
            if let Some((t, params)) = applied(g.env, e) {
                if args.len() == params.len() {
                    let none = Seq::<Mm0View>::empty();
                    assert(args.skip(0) =~= args);
                    assert(params.skip(0) =~= params);
                    lemma_scopes_args(g, ans, st, bound, params, args, 0, none, true);
                    let found = g.mm0_args(ans, st, none, true, params, args);
                    assert(g.mm0_node_opt(ans, st, e) == mm0_term(t, st.dummies, found));
                    if let (st1, Ok((fs, c))) = found {
                        let f = if c {
                            Mm0View::Const(e)
                        } else {
                            Mm0View::Expr(t, fs)
                        };
                        assert forall|i: int| 0 <= i < args.len() implies match params[i] {
                            ArgKind::Bound => part(f, args, i) == Mm0View::Const(#[trigger] args[i]),
                            ArgKind::Reg => scoped(
                                g.env,
                                ans,
                                st1.asked,
                                bound_at(bound, params, args, i),
                                part(f, args, i),
                                args[i],
                            ),
                        } by {
                            assert(part(f, args, i) == fs[i]);
                        }
                    }
                }
            }
        },
    }
}

/// Whether the arguments of a term from number `i` on can be read.
spec fn readable_from(env: Environment, params: Seq<ArgKind>, args: Seq<Sexp>, i: int) -> bool {
    forall|j: int|
        i <= j < args.len() ==> match params[j] {
            ArgKind::Bound => (#[trigger] args[j]).as_atom() is Some,
            ArgKind::Reg => readable(env, args[j]),
        }
}

/// Whether the first arguments of a term respect the scopes of names.
spec fn args_scoped<T>(
    env: Environment,
    ans: Seq<Option<T>>,
    asked: Seq<(Sexp, AtomId)>,
    bound: Set<AtomId>,
    params: Seq<ArgKind>,
    args: Seq<Sexp>,
    done: Seq<Mm0View>,
    constant: bool,
) -> bool {
    forall|j: int|
        0 <= j < done.len() ==> {
            &&& (#[trigger] done[j]) is Const ==> done[j] == Mm0View::Const(args[j])
            &&& constant ==> done[j] is Const
            &&& match params[j] {
                ArgKind::Bound => done[j] is Const,
                ArgKind::Reg => scoped(
                    env,
                    ans,
                    asked,
                    bound_at(bound, params, args, j),
                    done[j],
                    args[j],
                ),
            }
        }
}

proof fn lemma_scopes_args<T>(
    g: Grammar,
    ans: Seq<Option<T>>,
    st: Mm0State<T>,
    bound: Set<AtomId>,
    params: Seq<ArgKind>,
    args: Seq<Sexp>,
    i: int,
    done: Seq<Mm0View>,
    constant: bool,
)
    requires
        st.consistent(),
        params.len() == args.len(),
        0 <= i <= args.len(),
        done.len() == i,
        binds(st, bound_at(bound, params, args, i)),
        args_scoped(g.env, ans, st.asked, bound, params, args, done, constant),
    ensures
        ({
            let (st1, r) = g.mm0_args(ans, st, done, constant, params.skip(i), args.skip(i));
            let places = free_in_args(
                g.env,
                bound_at(bound, params, args, i),
                params.skip(i),
                args.skip(i),
            );
            let s = asking(ans, asked_in(st), places);
            &&& r is Ok <==> readable_from(g.env, params, args, i) && rest_are_terms(
                g.env,
                ans,
                s.asked,
                st.asked.len() as int,
            )
            &&& r matches Ok((fs, c)) ==> {
                &&& asked_in(st1) == s
                &&& fs.len() == args.len()
                &&& args_scoped(g.env, ans, st1.asked, bound, params, args, fs, c)
            }
        }),
    decreases sizes(args.skip(i)), 2 + (args.len() - i),
{
    let es = args.skip(i);
    let ps = params.skip(i);
    let here = bound_at(bound, params, args, i);
    let n = st.asked.len() as int;
    if i < args.len() {
        assert(es[0] == args[i]);
        assert(ps[0] == params[i]);
        assert(es.drop_first() =~= args.skip(i + 1));
        assert(ps.drop_first() =~= params.skip(i + 1));
        assert(sizes(es) == es[0].size() + sizes(es.drop_first()));
        match params[i] {
            ArgKind::Bound => {
                if let Some(a) = args[i].as_atom() {
                    let st1 = st.bind(a);
                    let more = done.push(Mm0View::Const(args[i]));
                    let next = bound_at(bound, params, args, i + 1);
                    assert(next == here.insert(a));
                    assert(st1.dummies =~= st.dummies.push(a));
                    assert forall|b: AtomId| #[trigger]
                        next.contains(b) <==> st1.dummies.contains(b) by {
                        if here.contains(b) {
                            assert(st.dummies.contains(b));
                            let k = choose|k: int|
                                0 <= k < st.dummies.len() && st.dummies[k] == b;
                            assert(st1.dummies[k] == b);
                        }
                        assert(st1.dummies[st.dummies.len() as int] == a);
                        if st1.dummies.contains(b) && b != a {
                            let k = choose|k: int|
                                0 <= k < st1.dummies.len() && st1.dummies[k] == b;
                            assert(st.dummies[k] == b);
                            assert(st.dummies.contains(b));
                        }
                    }
                    assert(asked_in(st1) == asked_in(st));
                    lemma_scopes_args(g, ans, st1, bound, params, args, i + 1, more, constant);
                    lemma_readable_from(g.env, params, args, i);
                } else {
                    assert(!readable_from(g.env, params, args, i));
                }
            },
            ArgKind::Reg => {
                law_formulas(g, ans, st, args[i]);
                lemma_scopes(g, ans, st, here, args[i]);
                let first = free_names(g.env, here, args[i]);
                let others = free_in_args(g.env, here, ps.drop_first(), es.drop_first());
                let s0 = asking(ans, asked_in(st), first);
                let s = asking(ans, s0, others);
                lemma_asking_add(ans, asked_in(st), first, others);
                lemma_asking_prefix(ans, asked_in(st), first);
                lemma_asking_prefix(ans, s0, others);
                lemma_readable_from(g.env, params, args, i);
                lemma_rest_are_terms(g.env, ans, s0.asked, s.asked, n);
                assert(bound_at(bound, params, args, i + 1) == here);
                if let (st1, Ok(f)) = g.mm0_node(ans, st, args[i]) {
                    let more = done.push(f);
                    assert forall|j: int| 0 <= j < more.len() implies {
                        &&& (#[trigger] more[j]) is Const ==> more[j] == Mm0View::Const(args[j])
                        &&& (constant && f is Const) ==> more[j] is Const
                        &&& match params[j] {
                            ArgKind::Bound => more[j] is Const,
                            ArgKind::Reg => scoped(
                                g.env,
                                ans,
                                st1.asked,
                                bound_at(bound, params, args, j),
                                more[j],
                                args[j],
                            ),
                        }
                    } by {
                        if j < i {
                            assert(more[j] == done[j]);
                            if params[j] == ArgKind::Reg {
                                lemma_scoped_grows(
                                    g.env,
                                    ans,
                                    st.asked,
                                    st1.asked,
                                    bound_at(bound, params, args, j),
                                    done[j],
                                    args[j],
                                );
                            }
                        }
                    }
                    lemma_scopes_args(
                        g,
                        ans,
                        st1,
                        bound,
                        params,
                        args,
                        i + 1,
                        more,
                        constant && f is Const,
                    );
                }
            },
        }
    } else {
        assert(es =~= Seq::empty());
        assert(ps =~= Seq::empty());
    }
}

proof fn lemma_readable_from(env: Environment, params: Seq<ArgKind>, args: Seq<Sexp>, i: int)
    requires
        0 <= i < args.len(),
    ensures
        readable_from(env, params, args, i) <==> readable_from(env, params, args, i + 1) && match
            params[i] {
            ArgKind::Bound => args[i].as_atom() is Some,
            ArgKind::Reg => readable(env, args[i]),
        },
{
    if readable_from(env, params, args, i) {
        assert(match params[i] {
            ArgKind::Bound => args[i].as_atom() is Some,
            ArgKind::Reg => readable(env, args[i]),
        });
    }
}

proof fn lemma_rest_are_terms<T>(
    env: Environment,
    ans: Seq<Option<T>>,
    asked: Seq<(Sexp, AtomId)>,
    more: Seq<(Sexp, AtomId)>,
    n: int,
)
    requires
        asked.is_prefix_of(more),
        0 <= n <= asked.len(),
    ensures
        rest_are_terms(env, ans, more, n) <==> rest_are_terms(env, ans, asked, n)
            && rest_are_terms(env, ans, more, asked.len() as int),
{
    if rest_are_terms(env, ans, more, n) {
        assert forall|k: int| n <= k < asked.len() && ans[k] is None implies nullary(
            env,
            (#[trigger] asked[k]).1,
        ) by {
            assert(more[k] == asked[k]);
        }
    }
    if rest_are_terms(env, ans, asked, n) && rest_are_terms(env, ans, more, asked.len() as int) {
        assert forall|k: int| n <= k < more.len() && ans[k] is None implies nullary(
            env,
            (#[trigger] more[k]).1,
        ) by {
            if k < asked.len() {
                assert(more[k] == asked[k]);
            }
        }
    }
}

/// The answers in a log are those that were given to the questions in it, one by one.
pub proof fn law_formula_answers<T, F: FnMut(&LispVal, AtomId) -> Option<T>>(
    get: F,
    log: Seq<Answer<T>>,
    k: int,
)
    requires
        from_get(get, log),
        0 <= k < log.len(),
    ensures
        values(log).len() == log.len(),
        questions(log).len() == log.len(),
        questions(log)[k] == (log[k].e@, log[k].a),
        call_ensures(get, (&log[k].e, log[k].a), values(log)[k]),
{
    assert(call_ensures(get, (&log[k].e, log[k].a), log[k].v));
}

} // verus!
