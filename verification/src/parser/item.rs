//! Top level items.

use super::{error_at, lemma_prepend_empty, lemma_prepend_prepend, prepend, spanned};
use super::{Grammar, Parser};
use crate::ast::{Item, ItemKind, ItemView, MutOut, Proc, ProcKind, ProcView};
use crate::ast::{TuplePattern, TupleView};
use crate::error::{outcome, ElabError, ErrorView, Message};
use crate::keyword::Keyword;
use crate::lisp::{lemma_tail, AtomId, LispKind, LispVal, Sexp, COLON};
use crate::span::{FileSpan, Spanned};
use crate::uncons::Uncons;
use crate::vecs::{append_to, empty_vec};
use vstd::prelude::*;

verus! {

/// The keyword that introduces a procedure.
#[derive(Clone, Copy, Debug, PartialEq, Eq, Structural)]
pub enum ProcWord {
    Proc,
    Func,
    Intrinsic,
}

/// What one form at the top level introduces: an item, or a group of declarations.
#[derive(Debug)]
enum ItemGroup {
    Item(Item),
    Global(Uncons),
    Const(Uncons),
}

/// The model of what one form at the top level introduces.
pub enum GroupView {
    Item(Spanned<ItemView>),
    Global(Sexp),
    Const(Sexp),
}

impl DeepView for ItemGroup {
    type V = GroupView;

    closed spec fn deep_view(&self) -> GroupView {
        match *self {
            ItemGroup::Item(it) => GroupView::Item(it.deep_view()),
            ItemGroup::Global(u) => GroupView::Global(u@),
            ItemGroup::Const(u) => GroupView::Const(u@),
        }
    }
}

/// The group of declarations that the iteration is in.
#[derive(Debug)]
enum ItemIterInner {
    New,
    Global(Uncons),
    Const(Uncons),
}

/// An iterator over items. It is used with the [`Parser::parse_next_item`] method to extract a
/// stream of items.
#[derive(Debug)]
pub struct ItemIter {
    group: ItemIterInner,
    rest: Uncons,
}

/// The model of an iteration over items.
pub enum ItemsView {
    /// Between two forms, with the forms that are left.
    New(Sexp),
    /// Among global declarations, with those that are left, and the forms after them.
    Global(Sexp, Sexp),
    /// Among constant declarations, with those that are left, and the forms after them.
    Const(Sexp, Sexp),
}

impl ItemsView {
    /// The forms that have not been entered.
    pub open spec fn forms(self) -> Sexp {
        match self {
            ItemsView::New(rest) => rest,
            ItemsView::Global(_, rest) => rest,
            ItemsView::Const(_, rest) => rest,
        }
    }

    /// The declarations that are left in the group.
    pub open spec fn decls(self) -> Seq<Sexp> {
        match self {
            ItemsView::New(_) => Seq::empty(),
            ItemsView::Global(es, _) => es.items(),
            ItemsView::Const(es, _) => es.items(),
        }
    }
}

impl View for ItemIter {
    type V = ItemsView;

    closed spec fn view(&self) -> ItemsView {
        match self.group {
            ItemIterInner::New => ItemsView::New(self.rest@),
            ItemIterInner::Global(u) => ItemsView::Global(u@, self.rest@),
            ItemIterInner::Const(u) => ItemsView::Const(u@, self.rest@),
        }
    }
}

/// The place of the first `:` among the elements, or their number where there is none.
pub open spec fn colon_index(es: Seq<Sexp>) -> int
    decreases es.len(),
{
    if es.len() == 0 {
        0
    } else if es[0].as_atom() matches Some(a) && a.0 == COLON {
        0
    } else {
        1 + colon_index(es.drop_first())
    }
}

/// The first `:` is one of the elements, or there is none.
pub proof fn lemma_colon_index(es: Seq<Sexp>)
    ensures
        0 <= colon_index(es) <= es.len(),
    decreases es.len(),
{
    if es.len() > 0 {
        lemma_colon_index(es.drop_first());
    }
}

/// What follows the first `:`.
pub open spec fn after_colon(es: Seq<Sexp>) -> Seq<Sexp> {
    if colon_index(es) < es.len() {
        es.skip(colon_index(es) + 1)
    } else {
        Seq::empty()
    }
}

/// The name of a procedure with its arguments and its results.
pub struct Signature {
    pub name: Spanned<AtomId>,
    pub args: Seq<(MutOut, Spanned<TupleView>)>,
    pub rets: Seq<(MutOut, Spanned<TupleView>)>,
}

/// An item, as what an iteration gives.
pub open spec fn some_item(r: Result<Spanned<ItemView>, ErrorView>) -> Result<
    Option<Spanned<ItemView>>,
    ErrorView,
> {
    match r {
        Ok(item) => Ok(Some(item)),
        Err(x) => Err(x),
    }
}

impl Grammar {
    /// `name` or `(name args.. : rets..)`.
    pub open spec fn signature(self, e: Sexp) -> Result<Signature, ErrorView> {
        match e.unwrapped() {
            Sexp::Atom(a) => Ok(
                Signature { name: self.at(e, a), args: Seq::empty(), rets: Seq::empty() },
            ),
            Sexp::List(_) => self.full_signature(e),
            Sexp::DottedList(_, _) => self.full_signature(e),
            _ => Err(self.error(e, Message::ProcSyntax)),
        }
    }

    /// `(name args.. : rets..)`, where the colon and the results can be left out.
    pub open spec fn full_signature(self, e: Sexp) -> Result<Signature, ErrorView> {
        if e.items().len() == 0 {
            Err(self.error(e, Message::ProcName))
        } else {
            let f = e.items()[0];
            match f.as_atom() {
                Some(a) => {
                    let es = e.tail().items();
                    match self.args(true, es.take(colon_index(es))) {
                        Ok(args) => match self.args(false, after_colon(es)) {
                            Ok(rets) => Ok(Signature { name: self.at(f, a), args, rets }),
                            Err(x) => Err(x),
                        },
                        Err(x) => Err(x),
                    }
                },
                None => Err(self.error(f, Message::ProcAtom)),
            }
        }
    }

    /// The kind of a procedure that `word` introduces, in the item `e`.
    pub open spec fn proc_kind(self, e: Sexp, word: ProcWord, name: AtomId) -> Result<
        ProcKind,
        ErrorView,
    > {
        match word {
            ProcWord::Proc => Ok(ProcKind::Proc),
            ProcWord::Func => Ok(ProcKind::Func),
            ProcWord::Intrinsic => match self.env.intrinsic_of(name) {
                Some(i) => Ok(ProcKind::Intrinsic(i)),
                None => Err(self.error(e, Message::UnknownIntrinsic)),
            },
        }
    }

    /// `signature body..`, which follows `word` in the item `e`. The body may start with a variant,
    /// and there must be none where the compiler provides the routine.
    pub open spec fn procedure(self, e: Sexp, word: ProcWord, rest: Sexp) -> Result<
        ProcView,
        ErrorView,
    > {
        if rest.items().len() == 0 {
            Err(self.error(rest, Message::ProcSyntax))
        } else {
            match self.signature(rest.items()[0]) {
                Ok(sig) => match self.proc_kind(e, word, sig.name.k) {
                    Ok(kind) => {
                        let body = rest.tail();
                        if body.items().len() > 0 && kind is Intrinsic {
                            Err(self.error(body.items()[0], Message::IntrinsicBody))
                        } else {
                            Ok(
                                ProcView {
                                    name: sig.name,
                                    args: sig.args,
                                    rets: sig.rets,
                                    variant: if body.items().len() > 0 {
                                        self.variant(body.items()[0])
                                    } else {
                                        None
                                    },
                                    kind,
                                    body,
                                },
                            )
                        }
                    },
                    Err(x) => Err(x),
                },
                Err(x) => Err(x),
            }
        }
    }

    /// `name` or `(name args..)`.
    pub open spec fn name_and_tyargs(self, e: Sexp) -> Result<
        (Spanned<AtomId>, Seq<Spanned<TupleView>>),
        ErrorView,
    > {
        match e.unwrapped() {
            Sexp::Atom(a) => Ok((self.at(e, a), Seq::empty())),
            Sexp::List(_) => self.name_with_tyargs(e),
            Sexp::DottedList(_, _) => self.name_with_tyargs(e),
            _ => Err(self.error(e, Message::TypedefSyntax)),
        }
    }

    /// `(name args..)`.
    pub open spec fn name_with_tyargs(self, e: Sexp) -> Result<
        (Spanned<AtomId>, Seq<Spanned<TupleView>>),
        ErrorView,
    > {
        if e.items().len() == 0 {
            Err(self.error(e, Message::TypedefSyntax))
        } else {
            let f = e.items()[0];
            match f.as_atom() {
                Some(a) => match self.args1(true, e.tail().items()) {
                    Ok(args) => Ok((self.at(f, a), args)),
                    Err(x) => Err(x),
                },
                None => Err(self.error(f, Message::TypedefAtom)),
            }
        }
    }

    /// A procedure as an item.
    pub open spec fn proc_item(self, e: Sexp, word: ProcWord, rest: Sexp) -> Result<
        GroupView,
        ErrorView,
    > {
        match self.procedure(e, word, rest) {
            Ok(p) => Ok(GroupView::Item(self.at(e, ItemView::Proc(p)))),
            Err(x) => Err(x),
        }
    }

    /// A form at the top level.
    pub open spec fn item_group(self, e: Sexp) -> Result<GroupView, ErrorView> {
        match self.head_keyword(e) {
            Some((Keyword::Proc, rest)) => self.proc_item(e, ProcWord::Proc, rest),
            Some((Keyword::Func, rest)) => self.proc_item(e, ProcWord::Func, rest),
            Some((Keyword::Intrinsic, rest)) => self.proc_item(e, ProcWord::Intrinsic, rest),
            Some((Keyword::Global, rest)) => Ok(GroupView::Global(rest)),
            Some((Keyword::Const, rest)) => Ok(GroupView::Const(rest)),
            Some((Keyword::Typedef, rest)) => match rest.pair() {
                Some((sig, val)) => match self.name_and_tyargs(sig) {
                    Ok((name, args)) => Ok(
                        GroupView::Item(self.at(e, ItemView::Typedef { name, args, val })),
                    ),
                    Err(x) => Err(x),
                },
                None => Err(self.error(e, Message::TypedefSyntax)),
            },
            Some((Keyword::Struct, rest)) => if rest.items().len() == 0 {
                Err(self.error(e, Message::StructName))
            } else {
                match self.name_and_tyargs(rest.items()[0]) {
                    Ok((name, args)) => match self.args1(false, rest.tail().items()) {
                        Ok(fields) => Ok(
                            GroupView::Item(self.at(e, ItemView::Struct { name, args, fields })),
                        ),
                        Err(x) => Err(x),
                    },
                    Err(x) => Err(x),
                }
            },
            _ => Err(self.error(e, Message::UnknownItem(e))),
        }
    }

    /// A declaration as an item.
    pub open spec fn decl_item(self, is_const: bool, e: Sexp) -> Result<
        Spanned<ItemView>,
        ErrorView,
    > {
        match self.decl(e) {
            Ok(d) => Ok(
                Spanned {
                    span: d.span,
                    k: if is_const {
                        ItemView::Const(d.k.0, d.k.1)
                    } else {
                        ItemView::Global(d.k.0, d.k.1)
                    },
                },
            ),
            Err(x) => Err(x),
        }
    }

    /// The next item of an iteration, and where the iteration stands after it. A form or a
    /// declaration that is wrong is left behind too.
    pub open spec fn next_item(self, it: ItemsView) -> (
        ItemsView,
        Result<Option<Spanned<ItemView>>, ErrorView>,
    )
        decreases
                it.forms().items().len(),
                (if it is New {
                    0int
                } else {
                    1int
                }),
    {
        proof {
            lemma_tail(it.forms());
        }
        match it {
            ItemsView::New(rest) => if rest.items().len() == 0 {
                (it, Ok(None))
            } else {
                match self.item_group(rest.items()[0]) {
                    Ok(GroupView::Item(item)) => (ItemsView::New(rest.tail()), Ok(Some(item))),
                    Ok(GroupView::Global(es)) => self.next_item(
                        ItemsView::Global(es, rest.tail()),
                    ),
                    Ok(GroupView::Const(es)) => self.next_item(ItemsView::Const(es, rest.tail())),
                    Err(x) => (ItemsView::New(rest.tail()), Err(x)),
                }
            },
            ItemsView::Global(es, rest) => if es.items().len() == 0 {
                self.next_item(ItemsView::New(rest))
            } else {
                (ItemsView::Global(es.tail(), rest), some_item(self.decl_item(false, es.items()[0])))
            },
            ItemsView::Const(es, rest) => if es.items().len() == 0 {
                self.next_item(ItemsView::New(rest))
            } else {
                (ItemsView::Const(es.tail(), rest), some_item(self.decl_item(true, es.items()[0])))
            },
        }
    }
}

impl ItemIter {
    /// Construct a new iterator from a list of forms.
    #[must_use]
    pub fn new(e: LispVal) -> (r: ItemIter)
        ensures
            r@ == ItemsView::New(e@),
    {
        ItemIter { group: ItemIterInner::New, rest: Uncons::new(e) }
    }
}

impl<'a> Parser<'a> {
    fn parse_signature(&self, base: &FileSpan, e: &LispVal) -> (r: Result<
        (Spanned<AtomId>, Vec<(MutOut, TuplePattern)>, Vec<(MutOut, TuplePattern)>),
        ElabError,
    >)
        ensures
            match (r, self.grammar(*base).signature(e@)) {
                (Ok((name, args, rets)), Ok(sig)) => sig == (Signature {
                    name,
                    args: args.deep_view(),
                    rets: rets.deep_view(),
                }),
                (Err(x), Err(y)) => x.deep_view() == y,
                _ => false,
            },
    {
        match e.unwrapped() {
            LispKind::Atom(a) => Ok((spanned(base, e, *a), empty_vec(), empty_vec())),
            LispKind::List(_) | LispKind::DottedList(_, _) => {
                let mut u = Uncons::new(e.clone());
                let f = match u.next() {
                    Some(f) => f,
                    None => {
                        return Err(error_at(base, e, Message::ProcName));
                    },
                };
                let name = match f.as_atom() {
                    Some(a) => spanned(base, &f, a),
                    None => {
                        return Err(error_at(base, &f, Message::ProcAtom));
                    },
                };
                let args = self.parse_args_to_colon(base, &mut u)?;
                let rets = self.parse_args(base, u, false)?;
                Ok((name, args, rets))
            },
            _ => Err(error_at(base, e, Message::ProcSyntax)),
        }
    }

    /// Parse arguments up to a `:`, and go past it.
    fn parse_args_to_colon(&self, base: &FileSpan, u: &mut Uncons) -> (r: Result<
        Vec<(MutOut, TuplePattern)>,
        ElabError,
    >)
        ensures
            outcome(r) == self.grammar(*base).args(
                true,
                old(u)@.items().take(colon_index(old(u)@.items())),
            ),
            r is Ok ==> final(u)@.items() == after_colon(old(u)@.items()),
    {
        let ghost g = self.grammar(*base);
        let ghost all = u@.items();
        let mut args: Vec<(MutOut, TuplePattern)> = empty_vec();
        proof {
            lemma_prepend_empty(g.args(true, all.take(colon_index(all))));
        }
        loop
            invariant
                g == self.grammar(*base),
                all == old(u)@.items(),
                g.args(true, all.take(colon_index(all))) == prepend(
                    args.deep_view(),
                    g.args(true, u@.items().take(colon_index(u@.items()))),
                ),
                after_colon(all) == after_colon(u@.items()),
            decreases u@.items().len(),
        {
            let ghost es = u@.items();
            proof {
                lemma_colon_index(es);
            }
            match u.next() {
                Some(e) => {
                    proof {
                        lemma_colon_index(es.drop_first());
                    }
                    if let Some(a) = e.as_atom() {
                        if a.0 == COLON {
                            assert(es.skip(1) =~= es.drop_first());
                            assert(es.take(0) =~= Seq::empty());
                            assert(args.deep_view() + Seq::empty() =~= args.deep_view());
                            return Ok(args);
                        }
                    }
                    proof {
                        let n = colon_index(es);
                        assert(es.take(n).drop_first() =~= es.drop_first().take(n - 1));
                        assert(es.take(n)[0] == es[0]);
                        if n < es.len() {
                            assert(es.skip(n + 1) =~= es.drop_first().skip(n));
                        }
                    }
                    let ps = self.parse_arg(base, e, true)?;
                    proof {
                        lemma_prepend_prepend(
                            args.deep_view(),
                            ps.deep_view(),
                            g.args(true, u@.items().take(colon_index(u@.items()))),
                        );
                    }
                    append_to(&mut args, ps);
                },
                None => {
                    assert(args.deep_view() + Seq::empty() =~= args.deep_view());
                    return Ok(args);
                },
            }
        }
    }

    fn parse_proc(&self, base: &FileSpan, e: &LispVal, word: ProcWord, u: Uncons) -> (r: Result<
        Proc,
        ElabError,
    >)
        ensures
            outcome(r) == self.grammar(*base).procedure(e@, word, u@),
    {
        let mut u = u;
        let sig = match u.next() {
            Some(x) => x,
            None => {
                return Err(error_at(base, &u.as_lisp(), Message::ProcSyntax));
            },
        };
        let (name, args, rets) = self.parse_signature(base, &sig)?;
        let kind = match word {
            ProcWord::Proc => ProcKind::Proc,
            ProcWord::Func => ProcKind::Func,
            ProcWord::Intrinsic => match self.fe.env.intrinsic(name.k) {
                Some(i) => ProcKind::Intrinsic(i),
                None => {
                    return Err(error_at(base, e, Message::UnknownIntrinsic));
                },
            },
        };
        let variant = match u.head() {
            Some(x) => {
                if let ProcKind::Intrinsic(_) = kind {
                    return Err(error_at(base, &x, Message::IntrinsicBody));
                }
                self.parse_variant(base, &x)
            },
            None => None,
        };
        Ok(Proc { name, args, rets, variant, kind, body: u })
    }

    fn parse_name_and_tyargs(&self, base: &FileSpan, e: &LispVal) -> (r: Result<
        (Spanned<AtomId>, Vec<TuplePattern>),
        ElabError,
    >)
        ensures
            match (r, self.grammar(*base).name_and_tyargs(e@)) {
                (Ok((name, args)), Ok(k)) => k == (name, args.deep_view()),
                (Err(x), Err(y)) => x.deep_view() == y,
                _ => false,
            },
    {
        match e.unwrapped() {
            LispKind::Atom(a) => Ok((spanned(base, e, *a), empty_vec())),
            LispKind::List(_) | LispKind::DottedList(_, _) => {
                let mut u = Uncons::new(e.clone());
                match u.next() {
                    Some(f) => match f.as_atom() {
                        Some(a) => {
                            let args = self.parse_args1(base, u, true)?;
                            Ok((spanned(base, &f, a), args))
                        },
                        None => Err(error_at(base, &f, Message::TypedefAtom)),
                    },
                    None => Err(error_at(base, e, Message::TypedefSyntax)),
                }
            },
            _ => Err(error_at(base, e, Message::TypedefSyntax)),
        }
    }

    fn parse_proc_item(&self, base: &FileSpan, e: &LispVal, word: ProcWord, u: Uncons) -> (r: Result<
        ItemGroup,
        ElabError,
    >)
        ensures
            outcome(r) == self.grammar(*base).proc_item(e@, word, u@),
    {
        let p = self.parse_proc(base, e, word, u)?;
        Ok(ItemGroup::Item(spanned(base, e, ItemKind::Proc(p))))
    }

    /// Parse one form at the top level.
    fn parse_item_group(&self, base: &FileSpan, e: &LispVal) -> (r: Result<ItemGroup, ElabError>)
        ensures
            outcome(r) == self.grammar(*base).item_group(e@),
    {
        match self.head_keyword(e) {
            Some((Keyword::Proc, u)) => self.parse_proc_item(base, e, ProcWord::Proc, u),
            Some((Keyword::Func, u)) => self.parse_proc_item(base, e, ProcWord::Func, u),
            Some((Keyword::Intrinsic, u)) => self.parse_proc_item(base, e, ProcWord::Intrinsic, u),
            Some((Keyword::Global, u)) => Ok(ItemGroup::Global(u)),
            Some((Keyword::Const, u)) => Ok(ItemGroup::Const(u)),
            Some((Keyword::Typedef, u)) => match u.pair() {
                Some((sig, val)) => {
                    let (name, args) = self.parse_name_and_tyargs(base, &sig)?;
                    Ok(ItemGroup::Item(spanned(base, e, ItemKind::Typedef { name, args, val })))
                },
                None => Err(error_at(base, e, Message::TypedefSyntax)),
            },
            Some((Keyword::Struct, u)) => {
                let mut u = u;
                match u.next() {
                    Some(sig) => {
                        let (name, args) = self.parse_name_and_tyargs(base, &sig)?;
                        let fields = self.parse_args1(base, u, false)?;
                        Ok(
                            ItemGroup::Item(
                                spanned(base, e, ItemKind::Struct { name, args, fields }),
                            ),
                        )
                    },
                    None => Err(error_at(base, e, Message::StructName)),
                }
            },
            _ => Err(error_at(base, e, Message::UnknownItem(e.clone()))),
        }
    }

    /// Extract the next item from the provided item iterator.
    pub fn parse_next_item(&self, base: &FileSpan, it: &mut ItemIter) -> (r: Result<
        Option<Item>,
        ElabError,
    >)
        ensures
            (final(it)@, outcome(r)) == self.grammar(*base).next_item(old(it)@),
    {
        let ghost g = self.grammar(*base);
        let ghost start = it@;
        loop
            invariant
                g == self.grammar(*base),
                start == old(it)@,
                g.next_item(start) == g.next_item(it@),
            decreases
                    it@.forms().items().len(),
                    (if it@ is New {
                        0int
                    } else {
                        1int
                    }),
        {
            match &mut it.group {
                ItemIterInner::New => match it.rest.next() {
                    Some(e) => match self.parse_item_group(base, &e)? {
                        ItemGroup::Item(item) => {
                            return Ok(Some(item));
                        },
                        ItemGroup::Global(u) => {
                            it.group = ItemIterInner::Global(u);
                        },
                        ItemGroup::Const(u) => {
                            it.group = ItemIterInner::Const(u);
                        },
                    },
                    None => {
                        return Ok(None);
                    },
                },
                ItemIterInner::Global(u) => match u.next() {
                    Some(e) => {
                        let d = self.parse_decl(base, &e)?;
                        return Ok(
                            Some(Spanned { span: d.span, k: ItemKind::Global(d.k.0, d.k.1) }),
                        );
                    },
                    None => {
                        it.group = ItemIterInner::New;
                    },
                },
                ItemIterInner::Const(u) => match u.next() {
                    Some(e) => {
                        let d = self.parse_decl(base, &e)?;
                        return Ok(
                            Some(Spanned { span: d.span, k: ItemKind::Const(d.k.0, d.k.1) }),
                        );
                    },
                    None => {
                        it.group = ItemIterInner::New;
                    },
                },
            }
        }
    }
}

} // verus!
