use mmc::ast::{CallExpr, CallKind, Expr, ExprKind, FieldName, ItemKind, Mm0ExprNode, MutOut};
use mmc::ast::{NAryCall, PatternKind, ProcKind, PropKind, TuplePattern, TuplePatternKind, TypeKind};
use mmc::ast::{VariantType};
use mmc::entity::{Entity, Prim, PrimOp, PrimProp, PrimType, ProcTc, TypeTc, TypeTy};
use mmc::env::{ArgKind, AtomData, Environment, FormatEnv, Intrinsic, TermId};
use mmc::error::{ElabError, Message};
use mmc::keyword::Keyword;
use mmc::lisp::{AtomId, LispKind, LispVal, Syntax};
use mmc::number::Int;
use mmc::parser::item::ItemIter;
use mmc::parser::{as_keyword, head_keyword, spanned, Parser};
use mmc::size::Size;
use mmc::span::{FileRef, FileSpan, Span};
use mmc::uncons::Uncons;
use std::collections::HashMap;

const UNDER: u32 = 0;
const COLON: u32 = 1;
// Atoms that stand for keywords.
const COLON_EQ: u32 = 2;
const ARROW_L: u32 = 3;
const ARROW_R: u32 = 4;
const WITH: u32 = 5;
const IF: u32 = 6;
const ELSE: u32 = 7;
const MATCH: u32 = 8;
const ARROW: u32 = 9;
const WHILE: u32 = 10;
const BEGIN: u32 = 11;
const ENTAIL: u32 = 12;
const VARIANT: u32 = 13;
const LT: u32 = 14;
const LE: u32 = 15;
const MUT: u32 = 16;
const OUT: u32 = 17;
const GHOST: u32 = 18;
const PROC: u32 = 19;
const FUNC: u32 = 20;
const INTRINSIC: u32 = 21;
const GLOBAL: u32 = 22;
const CONST: u32 = 23;
const TYPEDEF: u32 = 24;
const STRUCT: u32 = 25;
const OR: u32 = 26;
// Ordinary atoms.
const X: u32 = 30;
const Y: u32 = 31;
const Z: u32 = 32;
const F: u32 = 33;

fn keywords() -> HashMap<u32, Keyword> {
    let mut m = HashMap::new();
    for (a, k) in [
        (COLON, Keyword::Colon),
        (COLON_EQ, Keyword::ColonEq),
        (ARROW_L, Keyword::ArrowL),
        (ARROW_R, Keyword::ArrowR),
        (WITH, Keyword::With),
        (IF, Keyword::If),
        (ELSE, Keyword::Else),
        (MATCH, Keyword::Match),
        (ARROW, Keyword::Arrow),
        (WHILE, Keyword::While),
        (BEGIN, Keyword::Begin),
        (ENTAIL, Keyword::Entail),
        (VARIANT, Keyword::Variant),
        (LT, Keyword::Lt),
        (LE, Keyword::Le),
        (MUT, Keyword::Mut),
        (OUT, Keyword::Out),
        (GHOST, Keyword::GhostKw),
        (PROC, Keyword::Proc),
        (FUNC, Keyword::Func),
        (INTRINSIC, Keyword::Intrinsic),
        (GLOBAL, Keyword::Global),
        (CONST, Keyword::Const),
        (TYPEDEF, Keyword::Typedef),
        (STRUCT, Keyword::Struct),
        (OR, Keyword::Or),
    ] {
        m.insert(a, k);
    }
    m
}

/// Atom `F` is a system routine. Atoms from 40 to 43 are terms: a constant, a sum, one that binds its
/// first argument in the second, and an equation.
fn environment() -> Environment {
    let mut data = vec![AtomData { intrinsic: None, term: None }; 50];
    data[F as usize].intrinsic = Some(Intrinsic(7));
    data[40].term = Some(TermId(0));
    data[41].term = Some(TermId(1));
    data[42].term = Some(TermId(2));
    data[43].term = Some(TermId(3));
    Environment {
        data,
        terms: vec![
            vec![],
            vec![ArgKind::Reg, ArgKind::Reg],
            vec![ArgKind::Bound, ArgKind::Reg],
            vec![ArgKind::Reg, ArgKind::Reg],
        ],
    }
}

fn base() -> FileSpan {
    FileSpan { file: FileRef(3), span: Span { start: 100, end: 200 } }
}

fn atom(a: u32) -> LispVal {
    LispVal::new(LispKind::Atom(AtomId(a)))
}

fn num(n: u32) -> LispVal {
    LispVal::new(LispKind::Number(Int { negative: false, digits: vec![n] }))
}

fn list(es: Vec<LispVal>) -> LispVal {
    LispVal::new(LispKind::List(es))
}

fn atoms(es: &[u32]) -> LispVal {
    list(es.iter().map(|a| atom(*a)).collect())
}

fn dotted(es: Vec<LispVal>, r: LispVal) -> LispVal {
    LispVal::new(LispKind::DottedList(es, r))
}

fn annot(start: usize, end: usize, e: LispVal) -> LispVal {
    LispVal::new(LispKind::Annot(FileSpan { file: FileRef(3), span: Span { start, end } }, e))
}

fn text() -> LispVal {
    LispVal::new(LispKind::String(vec![65]))
}

/// A value on paper, without its annotations.
fn show(e: &LispVal) -> String {
    match &*e.0 {
        LispKind::List(es) => {
            let parts: Vec<String> = es.iter().map(show).collect();
            format!("({})", parts.join(" "))
        }
        LispKind::DottedList(es, r) => {
            let parts: Vec<String> = es.iter().map(show).collect();
            format!("({} . {})", parts.join(" "), show(r))
        }
        LispKind::Atom(a) => format!("{}", a.0),
        LispKind::Number(n) => format!("#{:?}", n.digits),
        LispKind::String(_) => "str".to_owned(),
        LispKind::Bool(b) => format!("{}", b),
        LispKind::Syntax(s) => format!("{:?}", s),
        LispKind::Undef => "undef".to_owned(),
        LispKind::Annot(_, e) => show(e),
    }
}

fn show_all(es: &[LispVal]) -> String {
    let parts: Vec<String> = es.iter().map(show).collect();
    parts.join(" ")
}

fn rest(u: Uncons) -> String {
    show_all(&u.collect())
}

fn show_pattern(p: &TuplePattern) -> String {
    match &p.k {
        TuplePatternKind::Name(ghost, a) => format!("{}{}", if *ghost { "!" } else { "" }, a.0),
        TuplePatternKind::Typed(p, ty) => format!("{{{} : {}}}", show_pattern(p), show(ty)),
        TuplePatternKind::Tuple(ps) => {
            let parts: Vec<String> = ps.iter().map(show_pattern).collect();
            format!("<{}>", parts.join(" "))
        }
    }
}

fn parse(e: LispVal) -> Result<Expr, ElabError> {
    let env = environment();
    let kw = keywords();
    let p = Parser { fe: FormatEnv { env: &env }, kw: &kw };
    p.parse_expr(&base(), e)
}

fn ok(e: LispVal) -> ExprKind {
    match parse(e) {
        Ok(x) => x.k,
        Err(x) => panic!("{:?}", x),
    }
}

/// The text of the complaint, and where it starts.
fn err(e: LispVal) -> (String, usize) {
    match parse(e) {
        Ok(x) => panic!("{:?}", x),
        Err(x) => (x.msg.text("?"), x.pos.start),
    }
}

fn pattern(ghost: bool, e: LispVal) -> Result<TuplePattern, ElabError> {
    let env = environment();
    let kw = keywords();
    let p = Parser { fe: FormatEnv { env: &env }, kw: &kw };
    p.parse_tuple_pattern(&base(), ghost, e)
}

// ---------------------------------------------------------------------------------------------
// Keywords and spans

#[test]
fn keywords_of_atoms_and_syntax() {
    let kw = keywords();
    assert_eq!(as_keyword(&kw, &atom(WHILE)), Some(Keyword::While));
    assert_eq!(as_keyword(&kw, &annot(1, 2, annot(3, 4, atom(WHILE)))), Some(Keyword::While));
    assert_eq!(as_keyword(&kw, &atom(X)), None);
    let syntax = LispVal::new(LispKind::Syntax(Syntax::Match));
    assert_eq!(as_keyword(&kw, &syntax), Some(Keyword::Match));
    let other = LispVal::new(LispKind::Syntax(Syntax::Lambda));
    assert_eq!(as_keyword(&kw, &other), None);
    assert_eq!(as_keyword(&kw, &num(1)), None);
}

#[test]
fn head_keywords_through_annotations() {
    let kw = keywords();
    let e = annot(5, 6, list(vec![annot(7, 8, atom(IF)), atom(X), atom(Y)]));
    let (k, u) = head_keyword(&kw, &e).unwrap();
    assert_eq!(k, Keyword::If);
    assert_eq!(rest(u), "30 31");
    assert!(head_keyword(&kw, &list(vec![])).is_none());
    assert!(head_keyword(&kw, &atoms(&[X, IF])).is_none());
    assert!(head_keyword(&kw, &atom(IF)).is_none());
}

#[test]
fn head_keyword_of_a_dotted_list() {
    let kw = keywords();
    let e = dotted(vec![atom(IF), atom(X)], atoms(&[Y]));
    let (k, u) = head_keyword(&kw, &e).unwrap();
    assert_eq!(k, Keyword::If);
    assert_eq!(u.len(), 2);
    assert_eq!(show(&u.as_lisp()), "(30 . (31))");
}

#[test]
fn spans_fall_back_to_the_base() {
    let inside = Span { start: 150, end: 151 };
    assert_eq!(spanned(&base(), &annot(150, 151, atom(X)), ()).span.span, inside);
    assert_eq!(spanned(&base(), &atom(X), ()).span, base());
    // A place before the construct, and one in another file.
    assert_eq!(spanned(&base(), &annot(99, 300, atom(X)), ()).span, base());
    let other = FileSpan { file: FileRef(4), span: inside };
    let e = LispVal::new(LispKind::Annot(other, atom(X)));
    assert_eq!(spanned(&base(), &e, ()).span, base());
}

// ---------------------------------------------------------------------------------------------
// Tuple patterns

#[test]
fn tuple_patterns() {
    assert_eq!(show_pattern(&pattern(false, atom(X)).unwrap()), "30");
    assert_eq!(show_pattern(&pattern(false, atom(UNDER)).unwrap()), "!0");
    let p = list(vec![atom(X), atoms(&[COLON, Y, Z]), atoms(&[])]);
    assert_eq!(show_pattern(&pattern(false, p).unwrap()), "<30 {31 : 32} <>>");
}

#[test]
fn ghost_patterns_make_all_names_ghost() {
    let p = list(vec![atom(GHOST), atom(X), atoms(&[Y, Z])]);
    assert_eq!(show_pattern(&pattern(false, p).unwrap()), "<!30 <!31 !32>>");
    // One pattern after `ghost` is that pattern, and not a tuple.
    assert_eq!(show_pattern(&pattern(false, atoms(&[GHOST, X])).unwrap()), "!30");
    assert_eq!(show_pattern(&pattern(true, atoms(&[X, Y])).unwrap()), "<!30 !31>");
    assert_eq!(show_pattern(&pattern(false, atoms(&[GHOST])).unwrap()), "<>");
}

#[test]
fn wrong_tuple_patterns() {
    let x = pattern(false, atoms(&[COLON, X])).unwrap_err();
    assert_eq!(x.msg.text(""), "':' syntax error");
    let x = pattern(false, annot(120, 121, num(5))).unwrap_err();
    assert_eq!(x.msg.text("5"), "tuple pattern syntax error: 5");
    assert!(matches!(x.msg, Message::TuplePattern(_)));
    assert_eq!(x.pos, Span { start: 120, end: 121 });
    let x = pattern(false, dotted(vec![atom(X)], atom(Y))).unwrap_err();
    assert!(matches!(x.msg, Message::TuplePattern(_)));
}

// ---------------------------------------------------------------------------------------------
// Expressions

#[test]
fn simple_expressions() {
    assert!(matches!(ok(atom(UNDER)), ExprKind::Hole));
    assert!(matches!(ok(annot(1, 2, atom(X))), ExprKind::Var(AtomId(X))));
    assert!(matches!(ok(LispVal::new(LispKind::Bool(true))), ExprKind::Bool(true)));
    match ok(num(12)) {
        ExprKind::Int(n) => assert_eq!(n.digits, vec![12]),
        k => panic!("{:?}", k),
    }
    assert!(matches!(ok(list(vec![])), ExprKind::Unit));
    assert_eq!(err(annot(130, 131, text())), ("unknown expression".to_owned(), 130));
}

#[test]
fn an_annotation_only_places_an_expression() {
    let e = atoms(&[F, X]);
    let plain = parse(e.clone()).unwrap();
    let placed = parse(annot(140, 145, e)).unwrap();
    assert_eq!(plain.span, base());
    assert_eq!(placed.span.span, Span { start: 140, end: 145 });
    assert_eq!(format!("{:?}", plain.k), format!("{:?}", placed.k));
}

#[test]
fn fields() {
    match ok(dotted(vec![atom(X)], atom(Y))) {
        ExprKind::Proj(x, f) => {
            assert_eq!(show(&x), "30");
            assert_eq!(f, FieldName::Named(AtomId(Y)));
        }
        k => panic!("{:?}", k),
    }
    match ok(dotted(vec![atom(X)], num(u32::MAX))) {
        ExprKind::Proj(_, f) => assert_eq!(f, FieldName::Number(u32::MAX)),
        k => panic!("{:?}", k),
    }
    let large = LispVal::new(LispKind::Number(Int { negative: false, digits: vec![0, 1] }));
    assert_eq!(err(dotted(vec![atom(X)], large)).0, "field access: index out of range");
    let negative = LispVal::new(LispKind::Number(Int { negative: true, digits: vec![1] }));
    assert_eq!(err(dotted(vec![atom(X)], negative)).0, "field access: index out of range");
    let padded = LispVal::new(LispKind::Number(Int { negative: false, digits: vec![6, 0, 0] }));
    match ok(dotted(vec![atom(X)], padded)) {
        ExprKind::Proj(_, f) => assert_eq!(f, FieldName::Number(6)),
        k => panic!("{:?}", k),
    }
    assert_eq!(err(dotted(vec![atom(X)], text())).0, "field access syntax error");
}

#[test]
fn declarations_and_assignments() {
    match ok(list(vec![atom(COLON_EQ), atoms(&[X, UNDER]), atom(Y)])) {
        ExprKind::Let { lhs, rhs, with } => {
            assert_eq!(show_pattern(&lhs), "<30 !0>");
            assert_eq!(show(&rhs), "31");
            assert!(with.old.is_empty() && with.new.is_empty());
        }
        k => panic!("{:?}", k),
    }
    match ok(atoms(&[ARROW_L, X, Y])) {
        ExprKind::Assign { lhs, rhs, .. } => assert_eq!((show(&lhs), show(&rhs)), ("30".to_owned(), "31".to_owned())),
        k => panic!("{:?}", k),
    }
    assert_eq!(err(atoms(&[COLON_EQ, X])).0, "decl: syntax error");
    assert_eq!(err(atoms(&[ARROW_L, X, Y, Z])).0, "decl: syntax error");
}

#[test]
fn renamings() {
    let e = list(vec![
        atom(WITH),
        atoms(&[ARROW_L, X, Y]),
        atoms(&[ARROW_R, X, Z]),
        atoms(&[ARROW_L, Y, Z]),
        list(vec![atom(X), atoms(&[ARROW_R, Y, F])]),
        atom(Z),
    ]);
    match ok(e) {
        ExprKind::Assign { with, .. } => {
            assert_eq!(with.old, vec![(AtomId(X), AtomId(Z)), (AtomId(Y), AtomId(F))]);
            assert_eq!(
                with.new,
                vec![(AtomId(Z), AtomId(Y)), (AtomId(X), AtomId(X)), (AtomId(Z), AtomId(Z))]
            );
        }
        k => panic!("{:?}", k),
    }
    let expected = "with: expected {old -> old'} or {new' <- new}";
    let bad = |e| err(list(vec![atom(WITH), atoms(&[COLON_EQ, X, Y]), e])).0;
    assert_eq!(bad(atoms(&[ARROW_R, X])), expected);
    assert_eq!(bad(list(vec![atom(ARROW_L), num(1), atom(X)])), expected);
    assert_eq!(bad(list(vec![num(1)])), expected);
    assert_eq!(err(atoms(&[WITH])).0, "'with' syntax error");
    assert_eq!(err(atoms(&[WITH, X])).0, "decl: syntax error");
}

#[test]
fn conditionals() {
    // (if x y else if {z : f} x else y)
    let e = list(vec![
        atom(IF),
        atom(X),
        atom(Y),
        atom(ELSE),
        atom(IF),
        atoms(&[COLON, Z, F]),
        atom(X),
        atom(ELSE),
        atom(Y),
    ]);
    match ok(e) {
        ExprKind::If { branches, els } => {
            assert_eq!(branches.len(), 2);
            assert_eq!(branches[0].0, None);
            assert_eq!((show(&branches[0].1), show(&branches[0].2)), ("30".to_owned(), "31".to_owned()));
            assert_eq!(branches[1].0, Some(AtomId(Z)));
            assert_eq!((show(&branches[1].1), show(&branches[1].2)), ("33".to_owned(), "30".to_owned()));
            assert_eq!(show(&els.unwrap()), "31");
        }
        k => panic!("{:?}", k),
    }
    // Without `else`, with `_` for a hypothesis, and with more than is looked at.
    match ok(list(vec![atom(IF), atoms(&[COLON, UNDER, X]), atom(Y), atom(Z), atom(F)])) {
        ExprKind::If { branches, els } => {
            assert_eq!(branches.len(), 1);
            assert_eq!(branches[0].0, None);
            assert_eq!(show(&branches[0].1), "30");
            assert_eq!(show(&els.unwrap()), "32");
        }
        k => panic!("{:?}", k),
    }
    match ok(atoms(&[IF, X, Y, ELSE])) {
        ExprKind::If { els, .. } => assert!(els.is_none()),
        k => panic!("{:?}", k),
    }
}

#[test]
fn wrong_conditionals() {
    assert_eq!(err(atoms(&[IF, X])).0, "if: syntax error");
    assert_eq!(err(atoms(&[IF, X, Y, IF, Z])).0, "if: syntax error");
    assert_eq!(err(list(vec![atom(IF), atoms(&[COLON, Z]), atom(Y)])).0, "':' syntax error");
    let h = list(vec![atom(COLON), annot(160, 161, num(1)), atom(X)]);
    assert_eq!(
        err(list(vec![atom(IF), h.clone(), atom(Y)])),
        ("expecting hypothesis name".to_owned(), 160)
    );
    // The missing branch is noticed before the wrong hypothesis.
    assert_eq!(err(list(vec![atom(IF), h, atom(Y), atom(IF), atom(Z)])).0, "if: syntax error");
}

#[test]
fn matches_and_their_branches() {
    match ok(list(vec![atom(MATCH), atom(X), atoms(&[ARROW, Y, Z]), atoms(&[ARROW, UNDER, F])])) {
        ExprKind::Match(c, bs) => {
            assert_eq!(show(&c), "30");
            assert_eq!(bs.len(), 2);
            assert_eq!((show(&bs[0].0), show(&bs[0].1)), ("31".to_owned(), "32".to_owned()));
            assert_eq!((show(&bs[1].0), show(&bs[1].1)), ("0".to_owned(), "33".to_owned()));
        }
        k => panic!("{:?}", k),
    }
    assert_eq!(err(atoms(&[MATCH])).0, "match: syntax error");
    assert_eq!(
        err(list(vec![atom(MATCH), atom(X), annot(170, 171, atoms(&[ARROW, Y]))])),
        ("match: syntax error".to_owned(), 170)
    );
    assert_eq!(err(atoms(&[MATCH, X, Y])).0, "match: syntax error");
}

#[test]
fn loops() {
    let variant = list(vec![atom(VARIANT), atom(X), atom(LT), atom(Y)]);
    let e = list(vec![atom(WHILE), atoms(&[COLON, Z, X]), variant.clone(), atom(F), atom(Y)]);
    match ok(e) {
        ExprKind::While { hyp, cond, var, body } => {
            assert_eq!(hyp.unwrap().k, AtomId(Z));
            assert_eq!(show(&cond), "30");
            let v = var.unwrap();
            assert_eq!(show(&v.k.0), "30");
            assert!(matches!(v.k.1, VariantType::UpLt(_)));
            assert_eq!(rest(body), "33 31");
        }
        k => panic!("{:?}", k),
    }
    match ok(atoms(&[WHILE, X, Y])) {
        ExprKind::While { hyp, var, body, .. } => {
            assert!(hyp.is_none() && var.is_none());
            assert_eq!(rest(body), "31");
        }
        k => panic!("{:?}", k),
    }
    assert_eq!(err(atoms(&[WHILE])).0, "while: syntax error");
    assert_eq!(err(list(vec![atom(WHILE), atoms(&[COLON, X])])).0, "while: bad pattern");
    let two = list(vec![atom(WHILE), atom(X), variant.clone(), annot(180, 181, variant)]);
    assert_eq!(err(two), ("while: two variants".to_owned(), 180));
}

#[test]
fn variants() {
    let v = |es: &[u32]| match ok(list(vec![atom(WHILE), atom(X), atoms(es)])) {
        ExprKind::While { var, body, .. } => (var, body.len()),
        k => panic!("{:?}", k),
    };
    let (var, left) = v(&[VARIANT, Y]);
    assert!(matches!(var.unwrap().k.1, VariantType::Down));
    assert_eq!(left, 0);
    match v(&[VARIANT, Y, LE, Z]).0.unwrap().k.1 {
        VariantType::UpLe(e) => assert_eq!(show(&e), "32"),
        k => panic!("{:?}", k),
    }
    // These are not variants, and belong to the body.
    for es in [&[VARIANT][..], &[VARIANT, Y, LT], &[VARIANT, Y, X, Z]] {
        let (var, left) = v(es);
        assert!(var.is_none());
        assert_eq!(left, 1);
    }
}

#[test]
fn blocks_and_proofs() {
    match ok(atoms(&[BEGIN, X, Y])) {
        ExprKind::Block(u) => assert_eq!(rest(u), "30 31"),
        k => panic!("{:?}", k),
    }
    match ok(atoms(&[ENTAIL, X, Y, Z])) {
        ExprKind::Entail(p, args) => {
            assert_eq!(show(&p), "32");
            assert_eq!(show_all(&args), "30 31");
        }
        k => panic!("{:?}", k),
    }
    assert_eq!(err(atoms(&[ENTAIL])).0, "entail: expected proof");
}

#[test]
fn labels() {
    let head = list(vec![
        atom(BEGIN),
        atom(F),
        atom(X),
        atoms(&[VARIANT, Y]),
        atoms(&[COLON, Y, Z]),
        atom(UNDER),
    ]);
    match ok(list(vec![head, atom(Z), atom(Y)])) {
        ExprKind::Label(l) => {
            assert_eq!(l.name, AtomId(F));
            let args: Vec<String> = l.args.iter().map(show_pattern).collect();
            assert_eq!(args, vec!["30", "{31 : 32}", "!0"]);
            assert_eq!(show(&l.variant.unwrap().k.0), "31");
            assert_eq!(rest(l.body), "32 31");
        }
        k => panic!("{:?}", k),
    }
    assert_eq!(err(list(vec![atoms(&[BEGIN])])).0, "label: expected label name");
    assert_eq!(err(list(vec![list(vec![atom(BEGIN), num(1)])])).0, "label: expected label name");
    let two = list(vec![atom(BEGIN), atom(F), atoms(&[VARIANT, Y]), atoms(&[VARIANT, Z])]);
    assert_eq!(err(list(vec![two])).0, "label: two variants");
    let bad = list(vec![atom(BEGIN), atom(F), num(1)]);
    assert_eq!(err(list(vec![bad])).0, "argument syntax error: expecting identifier");
}

#[test]
fn calls() {
    match ok(list(vec![atom(F), atom(X), atoms(&[VARIANT, Y, Z]), num(2)])) {
        ExprKind::Call(c) => {
            assert_eq!(c.f.k, AtomId(F));
            assert_eq!(show_all(&c.args), "30 #[2]");
            assert_eq!(show(&c.variant.unwrap()), "(31 32)");
        }
        k => panic!("{:?}", k),
    }
    let two = list(vec![atom(F), atoms(&[VARIANT, Y]), annot(190, 191, atoms(&[VARIANT]))]);
    assert_eq!(err(two), ("call: two variants".to_owned(), 190));
    assert_eq!(
        err(list(vec![annot(191, 192, num(1)), atom(X)])),
        ("only variables can be called like functions".to_owned(), 191)
    );
}

// ---------------------------------------------------------------------------------------------
// Items

fn items(forms: Vec<LispVal>) -> Vec<Result<ItemKind, String>> {
    let env = environment();
    let kw = keywords();
    let p = Parser { fe: FormatEnv { env: &env }, kw: &kw };
    let mut it = ItemIter::new(list(forms));
    let mut out = vec![];
    loop {
        match p.parse_next_item(&base(), &mut it) {
            Ok(Some(item)) => out.push(Ok(item.k)),
            Ok(None) => break,
            Err(x) => out.push(Err(x.msg.text("?"))),
        }
    }
    // The iteration stays at its end.
    assert!(matches!(p.parse_next_item(&base(), &mut it), Ok(None)));
    out
}

fn item_error(form: LispVal) -> String {
    match items(vec![form]).remove(0) {
        Ok(k) => panic!("{:?}", k),
        Err(x) => x,
    }
}

#[test]
fn items_of_a_program_come_in_order() {
    let r = items(vec![
        atoms(&[GLOBAL]),
        list(vec![atom(GLOBAL), atoms(&[COLON_EQ, X, Y]), atoms(&[ARROW_L, X, Y]), atoms(&[COLON_EQ, Z, Y])]),
        atoms(&[X]),
        list(vec![atom(CONST), atoms(&[COLON_EQ, F, X])]),
        atoms(&[PROC, F]),
    ]);
    assert_eq!(r.len(), 6);
    assert!(matches!(&r[0], Ok(ItemKind::Global(p, _)) if show_pattern(p) == "30"));
    assert_eq!(r[1].as_ref().unwrap_err(), "decl: assignment not allowed here");
    assert!(matches!(&r[2], Ok(ItemKind::Global(p, _)) if show_pattern(p) == "32"));
    assert_eq!(r[3].as_ref().unwrap_err(), "MMC: unknown top level item: ?");
    assert!(matches!(&r[4], Ok(ItemKind::Const(p, e)) if show_pattern(p) == "33" && show(e) == "30"));
    assert!(matches!(&r[5], Ok(ItemKind::Proc(p)) if p.name.k == AtomId(F)));
}

#[test]
fn procedures() {
    // (proc (f x (mut y {z : x}) : _ (out x z)) (variant y) y)
    let sig = list(vec![
        atom(F),
        atom(X),
        list(vec![atom(MUT), atom(Y), atoms(&[COLON, Z, X])]),
        atom(COLON),
        atom(UNDER),
        atoms(&[OUT, X, Z]),
    ]);
    let r = items(vec![list(vec![atom(PROC), sig, atoms(&[VARIANT, Y]), atom(Y)])]);
    match &r[0] {
        Ok(ItemKind::Proc(p)) => {
            assert_eq!(p.kind, ProcKind::Proc);
            let args: Vec<(MutOut, String)> = p.args.iter().map(|(m, q)| (*m, show_pattern(q))).collect();
            assert_eq!(
                args,
                vec![
                    (MutOut::ByValue, "30".to_owned()),
                    (MutOut::Mut, "31".to_owned()),
                    (MutOut::Mut, "{32 : 30}".to_owned()),
                ]
            );
            let rets: Vec<(MutOut, String)> = p.rets.iter().map(|(m, q)| (*m, show_pattern(q))).collect();
            assert_eq!(
                rets,
                vec![
                    (MutOut::ByValue, "{!0 : 0}".to_owned()),
                    (MutOut::Out(AtomId(X)), "{!0 : 32}".to_owned()),
                ]
            );
            // The variant is looked at, but stays in the body.
            assert_eq!(show(&p.variant.as_ref().unwrap().k.0), "31");
            assert_eq!(p.body.len(), 2);
        }
        k => panic!("{:?}", k),
    }
    assert!(matches!(&items(vec![atoms(&[FUNC, F])])[0], Ok(ItemKind::Proc(p)) if p.kind == ProcKind::Func));
}

#[test]
fn out_arguments() {
    let arg = |e: LispVal| items(vec![list(vec![atom(PROC), list(vec![atom(F), e])])]).remove(0);
    match arg(atoms(&[OUT, X])) {
        Ok(ItemKind::Proc(p)) => assert_eq!(p.args[0].0, MutOut::Out(AtomId(UNDER))),
        k => panic!("{:?}", k),
    }
    assert_eq!(arg(atoms(&[OUT])).unwrap_err(), "'out' syntax error");
    assert_eq!(arg(atoms(&[OUT, X, Y, Z])).unwrap_err(), "'out' syntax error");
    assert_eq!(arg(list(vec![atom(OUT), num(1), atom(X)])).unwrap_err(), "'out' syntax error");
}

#[test]
fn intrinsics() {
    match items(vec![list(vec![atom(INTRINSIC), atoms(&[F, X])])]).remove(0) {
        Ok(ItemKind::Proc(p)) => assert_eq!(p.kind, ProcKind::Intrinsic(Intrinsic(7))),
        k => panic!("{:?}", k),
    }
    assert_eq!(item_error(atoms(&[INTRINSIC, X])), "unknown intrinsic");
    assert_eq!(item_error(atoms(&[INTRINSIC, F, X])), "intrinsic: unexpected body");
}

#[test]
fn wrong_procedures() {
    assert_eq!(item_error(atoms(&[PROC])), "func/proc: syntax error");
    assert_eq!(item_error(list(vec![atom(PROC), num(1)])), "func/proc: syntax error");
    assert_eq!(
        item_error(list(vec![atom(PROC), list(vec![])])),
        "func/proc syntax error: expecting function name"
    );
    assert_eq!(
        item_error(list(vec![atom(PROC), list(vec![num(1)])])),
        "func/proc syntax error: expecting an atom"
    );
}

#[test]
fn type_definitions() {
    match items(vec![list(vec![atom(TYPEDEF), atoms(&[F, X, Y]), atom(Z)])]).remove(0) {
        Ok(ItemKind::Typedef { name, args, val }) => {
            assert_eq!(name.k, AtomId(F));
            assert_eq!(args.iter().map(show_pattern).collect::<Vec<_>>(), vec!["30", "31"]);
            assert_eq!(show(&val), "32");
        }
        k => panic!("{:?}", k),
    }
    match items(vec![list(vec![atom(STRUCT), atom(F), atoms(&[COLON, X, Y]), atom(Z)])]).remove(0) {
        Ok(ItemKind::Struct { name, args, fields }) => {
            assert_eq!(name.k, AtomId(F));
            assert!(args.is_empty());
            assert_eq!(
                fields.iter().map(show_pattern).collect::<Vec<_>>(),
                vec!["{30 : 31}", "{!0 : 32}"]
            );
        }
        k => panic!("{:?}", k),
    }
    assert_eq!(item_error(atoms(&[TYPEDEF, F])), "typedef: syntax error");
    assert_eq!(item_error(list(vec![atom(TYPEDEF), num(1), atom(X)])), "typedef: syntax error");
    assert_eq!(item_error(list(vec![atom(TYPEDEF), list(vec![]), atom(X)])), "typedef: syntax error");
    assert_eq!(
        item_error(list(vec![atom(TYPEDEF), list(vec![num(1)]), atom(X)])),
        "typedef: expected an atom"
    );
    assert_eq!(item_error(atoms(&[STRUCT])), "struct: expecting name");
}

// ---------------------------------------------------------------------------------------------
// Patterns, types and propositions

fn names() -> HashMap<u32, Entity> {
    let none = Prim { ty: None, prop: None, op: None };
    let mut m = HashMap::new();
    m.insert(60, Entity::Const(base()));
    m.insert(61, Entity::Global(base()));
    m.insert(62, Entity::Type(base(), TypeTc::Typed(TypeTy { tyargs: 1, args: 2 })));
    m.insert(63, Entity::Type(base(), TypeTc::Unchecked));
    m.insert(64, Entity::Proc(base(), ProcTc::Typed { tyargs: 5 }));
    m.insert(65, Entity::Proc(base(), ProcTc::Unchecked));
    m.insert(66, Entity::Prim(none));
    for (i, ty) in [
        PrimType::Array, PrimType::Bool, PrimType::I8, PrimType::I16, PrimType::I32, PrimType::I64,
        PrimType::Int, PrimType::U8, PrimType::U16, PrimType::U32, PrimType::U64, PrimType::Nat,
        PrimType::Input, PrimType::Output, PrimType::Own, PrimType::Ref, PrimType::RefSn,
        PrimType::Sn, PrimType::List, PrimType::Struct, PrimType::And, PrimType::Or,
        PrimType::Moved, PrimType::GhostTy, PrimType::Uninit,
    ].iter().enumerate() {
        m.insert(100 + i as u32, Entity::Prim(Prim { ty: Some(*ty), ..none }));
    }
    for (i, prop) in [
        PrimProp::All, PrimProp::Ex, PrimProp::And, PrimProp::Or, PrimProp::Imp, PrimProp::Star,
        PrimProp::Wand, PrimProp::Pure, PrimProp::Moved, PrimProp::Eq,
    ].iter().enumerate() {
        m.insert(200 + i as u32, Entity::Prim(Prim { prop: Some(*prop), ..none }));
    }
    for (i, op) in ALL_OPS.iter().enumerate() {
        m.insert(300 + i as u32, Entity::Prim(Prim { op: Some(*op), ..none }));
    }
    m
}

const ALL_OPS: [PrimOp; 35] = [
    PrimOp::Add, PrimOp::And, PrimOp::Or, PrimOp::Assert, PrimOp::BitAnd, PrimOp::BitNot,
    PrimOp::BitOr, PrimOp::BitXor, PrimOp::List, PrimOp::Mul, PrimOp::Not, PrimOp::Le, PrimOp::Lt,
    PrimOp::Eq, PrimOp::Ne, PrimOp::GhostOp, PrimOp::Return, PrimOp::Index, PrimOp::Sub,
    PrimOp::Shl, PrimOp::Shr, PrimOp::Typed, PrimOp::As, PrimOp::Cast, PrimOp::Pun, PrimOp::Sn,
    PrimOp::Slice, PrimOp::Uninit, PrimOp::Pure, PrimOp::Ref, PrimOp::TypeofBang, PrimOp::Typeof,
    PrimOp::Sizeof, PrimOp::Unreachable, PrimOp::Break,
];

fn op(p: PrimOp) -> u32 {
    300 + ALL_OPS.iter().position(|q| *q == p).unwrap() as u32
}

fn match_pattern(e: LispVal) -> Result<PatternKind, String> {
    let env = environment();
    let kw = keywords();
    let p = Parser { fe: FormatEnv { env: &env }, kw: &kw };
    match p.parse_pattern(&base(), &names(), &e) {
        Ok(x) => Ok(x.k),
        Err(x) => Err(x.msg.text("?")),
    }
}

#[test]
fn match_patterns() {
    assert!(matches!(match_pattern(atom(X)), Ok(PatternKind::Var(AtomId(X)))));
    assert!(matches!(match_pattern(atom(60)), Ok(PatternKind::Const(AtomId(60)))));
    assert!(matches!(match_pattern(atom(61)), Ok(PatternKind::Var(AtomId(61)))));
    assert!(matches!(match_pattern(num(3)), Ok(PatternKind::Number(_))));
    assert!(matches!(match_pattern(atoms(&[COLON, X, Y])), Ok(PatternKind::Hyped(AtomId(X), _))));
    match match_pattern(atoms(&[OR, X, Y])) {
        Ok(PatternKind::Or(u)) => assert_eq!(rest(u), "30 31"),
        k => panic!("{:?}", k),
    }
    match match_pattern(atoms(&[WITH, X, Y])) {
        Ok(PatternKind::With(a, b)) => assert_eq!(show_all(&[a, b]), "30 31"),
        k => panic!("{:?}", k),
    }
    assert_eq!(match_pattern(atoms(&[COLON, X])).unwrap_err(), "':' syntax error");
    assert_eq!(
        match_pattern(list(vec![atom(COLON), num(1), atom(X)])).unwrap_err(),
        "expecting hypothesis name"
    );
    assert_eq!(match_pattern(atoms(&[WITH, X])).unwrap_err(), "'with' syntax error");
    assert_eq!(match_pattern(atoms(&[X])).unwrap_err(), "pattern syntax error");
    assert_eq!(match_pattern(text()).unwrap_err(), "pattern syntax error");
}

fn ty(e: LispVal) -> Result<TypeKind, String> {
    let env = environment();
    let kw = keywords();
    let p = Parser { fe: FormatEnv { env: &env }, kw: &kw };
    match p.parse_ty(&base(), &names(), &e) {
        Ok(x) => Ok(x.k),
        Err(x) => Err(x.msg.text("?")),
    }
}

#[test]
fn primitive_types() {
    assert!(matches!(ty(list(vec![])), Ok(TypeKind::Unit)));
    match ty(atoms(&[100, X, Y])) {
        Ok(TypeKind::Array(a, n)) => assert_eq!(show_all(&[a, n]), "30 31"),
        k => panic!("{:?}", k),
    }
    // A constructor without arguments needs no parentheses.
    assert!(matches!(ty(atom(101)), Ok(TypeKind::Bool)));
    assert!(matches!(ty(atoms(&[101])), Ok(TypeKind::Bool)));
    for (i, sz) in [Size::S8, Size::S16, Size::S32, Size::S64, Size::Inf].iter().enumerate() {
        assert!(matches!(ty(atom(102 + i as u32)), Ok(TypeKind::Int(s)) if s == *sz));
        assert!(matches!(ty(atom(107 + i as u32)), Ok(TypeKind::UInt(s)) if s == *sz));
    }
    assert!(matches!(ty(atom(112)), Ok(TypeKind::Input)));
    assert!(matches!(ty(atom(113)), Ok(TypeKind::Output)));
    assert!(matches!(ty(atoms(&[114, X])), Ok(TypeKind::Own(_))));
    assert!(matches!(ty(atoms(&[115, X])), Ok(TypeKind::Shr(None, _))));
    assert!(matches!(ty(atoms(&[116, X])), Ok(TypeKind::RefSn(_))));
    assert!(matches!(ty(atoms(&[117, X])), Ok(TypeKind::Sn(_))));
    assert!(matches!(ty(atoms(&[118, X, Y])), Ok(TypeKind::List(v)) if show_all(&v) == "30 31"));
    match ty(list(vec![atom(119), atoms(&[COLON, X, Y]), atom(Z)])) {
        Ok(TypeKind::Struct(ps)) => {
            assert_eq!(ps.iter().map(show_pattern).collect::<Vec<_>>(), vec!["{30 : 31}", "32"]);
        }
        k => panic!("{:?}", k),
    }
    assert!(matches!(ty(atoms(&[120])), Ok(TypeKind::And(v)) if v.is_empty()));
    assert!(matches!(ty(atoms(&[121, X])), Ok(TypeKind::Or(v)) if v.len() == 1));
    assert!(matches!(ty(atoms(&[122, X])), Ok(TypeKind::Moved(_))));
    assert!(matches!(ty(atoms(&[123, X])), Ok(TypeKind::GhostTy(_))));
    assert!(matches!(ty(atoms(&[124, X])), Ok(TypeKind::Uninit(_))));
    assert_eq!(ty(atoms(&[100, X])).unwrap_err(), "unexpected number of arguments");
    assert_eq!(ty(atoms(&[101, X])).unwrap_err(), "unexpected number of arguments");
    assert_eq!(ty(atom(114)).unwrap_err(), "unexpected number of arguments");
}

#[test]
fn user_types() {
    match ty(atoms(&[62, X, Y, Z])) {
        Ok(TypeKind::User(a, tys, es)) => {
            assert_eq!(a, AtomId(62));
            assert_eq!((show_all(&tys), show_all(&es)), ("30".to_owned(), "31 32".to_owned()));
        }
        k => panic!("{:?}", k),
    }
    assert_eq!(ty(atoms(&[62, X])).unwrap_err(), "unexpected number of arguments");
    assert!(matches!(ty(atoms(&[63, X])), Ok(TypeKind::Error)));
    assert!(matches!(ty(atom(X)), Ok(TypeKind::Var(AtomId(X)))));
    assert_eq!(ty(atoms(&[X, Y])).unwrap_err(), "unknown type constructor '?'");
    assert_eq!(ty(atom(60)).unwrap_err(), "expected a type");
    assert_eq!(ty(atom(66)).unwrap_err(), "expected a type");
    assert_eq!(ty(atom(UNDER)).unwrap_err(), "expecting a type");
    assert_eq!(ty(num(1)).unwrap_err(), "expected an atom");
    let cond = |n: usize| {
        let mut es = vec![LispVal::new(LispKind::Syntax(Syntax::If))];
        es.extend((0..n).map(|i| atom(X + i as u32)));
        ty(list(es))
    };
    assert!(matches!(cond(3), Ok(TypeKind::If(_, _, _))));
    assert_eq!(cond(2).unwrap_err(), "unexpected number of arguments");
    // A proposition or an operation as a type.
    assert!(matches!(ty(atoms(&[202, X])), Ok(TypeKind::Prop(PropKind::And(_)))));
    assert!(matches!(ty(atoms(&[300, X])), Ok(TypeKind::Prop(PropKind::Pure(ExprKind::Call(_))))));
}

fn prop(e: LispVal) -> Result<PropKind, String> {
    let env = environment();
    let kw = keywords();
    let p = Parser { fe: FormatEnv { env: &env }, kw: &kw };
    match p.parse_prop(&base(), &names(), &e) {
        Ok(x) => Ok(x.k),
        Err(x) => Err(x.msg.text("?")),
    }
}

#[test]
fn propositions() {
    match prop(list(vec![atom(200), atom(X), atoms(&[COLON, Y, Z]), atom(F)])) {
        Ok(PropKind::All(ps, e)) => {
            assert_eq!(ps.iter().map(show_pattern).collect::<Vec<_>>(), vec!["30", "{31 : 32}"]);
            assert_eq!(show(&e), "33");
        }
        k => panic!("{:?}", k),
    }
    assert!(matches!(prop(atoms(&[201, X])), Ok(PropKind::Ex(ps, _)) if ps.is_empty()));
    assert!(matches!(prop(atoms(&[202])), Ok(PropKind::And(_))));
    assert!(matches!(prop(atoms(&[203, X])), Ok(PropKind::Or(_))));
    assert!(matches!(prop(atoms(&[204, X, Y])), Ok(PropKind::Imp(_, _))));
    assert!(matches!(prop(atoms(&[205, X, Y])), Ok(PropKind::Sep(_))));
    assert!(matches!(prop(atoms(&[206, X, Y])), Ok(PropKind::Wand(_, _))));
    assert!(matches!(prop(atoms(&[207, X])), Ok(PropKind::Mm0(_))));
    assert!(matches!(prop(atoms(&[208, X])), Ok(PropKind::Moved(_))));
    assert!(matches!(prop(atoms(&[209, X, Y])), Ok(PropKind::Eq(_, _))));
    assert!(matches!(prop(atom(X)), Ok(PropKind::Pure(ExprKind::Var(AtomId(X))))));
    assert_eq!(prop(list(vec![])).unwrap_err(), "expecting a proposition, got ()");
    assert_eq!(prop(atoms(&[200])).unwrap_err(), "incorrect number of arguments");
    assert_eq!(prop(atoms(&[209, X])).unwrap_err(), "incorrect number of arguments");
    assert_eq!(prop(text()).unwrap_err(), "unknown expression");
}

// ---------------------------------------------------------------------------------------------
// Calls

fn call_with(f: u32, args: Vec<LispVal>, label: u32) -> Result<CallKind, String> {
    let env = environment();
    let kw = keywords();
    let p = Parser { fe: FormatEnv { env: &env }, kw: &kw };
    let f = spanned(&base(), &atom(f), AtomId(f));
    let c = CallExpr { f, args, variant: None };
    match p.parse_call(&base(), &names(), |a: AtomId| a.0 == label, c) {
        Ok(x) => Ok(x),
        Err(x) => {
            assert_eq!(x.pos, base().span);
            Err(x.msg.text("?"))
        }
    }
}

#[test]
fn calls_ask_for_labels() {
    let env = environment();
    let kw = keywords();
    let p = Parser { fe: FormatEnv { env: &env }, kw: &kw };
    let f = spanned(&base(), &atom(F), AtomId(F));
    let mut asked: Vec<u32> = vec![];
    let c = CallExpr { f, args: vec![atom(X)], variant: None };
    let r = p.parse_call(&base(), &names(), |a: AtomId| {
        asked.push(a.0);
        true
    }, c);
    assert!(matches!(r, Ok(CallKind::Jump(..))));
    assert_eq!(asked, vec![F]);
}

fn call(f: u32, args: &[u32]) -> Result<CallKind, String> {
    call_with(f, args.iter().map(|a| atom(*a)).collect(), 0)
}

#[test]
fn n_ary_operations() {
    for (p, n) in [
        (PrimOp::Add, NAryCall::Add), (PrimOp::And, NAryCall::And), (PrimOp::Or, NAryCall::Or),
        (PrimOp::Assert, NAryCall::Assert), (PrimOp::BitAnd, NAryCall::BitAnd),
        (PrimOp::BitNot, NAryCall::BitNot), (PrimOp::BitOr, NAryCall::BitOr),
        (PrimOp::BitXor, NAryCall::BitXor), (PrimOp::List, NAryCall::List),
        (PrimOp::Mul, NAryCall::Mul), (PrimOp::Not, NAryCall::Not), (PrimOp::Le, NAryCall::Le),
        (PrimOp::Lt, NAryCall::Lt), (PrimOp::Eq, NAryCall::Eq), (PrimOp::Ne, NAryCall::Ne),
        (PrimOp::GhostOp, NAryCall::GhostList), (PrimOp::Return, NAryCall::Return),
    ] {
        match call(op(p), &[X, Y]) {
            Ok(CallKind::NAry(m, args)) => {
                assert_eq!(m, n);
                assert_eq!(show_all(&args), "30 31");
            }
            k => panic!("{:?}", k),
        }
    }
}

#[test]
fn operations_with_fixed_arguments() {
    match call(op(PrimOp::Sub), &[X, Y, Z]) {
        Ok(CallKind::Sub(a, rest)) => assert_eq!((show(&a), show_all(&rest)), ("30".to_owned(), "31 32".to_owned())),
        k => panic!("{:?}", k),
    }
    assert!(matches!(call(op(PrimOp::Sub), &[X]), Ok(CallKind::Neg(_))));
    assert_eq!(call(op(PrimOp::Sub), &[]).unwrap_err(), "expected 1 or more arguments");
    assert!(matches!(call(op(PrimOp::Shl), &[X, Y]), Ok(CallKind::Shl(_, _))));
    assert!(matches!(call(op(PrimOp::Shr), &[X, Y]), Ok(CallKind::Shr(_, _))));
    assert!(matches!(call(op(PrimOp::Typed), &[X, Y]), Ok(CallKind::Typed(_, _))));
    assert!(matches!(call(op(PrimOp::As), &[X, Y]), Ok(CallKind::As(_, _))));
    assert_eq!(call(op(PrimOp::As), &[X]).unwrap_err(), "expected 2 arguments");
    assert!(matches!(call(op(PrimOp::Index), &[X, Y]), Ok(CallKind::Index(_, _, None))));
    assert!(matches!(call(op(PrimOp::Index), &[X, Y, Z]), Ok(CallKind::Index(_, _, Some(_)))));
    assert_eq!(call(op(PrimOp::Index), &[X]).unwrap_err(), "expected 2 or 3 arguments");
    assert!(matches!(call(op(PrimOp::Slice), &[X, Y]), Ok(CallKind::Slice(_, _, None))));
    assert!(matches!(call(op(PrimOp::Cast), &[X]), Ok(CallKind::Cast(_, None))));
    assert!(matches!(call(op(PrimOp::Pun), &[X, Y]), Ok(CallKind::Pun(_, Some(_)))));
    assert!(matches!(call(op(PrimOp::Sn), &[X]), Ok(CallKind::Sn(_, None))));
    assert_eq!(call(op(PrimOp::Sn), &[]).unwrap_err(), "expected 1 or 2 arguments");
    assert!(matches!(call(op(PrimOp::Uninit), &[]), Ok(CallKind::Uninit)));
    assert_eq!(call(op(PrimOp::Uninit), &[X]).unwrap_err(), "expected 0 arguments");
    assert!(matches!(call(op(PrimOp::Pure), &[X]), Ok(CallKind::Mm0(_))));
    assert!(matches!(call(op(PrimOp::Ref), &[X]), Ok(CallKind::Ref(_))));
    assert!(matches!(call(op(PrimOp::TypeofBang), &[X]), Ok(CallKind::TypeofBang(_))));
    assert!(matches!(call(op(PrimOp::Typeof), &[X]), Ok(CallKind::Typeof(_))));
    assert!(matches!(call(op(PrimOp::Sizeof), &[X]), Ok(CallKind::Sizeof(_))));
    assert_eq!(call(op(PrimOp::Sizeof), &[]).unwrap_err(), "expected 1 argument");
    assert!(matches!(call(op(PrimOp::Unreachable), &[]), Ok(CallKind::Unreachable(None))));
    assert!(matches!(call(op(PrimOp::Unreachable), &[X]), Ok(CallKind::Unreachable(Some(_)))));
    assert_eq!(call(op(PrimOp::Unreachable), &[X, Y]).unwrap_err(), "expected 1 argument");
}

#[test]
fn calls_of_names() {
    assert!(matches!(call(60, &[X]), Ok(CallKind::Const(AtomId(60)))));
    assert!(matches!(call(61, &[]), Ok(CallKind::Global(AtomId(61)))));
    assert!(matches!(call(64, &[X]), Ok(CallKind::Call(c, 5)) if c.f.k == AtomId(64)));
    assert!(matches!(call(65, &[X]), Ok(CallKind::Error)));
    assert_eq!(call(62, &[]).unwrap_err(), "parse_expr unimplemented entity type");
    assert_eq!(call(66, &[]).unwrap_err(), "parse_expr unimplemented entity type");
    assert_eq!(call(X, &[]).unwrap_err(), "unknown function '?'");
}

#[test]
fn labels_hide_other_names() {
    match call_with(60, vec![atom(X)], 60) {
        Ok(CallKind::Jump(a, args)) => assert_eq!((a, show_all(&args)), (AtomId(60), "30".to_owned())),
        k => panic!("{:?}", k),
    }
}

#[test]
fn breaks() {
    let b = op(PrimOp::Break);
    match call_with(b, vec![atom(X), atom(Y)], X) {
        Ok(CallKind::Break(Some(a), args)) => assert_eq!((a, show_all(&args)), (AtomId(X), "31".to_owned())),
        k => panic!("{:?}", k),
    }
    match call_with(b, vec![atom(X), atom(Y)], Y) {
        Ok(CallKind::Break(None, args)) => assert_eq!(show_all(&args), "30 31"),
        k => panic!("{:?}", k),
    }
    assert!(matches!(call_with(b, vec![], Y), Ok(CallKind::Break(None, _))));
    assert!(matches!(call_with(b, vec![num(1)], Y), Ok(CallKind::Break(None, _))));
}

#[test]
fn calls_with_known_labels() {
    let env = environment();
    let kw = keywords();
    let p = Parser { fe: FormatEnv { env: &env }, kw: &kw };
    let c = |f: u32| CallExpr {
        f: spanned(&base(), &atom(f), AtomId(f)),
        args: vec![atom(X)],
        variant: None,
    };
    assert!(matches!(p.resolve_call(&base(), &names(), true, false, c(60)), Ok(CallKind::Jump(_, _))));
    assert!(matches!(p.resolve_call(&base(), &names(), false, true, c(60)), Ok(CallKind::Const(_))));
    let b = op(PrimOp::Break);
    assert!(matches!(p.resolve_call(&base(), &names(), false, true, c(b)), Ok(CallKind::Break(Some(_), _))));
}

// ---------------------------------------------------------------------------------------------
// Formulas

fn show_node(n: &Mm0ExprNode) -> String {
    match n {
        Mm0ExprNode::Const(e) => show(e),
        Mm0ExprNode::Var(i) => format!("v{}", i),
        Mm0ExprNode::Expr(t, es) => {
            let parts: Vec<String> = es.iter().map(show_node).collect();
            format!("t{}[{}]", t.0, parts.join(" "))
        }
    }
}

/// Atoms from 30 to 39 are variables of the program.
fn formula(e: LispVal) -> Result<(Vec<u32>, String), String> {
    let env = environment();
    let kw = keywords();
    let p = Parser { fe: FormatEnv { env: &env }, kw: &kw };
    let get = |_: &LispVal, a: AtomId| if 30 <= a.0 && a.0 < 40 { Some(a.0) } else { None };
    match p.parse_mm0_expr(&base(), e, get) {
        Ok(x) => Ok((x.subst, show_node(&x.expr))),
        Err(x) => Err(x.msg.text("?")),
    }
}

#[test]
fn formulas_number_their_variables() {
    // (41 y (41 x y)): each variable has one place, in the order in which they are met.
    let e = list(vec![atom(41), atom(Y), atoms(&[41, X, Y])]);
    assert_eq!(formula(e).unwrap(), (vec![Y, X], "t1[v0 t1[v1 v0]]".to_owned()));
    assert_eq!(formula(atom(X)).unwrap(), (vec![X], "v0".to_owned()));
    // x + x = y
    let e = list(vec![atom(43), atoms(&[41, X, X]), atom(Y)]);
    assert_eq!(formula(e).unwrap(), (vec![X, Y], "t3[t1[v0 v0] v1]".to_owned()));
}

#[test]
fn formulas_ask_in_order() {
    let env = environment();
    let kw = keywords();
    let p = Parser { fe: FormatEnv { env: &env }, kw: &kw };
    // The answers are numbered, so `y`, which is met first, is given 1.
    let mut asked: Vec<u32> = vec![];
    let e = list(vec![atom(41), atom(Y), atoms(&[41, X, Y])]);
    let r = p.parse_mm0_expr(&base(), e, |_: &LispVal, a: AtomId| {
        asked.push(a.0);
        Some(asked.len())
    });
    let x = match r {
        Ok(x) => x,
        Err(x) => panic!("{}", x.msg.text("?")),
    };
    assert_eq!(x.subst, vec![1, 2]);
    assert_eq!(show_node(&x.expr), "t1[v0 t1[v1 v0]]");
    assert_eq!(asked, vec![Y, X]);
    // A name without an answer is asked for wherever it stands, one with an answer only once.
    let mut asked: Vec<u32> = vec![];
    let e = list(vec![atom(41), atoms(&[41, 40, X]), atoms(&[41, X, 40])]);
    let r = p.parse_mm0_expr(&base(), e, |_: &LispVal, a: AtomId| {
        asked.push(a.0);
        if a.0 == X { Some(a.0) } else { None }
    });
    assert!(matches!(r, Ok(x) if show_node(&x.expr) == "t1[t1[40 v0] t1[v0 40]]"));
    assert_eq!(asked, vec![40, X, 40]);
}

#[test]
fn formulas_keep_constant_parts() {
    let e = list(vec![atom(41), atoms(&[41, 40, 40]), atom(X)]);
    assert_eq!(formula(e).unwrap(), (vec![X], "t1[(41 40 40) v0]".to_owned()));
    assert_eq!(formula(atoms(&[41, 40, 40])).unwrap(), (vec![], "(41 40 40)".to_owned()));
    assert_eq!(formula(atom(40)).unwrap(), (vec![], "40".to_owned()));
}

#[test]
fn formulas_with_bound_variables() {
    // `x` is bound in the second argument, and free after the term.
    let e = list(vec![atom(41), atoms(&[42, X, X]), atom(X)]);
    assert_eq!(formula(e).unwrap(), (vec![X], "t1[(42 30 30) v0]".to_owned()));
    let e = list(vec![atom(42), atom(X), atoms(&[41, X, Y])]);
    assert_eq!(formula(e).unwrap(), (vec![Y], "t2[30 t1[30 v0]]".to_owned()));
}

#[test]
fn wrong_formulas() {
    assert_eq!(formula(atom(60 - 11)).unwrap_err(), "term '?' not declared");
    assert_eq!(formula(atom(1000)).unwrap_err(), "term '?' not declared");
    assert_eq!(formula(atom(41)).unwrap_err(), "expected 2 arguments");
    assert_eq!(formula(atoms(&[41, X])).unwrap_err(), "expected 2 arguments");
    assert_eq!(formula(atoms(&[40, X])).unwrap_err(), "expected 0 arguments");
    assert_eq!(formula(num(1)).unwrap_err(), "bad expression ?");
    assert_eq!(formula(list(vec![num(1)])).unwrap_err(), "expected an atom");
    assert_eq!(formula(list(vec![atom(42), num(1), atom(X)])).unwrap_err(), "expected an atom");
    assert_eq!(formula(list(vec![atom(F + 16), atom(X)])).unwrap_err(), "term '?' not declared");
}
