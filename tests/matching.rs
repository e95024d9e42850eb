use astmatch::any::AnyMatcher;
use astmatch::kind::{KindMatcher, KindMatcherError};
use astmatch::language::Language;
use astmatch::matcher::{find_node, match_node, FindAllNodes, MatchAll, MatchNone, Matcher};
use astmatch::meta_var::{MetaVarBinding, MetaVarEnv};
use astmatch::pattern::{Pattern, PatternError};
use astmatch::tree::{Tree, ERROR_KIND};

const PROGRAM: u16 = 1;
const LEXICAL: u16 = 2;
const CONST: u16 = 3;
const DECLARATOR: u16 = 4;
const IDENT: u16 = 5;
const EQ: u16 = 6;
const NUMBER: u16 = 7;
const STMT: u16 = 8;
const BINARY: u16 = 9;
const EQEQ: u16 = 10;
const CALL: u16 = 11;
const ARGS: u16 = 12;
const LPAREN: u16 = 13;
const RPAREN: u16 = 14;
const COMMA: u16 = 15;
const SEMI: u16 = 16;

/// A node to build: kind, named, byte span in the source, children.
struct S(u16, bool, usize, usize, Vec<S>);

fn add(t: &mut Tree, parent: Option<usize>, src: &str, s: &S) -> usize {
    let at = t.add_node(parent, s.0, s.1, &src[s.2..s.3], s.2, s.3);
    for c in &s.4 {
        add(t, Some(at), src, c);
    }
    at
}

fn build(src: &str, root: S) -> Tree {
    let mut t = Tree::new();
    add(&mut t, None, src, &root);
    t
}

fn leaf(kind: u16, named: bool, start: usize, end: usize) -> S {
    S(kind, named, start, end, vec![])
}

/// `A == B` as a statement.
fn equality(a: &str, b: &str) -> Tree {
    let src = format!("{} == {}", a, b);
    let src = src.as_str();
    let (al, bs) = (a.len(), a.len() + 4);
    build(
        src,
        S(PROGRAM, true, 0, src.len(), vec![S(STMT, true, 0, src.len(), vec![S(
            BINARY,
            true,
            0,
            src.len(),
            vec![leaf(IDENT, true, 0, al), leaf(EQEQ, false, al + 1, al + 3), leaf(IDENT, true, bs, src.len())],
        )])]),
    )
}

/// `f(...)` with one-character arguments separated by ", ", optionally followed by `;`.
fn call(name: &str, args: &[&str], semi: bool) -> Tree {
    let mut src = format!("{}(", name);
    let mut arg_nodes = vec![leaf(LPAREN, false, name.len(), name.len() + 1)];
    for (i, a) in args.iter().enumerate() {
        if i > 0 {
            let at = src.len();
            src.push_str(", ");
            arg_nodes.push(leaf(COMMA, false, at, at + 1));
        }
        let at = src.len();
        src.push_str(a);
        let kind = if a.starts_with('$') || a.chars().all(|c| c.is_ascii_alphabetic()) { IDENT } else { NUMBER };
        arg_nodes.push(leaf(kind, true, at, at + a.len()));
    }
    let open = name.len();
    src.push(')');
    arg_nodes.push(leaf(RPAREN, false, src.len() - 1, src.len()));
    let call_end = src.len();
    let mut stmt_children = vec![S(CALL, true, 0, call_end, vec![
        leaf(IDENT, true, 0, name.len()),
        S(ARGS, true, open, call_end, arg_nodes),
    ])];
    if semi {
        src.push(';');
        stmt_children.push(leaf(SEMI, false, call_end, call_end + 1));
    }
    let len = src.len();
    build(&src, S(PROGRAM, true, 0, len, vec![S(STMT, true, 0, len, stmt_children)]))
}

fn const_decl() -> Tree {
    let src = "const a = 123";
    build(
        src,
        S(PROGRAM, true, 0, 13, vec![S(LEXICAL, true, 0, 13, vec![
            leaf(CONST, false, 0, 5),
            S(DECLARATOR, true, 6, 13, vec![leaf(IDENT, true, 6, 7), leaf(EQ, false, 8, 9), leaf(NUMBER, true, 10, 13)]),
        ])]),
    )
}

fn texts(t: &Tree, nodes: &[usize]) -> Vec<String> {
    nodes.iter().map(|&n| t.nodes[n].text.clone()).collect()
}

fn pattern(t: Tree) -> Pattern {
    match Pattern::new(t) {
        Ok(p) => p,
        Err(e) => panic!("pattern rejected: {:?}", e),
    }
}

#[test]
fn test_box_match() {
    let boxed = AnyMatcher::Pattern(pattern(const_decl()));
    let cand = const_decl();
    assert!(find_node(&boxed, &cand, 0).is_some());
}

#[test]
fn repeated_capture_must_unify() {
    let p = pattern(equality("$A", "$A"));
    let same = equality("x", "x");
    let found = find_node(&p, &same, 0).expect("x == x matches");
    assert_eq!(same.nodes[found.node].kind_id, BINARY);
    match found.env.get("A") {
        Some(MetaVarBinding::Single(n)) => assert_eq!(same.nodes[*n].text, "x"),
        _ => panic!("A is bound to one node"),
    }
    let differ = equality("x", "y");
    assert!(find_node(&p, &differ, 0).is_none());
}

#[test]
fn bare_meta_variable_is_rejected() {
    let src = "$A";
    let t = build(src, S(PROGRAM, true, 0, 2, vec![S(STMT, true, 0, 2, vec![leaf(IDENT, true, 0, 2)])]));
    assert!(matches!(Pattern::new(t), Err(PatternError::OnlyMetaVariable)));
    let src = "$$$A";
    let t = build(src, S(PROGRAM, true, 0, 4, vec![leaf(IDENT, true, 0, 4)]));
    assert!(matches!(Pattern::new(t), Err(PatternError::OnlyMetaVariable)));
}

#[test]
fn pattern_construction_errors() {
    assert!(matches!(Pattern::new(Tree::new()), Err(PatternError::NoContent)));
    let empty = build("", leaf(PROGRAM, true, 0, 0));
    assert!(matches!(Pattern::new(empty), Err(PatternError::NoContent)));
    let broken = build("x ==", S(PROGRAM, true, 0, 4, vec![S(ERROR_KIND, true, 0, 4, vec![leaf(IDENT, true, 0, 1)])]));
    assert!(matches!(Pattern::new(broken), Err(PatternError::Parse)));
}

#[test]
fn variadic_capture_binds_named_arguments() {
    let p = pattern(call("f", &["$$$ARGS"], false));
    let cand = call("f", &["1", "2", "3"], false);
    let found = find_node(&p, &cand, 0).expect("f(1, 2, 3) matches");
    match found.env.get("ARGS") {
        Some(MetaVarBinding::Multi(v)) => assert_eq!(texts(&cand, v), vec!["1", "2", "3"]),
        _ => panic!("ARGS is bound to a run"),
    }
    let none = call("f", &[], false);
    let found = find_node(&p, &none, 0).expect("f() matches");
    match found.env.get("ARGS") {
        Some(MetaVarBinding::Multi(v)) => assert!(v.is_empty()),
        _ => panic!("ARGS is bound to a run"),
    }
    let other = call("g", &["1"], false);
    assert!(find_node(&p, &other, 0).is_none());
}

#[test]
fn variadic_then_fixed_tail() {
    let p = pattern(call("f", &["$$$REST", "$LAST"], false));
    let cand = call("f", &["1", "2", "3"], false);
    let found = find_node(&p, &cand, 0).expect("matches");
    match found.env.get("REST") {
        Some(MetaVarBinding::Multi(v)) => assert_eq!(texts(&cand, v), vec!["1", "2"]),
        _ => panic!("REST is bound to a run"),
    }
    match found.env.get("LAST") {
        Some(MetaVarBinding::Single(n)) => assert_eq!(cand.nodes[*n].text, "3"),
        _ => panic!("LAST is bound"),
    }
}

#[test]
fn trailing_punctuation_is_left_out_of_the_span() {
    let p = pattern(call("foo", &[], false));
    let cand = call("foo", &[], true);
    let found = find_node(&p, &cand, 0).expect("foo(); holds foo()");
    assert_eq!(p.get_match_len(&cand, found.node), Some(5));
    // the statement `foo();` spans six bytes
    assert_eq!(cand.nodes[1].end - cand.nodes[1].start, 6);
}

#[test]
fn span_of_statement_pattern_excludes_semicolon() {
    // a pattern whose starting node is the statement itself
    let src = "foo(); x";
    let p = pattern(build(src, S(PROGRAM, true, 0, 8, vec![
        S(STMT, true, 0, 5, vec![S(CALL, true, 0, 5, vec![leaf(IDENT, true, 0, 3), S(ARGS, true, 3, 5, vec![leaf(LPAREN, false, 3, 4), leaf(RPAREN, false, 4, 5)])])]),
        S(STMT, true, 7, 8, vec![leaf(IDENT, true, 7, 8)]),
    ])));
    let cand_src = "foo(); x;";
    let cand = build(cand_src, S(PROGRAM, true, 0, 9, vec![
        S(STMT, true, 0, 6, vec![S(CALL, true, 0, 5, vec![leaf(IDENT, true, 0, 3), S(ARGS, true, 3, 5, vec![leaf(LPAREN, false, 3, 4), leaf(RPAREN, false, 4, 5)])]), leaf(SEMI, false, 5, 6)]),
        S(STMT, true, 7, 9, vec![leaf(IDENT, true, 7, 8), leaf(SEMI, false, 8, 9)]),
    ]));
    let m = match_node(&p, &cand, 0).expect("program matches");
    assert_eq!(m.node, 0);
    assert_eq!(p.get_match_len(&cand, 0), Some(9));
}

#[test]
fn failed_match_leaves_environment_unchanged() {
    let p = pattern(equality("$A", "$A"));
    let differ = equality("x", "y");
    let mut env = MetaVarEnv::new();
    assert!(env.insert(&differ, "B".to_string(), MetaVarBinding::Single(3)));
    // node 2 is `x == y`
    assert_eq!(p.match_node_with_env(&differ, 2, &mut env), None);
    assert_eq!(env.len(), 1);
    assert!(env.get("A").is_none());
    assert!(env.get("B").is_some());
}

#[test]
fn pruning_by_potential_kinds() {
    let p = pattern(equality("$A", "$A"));
    let kinds = p.potential_kinds().expect("a pattern knows its kind");
    assert!(kinds.contains(BINARY as usize));
    assert!(!kinds.contains(STMT as usize));
    let cand = equality("x", "x");
    for n in 0..cand.node_count() {
        if !kinds.contains(cand.nodes[n].kind_id as usize) {
            assert!(match_node(&p, &cand, n).is_none());
        }
    }
    let none = MatchNone.potential_kinds().expect("empty set");
    assert!(!none.contains(0));
    assert!(MatchAll.potential_kinds().is_none());
}

#[test]
fn kind_matcher_matches_exactly_its_kind() {
    let names: Vec<String> = ["end", "program", "lexical_declaration", "const", "variable_declarator", "identifier"]
        .iter()
        .map(|s| s.to_string())
        .collect();
    let lang = Language::new(names);
    let m = KindMatcher::new("identifier", &lang).expect("known kind");
    let t = const_decl();
    for n in 0..t.node_count() {
        assert_eq!(match_node(&m, &t, n).is_some(), t.nodes[n].kind_id == IDENT);
    }
    let kinds = m.potential_kinds().unwrap();
    assert!(kinds.contains(IDENT as usize));
    assert!(!kinds.contains(NUMBER as usize));
    assert!(matches!(KindMatcher::new("no_such_kind", &lang), Err(KindMatcherError::InvalidKindName)));
    assert_eq!(lang.kind_id("program"), Some(PROGRAM));
}

#[test]
fn first_match_agrees_with_search() {
    let t = const_decl();
    let m = KindMatcher::from_id(IDENT);
    let first = find_node(&m, &t, 0).expect("an identifier");
    let mut all = FindAllNodes::new(&m, &t, 0);
    let next = all.next().expect("an identifier");
    assert_eq!(first.node, next.node);
    assert!(all.next().is_none());
}

#[test]
fn search_does_not_descend_into_matches() {
    // f(g(1)) with pattern $F($$$X) style: every call matches, the inner one is skipped
    let src = "f(g(1))";
    let t = build(src, S(PROGRAM, true, 0, 7, vec![S(CALL, true, 0, 7, vec![
        leaf(IDENT, true, 0, 1),
        S(ARGS, true, 1, 7, vec![
            leaf(LPAREN, false, 1, 2),
            S(CALL, true, 2, 6, vec![leaf(IDENT, true, 2, 3), S(ARGS, true, 3, 6, vec![leaf(LPAREN, false, 3, 4), leaf(NUMBER, true, 4, 5), leaf(RPAREN, false, 5, 6)])]),
            leaf(RPAREN, false, 6, 7),
        ]),
    ])]));
    let mut all = FindAllNodes::new(KindMatcher::from_id(CALL), &t, 0);
    let first = all.next().expect("outer call");
    assert_eq!(t.nodes[first.node].text, "f(g(1))");
    assert!(all.next().is_none());
    // the first-match query from the inner call finds it
    assert!(find_node(&KindMatcher::from_id(CALL), &t, 5).is_some());
    let mut idents = FindAllNodes::new(KindMatcher::from_id(IDENT), &t, 0);
    assert_eq!(t.nodes[idents.next().unwrap().node].text, "f");
    assert_eq!(t.nodes[idents.next().unwrap().node].text, "g");
    assert!(idents.next().is_none());
}

#[test]
fn match_all_and_match_none() {
    let t = const_decl();
    assert_eq!(match_node(&MatchAll, &t, 3).map(|m| m.node), Some(3));
    assert!(match_node(&MatchNone, &t, 3).is_none());
    assert!(find_node(&AnyMatcher::Nothing(MatchNone), &t, 0).is_none());
    assert_eq!(find_node(&AnyMatcher::All(MatchAll), &t, 2).map(|m| m.node), Some(2));
}

#[test]
fn literal_text_must_agree() {
    let p = pattern(call("f", &["1"], false));
    assert!(find_node(&p, &call("f", &["1"], true), 0).is_some());
    assert!(find_node(&p, &call("f", &["2"], false), 0).is_none());
    assert!(find_node(&p, &call("f", &["1", "2"], false), 0).is_none());
}
