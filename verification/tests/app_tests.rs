use rdfwalk::app::model::{BrowserItem, FocusTerm, Literal, NamedNode, Term};
use rdfwalk::app::browse::{browser_items, shown_iris};
use rdfwalk::app::edit::{backspace, cursor_left, cursor_right, insert_at_cursor};
use rdfwalk::app::history::History;
use rdfwalk::app::{
    contains_iri, handle_key, remove_selected, select_down, select_up, start, toggle_bookmark, Action,
    KeyCode, KeyContext, Screen, Start, UiMode, MOD_CONTROL, MOD_NONE, MOD_SHIFT,
};

fn mode(view: Screen, sparql: bool, search: bool) -> UiMode {
    UiMode { view, sparql_mode_input: sparql, search_mode_input: search }
}

fn ctx(browser: bool) -> KeyContext {
    KeyContext {
        has_browser_data: browser,
        has_sparql_result: true,
        has_search_results: false,
        types_loaded: false,
    }
}

#[test]
fn typed_characters_go_to_the_input() {
    let m = mode(Screen::Sparql, true, false);
    let (m2, a) = handle_key(m, ctx(true), KeyCode::Char('q'), MOD_NONE);
    assert_eq!(a, Action::SparqlPushChar('q'));
    assert_eq!(m2.view, Screen::Sparql);
    let (_, a) = handle_key(mode(Screen::Search, false, true), ctx(true), KeyCode::Char('T'), MOD_SHIFT);
    assert_eq!(a, Action::SearchPushChar('T'));
}

#[test]
fn global_keys_outside_inputs() {
    let m = mode(Screen::Browser, false, false);
    assert_eq!(handle_key(m, ctx(true), KeyCode::Char('Q'), MOD_CONTROL).1, Action::Quit);
    let (m2, a) = handle_key(m, ctx(true), KeyCode::Char('t'), MOD_NONE);
    assert_eq!((m2.view, a), (Screen::Types, Action::LoadTypes));
    let (m2, a) = handle_key(m, ctx(true), KeyCode::Char('s'), MOD_NONE);
    assert_eq!((m2.view, m2.sparql_mode_input, a), (Screen::Sparql, true, Action::Nothing));
    let (m2, _) = handle_key(m, ctx(true), KeyCode::Char('f'), MOD_NONE);
    assert_eq!((m2.view, m2.search_mode_input), (Screen::Search, true));
    let (m2, _) = handle_key(m, ctx(true), KeyCode::Char('m'), MOD_NONE);
    assert_eq!(m2.view, Screen::Bookmarks);
}

#[test]
fn back_to_browser_needs_a_resource() {
    let m = mode(Screen::Bookmarks, false, false);
    assert_eq!(handle_key(m, ctx(true), KeyCode::Esc, MOD_NONE).0.view, Screen::Browser);
    assert_eq!(handle_key(m, ctx(false), KeyCode::Esc, MOD_NONE).0.view, Screen::Bookmarks);
    assert_eq!(handle_key(m, ctx(true), KeyCode::Char('b'), MOD_NONE).0.view, Screen::Browser);
    let typing = mode(Screen::Sparql, true, false);
    assert_eq!(handle_key(typing, ctx(true), KeyCode::Esc, MOD_NONE).0.view, Screen::Browser);
}

#[test]
fn view_keys() {
    let b = mode(Screen::Browser, false, false);
    assert_eq!(handle_key(b, ctx(true), KeyCode::Char('b'), MOD_NONE).1, Action::ToggleBookmark);
    assert_eq!(handle_key(b, ctx(true), KeyCode::Tab, MOD_NONE).1, Action::BrowserNextSection);
    assert_eq!(handle_key(b, ctx(true), KeyCode::Tab, MOD_SHIFT).1, Action::Nothing);
    assert_eq!(handle_key(b, ctx(true), KeyCode::Left, MOD_NONE).1, Action::HistoryBack);
    let s = mode(Screen::Sparql, true, false);
    assert_eq!(handle_key(s, ctx(true), KeyCode::Char('v'), MOD_CONTROL).1, Action::SparqlPaste);
    assert_eq!(handle_key(s, ctx(true), KeyCode::Enter, MOD_NONE).1, Action::SparqlRun);
    let (m2, _) = handle_key(s, ctx(true), KeyCode::Tab, MOD_NONE);
    assert!(!m2.sparql_mode_input);
    let f = mode(Screen::Search, false, true);
    let (m2, _) = handle_key(f, ctx(true), KeyCode::Tab, MOD_NONE);
    assert!(m2.search_mode_input);
    let k = mode(Screen::Bookmarks, false, false);
    assert_eq!(handle_key(k, ctx(true), KeyCode::Delete, MOD_NONE).1, Action::BookmarksDelete);
    let t = mode(Screen::Types, false, false);
    assert_eq!(handle_key(t, ctx(true), KeyCode::Enter, MOD_NONE).1, Action::TypesActivate);
}

#[test]
fn start_from_the_command_line() {
    match start(None) {
        Start::LoadTypes => {}
        other => panic!("{:?}", other),
    }
    match start(Some("http://example.org/a".to_string())) {
        Start::Navigate(n) => assert_eq!(n.as_str(), "http://example.org/a"),
        other => panic!("{:?}", other),
    }
    match start(Some("not an iri".to_string())) {
        Start::InvalidUri(msg) => assert!(msg.starts_with("Invalid URI: "), "{}", msg),
        other => panic!("{:?}", other),
    }
}

#[test]
fn removing_the_selected_bookmark() {
    let mut v = vec![1, 2, 3];
    let mut sel = 2;
    assert!(remove_selected(&mut v, &mut sel));
    assert_eq!((v.clone(), sel), (vec![1, 2], 1));
    let mut sel = 0;
    assert!(remove_selected(&mut v, &mut sel));
    assert_eq!((v.clone(), sel), (vec![2], 0));
    let mut sel = 5;
    assert!(!remove_selected(&mut v, &mut sel));
    assert_eq!((v.clone(), sel), (vec![2], 5));
    let mut sel = 0;
    assert!(remove_selected(&mut v, &mut sel));
    assert_eq!((v, sel), (vec![], 0));
}

#[test]
fn pasting_at_the_cursor() {
    let mut s = "SELECT  WHERE".to_string();
    let mut c = 7;
    insert_at_cursor(&mut s, &mut c, "?x");
    assert_eq!((s.as_str(), c), ("SELECT ?x WHERE", 9));
    let mut s = "\u{e9}".to_string();
    let mut c = 2;
    insert_at_cursor(&mut s, &mut c, "\u{e8}");
    assert_eq!((s.as_str(), c), ("\u{e9}\u{e8}", 4));
}

#[test]
fn focus_terms_and_items() {
    let n = NamedNode::new_unchecked("http://e/x".to_string());
    let f = FocusTerm::from_named_node(n.clone());
    assert_eq!(f.as_named_node(), Some(&n));
    let t = f.clone().into_term();
    assert_eq!(FocusTerm::try_from_term(t), Ok(f.clone()));
    assert_eq!(FocusTerm::try_from_term(Term::Literal(Literal::new_simple_literal("x".into()))), Err(()));
    let lit = BrowserItem::LiteralProp { prop: n.clone(), value: Literal::new_simple_literal("v".into()) };
    assert!(lit.navigable_focus().is_none());
    let out = BrowserItem::OutgoingLink { prop: n.clone(), target: f.clone() };
    assert_eq!(out.navigable_focus(), Some(&f));
}

fn iri(s: &str) -> NamedNode {
    NamedNode::new_unchecked(s.to_string())
}

fn focus(s: &str) -> FocusTerm {
    FocusTerm::from_named_node(iri(s))
}

#[test]
fn toggling_a_bookmark_adds_then_removes_it() {
    let mut marks = vec![iri("http://e/a"), iri("http://e/b")];
    let mut sel = 1;
    assert!(toggle_bookmark(&mut marks, &mut sel, &iri("http://e/c")));
    assert_eq!(marks, vec![iri("http://e/a"), iri("http://e/b"), iri("http://e/c")]);
    assert_eq!(sel, 1);
    assert!(contains_iri(&marks, &iri("http://e/c")));
    assert!(!toggle_bookmark(&mut marks, &mut sel, &iri("http://e/c")));
    assert_eq!(marks, vec![iri("http://e/a"), iri("http://e/b")]);
    assert!(!contains_iri(&marks, &iri("http://e/c")));
    let mut sel = 1;
    assert!(!toggle_bookmark(&mut marks, &mut sel, &iri("http://e/b")));
    assert_eq!((marks.clone(), sel), (vec![iri("http://e/a")], 0));
    assert!(!toggle_bookmark(&mut marks, &mut sel, &iri("http://e/a")));
    assert_eq!((marks.len(), sel), (0, 0));
}

#[test]
fn selection_moves_within_the_list() {
    assert_eq!(select_up(0), 0);
    assert_eq!(select_up(3), 2);
    assert_eq!(select_down(0, 3), 1);
    assert_eq!(select_down(2, 3), 2);
    assert_eq!(select_down(0, 0), 0);
}

#[test]
fn back_then_forward_returns_to_the_start() {
    let mut h = History::new();
    assert_eq!(h.go_back(Some(focus("http://e/a"))), None);
    h.visit(Some(focus("http://e/a")));
    h.visit(Some(focus("http://e/b")));
    // now showing c
    assert_eq!(h.go_back(Some(focus("http://e/c"))), Some(focus("http://e/b")));
    assert_eq!(h.go_back(Some(focus("http://e/b"))), Some(focus("http://e/a")));
    assert_eq!(h.go_forward(Some(focus("http://e/a"))), Some(focus("http://e/b")));
    assert_eq!(h.go_forward(Some(focus("http://e/b"))), Some(focus("http://e/c")));
    assert_eq!(h.go_forward(Some(focus("http://e/c"))), None);
    assert_eq!(h.go_back(Some(focus("http://e/c"))), Some(focus("http://e/b")));
    h.visit(Some(focus("http://e/b")));
    assert_eq!(h.go_forward(Some(focus("http://e/d"))), None);
}

#[test]
fn editing_around_the_cursor() {
    let mut s = "a\u{e9}b".to_string();
    let mut c = 3;
    backspace(&mut s, &mut c);
    assert_eq!((s.as_str(), c), ("ab", 1));
    backspace(&mut s, &mut c);
    assert_eq!((s.as_str(), c), ("b", 0));
    backspace(&mut s, &mut c);
    assert_eq!((s.as_str(), c), ("b", 0));
    let t = "x\u{e9}\u{1f600}";
    let mut c = 0;
    cursor_right(t, &mut c);
    assert_eq!(c, 1);
    cursor_right(t, &mut c);
    assert_eq!(c, 3);
    cursor_right(t, &mut c);
    assert_eq!(c, 7);
    cursor_right(t, &mut c);
    assert_eq!(c, 7);
    cursor_left(t, &mut c);
    assert_eq!(c, 3);
    cursor_left(t, &mut c);
    cursor_left(t, &mut c);
    assert_eq!(c, 0);
    cursor_left(t, &mut c);
    assert_eq!(c, 0);
}

#[test]
fn browser_lines_come_section_by_section() {
    let lits = vec![(iri("http://e/p"), Literal::new_simple_literal("v".into()))];
    let outs = vec![(iri("http://e/q"), focus("http://e/t")), (iri("http://e/r"), focus("http://e/u"))];
    let ins: Vec<(NamedNode, FocusTerm)> = vec![];
    let uses = vec![(focus("http://e/s"), Term::NamedNode(iri("http://e/o")))];
    let (items, offsets) = browser_items(&lits, &outs, &ins, &uses);
    assert_eq!(offsets, [0, 1, 3, 3]);
    assert_eq!(items.len(), 4);
    assert!(matches!(&items[0], BrowserItem::LiteralProp { .. }));
    assert!(matches!(&items[2], BrowserItem::OutgoingLink { prop, .. } if prop.as_str() == "http://e/r"));
    assert!(matches!(&items[3], BrowserItem::AsPredicateRow { .. }));
    let shown: Vec<String> = shown_iris(&items).iter().map(|n| n.as_str().to_string()).collect();
    assert_eq!(
        shown,
        vec!["http://e/p", "http://e/q", "http://e/t", "http://e/r", "http://e/u", "http://e/s", "http://e/o"]
    );
}
