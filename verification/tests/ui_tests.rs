use rdfwalk::app::model::{BrowserItem, FocusTerm, Literal, NamedNode, SearchResult, SparqlResult, Term};
use rdfwalk::app::{Screen, UiMode};
use rdfwalk::rdf::display::DisplayContext;
use rdfwalk::ui::bookmarks::{bookmark_line, bookmarks_title, BookmarkLine};
use rdfwalk::ui::browser::{
    next_section_start, prev_section_start, triple_line,
    address_bar, item_line, section_counts, section_selection, type_labels, ItemKind,
};
use rdfwalk::ui::search::{search_cells, search_column_width};
use rdfwalk::ui::sparql::{column_width, first_iri, results_title, row_cells};
use rdfwalk::ui::status::status_line;
use rdfwalk::ui::widgets::{cursor_position, Area};

fn node(s: &str) -> NamedNode {
    NamedNode::new_unchecked(s.to_string())
}

fn focus(s: &str) -> FocusTerm {
    FocusTerm::from_named_node(node(s))
}

const TYPE: &str = "http://www.w3.org/1999/02/22-rdf-syntax-ns#type";

#[test]
fn type_labels_come_from_type_links() {
    let ctx = DisplayContext::new();
    let items = vec![
        BrowserItem::OutgoingLink { prop: node(TYPE), target: focus("http://xmlns.com/foaf/0.1/Person") },
        BrowserItem::OutgoingLink { prop: node("http://e/knows"), target: focus("http://e/b") },
        BrowserItem::LiteralProp { prop: node(TYPE), value: Literal::new_simple_literal("x".into()) },
    ];
    assert_eq!(type_labels(&ctx, &items), vec!["foaf:Person".to_string()]);
}

#[test]
fn address_bar_raw_and_labelled() {
    let mut ctx = DisplayContext::new();
    let f = focus("http://e/a");
    let bar = address_bar(&ctx, &f, false, &vec![], 80);
    assert_eq!((bar.star.as_str(), bar.label.clone(), bar.uri.as_str()), ("   ", None, "http://e/a"));
    assert!(bar.types.is_none());
    ctx.cache_label("http://e/a", Some("Alpha".to_string()));
    let bar = address_bar(&ctx, &f, true, &vec!["T1".to_string(), "T2".to_string()], 40);
    assert_eq!(bar.star, " \u{2605} ");
    assert_eq!(bar.label, Some("Alpha ".to_string()));
    assert_eq!(bar.uri, "<http://e/a>");
    // left: 3 + 6 + 12 = 21, types "T1  T2" = 6, pad = 40 - 27 = 13
    assert_eq!(bar.types, Some((13, "T1  T2".to_string())));
    let bar = address_bar(&ctx, &f, true, &vec!["T".to_string()], 10);
    assert_eq!(bar.types, Some((0, "T".to_string())));
}

#[test]
fn address_bar_shows_no_prefixed_name_as_label() {
    let mut ctx = DisplayContext::new();
    let f = focus("http://xmlns.com/foaf/0.1/Person");
    let bar = address_bar(&ctx, &f, false, &vec![], 80);
    assert_eq!(bar.label, None);
    assert_eq!(bar.uri, "http://xmlns.com/foaf/0.1/Person");
    ctx.cache_label("http://xmlns.com/foaf/0.1/Person", None);
    let bar = address_bar(&ctx, &f, false, &vec![], 80);
    assert_eq!((bar.label, bar.uri.as_str()), (None, "http://xmlns.com/foaf/0.1/Person"));
}

#[test]
fn sections_and_selection() {
    assert_eq!(section_counts([0, 2, 5, 5], 9), [2, 3, 0, 4]);
    assert_eq!(section_counts([0, 2, 5, 7], 6), [2, 3, 2, 0]);
    assert_eq!(section_selection(3, 2, 3), Some(1));
    assert_eq!(section_selection(5, 2, 3), None);
    assert_eq!(section_selection(1, 2, 3), None);
}

#[test]
fn item_lines() {
    let ctx = DisplayContext::new();
    let item = BrowserItem::LiteralProp {
        prop: node("http://www.w3.org/2000/01/rdf-schema#label"),
        value: Literal::new_language_tagged_literal_unchecked("Hello\nWorld".into(), "en".into()),
    };
    let line = item_line(&ctx, &item, 80);
    assert_eq!(line.kind, ItemKind::LiteralProp);
    assert_eq!(line.lead, "  \u{2192} ");
    assert_eq!(line.first, format!("{:<37}", "rdfs:label"));
    assert_eq!(line.sep, " = ");
    assert_eq!(line.second, format!("{:<16}", "Hello World"));
    assert_eq!(line.suffix, "@en");
    let line = item_line(&ctx, &item, 70);
    assert_eq!(line.second, "Hello\u{2026}");
    let out = BrowserItem::IncomingLink { prop: node("http://e/p"), source: focus("http://e/s") };
    let line = item_line(&ctx, &out, 80);
    assert_eq!((line.lead.as_str(), line.sep.as_str(), line.second.as_str()), ("  \u{2190} ", " \u{2190} ", "<http://e/s>"));
    let row = BrowserItem::AsPredicateRow {
        subject: focus("http://e/s"),
        object: Term::Literal(Literal::new_simple_literal("o".into())),
    };
    let line = item_line(&ctx, &row, 80);
    assert_eq!(line.first, format!("  {:<37}", "<http://e/s>"));
    assert_eq!(line.second, "o");
}

#[test]
fn sparql_results_layout() {
    let r = SparqlResult { variables: vec!["s".into(), "label".into()], rows: vec![] };
    assert_eq!(results_title(Some(&r)), " Results: ?s  ?label ");
    assert_eq!(results_title(None), " Results ");
    assert_eq!(column_width(40, 2), 18);
    assert_eq!(column_width(40, 0), 40);
    assert_eq!(column_width(2, 3), 0);
    let ctx = DisplayContext::new();
    let cells = row_cells(&ctx, &vec![Some(Term::NamedNode(node("http://e/x"))), None], 14, 2);
    assert_eq!(cells, vec![("<http://e/x>  ".to_string(), true), (" ".repeat(14), false)]);
}

#[test]
fn search_layout() {
    assert_eq!(search_column_width(36), 10);
    assert_eq!(search_column_width(3), 0);
    let ctx = DisplayContext::new();
    let hit = SearchResult {
        resource: focus("http://e/s"),
        property: node("http://xmlns.com/foaf/0.1/name"),
        matched_value: "a\nvery long value".into(),
    };
    let (a, b, c) = search_cells(&ctx, &hit, 8);
    assert_eq!(a, "<http:/\u{2026}");
    assert_eq!(b, "foaf:na\u{2026}");
    assert_eq!(c, "a very \u{2026}");
}

#[test]
fn bookmarks_layout() {
    assert_eq!(bookmarks_title(3), " Bookmarks (3) ");
    let mut ctx = DisplayContext::new();
    match bookmark_line(&ctx, &node("http://e/a")) {
        BookmarkLine::Raw(s) => assert_eq!(s, "  http://e/a"),
        other => panic!("{:?}", other),
    }
    ctx.cache_label("http://e/a", Some("A".into()));
    match bookmark_line(&ctx, &node("http://e/a")) {
        BookmarkLine::Labelled(a, b) => assert_eq!((a.as_str(), b.as_str()), ("  A ", "<http://e/a>")),
        other => panic!("{:?}", other),
    }
}

#[test]
fn status_lines() {
    let m = UiMode { view: Screen::Search, sparql_mode_input: false, search_mode_input: true };
    assert_eq!(status_line(m, ""), "[Esc] Browser  [Enter] Search  [Tab] Results");
    assert_eq!(status_line(m, "Copied"), "Copied  |  [Esc] Browser  [Enter] Search  [Tab] Results");
}

#[test]
fn cursor_positions() {
    let area = Area { x: 0, y: 0, width: 7, height: 5 };
    // inner width 5
    assert_eq!(cursor_position("abc", 3, area), (4, 1));
    assert_eq!(cursor_position("abcde", 5, area), (1, 2));
    assert_eq!(cursor_position("ab\ncd", 5, area), (3, 2));
    assert_eq!(cursor_position("ab", 99, area), (3, 1));
    assert_eq!(cursor_position("a\nb\nc\nd\ne", 9, area), (2, 3));
    assert_eq!(cursor_position("\u{e9}x", 2, area), (2, 1));
}

#[test]
fn sections_add_up_to_the_items() {
    for (offsets, total) in [([0, 0, 0, 0], 0), ([0, 1, 4, 4], 6), ([0, 3, 3, 3], 3)] {
        let c = section_counts(offsets, total);
        assert_eq!(c.iter().sum::<usize>(), total);
    }
}

#[test]
fn cursor_stays_inside_its_box() {
    let area = Area { x: 2, y: 3, width: 6, height: 4 };
    // inner box: columns 3..=6, rows 4..=5
    let text = "a\nb\nc\nd\nlonger line here";
    for offset in 0..=text.len() {
        if text.is_char_boundary(offset) {
            let (cx, cy) = cursor_position(text, offset, area);
            assert!(cx <= 2 + 4 && cy <= 3 + 2, "{} -> {:?}", offset, (cx, cy));
        }
    }
    let tiny = Area { x: 0, y: 0, width: 1, height: 1 };
    assert_eq!(cursor_position("abc", 3, tiny), (0, 0));
}

#[test]
fn activating_a_result_row_opens_its_first_iri() {
    let lit = Some(Term::Literal(Literal::new_simple_literal("x".into())));
    let row = vec![None, lit.clone(), Some(Term::NamedNode(node("http://a/1"))), Some(Term::NamedNode(node("http://a/2")))];
    assert_eq!(first_iri(&row).map(|n| n.as_str().to_string()), Some("http://a/1".to_string()));
    assert!(first_iri(&vec![None, lit]).is_none());
    assert!(first_iri(&vec![]).is_none());
}

#[test]
fn tab_jumps_between_sections_with_items() {
    // sections: [0,2) literals, [2,2) empty, [2,5) incoming, [5,6) as predicate
    let o = [0, 2, 2, 5];
    assert_eq!(next_section_start(o, 6, 0), Some(2));
    assert_eq!(next_section_start(o, 6, 1), Some(2));
    assert_eq!(next_section_start(o, 6, 3), Some(5));
    assert_eq!(next_section_start(o, 6, 5), None);
    assert_eq!(prev_section_start(o, 6, 5), Some(2));
    assert_eq!(prev_section_start(o, 6, 2), Some(0));
    assert_eq!(prev_section_start(o, 6, 1), None);
    // from the first line of a section, Tab then Shift+Tab comes back
    let p = next_section_start(o, 6, 2).unwrap();
    assert_eq!(prev_section_start(o, 6, p), Some(2));
}

#[test]
fn selected_line_as_a_triple() {
    let f = FocusTerm::NamedNode(node("http://e/x"));
    let lit = BrowserItem::LiteralProp {
        prop: node("http://www.w3.org/2000/01/rdf-schema#label"),
        value: Literal::new_language_tagged_literal_unchecked("a \"b\"".into(), "en".into()),
    };
    assert_eq!(
        triple_line(&f, &lit),
        "<http://e/x> <http://www.w3.org/2000/01/rdf-schema#label> \"a \\\"b\\\"\"@en ."
    );
    let inc = BrowserItem::IncomingLink { prop: node("http://e/p"), source: FocusTerm::NamedNode(node("http://e/s")) };
    assert_eq!(triple_line(&f, &inc), "<http://e/s> <http://e/p> <http://e/x> .");
    let row = BrowserItem::AsPredicateRow {
        subject: FocusTerm::NamedNode(node("http://e/s")),
        object: Term::Literal(Literal::new_typed_literal(
            "3".into(),
            node("http://www.w3.org/2001/XMLSchema#integer"),
        )),
    };
    assert_eq!(
        triple_line(&f, &row),
        "<http://e/s> <http://e/x> \"3\"^^<http://www.w3.org/2001/XMLSchema#integer> ."
    );
    let blank = BrowserItem::AsPredicateRow {
        subject: FocusTerm::NamedNode(node("http://e/s")),
        object: Term::BlankNode(rdfwalk::app::model::BlankNode::new_unchecked("b0".into())),
    };
    assert_eq!(triple_line(&f, &blank), "<http://e/s> <http://e/x> _:b0 .");
}
