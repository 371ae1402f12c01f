use rdfwalk::app::model::{BlankNode, FocusTerm, Literal, NamedNode, Term};
use rdfwalk::rdf::display::{escape_literal_into, DisplayContext};

fn node(s: &str) -> NamedNode {
    NamedNode::new_unchecked(s.to_string())
}

#[test]
fn builtin_prefixes_shorten_iris() {
    let ctx = DisplayContext::new();
    assert_eq!(ctx.sparql_node(&node("http://www.w3.org/1999/02/22-rdf-syntax-ns#type")), "rdf:type");
    assert_eq!(ctx.sparql_node(&node("http://www.w3.org/2000/01/rdf-schema#label")), "rdfs:label");
    assert_eq!(ctx.sparql_node(&node("http://purl.org/dc/terms/title")), "dct:title");
    assert_eq!(ctx.sparql_node(&node("http://purl.org/dc/elements/1.1/title")), "dc:title");
    assert_eq!(ctx.sparql_node(&node("https://schema.org/Person")), "schema:Person");
    assert_eq!(ctx.sparql_node(&node("http://xmlns.com/foaf/0.1/name")), "foaf:name");
}

#[test]
fn unknown_or_bare_namespace_is_bracketed() {
    let ctx = DisplayContext::new();
    assert_eq!(ctx.sparql_node(&node("http://example.org/a")), "<http://example.org/a>");
    assert_eq!(
        ctx.sparql_node(&node("http://xmlns.com/foaf/0.1/")),
        "<http://xmlns.com/foaf/0.1/>"
    );
}

#[test]
fn cached_label_wins_then_can_be_cleared() {
    let mut ctx = DisplayContext::new();
    let n = node("http://example.org/a");
    assert_eq!(ctx.display_node(&n), "<http://example.org/a>");
    ctx.cache_label("http://example.org/a", Some("Alpha".to_string()));
    assert_eq!(ctx.display_node(&n), "Alpha");
    ctx.cache_label("http://example.org/b", Some("Beta".to_string()));
    assert_eq!(ctx.display_node(&n), "Alpha");
    ctx.cache_label("http://example.org/a", None);
    assert_eq!(ctx.display_node(&n), "<http://example.org/a>");
    assert_eq!(ctx.display_node(&node("http://example.org/b")), "Beta");
}

#[test]
fn literal_parts_and_display() {
    let ctx = DisplayContext::new();
    let plain = Literal::new_simple_literal("hello\n world".to_string());
    assert_eq!(ctx.literal_parts(&plain), ("hello world".to_string(), None));
    assert_eq!(ctx.display_literal(&plain), "hello world");
    let tagged = Literal::new_language_tagged_literal_unchecked("bonjour".to_string(), "fr".to_string());
    assert_eq!(ctx.literal_parts(&tagged), ("bonjour".to_string(), Some("@fr".to_string())));
    assert_eq!(ctx.display_literal(&tagged), "bonjour @fr");
    let typed = Literal::new_typed_literal(
        "42".to_string(),
        node("http://www.w3.org/2001/XMLSchema#integer"),
    );
    assert_eq!(ctx.display_literal(&typed), "42 ^^xsd:integer");
    let typed_string = Literal::new_typed_literal(
        "s".to_string(),
        node("http://www.w3.org/2001/XMLSchema#string"),
    );
    assert_eq!(ctx.display_literal(&typed_string), "s");
}

#[test]
fn literal_parts_fit_the_width() {
    let ctx = DisplayContext::new();
    let tagged = Literal::new_language_tagged_literal_unchecked("abcdefghij".to_string(), "en".to_string());
    // 10 columns, suffix "@en" and a space take 4: the value gets 6.
    assert_eq!(ctx.display_literal_parts(&tagged, 10), ("abcde\u{2026}".to_string(), Some("@en".to_string())));
    assert_eq!(ctx.display_literal_parts(&tagged, 2), ("\u{2026}".to_string(), Some("@en".to_string())));
    let plain = Literal::new_simple_literal("abc".to_string());
    assert_eq!(ctx.display_literal_parts(&plain, 3), ("abc".to_string(), None));
}

#[test]
fn terms_shown_and_written() {
    let ctx = DisplayContext::new();
    let b = Term::BlankNode(BlankNode::new_unchecked("b0".to_string()));
    assert_eq!(ctx.display_term(&b), "_:b0");
    assert_eq!(ctx.sparql_term(&b), "_:b0");
    let n = Term::NamedNode(node("http://www.w3.org/2002/07/owl#Thing"));
    assert_eq!(ctx.display_term(&n), "owl:Thing");
    assert_eq!(ctx.display_term_plain(&n), "owl:Thing");
    let f = FocusTerm::from_named_node(node("http://example.org/x"));
    assert_eq!(ctx.display_focus(&f), "<http://example.org/x>");
    assert_eq!(ctx.sparql_focus(&f), "<http://example.org/x>");
    let long = Term::Literal(Literal::new_simple_literal("x".repeat(100)));
    let shown = ctx.display_term_plain(&long);
    assert_eq!(shown.chars().count(), 60);
    assert!(shown.ends_with('\u{2026}'));
}

#[test]
fn sparql_literals_are_escaped() {
    let ctx = DisplayContext::new();
    let lit = Literal::new_simple_literal("a\"b\\c\nd\re\tf".to_string());
    assert_eq!(ctx.sparql_literal(&lit), "\"a\\\"b\\\\c\\nd\\re\\tf\"");
    let tagged = Literal::new_language_tagged_literal_unchecked("x".to_string(), "de".to_string());
    assert_eq!(ctx.sparql_literal(&tagged), "\"x\"@de");
    let typed = Literal::new_typed_literal("1".to_string(), node("http://example.org/t"));
    assert_eq!(ctx.sparql_literal(&typed), "\"1\"^^<http://example.org/t>");
    let typed2 = Literal::new_typed_literal("1".to_string(), node("http://www.w3.org/2001/XMLSchema#int"));
    assert_eq!(ctx.sparql_term(&Term::Literal(typed2)), "\"1\"^^xsd:int");
}

#[test]
fn escaping_keeps_texts_apart() {
    let texts = ["\\n", "\n", "\\", "\\\\", "\"", "\\\"", "n", ""];
    let mut escaped = Vec::new();
    for t in texts {
        let mut s = String::new();
        escape_literal_into(&mut s, t);
        escaped.push(s);
    }
    for i in 0..texts.len() {
        for j in 0..texts.len() {
            assert_eq!(escaped[i] == escaped[j], i == j);
        }
    }
}

#[test]
fn labels_once_fetched_are_known() {
    let mut ctx = DisplayContext::new();
    assert!(!ctx.knows_label("http://e/a"));
    ctx.cache_label("http://e/a", None);
    assert!(ctx.knows_label("http://e/a"));
    assert!(!ctx.knows_label("http://e/b"));
    ctx.cache_label("http://e/b", Some("B".to_string()));
    assert!(ctx.knows_label("http://e/b"));
}
