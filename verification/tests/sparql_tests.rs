use std::cell::RefCell;

use rdfwalk::app::model::{BlankNode, FocusTerm, Literal, NamedNode, Term};
use rdfwalk::rdf::sparql::{reply_failure, results_of_body, ParsedResults, QueryResult, SparqlBackend, SparqlClient};

fn node(s: &str) -> NamedNode {
    NamedNode::new_unchecked(s.to_string())
}

fn iri(s: &str) -> Option<Term> {
    Some(Term::NamedNode(node(s)))
}

fn lit(s: &str) -> Option<Term> {
    Some(Term::Literal(Literal::new_simple_literal(s.to_string())))
}

fn blank(s: &str) -> Option<Term> {
    Some(Term::BlankNode(BlankNode::new_unchecked(s.to_string())))
}

struct Canned {
    result: RefCell<Option<Result<QueryResult, String>>>,
    seen: RefCell<Vec<String>>,
}

impl Canned {
    fn new(result: Result<QueryResult, String>) -> Canned {
        Canned { result: RefCell::new(Some(result)), seen: RefCell::new(Vec::new()) }
    }
}

impl SparqlBackend for Canned {
    fn run_query(&self, sparql: &str) -> Result<QueryResult, String> {
        self.seen.borrow_mut().push(sparql.to_string());
        self.result.borrow_mut().take().expect("one query")
    }
}

fn table(vars: &[&str], rows: Vec<Vec<Option<Term>>>) -> QueryResult {
    QueryResult { variables: vars.iter().map(|v| v.to_string()).collect(), rows }
}

fn focus(s: &str) -> FocusTerm {
    FocusTerm::from_named_node(node(s))
}

#[test]
fn literal_properties_query_and_rows() {
    let backend = Canned::new(Ok(table(
        &["p", "o"],
        vec![
            vec![iri("http://e/p1"), lit("v1")],
            vec![iri("http://e/p2"), iri("http://e/x")],
            vec![lit("bad"), lit("v3")],
            vec![iri("http://e/p4")],
        ],
    )));
    let client = SparqlClient::new(backend).with_limit(5);
    let got = client.literal_properties(&focus("http://e/s")).unwrap();
    assert_eq!(got, vec![(node("http://e/p1"), Literal::new_simple_literal("v1".to_string()))]);
    assert_eq!(
        client.literal_properties_sparql(&focus("http://e/s")),
        "SELECT ?p ?o WHERE { <http://e/s> ?p ?o . FILTER(isLiteral(?o)) } LIMIT 5"
    );
}

#[test]
fn outgoing_and_incoming_links_keep_navigable_terms() {
    let rows = vec![
        vec![iri("http://e/p"), iri("http://e/t")],
        vec![iri("http://e/p"), blank("b1")],
    ];
    let client = SparqlClient::new(Canned::new(Ok(table(&["p", "o"], rows))));
    assert_eq!(
        client.outgoing_links(&focus("http://e/s")).unwrap(),
        vec![(node("http://e/p"), focus("http://e/t"))]
    );
    let rows = vec![
        vec![iri("http://e/src"), iri("http://e/p")],
        vec![blank("b"), iri("http://e/p")],
    ];
    let client = SparqlClient::new(Canned::new(Ok(table(&["s", "p"], rows))));
    assert_eq!(
        client.incoming_links(&focus("http://e/o")).unwrap(),
        vec![(node("http://e/p"), focus("http://e/src"))]
    );
    assert_eq!(
        client.incoming_links_sparql(&focus("http://e/o")),
        "SELECT ?s ?p WHERE { ?s ?p <http://e/o> . } LIMIT 1000"
    );
    assert_eq!(
        client.outgoing_links_sparql(&focus("http://e/o")),
        "SELECT ?p ?o WHERE { <http://e/o> ?p ?o . FILTER(!isLiteral(?o)) } LIMIT 1000"
    );
}

#[test]
fn as_predicate_rows() {
    let rows = vec![vec![iri("http://e/s"), lit("o")], vec![blank("b"), lit("o2")]];
    let client = SparqlClient::new(Canned::new(Ok(table(&["s", "o"], rows))));
    assert_eq!(
        client.as_predicate(&focus("http://e/p")).unwrap(),
        vec![(focus("http://e/s"), lit("o").unwrap())]
    );
    assert_eq!(
        client.as_predicate_sparql(&node("http://e/p")),
        "SELECT ?s ?o WHERE { ?s <http://e/p> ?o . } LIMIT 1000"
    );
}

#[test]
fn all_types_and_labels() {
    let client = SparqlClient::new(Canned::new(Ok(table(
        &["x"],
        vec![vec![iri("http://e/A")], vec![lit("no")], vec![iri("http://e/B")]],
    ))));
    assert_eq!(client.all_types().unwrap(), vec![node("http://e/A"), node("http://e/B")]);
    assert_eq!(
        client.all_types_sparql(),
        "SELECT DISTINCT ?x WHERE { ?s <http://www.w3.org/1999/02/22-rdf-syntax-ns#type> ?x . FILTER(isIRI(?x)) } ORDER BY ?x LIMIT 1000"
    );
    let client = SparqlClient::new(Canned::new(Ok(table(
        &["l"],
        vec![vec![iri("http://e/notalabel")], vec![lit("First")], vec![lit("Second")]],
    ))));
    assert_eq!(client.label_for(&node("http://e/A")).unwrap(), Some("First".to_string()));
    assert_eq!(
        client.label_sparql(&node("http://e/A")),
        "SELECT ?l WHERE { <http://e/A> <http://www.w3.org/2000/01/rdf-schema#label> ?l } LIMIT 1"
    );
    let client = SparqlClient::new(Canned::new(Ok(table(&["l"], vec![]))));
    assert_eq!(client.label_for(&node("http://e/A")).unwrap(), None);
}

#[test]
fn search_escapes_and_reads_hits() {
    let rows = vec![vec![iri("http://e/s"), iri("http://e/p"), lit("Matched Text")]];
    let client = SparqlClient::new(Canned::new(Ok(table(&["s", "p", "o"], rows)))).with_limit(10);
    assert_eq!(
        client.search_resources("a\"b").unwrap(),
        vec![(focus("http://e/s"), node("http://e/p"), "Matched Text".to_string())]
    );
    assert_eq!(
        client.search_sparql("a\"b\\c"),
        "SELECT DISTINCT ?s ?p ?o WHERE { ?s ?p ?o . FILTER(isLiteral(?o) && CONTAINS(LCASE(STR(?o)), LCASE(\"a\\\"b\\\\c\"))) } LIMIT 10"
    );
}

#[test]
fn backend_errors_pass_through() {
    let client = SparqlClient::new(Canned::new(Err("HTTP 500".to_string())));
    assert_eq!(client.all_types(), Err("HTTP 500".to_string()));
}

#[test]
fn variables_are_found_by_first_name() {
    let r = table(&["a", "b", "a"], vec![]);
    let row = vec![lit("first"), None, lit("third")];
    assert_eq!(r.get_var(&row, "a"), lit("first").as_ref());
    assert_eq!(r.get_var(&row, "b"), None);
    assert_eq!(r.get_var(&row, "c"), None);
    let short = vec![lit("only")];
    assert_eq!(r.get_var(&short, "b"), None);
}

#[test]
fn columns_in_another_order_are_read_by_name() {
    let rows = vec![vec![lit("v"), iri("http://e/p")]];
    let client = SparqlClient::new(Canned::new(Ok(table(&["o", "p"], rows))));
    assert_eq!(
        client.literal_properties(&focus("http://e/s")).unwrap(),
        vec![(node("http://e/p"), Literal::new_simple_literal("v".to_string()))]
    );
}

#[test]
fn search_queries_keep_texts_apart() {
    let client = SparqlClient::new(Canned::new(Err(String::new())));
    let texts = ["a\\\"", "a\"", "a\\", "a\\\\", "\\\"", "a"];
    for (i, a) in texts.iter().enumerate() {
        for (j, b) in texts.iter().enumerate() {
            assert_eq!(client.search_sparql(a) == client.search_sparql(b), i == j);
        }
    }
}

#[test]
fn boolean_answers_give_empty_tables() {
    let r = QueryResult::from_parsed(ParsedResults::Boolean(true));
    assert!(r.variables.is_empty() && r.rows.is_empty());
    let r = QueryResult::from_parsed(ParsedResults::Solutions(vec!["x".into()], vec![vec![None]]));
    assert_eq!(r.variables, vec!["x".to_string()]);
    assert_eq!(r.rows, vec![vec![None]]);
}

#[test]
fn reads_a_results_document() {
    let body = br#"<?xml version="1.0"?>
<sparql xmlns="http://www.w3.org/2005/sparql-results#">
  <head><variable name="s"/><variable name="o"/></head>
  <results>
    <result>
      <binding name="s"><uri>http://e/a</uri></binding>
      <binding name="o"><literal xml:lang="en">Hi</literal></binding>
    </result>
    <result>
      <binding name="s"><bnode>b1</bnode></binding>
      <binding name="o"><literal datatype="http://www.w3.org/2001/XMLSchema#integer">3</literal></binding>
    </result>
    <result>
      <binding name="o"><literal>plain</literal></binding>
    </result>
  </results>
</sparql>"#;
    let r = results_of_body(body).unwrap();
    assert_eq!(r.variables, vec!["s".to_string(), "o".to_string()]);
    assert_eq!(r.rows.len(), 3);
    assert_eq!(r.rows[0][0], iri("http://e/a"));
    assert_eq!(
        r.rows[0][1],
        Some(Term::Literal(Literal::new_language_tagged_literal_unchecked("Hi".into(), "en".into())))
    );
    assert_eq!(r.rows[1][0], blank("b1"));
    assert_eq!(
        r.rows[1][1],
        Some(Term::Literal(Literal::new_typed_literal(
            "3".into(),
            node("http://www.w3.org/2001/XMLSchema#integer")
        )))
    );
    assert_eq!(r.rows[2][0], None);
    assert_eq!(r.rows[2][1], lit("plain"));
}

#[test]
fn a_yes_no_answer_reads_as_an_empty_table() {
    let body = br#"<?xml version="1.0"?>
<sparql xmlns="http://www.w3.org/2005/sparql-results#"><head/><boolean>true</boolean></sparql>"#;
    let r = results_of_body(body).unwrap();
    assert!(r.variables.is_empty() && r.rows.is_empty());
}

#[test]
fn a_reply_that_is_not_results_is_refused_with_its_start() {
    let e = results_of_body(b"  <html>Service unavailable</html>\n").err().unwrap();
    assert!(e.starts_with("parsing SPARQL XML results (got: <html>Service unavailable</html>): "), "{}", e);
    let long = "x".repeat(300);
    let e = results_of_body(long.as_bytes()).err().unwrap();
    assert!(e.starts_with(&format!("parsing SPARQL XML results (got: {}): ", "x".repeat(200))), "{}", e);
}

#[test]
fn a_client_keeps_its_backend_and_sets_its_limit() {
    let c = SparqlClient::new(Canned::new(Ok(QueryResult { variables: vec![], rows: vec![] }))).with_limit(5);
    assert!(c.all_types_sparql().ends_with("LIMIT 5"));
    assert!(c.search_sparql("x").ends_with("LIMIT 5"));
    assert!(c.all_types().unwrap().is_empty());
}

struct Script {
    answers: RefCell<Vec<Result<QueryResult, String>>>,
}

impl SparqlBackend for Script {
    fn run_query(&self, _sparql: &str) -> Result<QueryResult, String> {
        self.answers.borrow_mut().remove(0)
    }
}

#[test]
fn resource_lines_come_section_by_section() {
    let answers = vec![
        Ok(table(&["p", "o"], vec![vec![iri("http://e/p"), lit("v")]])),
        Ok(table(&["p", "o"], vec![vec![iri("http://e/q"), iri("http://e/t")], vec![iri("http://e/r"), iri("http://e/u")]])),
        Ok(table(&["s", "p"], vec![])),
        Ok(table(&["s", "o"], vec![vec![iri("http://e/s"), lit("o")]])),
    ];
    let client = SparqlClient::new(Script { answers: RefCell::new(answers) });
    let (items, offsets) = client.resource_lines(&focus("http://e/x")).unwrap();
    assert_eq!(offsets, [0, 1, 3, 3]);
    assert_eq!(items.len(), 4);
    let failing = vec![
        Ok(table(&["p", "o"], vec![])),
        Err("down".to_string()),
    ];
    let client = SparqlClient::new(Script { answers: RefCell::new(failing) });
    assert_eq!(client.resource_lines(&focus("http://e/x")).err(), Some("down".to_string()));
}

#[test]
fn http_failures_carry_the_status_and_the_start_of_the_body() {
    assert_eq!(reply_failure(200, "200 OK", b"x"), None);
    assert_eq!(reply_failure(299, "299", b""), None);
    assert_eq!(
        reply_failure(503, "503 Service Unavailable", b"  busy \n"),
        Some("HTTP 503 Service Unavailable \u{2014} busy".to_string())
    );
    let long = "y".repeat(400);
    assert_eq!(
        reply_failure(404, "404 Not Found", long.as_bytes()),
        Some(format!("HTTP 404 Not Found \u{2014} {}", "y".repeat(300)))
    );
}

#[test]
fn an_unlabelled_blank_node_reads_as_some_blank_node() {
    let body = br#"<?xml version="1.0"?>
<sparql xmlns="http://www.w3.org/2005/sparql-results#">
  <head><variable name="s"/></head>
  <results><result><binding name="s"><bnode/></binding></result></results>
</sparql>"#;
    let r = results_of_body(body).unwrap();
    assert_eq!(r.rows.len(), 1);
    assert!(matches!(r.rows[0][0], Some(Term::BlankNode(_))));
}
