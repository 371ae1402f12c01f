//! The queries the browser sends, and how it reads their results.
use vstd::prelude::*;

use crate::app::browse::{browser_items, items_of};
use crate::app::model::{spec_focus_of_term, BrowserItem, FocusTerm, Literal, NamedNode, Term};
use crate::util::string::{
    chars_of, decimal, has_suffix, push_all, push_decimal, str_eq, trim, trimmed,
};
use oxrdf::Term::{BlankNode as RdfBlank, Literal as RdfLiteral, NamedNode as RdfIri};
use sparesults::SliceQueryResultsParserOutput::{Boolean as NoTable, Solutions as Table};
use sparesults::{QueryResultsFormat, QueryResultsParser};
use vstd::utf8::{decode_utf8, valid_utf8};

verus! {

/// The table that a query returned: variable names and rows of optional terms.
pub struct QueryResult {
    pub variables: Vec<String>,
    pub rows: Vec<Vec<Option<Term>>>,
}

/// What a results document holds: a table of solutions, or a yes/no answer.
pub enum ParsedResults {
    Solutions(Vec<String>, Vec<Vec<Option<Term>>>),
    Boolean(bool),
}

impl QueryResult {
    /// The table for a results document: its solutions as they are, and an
    /// empty table (no variables, no rows) for a yes/no answer.
    pub fn from_parsed(parsed: ParsedResults) -> (r: QueryResult)
        ensures
            match parsed {
                ParsedResults::Solutions(vars, rows) => r.variables@ == vars@ && r.rows@ == rows@,
                ParsedResults::Boolean(_) => r.variables@.len() == 0 && r.rows@.len() == 0,
            },
    {
        match parsed {
            ParsedResults::Solutions(variables, rows) => QueryResult { variables, rows },
            ParsedResults::Boolean(_) => QueryResult { variables: Vec::new(), rows: Vec::new() },
        }
    }
}

/// The head of a results document: the variables of a table of solutions,
/// or a yes/no answer.
pub enum ResultsHead {
    Variables(Vec<String>),
    Boolean(bool),
}

/// What the SPARQL XML results parser reads at the start of `body`: the
/// head, or the parser's message.
pub uninterp spec fn sparql_xml_head(body: Seq<u8>) -> Result<ResultsHead, String>;

/// Calls `QueryResultsParser::for_slice` (sparesults) on `body` as SPARQL
/// XML results. Claimed: the head it reads, or its error's message, depends
/// on the bytes alone (`sparql_xml_head`).
#[verifier::external_body]
fn parse_sparql_xml_head(body: &[u8]) -> (r: Result<ResultsHead, String>)
    ensures
        r == sparql_xml_head(body@),
{
    match QueryResultsParser::from_format(QueryResultsFormat::Xml).for_slice(body) {
        Ok(Table(s)) => Ok(ResultsHead::Variables(
            s.variables().iter().map(|v| v.as_str().to_owned()).collect(),
        )),
        Ok(NoTable(b)) => Ok(ResultsHead::Boolean(b)),
        Err(e) => Err(e.to_string()),
    }
}

/// What the parser decides about one cell of a solution: unbound (`None`),
/// a term other than a blank node (`Some(Ok(t))`), or a blank node
/// (`Some(Err(label))`) whose identifier is the document's label when it
/// gives one (`Some(l)`); for an unlabelled blank node the parser makes up a
/// fresh identifier each time it reads the document.
pub open spec fn cell_fits(cell: Option<Term>, shape: Option<Result<Term, Option<Seq<char>>>>) -> bool {
    match shape {
        None => cell is None,
        Some(Ok(t)) => cell == Some(t),
        Some(Err(label)) => cell matches Some(Term::BlankNode(b)) && (label matches Some(l) ==> b@
            == l),
    }
}

/// Whether `rows` are solutions of the shapes `shape`, row by row and cell
/// by cell.
pub open spec fn rows_fit(
    rows: Seq<Seq<Option<Term>>>,
    shape: Seq<Seq<Option<Result<Term, Option<Seq<char>>>>>>,
) -> bool {
    &&& rows.len() == shape.len()
    &&& forall|i: int| 0 <= i < rows.len() ==> #[trigger] rows[i].len() == shape[i].len()
    &&& forall|i: int, j: int|
        0 <= i < rows.len() && 0 <= j < rows[i].len() ==> cell_fits(
            #[trigger] rows[i][j],
            shape[i][j],
        )
}

/// What the SPARQL XML results parser reads as the solutions of `body`, each
/// as the shapes of the values of the variables in order (none for a
/// document without a table), or the parser's message when it cannot read
/// the document or one of its solutions.
pub uninterp spec fn sparql_xml_rows(body: Seq<u8>) -> Result<
    Seq<Seq<Option<Result<Term, Option<Seq<char>>>>>>,
    String,
>;

/// Reads the solutions of `body` with `sparesults` (`for_slice`, then each
/// solution in order), copying each term one for one into the library's
/// terms. Claimed: whether it fails, and its message, depend on the bytes
/// alone; the rows it gives fit the shapes that the bytes fix
/// (`sparql_xml_rows`). The identifiers of unlabelled blank nodes are left
/// unsaid: the parser draws them at random.
#[verifier::external_body]
fn parse_sparql_xml_rows(body: &[u8]) -> (r: Result<Vec<Vec<Option<Term>>>, String>)
    ensures
        r matches Ok(rows) ==> sparql_xml_rows(body@) matches Ok(shape) && rows_fit(
            rows_view(rows@),
            shape,
        ),
        r matches Err(e) ==> sparql_xml_rows(body@) matches Err(m) && m == e,
{
    let conv = |t| match t {
        RdfIri(n) => Term::iri(n.into_string()),
        RdfBlank(b) => Term::blank(b.into_string()),
        RdfLiteral(l) => Term::literal(l.value(), l.datatype().as_str(), l.language()),
    };
    match QueryResultsParser::from_format(QueryResultsFormat::Xml).for_slice(body).map_err(|e| e.to_string())? {
        Table(s) => s
            .map(|x| x.map(|x| x.values().iter().map(|t| t.clone().map(conv)).collect()))
            .collect::<Result<_, _>>()
            .map_err(|e| e.to_string()),
        NoTable(_) => Ok(Vec::new()),
    }
}

/// What `String::from_utf8_lossy` makes of `bytes`.
pub uninterp spec fn utf8_lossy(bytes: Seq<u8>) -> Seq<char>;

/// Calls `String::from_utf8_lossy` (std), which reads `bytes` as UTF-8 and
/// puts U+FFFD for each invalid sequence. Claimed: the text depends on the
/// bytes alone, and is their decoding when they are valid UTF-8, as the
/// documentation says.
#[verifier::external_body]
fn lossy_text(bytes: &[u8]) -> (r: String)
    ensures
        r@ == utf8_lossy(bytes@),
        valid_utf8(bytes@) ==> r@ == decode_utf8(bytes@),
{
    String::from_utf8_lossy(bytes).into_owned()
}

/// The start of a reply shown in an error: its first `n` bytes read as
/// text, without the whitespace at either end.
pub open spec fn reply_preview(body: Seq<u8>, n: nat) -> Seq<char> {
    trimmed(utf8_lossy(body.take(if body.len() < n { body.len() as int } else { n as int })))
}

/// The start of a reply, as `reply_preview` says.
fn preview(body: &[u8], n: usize) -> (r: String)
    ensures
        r@ == reply_preview(body@, n as nat),
{
    let k = if body.len() < n {
        body.len()
    } else {
        n
    };
    let head = vstd::slice::slice_subrange(body, 0, k);
    assert(head@ =~= body@.take(k as int));
    trim(lossy_text(head).as_str())
}

/// The error for an HTTP reply with the status `code` (written `status`,
/// code and reason): none for a success (200 to 299), else `HTTP`, the
/// status, a dash and the start of the body.
pub fn reply_failure(code: u16, status: &str, body: &[u8]) -> (r: Option<String>)
    ensures
        r is None <==> 200 <= code <= 299,
        r matches Some(e) ==> e@ == "HTTP "@ + status@ + " \u{2014} "@ + reply_preview(body@, 300),
{
    if 200 <= code && code <= 299 {
        return None;
    }
    let p = preview(body, 300);
    let mut e = String::new();
    push_all(&mut e, "HTTP ");
    push_all(&mut e, status);
    push_all(&mut e, " \u{2014} ");
    push_all(&mut e, p.as_str());
    assert(e@ =~= "HTTP "@ + status@ + " \u{2014} "@ + reply_preview(body@, 300));
    Some(e)
}

/// The table in a SPARQL XML results document `body`, or why there is none:
/// its solutions, an empty table for a yes/no answer, or the parser's
/// message after what was being read.
pub fn results_of_body(body: &[u8]) -> (r: Result<QueryResult, String>)
    ensures
        match sparql_xml_head(body@) {
            Ok(ResultsHead::Variables(vars)) => match sparql_xml_rows(body@) {
                Ok(shape) => r matches Ok(t) && t.variables@ == vars@ && rows_fit(
                    rows_view(t.rows@),
                    shape,
                ),
                Err(m) => r matches Err(e) && e@ == "reading solution: "@ + m@,
            },
            Ok(ResultsHead::Boolean(_)) => r matches Ok(t) && t.variables@.len() == 0
                && t.rows@.len() == 0,
            Err(m) => r matches Err(e) && e@ == "parsing SPARQL XML results (got: "@
                + reply_preview(body@, 200) + "): "@ + m@,
        },
{
    match parse_sparql_xml_head(body) {
        Ok(ResultsHead::Variables(vars)) => match parse_sparql_xml_rows(body) {
            Ok(rows) => Ok(QueryResult::from_parsed(ParsedResults::Solutions(vars, rows))),
            Err(m) => {
                let mut e = String::new();
                push_all(&mut e, "reading solution: ");
                push_all(&mut e, m.as_str());
                assert(e@ =~= "reading solution: "@ + m@);
                Err(e)
            },
        },
        Ok(ResultsHead::Boolean(b)) => Ok(QueryResult::from_parsed(ParsedResults::Boolean(b))),
        Err(m) => {
            let preview = preview(body, 200);
            let mut e = String::new();
            push_all(&mut e, "parsing SPARQL XML results (got: ");
            push_all(&mut e, preview.as_str());
            push_all(&mut e, "): ");
            push_all(&mut e, m.as_str());
            assert(e@ =~= "parsing SPARQL XML results (got: "@ + reply_preview(body@, 200) + "): "@
                + m@);
            Err(e)
        },
    }
}

/// The view of a list of names.
pub open spec fn names_view(names: Seq<String>) -> Seq<Seq<char>> {
    names.map_values(|s: String| s@)
}

/// Whether `i` is the first position of `var` among `vars`.
pub open spec fn is_first_index(vars: Seq<Seq<char>>, var: Seq<char>, i: int) -> bool {
    &&& 0 <= i < vars.len()
    &&& vars[i] == var
    &&& forall|j: int| 0 <= j < i ==> vars[j] != var
}

/// The value that `row` binds to `var`: the cell at the first position of
/// `var` among `vars`, if the row reaches it and the cell is bound.
pub open spec fn var_value(vars: Seq<Seq<char>>, row: Seq<Option<Term>>, var: Seq<char>) -> Option<
    Term,
> {
    if exists|i: int| is_first_index(vars, var, i) {
        let i = choose|i: int| is_first_index(vars, var, i);
        if i < row.len() {
            row[i]
        } else {
            None
        }
    } else {
        None
    }
}

/// The `Some` values of `s`, in order.
pub open spec fn keep_some<A>(s: Seq<Option<A>>) -> Seq<A>
    decreases s.len(),
{
    if s.len() == 0 {
        seq![]
    } else {
        let r = keep_some(s.drop_last());
        match s.last() {
            Some(a) => r.push(a),
            None => r,
        }
    }
}

/// The rows of a result, each as a sequence of cells.
pub open spec fn rows_view(rows: Seq<Vec<Option<Term>>>) -> Seq<Seq<Option<Term>>> {
    rows.map_values(|r: Vec<Option<Term>>| r@)
}

/// A row read as a literal property: a named predicate `?p` and a literal `?o`.
pub open spec fn pick_literal_property(vars: Seq<Seq<char>>, row: Seq<Option<Term>>) -> Option<
    (NamedNode, Literal),
> {
    match (var_value(vars, row, "p"@), var_value(vars, row, "o"@)) {
        (Some(Term::NamedNode(p)), Some(Term::Literal(o))) => Some((p, o)),
        _ => None,
    }
}

/// A row read as an outgoing link: a named predicate `?p` and an object `?o`
/// that can be navigated to.
pub open spec fn pick_outgoing_link(vars: Seq<Seq<char>>, row: Seq<Option<Term>>) -> Option<
    (NamedNode, FocusTerm),
> {
    match (var_value(vars, row, "p"@), var_value(vars, row, "o"@)) {
        (Some(Term::NamedNode(p)), Some(o)) => match spec_focus_of_term(o) {
            Ok(f) => Some((p, f)),
            Err(_) => None,
        },
        _ => None,
    }
}

/// A row read as an incoming link: a subject `?s` that can be navigated to
/// and a named predicate `?p`.
pub open spec fn pick_incoming_link(vars: Seq<Seq<char>>, row: Seq<Option<Term>>) -> Option<
    (NamedNode, FocusTerm),
> {
    match (var_value(vars, row, "s"@), var_value(vars, row, "p"@)) {
        (Some(s), Some(Term::NamedNode(p))) => match spec_focus_of_term(s) {
            Ok(f) => Some((p, f)),
            Err(_) => None,
        },
        _ => None,
    }
}

/// A row read as a use of the focus as predicate: a subject `?s` that can be
/// navigated to, and an object `?o`.
pub open spec fn pick_predicate_use(vars: Seq<Seq<char>>, row: Seq<Option<Term>>) -> Option<
    (FocusTerm, Term),
> {
    match (var_value(vars, row, "s"@), var_value(vars, row, "o"@)) {
        (Some(s), Some(o)) => match spec_focus_of_term(s) {
            Ok(f) => Some((f, o)),
            Err(_) => None,
        },
        _ => None,
    }
}

/// A row read as a type: a named `?x`.
pub open spec fn pick_type(vars: Seq<Seq<char>>, row: Seq<Option<Term>>) -> Option<NamedNode> {
    match var_value(vars, row, "x"@) {
        Some(Term::NamedNode(n)) => Some(n),
        _ => None,
    }
}

/// A row read as a label: the value of a literal `?l`.
pub open spec fn pick_label(vars: Seq<Seq<char>>, row: Seq<Option<Term>>) -> Option<Seq<char>> {
    match var_value(vars, row, "l"@) {
        Some(Term::Literal(l)) => Some(l.spec_value()),
        _ => None,
    }
}

/// A row read as a search hit: a subject `?s` that can be navigated to, a
/// named predicate `?p` and a literal `?o`, whose value is kept.
pub open spec fn pick_search_hit(vars: Seq<Seq<char>>, row: Seq<Option<Term>>) -> Option<
    (FocusTerm, NamedNode, Literal),
> {
    match (var_value(vars, row, "s"@), var_value(vars, row, "p"@), var_value(vars, row, "o"@)) {
        (Some(s), Some(Term::NamedNode(p)), Some(Term::Literal(o))) => match spec_focus_of_term(s) {
            Ok(f) => Some((f, p, o)),
            Err(_) => None,
        },
        _ => None,
    }
}

/// A row whose `?s` is an IRI, whose `?p` is an IRI and whose `?o` is a
/// literal of any kind (plain, typed or language-tagged) is a search hit:
/// that resource, that property and that literal.
pub proof fn lemma_search_hit_any_literal(
    vars: Seq<Seq<char>>,
    row: Seq<Option<Term>>,
    s: NamedNode,
    p: NamedNode,
    o: Literal,
)
    requires
        var_value(vars, row, "s"@) == Some(Term::NamedNode(s)),
        var_value(vars, row, "p"@) == Some(Term::NamedNode(p)),
        var_value(vars, row, "o"@) == Some(Term::Literal(o)),
    ensures
        pick_search_hit(vars, row) == Some((FocusTerm::NamedNode(s), p, o)),
{
}

/// What each reading keeps of a row, by the kinds of its values: a literal
/// property is an IRI `?p` with any literal `?o`; an outgoing link is an IRI
/// `?p` with an IRI `?o`, and never a literal `?o`; an incoming link is an
/// IRI `?s` with an IRI `?p`; a use as predicate is an IRI `?s` with any
/// `?o`; a type is an IRI `?x`; a label is the value of any literal `?l`.
pub proof fn lemma_rows_by_kind(vars: Seq<Seq<char>>, row: Seq<Option<Term>>)
    ensures
        var_value(vars, row, "p"@) matches Some(Term::NamedNode(p)) ==> (var_value(vars, row, "o"@)
            matches Some(Term::Literal(o)) ==> pick_literal_property(vars, row) == Some((p, o))),
        var_value(vars, row, "p"@) matches Some(Term::NamedNode(p)) ==> (var_value(vars, row, "o"@)
            matches Some(Term::NamedNode(t)) ==> pick_outgoing_link(vars, row) == Some(
            (p, FocusTerm::NamedNode(t)),
        )),
        var_value(vars, row, "o"@) matches Some(Term::Literal(_)) ==> pick_outgoing_link(vars, row)
            is None,
        var_value(vars, row, "s"@) matches Some(Term::NamedNode(x)) ==> (var_value(vars, row, "p"@)
            matches Some(Term::NamedNode(p)) ==> pick_incoming_link(vars, row) == Some(
            (p, FocusTerm::NamedNode(x)),
        )),
        var_value(vars, row, "s"@) matches Some(Term::NamedNode(x)) ==> (var_value(vars, row, "o"@)
            matches Some(o) ==> pick_predicate_use(vars, row) == Some((FocusTerm::NamedNode(x), o))),
        var_value(vars, row, "x"@) matches Some(Term::NamedNode(n)) ==> pick_type(vars, row) == Some(
            n,
        ),
        var_value(vars, row, "l"@) matches Some(Term::Literal(l)) ==> pick_label(vars, row) == Some(
            l.spec_value(),
        ),
{
}

/// The literal properties that a result lists, in row order.
pub open spec fn literal_properties_of(r: QueryResult) -> Seq<(NamedNode, Literal)> {
    keep_some(
        rows_view(r.rows@).map_values(
            |row: Seq<Option<Term>>| pick_literal_property(names_view(r.variables@), row),
        ),
    )
}

/// The outgoing links that a result lists, in row order.
pub open spec fn outgoing_links_of(r: QueryResult) -> Seq<(NamedNode, FocusTerm)> {
    keep_some(
        rows_view(r.rows@).map_values(
            |row: Seq<Option<Term>>| pick_outgoing_link(names_view(r.variables@), row),
        ),
    )
}

/// The incoming links that a result lists, in row order.
pub open spec fn incoming_links_of(r: QueryResult) -> Seq<(NamedNode, FocusTerm)> {
    keep_some(
        rows_view(r.rows@).map_values(
            |row: Seq<Option<Term>>| pick_incoming_link(names_view(r.variables@), row),
        ),
    )
}

/// The uses as predicate that a result lists, in row order.
pub open spec fn predicate_uses_of(r: QueryResult) -> Seq<(FocusTerm, Term)> {
    keep_some(
        rows_view(r.rows@).map_values(
            |row: Seq<Option<Term>>| pick_predicate_use(names_view(r.variables@), row),
        ),
    )
}

/// The types that a result lists, in row order.
pub open spec fn types_of(r: QueryResult) -> Seq<NamedNode> {
    keep_some(
        rows_view(r.rows@).map_values(
            |row: Seq<Option<Term>>| pick_type(names_view(r.variables@), row),
        ),
    )
}

/// The first label that a result lists, if any.
pub open spec fn label_of(r: QueryResult) -> Option<Seq<char>> {
    let labels = keep_some(
        rows_view(r.rows@).map_values(
            |row: Seq<Option<Term>>| pick_label(names_view(r.variables@), row),
        ),
    );
    if labels.len() > 0 {
        Some(labels[0])
    } else {
        None
    }
}

/// The search hits that a result lists, in row order, each with the value of
/// the matched literal.
pub open spec fn search_hits_of(r: QueryResult) -> Seq<(FocusTerm, NamedNode, Seq<char>)> {
    keep_some(
        rows_view(r.rows@).map_values(
            |row: Seq<Option<Term>>| pick_search_hit(names_view(r.variables@), row),
        ),
    ).map_values(|h: (FocusTerm, NamedNode, Literal)| (h.0, h.1, h.2.spec_value()))
}

/// Keeping the `Some` values of a longer sequence keeps those of the shorter
/// one, then the new one if it is `Some`.
pub proof fn lemma_keep_some_push<A>(s: Seq<Option<A>>, x: Option<A>)
    ensures
        keep_some(s.push(x)) == match x {
            Some(a) => keep_some(s).push(a),
            None => keep_some(s),
        },
{
    assert(s.push(x).drop_last() =~= s);
}

impl QueryResult {
    /// The view of the variable names.
    pub open spec fn vars(&self) -> Seq<Seq<char>> {
        names_view(self.variables@)
    }

    /// The value that `row` binds to `var`.
    pub fn get_var<'a>(&self, row: &'a [Option<Term>], var: &str) -> (r: Option<&'a Term>)
        ensures
            match r {
                Some(t) => var_value(self.vars(), row@, var@) == Some(*t),
                None => var_value(self.vars(), row@, var@) is None,
            },
    {
        let mut i: usize = 0;
        while i < self.variables.len()
            invariant
                0 <= i <= self.variables@.len(),
                forall|j: int| 0 <= j < i ==> self.vars()[j] != var@,
            decreases self.variables@.len() - i,
        {
            if str_eq(self.variables[i].as_str(), var) {
                proof {
                    assert(is_first_index(self.vars(), var@, i as int));
                    let c = choose|c: int| is_first_index(self.vars(), var@, c);
                    assert(c == i);
                }
                if i < row.len() {
                    return match &row[i] {
                        Some(t) => Some(t),
                        None => None,
                    };
                } else {
                    return None;
                }
            }
            i = i + 1;
        }
        None
    }

    /// The literal properties that this result lists.
    pub fn read_literal_properties(&self) -> (r: Vec<(NamedNode, Literal)>)
        ensures
            r@ == literal_properties_of(*self),
    {
        let mut out: Vec<(NamedNode, Literal)> = Vec::new();
        let mut i: usize = 0;
        while i < self.rows.len()
            invariant
                0 <= i <= self.rows@.len(),
                out@ == keep_some(
                    rows_view(self.rows@.take(i as int)).map_values(
                        |row: Seq<Option<Term>>| pick_literal_property(self.vars(), row),
                    ),
                ),
            decreases self.rows@.len() - i,
        {
            let row = self.rows[i].as_slice();
            let picked = match (self.get_var(row, "p"), self.get_var(row, "o")) {
                (Some(Term::NamedNode(p)), Some(Term::Literal(o))) => Some(
                    (p.duplicate(), o.duplicate()),
                ),
                _ => None,
            };
            proof {
                let f = |row: Seq<Option<Term>>| pick_literal_property(self.vars(), row);
                assert(rows_view(self.rows@.take(i + 1)).map_values(f) =~= rows_view(
                    self.rows@.take(i as int),
                ).map_values(f).push(f(self.rows@[i as int]@)));
                lemma_keep_some_push(rows_view(self.rows@.take(i as int)).map_values(f), picked);
            }
            match picked {
                Some(x) => out.push(x),
                None => {},
            }
            i = i + 1;
        }
        assert(self.rows@.take(self.rows@.len() as int) =~= self.rows@);
        out
    }

    /// The outgoing links that this result lists.
    pub fn read_outgoing_links(&self) -> (r: Vec<(NamedNode, FocusTerm)>)
        ensures
            r@ == outgoing_links_of(*self),
    {
        let mut out: Vec<(NamedNode, FocusTerm)> = Vec::new();
        let mut i: usize = 0;
        while i < self.rows.len()
            invariant
                0 <= i <= self.rows@.len(),
                out@ == keep_some(
                    rows_view(self.rows@.take(i as int)).map_values(
                        |row: Seq<Option<Term>>| pick_outgoing_link(self.vars(), row),
                    ),
                ),
            decreases self.rows@.len() - i,
        {
            let row = self.rows[i].as_slice();
            let picked = match (self.get_var(row, "p"), self.get_var(row, "o")) {
                (Some(Term::NamedNode(p)), Some(o)) => match FocusTerm::try_from_term(
                    o.duplicate(),
                ) {
                    Ok(f) => Some((p.duplicate(), f)),
                    Err(_) => None,
                },
                _ => None,
            };
            proof {
                let f = |row: Seq<Option<Term>>| pick_outgoing_link(self.vars(), row);
                assert(rows_view(self.rows@.take(i + 1)).map_values(f) =~= rows_view(
                    self.rows@.take(i as int),
                ).map_values(f).push(f(self.rows@[i as int]@)));
                lemma_keep_some_push(rows_view(self.rows@.take(i as int)).map_values(f), picked);
            }
            match picked {
                Some(x) => out.push(x),
                None => {},
            }
            i = i + 1;
        }
        assert(self.rows@.take(self.rows@.len() as int) =~= self.rows@);
        out
    }

    /// The incoming links that this result lists.
    pub fn read_incoming_links(&self) -> (r: Vec<(NamedNode, FocusTerm)>)
        ensures
            r@ == incoming_links_of(*self),
    {
        let mut out: Vec<(NamedNode, FocusTerm)> = Vec::new();
        let mut i: usize = 0;
        while i < self.rows.len()
            invariant
                0 <= i <= self.rows@.len(),
                out@ == keep_some(
                    rows_view(self.rows@.take(i as int)).map_values(
                        |row: Seq<Option<Term>>| pick_incoming_link(self.vars(), row),
                    ),
                ),
            decreases self.rows@.len() - i,
        {
            let row = self.rows[i].as_slice();
            let picked = match (self.get_var(row, "s"), self.get_var(row, "p")) {
                (Some(s), Some(Term::NamedNode(p))) => match FocusTerm::try_from_term(
                    s.duplicate(),
                ) {
                    Ok(f) => Some((p.duplicate(), f)),
                    Err(_) => None,
                },
                _ => None,
            };
            proof {
                let f = |row: Seq<Option<Term>>| pick_incoming_link(self.vars(), row);
                assert(rows_view(self.rows@.take(i + 1)).map_values(f) =~= rows_view(
                    self.rows@.take(i as int),
                ).map_values(f).push(f(self.rows@[i as int]@)));
                lemma_keep_some_push(rows_view(self.rows@.take(i as int)).map_values(f), picked);
            }
            match picked {
                Some(x) => out.push(x),
                None => {},
            }
            i = i + 1;
        }
        assert(self.rows@.take(self.rows@.len() as int) =~= self.rows@);
        out
    }

    /// The uses as predicate that this result lists.
    pub fn read_predicate_uses(&self) -> (r: Vec<(FocusTerm, Term)>)
        ensures
            r@ == predicate_uses_of(*self),
    {
        let mut out: Vec<(FocusTerm, Term)> = Vec::new();
        let mut i: usize = 0;
        while i < self.rows.len()
            invariant
                0 <= i <= self.rows@.len(),
                out@ == keep_some(
                    rows_view(self.rows@.take(i as int)).map_values(
                        |row: Seq<Option<Term>>| pick_predicate_use(self.vars(), row),
                    ),
                ),
            decreases self.rows@.len() - i,
        {
            let row = self.rows[i].as_slice();
            let picked = match (self.get_var(row, "s"), self.get_var(row, "o")) {
                (Some(s), Some(o)) => match FocusTerm::try_from_term(s.duplicate()) {
                    Ok(f) => Some((f, o.duplicate())),
                    Err(_) => None,
                },
                _ => None,
            };
            proof {
                let f = |row: Seq<Option<Term>>| pick_predicate_use(self.vars(), row);
                assert(rows_view(self.rows@.take(i + 1)).map_values(f) =~= rows_view(
                    self.rows@.take(i as int),
                ).map_values(f).push(f(self.rows@[i as int]@)));
                lemma_keep_some_push(rows_view(self.rows@.take(i as int)).map_values(f), picked);
            }
            match picked {
                Some(x) => out.push(x),
                None => {},
            }
            i = i + 1;
        }
        assert(self.rows@.take(self.rows@.len() as int) =~= self.rows@);
        out
    }

    /// The types that this result lists.
    pub fn read_types(&self) -> (r: Vec<NamedNode>)
        ensures
            r@ == types_of(*self),
    {
        let mut out: Vec<NamedNode> = Vec::new();
        let mut i: usize = 0;
        while i < self.rows.len()
            invariant
                0 <= i <= self.rows@.len(),
                out@ == keep_some(
                    rows_view(self.rows@.take(i as int)).map_values(
                        |row: Seq<Option<Term>>| pick_type(self.vars(), row),
                    ),
                ),
            decreases self.rows@.len() - i,
        {
            let row = self.rows[i].as_slice();
            let picked = match self.get_var(row, "x") {
                Some(Term::NamedNode(n)) => Some(n.duplicate()),
                _ => None,
            };
            proof {
                let f = |row: Seq<Option<Term>>| pick_type(self.vars(), row);
                assert(rows_view(self.rows@.take(i + 1)).map_values(f) =~= rows_view(
                    self.rows@.take(i as int),
                ).map_values(f).push(f(self.rows@[i as int]@)));
                lemma_keep_some_push(rows_view(self.rows@.take(i as int)).map_values(f), picked);
            }
            match picked {
                Some(x) => out.push(x),
                None => {},
            }
            i = i + 1;
        }
        assert(self.rows@.take(self.rows@.len() as int) =~= self.rows@);
        out
    }

    /// The first label that this result lists.
    pub fn read_label(&self) -> (r: Option<String>)
        ensures
            match r {
                Some(s) => label_of(*self) == Some(s@),
                None => label_of(*self) is None,
            },
    {
        let ghost f = |row: Seq<Option<Term>>| pick_label(self.vars(), row);
        let mut i: usize = 0;
        while i < self.rows.len()
            invariant
                0 <= i <= self.rows@.len(),
                f == (|row: Seq<Option<Term>>| pick_label(self.vars(), row)),
                keep_some(rows_view(self.rows@.take(i as int)).map_values(f)).len() == 0,
            decreases self.rows@.len() - i,
        {
            let row = self.rows[i].as_slice();
            let picked = match self.get_var(row, "l") {
                Some(Term::Literal(l)) => Some(l.value().to_owned()),
                _ => None,
            };
            proof {
                assert(rows_view(self.rows@.take(i + 1)).map_values(f) =~= rows_view(
                    self.rows@.take(i as int),
                ).map_values(f).push(f(self.rows@[i as int]@)));
                lemma_keep_some_push(
                    rows_view(self.rows@.take(i as int)).map_values(f),
                    f(self.rows@[i as int]@),
                );
            }
            match picked {
                Some(s) => {
                    proof {
                        lemma_keep_some_prefix(
                            rows_view(self.rows@).map_values(f),
                            (i + 1) as int,
                        );
                        assert(rows_view(self.rows@).map_values(f).take(i + 1) =~= rows_view(
                            self.rows@.take(i + 1),
                        ).map_values(f));
                    }
                    return Some(s);
                },
                None => {},
            }
            i = i + 1;
        }
        assert(self.rows@.take(self.rows@.len() as int) =~= self.rows@);
        None
    }

    /// The search hits that this result lists, each with the value of the
    /// matched literal.
    pub fn read_search_hits(&self) -> (r: Vec<(FocusTerm, NamedNode, String)>)
        ensures
            r@.map_values(|h: (FocusTerm, NamedNode, String)| (h.0, h.1, h.2@)) == search_hits_of(
                *self,
            ),
    {
        let mut out: Vec<(FocusTerm, NamedNode, String)> = Vec::new();
        let ghost f = |row: Seq<Option<Term>>| pick_search_hit(self.vars(), row);
        let ghost g = |h: (FocusTerm, NamedNode, Literal)| (h.0, h.1, h.2.spec_value());
        let ghost v = |h: (FocusTerm, NamedNode, String)| (h.0, h.1, h.2@);
        let mut i: usize = 0;
        while i < self.rows.len()
            invariant
                0 <= i <= self.rows@.len(),
                f == (|row: Seq<Option<Term>>| pick_search_hit(self.vars(), row)),
                g == (|h: (FocusTerm, NamedNode, Literal)| (h.0, h.1, h.2.spec_value())),
                v == (|h: (FocusTerm, NamedNode, String)| (h.0, h.1, h.2@)),
                out@.map_values(v) == keep_some(
                    rows_view(self.rows@.take(i as int)).map_values(f),
                ).map_values(g),
            decreases self.rows@.len() - i,
        {
            let row = self.rows[i].as_slice();
            let hit = match (self.get_var(row, "s"), self.get_var(row, "p"), self.get_var(row, "o")) {
                (Some(s), Some(Term::NamedNode(p)), Some(Term::Literal(o))) => {
                    match FocusTerm::try_from_term(s.duplicate()) {
                        Ok(fo) => Some((fo, p.duplicate(), o.duplicate())),
                        Err(_) => None,
                    }
                },
                _ => None,
            };
            proof {
                assert(rows_view(self.rows@.take(i + 1)).map_values(f) =~= rows_view(
                    self.rows@.take(i as int),
                ).map_values(f).push(f(self.rows@[i as int]@)));
                lemma_keep_some_push(rows_view(self.rows@.take(i as int)).map_values(f), hit);
            }
            match hit {
                Some((fo, p, o)) => {
                    let ghost before = out@;
                    let value = o.value().to_owned();
                    out.push((fo, p, value));
                    proof {
                        let k = keep_some(rows_view(self.rows@.take(i as int)).map_values(f));
                        assert(out@.map_values(v) =~= before.map_values(v).push(
                            v(out@.last()),
                        ));
                        assert(k.push((fo, p, o)).map_values(g) =~= k.map_values(g).push(
                            g((fo, p, o)),
                        ));
                    }
                },
                None => {},
            }
            i = i + 1;
        }
        assert(self.rows@.take(self.rows@.len() as int) =~= self.rows@);
        out
    }
}

/// The first value kept from a prefix is the first value kept from the whole.
pub proof fn lemma_keep_some_prefix<A>(s: Seq<Option<A>>, n: int)
    requires
        0 <= n <= s.len(),
        keep_some(s.take(n)).len() > 0,
    ensures
        keep_some(s).len() > 0,
        keep_some(s)[0] == keep_some(s.take(n))[0],
    decreases s.len() - n,
{
    if n < s.len() {
        let t = s.take(n + 1);
        assert(t =~= s.take(n).push(s[n]));
        lemma_keep_some_push(s.take(n), s[n]);
        lemma_keep_some_prefix(s, n + 1);
    } else {
        assert(s.take(n) =~= s);
    }
}


// ---------------------------------------------------------------------------
// Query text
// ---------------------------------------------------------------------------

/// An IRI written in SPARQL: `<iri>`.
pub open spec fn bracketed(iri: Seq<char>) -> Seq<char> {
    seq!['<'] + iri + seq!['>']
}

/// A focus written in SPARQL.
pub open spec fn focus_text(focus: FocusTerm) -> Seq<char> {
    match focus {
        FocusTerm::NamedNode(n) => bracketed(n@),
    }
}

/// The query for the literal properties of `focus`.
pub open spec fn literal_properties_query(focus: FocusTerm, limit: nat) -> Seq<char> {
    "SELECT ?p ?o WHERE { "@ + focus_text(focus) + " ?p ?o . FILTER(isLiteral(?o)) } LIMIT "@
        + decimal(limit)
}

/// The query for the links going out of `focus`.
pub open spec fn outgoing_links_query(focus: FocusTerm, limit: nat) -> Seq<char> {
    "SELECT ?p ?o WHERE { "@ + focus_text(focus) + " ?p ?o . FILTER(!isLiteral(?o)) } LIMIT "@
        + decimal(limit)
}

/// The query for the links coming into `focus`.
pub open spec fn incoming_links_query(focus: FocusTerm, limit: nat) -> Seq<char> {
    "SELECT ?s ?p WHERE { ?s ?p "@ + focus_text(focus) + " . } LIMIT "@ + decimal(limit)
}

/// The query for the triples that use `predicate` as predicate.
pub open spec fn predicate_uses_query(predicate: Seq<char>, limit: nat) -> Seq<char> {
    "SELECT ?s ?o WHERE { ?s <"@ + predicate + "> ?o . } LIMIT "@ + decimal(limit)
}

/// The query for the distinct IRIs used as `rdf:type`, in order.
pub open spec fn all_types_query(limit: nat) -> Seq<char> {
    "SELECT DISTINCT ?x WHERE { ?s <http://www.w3.org/1999/02/22-rdf-syntax-ns#type> ?x . FILTER(isIRI(?x)) } ORDER BY ?x LIMIT "@
        + decimal(limit)
}

/// The query for one `rdfs:label` of `iri`.
pub open spec fn label_query(iri: Seq<char>) -> Seq<char> {
    "SELECT ?l WHERE { <"@ + iri + "> <http://www.w3.org/2000/01/rdf-schema#label> ?l } LIMIT 1"@
}

/// The escape of one character of a search text.
pub open spec fn search_code(c: char) -> Seq<char> {
    if c == '\\' {
        seq!['\\', '\\']
    } else if c == '"' {
        seq!['\\', '"']
    } else {
        seq![c]
    }
}

/// A search text escaped for a SPARQL string literal.
pub open spec fn escaped_search(s: Seq<char>) -> Seq<char> {
    s.map_values(|c: char| search_code(c)).flatten()
}

/// The query for the triples whose literal object contains `text`, ignoring case.
pub open spec fn search_query(text: Seq<char>, limit: nat) -> Seq<char> {
    "SELECT DISTINCT ?s ?p ?o WHERE { ?s ?p ?o . FILTER(isLiteral(?o) && CONTAINS(LCASE(STR(?o)), LCASE(\""@
        + escaped_search(text) + "\"))) } LIMIT "@ + decimal(limit)
}

/// The IRI of a focus.
pub open spec fn focus_iri(focus: FocusTerm) -> NamedNode {
    match focus {
        FocusTerm::NamedNode(n) => n,
    }
}

/// An IRI written in SPARQL.
fn sparql_node(node: &NamedNode) -> (r: String)
    ensures
        r@ == bracketed(node@),
{
    let mut s = String::new();
    s.push('<');
    push_all(&mut s, node.as_str());
    s.push('>');
    assert(s@ =~= bracketed(node@));
    s
}

/// A focus written in SPARQL.
fn sparql_focus(focus: &FocusTerm) -> (r: String)
    ensures
        r@ == focus_text(*focus),
{
    match focus {
        FocusTerm::NamedNode(n) => sparql_node(n),
    }
}

/// Appends `text`, escaped as a search text, to `out`.
fn escape_search_into(out: &mut String, text: &str)
    ensures
        final(out)@ == old(out)@ + escaped_search(text@),
{
    let cs = chars_of(text);
    let mut i: usize = 0;
    while i < cs.len()
        invariant
            cs@ == text@,
            0 <= i <= cs@.len(),
            out@ == old(out)@ + escaped_search(cs@.take(i as int)),
        decreases cs@.len() - i,
    {
        let c = cs[i];
        let ghost before = out@;
        if c == '\\' {
            out.push('\\');
            out.push('\\');
        } else if c == '"' {
            out.push('\\');
            out.push('"');
        } else {
            out.push(c);
        }
        proof {
            let p = cs@.take(i as int);
            let q = cs@.take(i + 1);
            assert(q =~= p.push(c));
            assert(q.map_values(|c: char| search_code(c)) =~= p.map_values(|c: char| search_code(c)).push(
                search_code(c),
            ));
            p.map_values(|c: char| search_code(c)).lemma_flatten_push(search_code(c));
            assert(out@ =~= before + search_code(c));
        }
        i = i + 1;
    }
    assert(cs@.take(cs@.len() as int) =~= cs@);
}

// ---------------------------------------------------------------------------
// The client
// ---------------------------------------------------------------------------

/// Where queries are answered: a SPARQL endpoint or a local dataset.
pub trait SparqlBackend {
    /// The answer to `sparql`, or why there is none.
    fn run_query(&self, sparql: &str) -> Result<QueryResult, String>;
}

/// Sends the browser's queries to a backend, each with a row limit.
pub struct SparqlClient<B> {
    backend: B,
    limit: usize,
}

impl<B: SparqlBackend> SparqlClient<B> {
    /// The row limit of the queries.
    pub closed spec fn spec_limit(&self) -> nat {
        self.limit as nat
    }

    /// The backend that answers the queries.
    pub closed spec fn backend(&self) -> B {
        self.backend
    }

    /// Whether `answer` is an outcome of the backend's `run_query` on a query
    /// with the text `sparql`. Nothing is claimed of the backend: an endpoint
    /// may answer the same query differently from one time to the next.
    pub closed spec fn answers(&self, sparql: Seq<char>, answer: Result<QueryResult, String>) -> bool {
        exists|s: &str| s@ == sparql && call_ensures(B::run_query, (&self.backend, s), answer)
    }

    /// A client for `backend`, with the default limit of 1000 rows.
    pub fn new(backend: B) -> (r: SparqlClient<B>)
        ensures
            r.spec_limit() == 1000,
            r.backend() == backend,
    {
        SparqlClient { backend, limit: 1000 }
    }

    /// This client with the row limit `limit`.
    pub fn with_limit(self, limit: usize) -> (r: SparqlClient<B>)
        ensures
            r.spec_limit() == limit,
            r.backend() == self.backend(),
            forall|q: Seq<char>, a: Result<QueryResult, String>|
                #[trigger] r.answers(q, a) == self.answers(q, a),
    {
        let mut c = self;
        c.limit = limit;
        c
    }

    /// The query for the literal properties of `focus`.
    pub fn literal_properties_sparql(&self, focus: &FocusTerm) -> (q: String)
        ensures
            q@ == literal_properties_query(*focus, self.spec_limit()),
    {
        let mut q = String::new();
        push_all(&mut q, "SELECT ?p ?o WHERE { ");
        push_all(&mut q, sparql_focus(focus).as_str());
        push_all(&mut q, " ?p ?o . FILTER(isLiteral(?o)) } LIMIT ");
        push_decimal(&mut q, self.limit);
        assert(q@ =~= literal_properties_query(*focus, self.spec_limit()));
        q
    }

    /// The query for the links going out of `focus`.
    pub fn outgoing_links_sparql(&self, focus: &FocusTerm) -> (q: String)
        ensures
            q@ == outgoing_links_query(*focus, self.spec_limit()),
    {
        let mut q = String::new();
        push_all(&mut q, "SELECT ?p ?o WHERE { ");
        push_all(&mut q, sparql_focus(focus).as_str());
        push_all(&mut q, " ?p ?o . FILTER(!isLiteral(?o)) } LIMIT ");
        push_decimal(&mut q, self.limit);
        assert(q@ =~= outgoing_links_query(*focus, self.spec_limit()));
        q
    }

    /// The query for the links coming into `focus`.
    pub fn incoming_links_sparql(&self, focus: &FocusTerm) -> (q: String)
        ensures
            q@ == incoming_links_query(*focus, self.spec_limit()),
    {
        let mut q = String::new();
        push_all(&mut q, "SELECT ?s ?p WHERE { ?s ?p ");
        push_all(&mut q, sparql_focus(focus).as_str());
        push_all(&mut q, " . } LIMIT ");
        push_decimal(&mut q, self.limit);
        assert(q@ =~= incoming_links_query(*focus, self.spec_limit()));
        q
    }

    /// The query for the triples that use `predicate` as predicate.
    pub fn as_predicate_sparql(&self, predicate: &NamedNode) -> (q: String)
        ensures
            q@ == predicate_uses_query(predicate@, self.spec_limit()),
    {
        let mut q = String::new();
        push_all(&mut q, "SELECT ?s ?o WHERE { ?s <");
        push_all(&mut q, predicate.as_str());
        push_all(&mut q, "> ?o . } LIMIT ");
        push_decimal(&mut q, self.limit);
        assert(q@ =~= predicate_uses_query(predicate@, self.spec_limit()));
        q
    }

    /// The query for the types used in the data.
    pub fn all_types_sparql(&self) -> (q: String)
        ensures
            q@ == all_types_query(self.spec_limit()),
    {
        let mut q = String::new();
        push_all(
            &mut q,
            "SELECT DISTINCT ?x WHERE { ?s <http://www.w3.org/1999/02/22-rdf-syntax-ns#type> ?x . FILTER(isIRI(?x)) } ORDER BY ?x LIMIT ",
        );
        push_decimal(&mut q, self.limit);
        assert(q@ =~= all_types_query(self.spec_limit()));
        q
    }

    /// The query for a label of `uri`.
    pub fn label_sparql(&self, uri: &NamedNode) -> (q: String)
        ensures
            q@ == label_query(uri@),
    {
        let mut q = String::new();
        push_all(&mut q, "SELECT ?l WHERE { <");
        push_all(&mut q, uri.as_str());
        push_all(&mut q, "> <http://www.w3.org/2000/01/rdf-schema#label> ?l } LIMIT 1");
        assert(q@ =~= label_query(uri@));
        q
    }

    /// The query for the literals that contain `term`, ignoring case.
    pub fn search_sparql(&self, term: &str) -> (q: String)
        ensures
            q@ == search_query(term@, self.spec_limit()),
    {
        let mut q = String::new();
        push_all(
            &mut q,
            "SELECT DISTINCT ?s ?p ?o WHERE { ?s ?p ?o . FILTER(isLiteral(?o) && CONTAINS(LCASE(STR(?o)), LCASE(\"",
        );
        escape_search_into(&mut q, term);
        push_all(&mut q, "\"))) } LIMIT ");
        push_decimal(&mut q, self.limit);
        assert(q@ =~= search_query(term@, self.spec_limit()));
        q
    }

    /// The literal properties of `focus`, as the backend lists them.
    pub fn literal_properties(&self, focus: &FocusTerm) -> (r: Result<
        Vec<(NamedNode, Literal)>,
        String,
    >)
        ensures
            exists|a: Result<QueryResult, String>|
                #![trigger self.answers(literal_properties_query(*focus, self.spec_limit()), a)]
                self.answers(literal_properties_query(*focus, self.spec_limit()), a) && match a {
                    Ok(res) => r matches Ok(v) && v@ == literal_properties_of(res),
                    Err(e) => r == Err::<Vec<(NamedNode, Literal)>, String>(e),
                },
    {
        let q = self.literal_properties_sparql(focus);
        let run = B::run_query;
        let answer = run(&self.backend, q.as_str());
        let ghost a = answer;
        assert(self.answers(literal_properties_query(*focus, self.spec_limit()), a));
        match answer {
            Ok(result) => Ok(result.read_literal_properties()),
            Err(e) => Err(e),
        }
    }

    /// The links going out of `focus`, as the backend lists them.
    pub fn outgoing_links(&self, focus: &FocusTerm) -> (r: Result<
        Vec<(NamedNode, FocusTerm)>,
        String,
    >)
        ensures
            exists|a: Result<QueryResult, String>|
                #![trigger self.answers(outgoing_links_query(*focus, self.spec_limit()), a)]
                self.answers(outgoing_links_query(*focus, self.spec_limit()), a) && match a {
                    Ok(res) => r matches Ok(v) && v@ == outgoing_links_of(res),
                    Err(e) => r == Err::<Vec<(NamedNode, FocusTerm)>, String>(e),
                },
    {
        let q = self.outgoing_links_sparql(focus);
        let run = B::run_query;
        let answer = run(&self.backend, q.as_str());
        let ghost a = answer;
        assert(self.answers(outgoing_links_query(*focus, self.spec_limit()), a));
        match answer {
            Ok(result) => Ok(result.read_outgoing_links()),
            Err(e) => Err(e),
        }
    }

    /// The links coming into `focus`, as the backend lists them.
    pub fn incoming_links(&self, focus: &FocusTerm) -> (r: Result<
        Vec<(NamedNode, FocusTerm)>,
        String,
    >)
        ensures
            exists|a: Result<QueryResult, String>|
                #![trigger self.answers(incoming_links_query(*focus, self.spec_limit()), a)]
                self.answers(incoming_links_query(*focus, self.spec_limit()), a) && match a {
                    Ok(res) => r matches Ok(v) && v@ == incoming_links_of(res),
                    Err(e) => r == Err::<Vec<(NamedNode, FocusTerm)>, String>(e),
                },
    {
        let q = self.incoming_links_sparql(focus);
        let run = B::run_query;
        let answer = run(&self.backend, q.as_str());
        let ghost a = answer;
        assert(self.answers(incoming_links_query(*focus, self.spec_limit()), a));
        match answer {
            Ok(result) => Ok(result.read_incoming_links()),
            Err(e) => Err(e),
        }
    }

    /// The triples that use `focus` as predicate, as the backend lists them;
    /// none for a focus that is not an IRI.
    pub fn as_predicate(&self, focus: &FocusTerm) -> (r: Result<Vec<(FocusTerm, Term)>, String>)
        ensures
            match *focus {
                FocusTerm::NamedNode(n) => exists|a: Result<QueryResult, String>|
                    #![trigger self.answers(predicate_uses_query(n@, self.spec_limit()), a)]
                    self.answers(predicate_uses_query(n@, self.spec_limit()), a) && match a {
                        Ok(res) => r matches Ok(v) && v@ == predicate_uses_of(res),
                        Err(e) => r == Err::<Vec<(FocusTerm, Term)>, String>(e),
                    },
            },
    {
        let predicate = match focus.as_named_node() {
            Some(p) => p,
            None => {
                return Ok(Vec::new());
            },
        };
        let q = self.as_predicate_sparql(predicate);
        let run = B::run_query;
        let answer = run(&self.backend, q.as_str());
        let ghost a = answer;
        assert(self.answers(predicate_uses_query(predicate@, self.spec_limit()), a));
        match answer {
            Ok(result) => Ok(result.read_predicate_uses()),
            Err(e) => Err(e),
        }
    }

    /// The types used in the data, as the backend lists them.
    pub fn all_types(&self) -> (r: Result<Vec<NamedNode>, String>)
        ensures
            exists|a: Result<QueryResult, String>|
                #![trigger self.answers(all_types_query(self.spec_limit()), a)]
                self.answers(all_types_query(self.spec_limit()), a) && match a {
                    Ok(res) => r matches Ok(v) && v@ == types_of(res),
                    Err(e) => r == Err::<Vec<NamedNode>, String>(e),
                },
    {
        let q = self.all_types_sparql();
        let run = B::run_query;
        let answer = run(&self.backend, q.as_str());
        let ghost a = answer;
        assert(self.answers(all_types_query(self.spec_limit()), a));
        match answer {
            Ok(result) => Ok(result.read_types()),
            Err(e) => Err(e),
        }
    }

    /// A label of `uri`, if the backend finds one.
    pub fn label_for(&self, uri: &NamedNode) -> (r: Result<Option<String>, String>)
        ensures
            exists|a: Result<QueryResult, String>|
                #![trigger self.answers(label_query(uri@), a)]
                self.answers(label_query(uri@), a) && match a {
                    Ok(res) => r matches Ok(l) && match l {
                        Some(s) => label_of(res) == Some(s@),
                        None => label_of(res) is None,
                    },
                    Err(e) => r == Err::<Option<String>, String>(e),
                },
    {
        let q = self.label_sparql(uri);
        let run = B::run_query;
        let answer = run(&self.backend, q.as_str());
        let ghost a = answer;
        assert(self.answers(label_query(uri@), a));
        match answer {
            Ok(result) => Ok(result.read_label()),
            Err(e) => Err(e),
        }
    }

    /// The browser's lines for `focus` and where each section starts: its
    /// literal properties, outgoing links, incoming links and uses as
    /// predicate, asked of the backend in that order. The first error stops.
    pub fn resource_lines(&self, focus: &FocusTerm) -> (r: Result<(Vec<BrowserItem>, [usize; 4]), String>)
        ensures
            exists|a1: Result<QueryResult, String>|
                #![trigger self.answers(literal_properties_query(*focus, self.spec_limit()), a1)]
                self.answers(literal_properties_query(*focus, self.spec_limit()), a1) && match a1 {
                    Err(e) => r == Err::<(Vec<BrowserItem>, [usize; 4]), String>(e),
                    Ok(t1) => exists|a2: Result<QueryResult, String>|
                        #![trigger self.answers(outgoing_links_query(*focus, self.spec_limit()), a2)]
                        self.answers(outgoing_links_query(*focus, self.spec_limit()), a2) && match a2 {
                            Err(e) => r == Err::<(Vec<BrowserItem>, [usize; 4]), String>(e),
                            Ok(t2) => exists|a3: Result<QueryResult, String>|
                                #![trigger self.answers(incoming_links_query(*focus, self.spec_limit()), a3)]
                                self.answers(incoming_links_query(*focus, self.spec_limit()), a3) && match a3 {
                                    Err(e) => r == Err::<(Vec<BrowserItem>, [usize; 4]), String>(e),
                                    Ok(t3) => match *focus {
                                        FocusTerm::NamedNode(n) => exists|a4: Result<QueryResult, String>|
                                            #![trigger self.answers(predicate_uses_query(n@, self.spec_limit()), a4)]
                                            self.answers(predicate_uses_query(n@, self.spec_limit()), a4) && match a4 {
                                                Err(e) => r == Err::<(Vec<BrowserItem>, [usize; 4]), String>(e),
                                                Ok(t4) => r matches Ok((items, o)) && items@ == items_of(
                                                    literal_properties_of(t1),
                                                    outgoing_links_of(t2),
                                                    incoming_links_of(t3),
                                                    predicate_uses_of(t4),
                                                ) && o[0] == 0 && o[1] == literal_properties_of(t1).len()
                                                    && o[2] == literal_properties_of(t1).len() + outgoing_links_of(t2).len()
                                                    && o[3] == literal_properties_of(t1).len() + outgoing_links_of(t2).len()
                                                    + incoming_links_of(t3).len(),
                                            },
                                    },
                                },
                        },
                },
    {
        let lits = self.literal_properties(focus);
        let ghost a1 = choose|a: Result<QueryResult, String>|
            self.answers(literal_properties_query(*focus, self.spec_limit()), a) && match a {
                Ok(res) => lits matches Ok(v) && v@ == literal_properties_of(res),
                Err(e) => lits == Err::<Vec<(NamedNode, Literal)>, String>(e),
            };
        assert(self.answers(literal_properties_query(*focus, self.spec_limit()), a1));
        let lits = match lits {
            Ok(v) => v,
            Err(e) => {
                return Err(e);
            },
        };
        let outs = self.outgoing_links(focus);
        let ghost a2 = choose|a: Result<QueryResult, String>|
            self.answers(outgoing_links_query(*focus, self.spec_limit()), a) && match a {
                Ok(res) => outs matches Ok(v) && v@ == outgoing_links_of(res),
                Err(e) => outs == Err::<Vec<(NamedNode, FocusTerm)>, String>(e),
            };
        assert(self.answers(outgoing_links_query(*focus, self.spec_limit()), a2));
        let outs = match outs {
            Ok(v) => v,
            Err(e) => {
                return Err(e);
            },
        };
        let ins = self.incoming_links(focus);
        let ghost a3 = choose|a: Result<QueryResult, String>|
            self.answers(incoming_links_query(*focus, self.spec_limit()), a) && match a {
                Ok(res) => ins matches Ok(v) && v@ == incoming_links_of(res),
                Err(e) => ins == Err::<Vec<(NamedNode, FocusTerm)>, String>(e),
            };
        assert(self.answers(incoming_links_query(*focus, self.spec_limit()), a3));
        let ins = match ins {
            Ok(v) => v,
            Err(e) => {
                return Err(e);
            },
        };
        let uses = self.as_predicate(focus);
        let ghost n = focus_iri(*focus);
        let ghost a4 = choose|a: Result<QueryResult, String>|
            self.answers(predicate_uses_query(n@, self.spec_limit()), a) && match a {
                Ok(res) => uses matches Ok(v) && v@ == predicate_uses_of(res),
                Err(e) => uses == Err::<Vec<(FocusTerm, Term)>, String>(e),
            };
        assert(self.answers(predicate_uses_query(n@, self.spec_limit()), a4));
        let uses = match uses {
            Ok(v) => v,
            Err(e) => {
                return Err(e);
            },
        };
        Ok(browser_items(&lits, &outs, &ins, &uses))
    }

    /// The backend's answer to `sparql`, as it gives it.
    pub fn run_query(&self, sparql: &str) -> (r: Result<QueryResult, String>)
        ensures
            self.answers(sparql@, r),
    {
        let run = B::run_query;
        run(&self.backend, sparql)
    }

    /// The triples whose literal object contains `term`, ignoring case, as the
    /// backend lists them: the subject, the predicate and the literal's value.
    pub fn search_resources(&self, term: &str) -> (r: Result<
        Vec<(FocusTerm, NamedNode, String)>,
        String,
    >)
        ensures
            exists|a: Result<QueryResult, String>|
                #![trigger self.answers(search_query(term@, self.spec_limit()), a)]
                self.answers(search_query(term@, self.spec_limit()), a) && match a {
                    Ok(res) => r matches Ok(v) && v@.map_values(
                        |h: (FocusTerm, NamedNode, String)| (h.0, h.1, h.2@),
                    ) == search_hits_of(res),
                    Err(e) => r == Err::<Vec<(FocusTerm, NamedNode, String)>, String>(e),
                },
    {
        let q = self.search_sparql(term);
        let run = B::run_query;
        let answer = run(&self.backend, q.as_str());
        let ghost a = answer;
        assert(self.answers(search_query(term@, self.spec_limit()), a));
        match answer {
            Ok(result) => Ok(result.read_search_hits()),
            Err(e) => Err(e),
        }
    }
}


proof fn lemma_limit_suffix(x: Seq<char>, l: Seq<char>, d: Seq<char>)
    requires
        has_suffix(l, "LIMIT "@),
    ensures
        has_suffix(x + l + d, "LIMIT "@ + d),
{
    let s = x + l + d;
    let k = "LIMIT "@.len();
    assert(s.skip(s.len() - (k + d.len())) =~= l.skip(l.len() - k) + d);
}

/// Every query that a client builds for a resource, a predicate, the types
/// or a search ends with `LIMIT` and the client's row limit.
pub proof fn lemma_queries_end_with_limit(
    focus: FocusTerm,
    predicate: Seq<char>,
    text: Seq<char>,
    limit: nat,
)
    ensures
        has_suffix(literal_properties_query(focus, limit), "LIMIT "@ + decimal(limit)),
        has_suffix(outgoing_links_query(focus, limit), "LIMIT "@ + decimal(limit)),
        has_suffix(incoming_links_query(focus, limit), "LIMIT "@ + decimal(limit)),
        has_suffix(predicate_uses_query(predicate, limit), "LIMIT "@ + decimal(limit)),
        has_suffix(all_types_query(limit), "LIMIT "@ + decimal(limit)),
        has_suffix(search_query(text, limit), "LIMIT "@ + decimal(limit)),
{
    reveal_strlit("LIMIT ");
    reveal_strlit(" ?p ?o . FILTER(isLiteral(?o)) } LIMIT ");
    reveal_strlit(" ?p ?o . FILTER(!isLiteral(?o)) } LIMIT ");
    reveal_strlit(" . } LIMIT ");
    reveal_strlit("> ?o . } LIMIT ");
    reveal_strlit(
        "SELECT DISTINCT ?x WHERE { ?s <http://www.w3.org/1999/02/22-rdf-syntax-ns#type> ?x . FILTER(isIRI(?x)) } ORDER BY ?x LIMIT ",
    );
    reveal_strlit("\"))) } LIMIT ");
    assert(" ?p ?o . FILTER(isLiteral(?o)) } LIMIT "@.skip(" ?p ?o . FILTER(isLiteral(?o)) } LIMIT "@.len() - 6) =~= "LIMIT "@);
    assert(" ?p ?o . FILTER(!isLiteral(?o)) } LIMIT "@.skip(" ?p ?o . FILTER(!isLiteral(?o)) } LIMIT "@.len() - 6) =~= "LIMIT "@);
    assert(" . } LIMIT "@.skip(" . } LIMIT "@.len() - 6) =~= "LIMIT "@);
    assert("> ?o . } LIMIT "@.skip("> ?o . } LIMIT "@.len() - 6) =~= "LIMIT "@);
    assert("SELECT DISTINCT ?x WHERE { ?s <http://www.w3.org/1999/02/22-rdf-syntax-ns#type> ?x . FILTER(isIRI(?x)) } ORDER BY ?x LIMIT "@.skip("SELECT DISTINCT ?x WHERE { ?s <http://www.w3.org/1999/02/22-rdf-syntax-ns#type> ?x . FILTER(isIRI(?x)) } ORDER BY ?x LIMIT "@.len() - 6) =~= "LIMIT "@);
    assert("\"))) } LIMIT "@.skip("\"))) } LIMIT "@.len() - 6) =~= "LIMIT "@);
    let d = decimal(limit);
    let f = focus_text(focus);
    lemma_limit_suffix("SELECT ?p ?o WHERE { "@ + f, " ?p ?o . FILTER(isLiteral(?o)) } LIMIT "@, d);
    lemma_limit_suffix("SELECT ?p ?o WHERE { "@ + f, " ?p ?o . FILTER(!isLiteral(?o)) } LIMIT "@, d);
    lemma_limit_suffix("SELECT ?s ?p WHERE { ?s ?p "@ + f, " . } LIMIT "@, d);
    lemma_limit_suffix("SELECT ?s ?o WHERE { ?s <"@ + predicate, "> ?o . } LIMIT "@, d);
    lemma_limit_suffix(
        Seq::empty(),
        "SELECT DISTINCT ?x WHERE { ?s <http://www.w3.org/1999/02/22-rdf-syntax-ns#type> ?x . FILTER(isIRI(?x)) } ORDER BY ?x LIMIT "@,
        d,
    );
    assert(Seq::<char>::empty() + "SELECT DISTINCT ?x WHERE { ?s <http://www.w3.org/1999/02/22-rdf-syntax-ns#type> ?x . FILTER(isIRI(?x)) } ORDER BY ?x LIMIT "@
        =~= "SELECT DISTINCT ?x WHERE { ?s <http://www.w3.org/1999/02/22-rdf-syntax-ns#type> ?x . FILTER(isIRI(?x)) } ORDER BY ?x LIMIT "@);
    lemma_limit_suffix(
        "SELECT DISTINCT ?s ?p ?o WHERE { ?s ?p ?o . FILTER(isLiteral(?o) && CONTAINS(LCASE(STR(?o)), LCASE(\""@
            + escaped_search(text),
        "\"))) } LIMIT "@,
        d,
    );
}

proof fn lemma_search_first(s: Seq<char>)
    requires
        s.len() > 0,
    ensures
        escaped_search(s) == search_code(s[0]) + escaped_search(s.drop_first()),
{
    assert(s.map_values(|c: char| search_code(c)).drop_first() =~= s.drop_first().map_values(
        |c: char| search_code(c),
    ));
}

proof fn lemma_search_empty(s: Seq<char>)
    ensures
        (escaped_search(s).len() == 0) == (s.len() == 0),
{
    if s.len() > 0 {
        lemma_search_first(s);
    } else {
        assert(s.map_values(|c: char| search_code(c)) =~= Seq::<Seq<char>>::empty());
    }
}

/// Escaping a search text loses nothing: different search texts give
/// different queries.
pub proof fn lemma_search_escape_injective(a: Seq<char>, b: Seq<char>)
    requires
        escaped_search(a) == escaped_search(b),
    ensures
        a == b,
    decreases a.len(),
{
    lemma_search_empty(a);
    lemma_search_empty(b);
    if a.len() > 0 {
        lemma_search_first(a);
        lemma_search_first(b);
        let e = escaped_search(a);
        let ca = search_code(a[0]);
        let cb = search_code(b[0]);
        assert(e[0] == ca[0] && e[0] == cb[0]);
        if ca.len() == 2 {
            assert(cb.len() == 2);
            assert(e[1] == ca[1] && e[1] == cb[1]);
        }
        assert(a[0] == b[0]);
        assert(ca =~= cb);
        assert(escaped_search(a.drop_first()) =~= e.skip(ca.len() as int));
        assert(escaped_search(b.drop_first()) =~= e.skip(cb.len() as int));
        lemma_search_escape_injective(a.drop_first(), b.drop_first());
        assert(a =~= seq![a[0]] + a.drop_first());
        assert(b =~= seq![b[0]] + b.drop_first());
    }
}

} // verus!
