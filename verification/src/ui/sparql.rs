//! What the SPARQL view shows: the results title, the column width and the
//! cells of each row.
use vstd::prelude::*;

use crate::app::model::{NamedNode, SparqlResult, Term};
use crate::rdf::sparql::{keep_some, lemma_keep_some_prefix, lemma_keep_some_push};
use crate::rdf::display::{displayed_term_plain, DisplayContext};
use crate::util::string::{join, join_strings, pad_right, padded, push_all};

verus! {

/// The title of the results box: the variables, each after a `?` and two
/// spaces apart, or just "Results" when there is no result.
pub open spec fn results_title_of(variables: Option<Seq<Seq<char>>>) -> Seq<char> {
    match variables {
        Some(vars) => " Results: "@ + join(
            vars.map_values(|v: Seq<char>| seq!['?'] + v),
            "  "@,
        ) + " "@,
        None => " Results "@,
    }
}

/// The title of the results box.
pub fn results_title(result: Option<&SparqlResult>) -> (r: String)
    ensures
        r@ == results_title_of(
            match result {
                Some(res) => Some(res.variables@.map_values(|s: String| s@)),
                None => None,
            },
        ),
{
    match result {
        Some(res) => {
            let ghost vars = res.variables@.map_values(|s: String| s@);
            let mut names: Vec<String> = Vec::new();
            let mut i: usize = 0;
            while i < res.variables.len()
                invariant
                    vars == res.variables@.map_values(|s: String| s@),
                    0 <= i <= res.variables@.len(),
                    names@.map_values(|s: String| s@) == vars.take(i as int).map_values(
                        |v: Seq<char>| seq!['?'] + v,
                    ),
                decreases res.variables@.len() - i,
            {
                let ghost before = names@;
                let mut name = String::new();
                name.push('?');
                push_all(&mut name, res.variables[i].as_str());
                names.push(name);
                proof {
                    assert(names@.map_values(|s: String| s@) =~= before.map_values(|s: String| s@).push(
                        names@.last()@,
                    ));
                    assert(vars.take(i + 1).map_values(|v: Seq<char>| seq!['?'] + v) =~= vars.take(
                        i as int,
                    ).map_values(|v: Seq<char>| seq!['?'] + v).push(seq!['?'] + vars[i as int]));
                }
                i = i + 1;
            }
            assert(vars.take(vars.len() as int) =~= vars);
            let joined = join_strings(&names, "  ");
            let mut t = String::new();
            push_all(&mut t, " Results: ");
            push_all(&mut t, joined.as_str());
            push_all(&mut t, " ");
            t
        },
        None => " Results ".to_owned(),
    }
}

/// The number of columns for `nvars` variables: at least one.
pub open spec fn column_count(nvars: nat) -> nat {
    if nvars >= 1 {
        nvars
    } else {
        1
    }
}

/// The width of each column when `inner_width` columns hold `nvars` of
/// them, three between each two.
pub open spec fn column_width_of(inner_width: nat, nvars: nat) -> nat {
    let n = column_count(nvars);
    let seps = (n - 1) * 3;
    (if inner_width >= seps {
        (inner_width - seps) as nat
    } else {
        0
    }) / n
}

/// The width of each result column.
pub fn column_width(inner_width: usize, nvars: usize) -> (r: usize)
    requires
        nvars <= usize::MAX / 3,
    ensures
        r == column_width_of(inner_width as nat, nvars as nat),
{
    let n: usize = if nvars >= 1 {
        nvars
    } else {
        1
    };
    let seps = (n - 1) * 3;
    let room: usize = if inner_width >= seps {
        inner_width - seps
    } else {
        0
    };
    room / n
}

/// The text of a cell: the term shown as in a table, or nothing when unbound.
pub open spec fn cell_text_of(labels: Map<Seq<char>, Option<Seq<char>>>, cell: Option<Term>) -> Seq<
    char,
> {
    match cell {
        Some(t) => displayed_term_plain(labels, t),
        None => seq![],
    }
}

/// The cells of a result row, each padded to `col_w`, each but those in the
/// last column followed by a separator.
pub fn row_cells(display: &DisplayContext, row: &Vec<Option<Term>>, col_w: usize, ncols: usize) -> (r:
    Vec<(String, bool)>)
    ensures
        r@.len() == row@.len(),
        forall|j: int|
            0 <= j < row@.len() ==> (#[trigger] r@[j]).0@ == padded(
                cell_text_of(display.labels(), row@[j]),
                col_w as nat,
            ) && r@[j].1 == (j + 1 < ncols),
{
    let mut out: Vec<(String, bool)> = Vec::new();
    let mut j: usize = 0;
    while j < row.len()
        invariant
            0 <= j <= row@.len(),
            out@.len() == j,
            forall|k: int|
                0 <= k < j ==> (#[trigger] out@[k]).0@ == padded(
                    cell_text_of(display.labels(), row@[k]),
                    col_w as nat,
                ) && out@[k].1 == (k + 1 < ncols),
        decreases row@.len() - j,
    {
        let val = match &row[j] {
            Some(t) => display.display_term_plain(t),
            None => String::new(),
        };
        out.push((pad_right(val.as_str(), col_w), j < ncols && ncols - j > 1));
        j = j + 1;
    }
    out
}


/// The IRI in a cell, if it holds one.
pub open spec fn cell_iri(cell: Option<Term>) -> Option<NamedNode> {
    match cell {
        Some(Term::NamedNode(n)) => Some(n),
        _ => None,
    }
}

/// The first IRI of a row, if any: where activating the row goes.
pub open spec fn first_iri_of(row: Seq<Option<Term>>) -> Option<NamedNode> {
    let iris = keep_some(row.map_values(|c: Option<Term>| cell_iri(c)));
    if iris.len() > 0 {
        Some(iris[0])
    } else {
        None
    }
}

proof fn lemma_first_found<A>(s: Seq<Option<A>>, n: int)
    requires
        0 <= n < s.len(),
        keep_some(s.take(n)).len() == 0,
        s[n] is Some,
    ensures
        keep_some(s).len() > 0,
        keep_some(s)[0] == s[n]->0,
    decreases s.len() - n,
{
    let t = s.take(n + 1);
    assert(t =~= s.take(n).push(s[n]));
    lemma_keep_some_push(s.take(n), s[n]);
    lemma_keep_some_prefix(s, n + 1);
}

/// The first IRI of a result row: activating the row opens it.
pub fn first_iri(row: &Vec<Option<Term>>) -> (r: Option<NamedNode>)
    ensures
        r == first_iri_of(row@),
{
    let ghost f = |c: Option<Term>| cell_iri(c);
    let mut j: usize = 0;
    while j < row.len()
        invariant
            0 <= j <= row@.len(),
            f == (|c: Option<Term>| cell_iri(c)),
            keep_some(row@.take(j as int).map_values(f)).len() == 0,
        decreases row@.len() - j,
    {
        proof {
            assert(row@.take(j + 1).map_values(f) =~= row@.take(j as int).map_values(f).push(
                f(row@[j as int]),
            ));
            lemma_keep_some_push(row@.take(j as int).map_values(f), f(row@[j as int]));
        }
        match &row[j] {
            Some(Term::NamedNode(n)) => {
                proof {
                    let m = row@.map_values(f);
                    assert(m.take(j as int) =~= row@.take(j as int).map_values(f));
                    lemma_first_found(m, j as int);
                }
                return Some(n.duplicate());
            },
            _ => {},
        }
        j = j + 1;
    }
    assert(row@.take(row@.len() as int) =~= row@);
    None
}

} // verus!
