//! What the search view shows for each hit.
use vstd::prelude::*;

use crate::app::model::SearchResult;
use crate::rdf::display::{displayed_focus, displayed_iri, DisplayContext};
use crate::util::string::{pad_right, padded, sanitize, sanitized, truncate, truncated};

verus! {

/// The width of each of the three columns in `inner_width` columns.
pub open spec fn search_column_width_of(inner_width: nat) -> nat {
    (if inner_width >= 6 {
        (inner_width - 6) as nat
    } else {
        0
    }) / 3
}

/// The width of each of the three result columns.
pub fn search_column_width(inner_width: usize) -> (r: usize)
    ensures
        r == search_column_width_of(inner_width as nat),
{
    (if inner_width >= 6 {
        inner_width - 6
    } else {
        0
    }) / 3
}

/// The three cells of a hit: the resource and the property, each cut and
/// padded to the column width, and the matched value on one line, cut.
pub open spec fn search_cells_of(
    labels: Map<Seq<char>, Option<Seq<char>>>,
    hit: SearchResult,
    col_w: nat,
) -> (Seq<char>, Seq<char>, Seq<char>) {
    (
        padded(truncated(displayed_focus(labels, hit.resource), col_w), col_w),
        padded(truncated(displayed_iri(labels, hit.property@), col_w), col_w),
        truncated(sanitized(hit.matched_value@), col_w),
    )
}

/// The cells of one search hit.
pub fn search_cells(display: &DisplayContext, hit: &SearchResult, col_w: usize) -> (r: (
    String,
    String,
    String,
))
    ensures
        (r.0@, r.1@, r.2@) == search_cells_of(display.labels(), *hit, col_w as nat),
{
    let res = truncate(display.display_focus(&hit.resource), col_w);
    let prop = truncate(display.display_node(&hit.property), col_w);
    let val = truncate(sanitize(hit.matched_value.as_str()), col_w);
    (pad_right(res.as_str(), col_w), pad_right(prop.as_str(), col_w), val)
}

} // verus!
