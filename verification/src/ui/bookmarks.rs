//! What the bookmarks view shows.
use vstd::prelude::*;

use crate::app::model::NamedNode;
use crate::rdf::display::{displayed_iri, DisplayContext};
use crate::util::string::{push_all, push_decimal, decimal, str_eq};

verus! {

/// One line of the bookmarks list.
#[derive(Debug)]
pub enum BookmarkLine {
    /// The IRI as itself, when it has neither label nor prefix.
    Raw(String),
    /// The label (or prefixed form) and a space, then the bracketed IRI.
    Labelled(String, String),
}

/// The title of the bookmarks box, with their number.
pub open spec fn bookmarks_title_of(count: nat) -> Seq<char> {
    " Bookmarks ("@ + decimal(count) + ") "@
}

/// The title of the bookmarks box.
pub fn bookmarks_title(count: usize) -> (r: String)
    ensures
        r@ == bookmarks_title_of(count as nat),
{
    let mut t = String::new();
    push_all(&mut t, " Bookmarks (");
    push_decimal(&mut t, count);
    push_all(&mut t, ") ");
    t
}

/// The text of a bookmark's line.
pub open spec fn bookmark_line_of(labels: Map<Seq<char>, Option<Seq<char>>>, uri: Seq<char>) -> (
    Seq<char>,
    Option<Seq<char>>,
) {
    let label = displayed_iri(labels, uri);
    let bracketed = seq!['<'] + uri + seq!['>'];
    if label == bracketed {
        ("  "@ + uri, None)
    } else {
        ("  "@ + label + " "@, Some(bracketed))
    }
}

/// The line for the bookmarked `uri`.
pub fn bookmark_line(display: &DisplayContext, uri: &NamedNode) -> (r: BookmarkLine)
    ensures
        match r {
            BookmarkLine::Raw(s) => bookmark_line_of(display.labels(), uri@) == (s@, None::<Seq<char>>),
            BookmarkLine::Labelled(a, b) => bookmark_line_of(display.labels(), uri@) == (
                a@,
                Some(b@),
            ),
        },
{
    let label = display.display_node(uri);
    let mut bracketed = String::new();
    bracketed.push('<');
    push_all(&mut bracketed, uri.as_str());
    bracketed.push('>');
    assert(bracketed@ =~= seq!['<'] + uri@ + seq!['>']);
    if str_eq(label.as_str(), bracketed.as_str()) {
        let mut s = String::new();
        push_all(&mut s, "  ");
        push_all(&mut s, uri.as_str());
        BookmarkLine::Raw(s)
    } else {
        let mut s = String::new();
        push_all(&mut s, "  ");
        push_all(&mut s, label.as_str());
        push_all(&mut s, " ");
        BookmarkLine::Labelled(s, bracketed)
    }
}

} // verus!
