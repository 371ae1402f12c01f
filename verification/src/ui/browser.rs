//! What the browser view shows: the address bar, the four sections and the
//! text of each line.
use vstd::prelude::*;

use crate::app::model::{BrowserItem, FocusTerm, NamedNode};
use crate::rdf::display::{
    displayed_focus, displayed_iri, displayed_term, literal_suffix, ntriples_focus, ntriples_iri,
    ntriples_literal, ntriples_term, opt_view, write_ntriples_focus, write_ntriples_iri,
    write_ntriples_literal, write_ntriples_term, DisplayContext,
};
use crate::rdf::sparql::{keep_some, lemma_keep_some_push};
use crate::util::string::{
    chars_of, concat_strs, has_prefix, has_suffix, join, join_strings, pad_right, padded, push_all,
    sanitize, sanitized, str_eq, truncate, truncated,
};

verus! {

/// The IRI of `rdf:type`.
pub const RDF_TYPE: &'static str = "http://www.w3.org/1999/02/22-rdf-syntax-ns#type";

/// The width of the property column, arrow included.
pub const PROP_COL: usize = 40;

/// The width of the datatype column.
pub const TYPE_COL: usize = 20;

/// The width of the arrow before a property.
pub const ARROW: usize = 3;

/// The label of the type that an item gives the focus, if it is an
/// `rdf:type` link.
pub open spec fn type_label_of(labels: Map<Seq<char>, Option<Seq<char>>>, item: BrowserItem) -> Option<
    Seq<char>,
> {
    match item {
        BrowserItem::OutgoingLink { prop, target } => if prop@ == RDF_TYPE@ {
            Some(displayed_focus(labels, target))
        } else {
            None
        },
        _ => None,
    }
}

/// The labels of the focus's types, in the order of the items.
pub open spec fn type_labels_of(labels: Map<Seq<char>, Option<Seq<char>>>, items: Seq<BrowserItem>) -> Seq<
    Seq<char>,
> {
    keep_some(items.map_values(|it: BrowserItem| type_label_of(labels, it)))
}

/// The labels of the types that the outgoing `rdf:type` links among `items` give.
pub fn type_labels(display: &DisplayContext, items: &Vec<BrowserItem>) -> (r: Vec<String>)
    ensures
        r@.map_values(|s: String| s@) == type_labels_of(display.labels(), items@),
{
    let ghost f = |it: BrowserItem| type_label_of(display.labels(), it);
    let mut out: Vec<String> = Vec::new();
    let mut i: usize = 0;
    while i < items.len()
        invariant
            0 <= i <= items@.len(),
            f == (|it: BrowserItem| type_label_of(display.labels(), it)),
            out@.map_values(|s: String| s@) == keep_some(items@.take(i as int).map_values(f)),
        decreases items@.len() - i,
    {
        let picked = match &items[i] {
            BrowserItem::OutgoingLink { prop, target } => if str_eq(prop.as_str(), RDF_TYPE) {
                Some(display.display_focus(target))
            } else {
                None
            },
            _ => None,
        };
        proof {
            assert(items@.take(i + 1).map_values(f) =~= items@.take(i as int).map_values(f).push(
                f(items@[i as int]),
            ));
            lemma_keep_some_push(items@.take(i as int).map_values(f), opt_view(picked));
        }
        match picked {
            Some(s) => {
                let ghost before = out@;
                out.push(s);
                assert(out@.map_values(|s: String| s@) =~= before.map_values(|s: String| s@).push(
                    out@.last()@,
                ));
            },
            None => {},
        }
        i = i + 1;
    }
    assert(items@.take(items@.len() as int) =~= items@);
    out
}

/// The marker before a bookmarked resource, and the blank of the same width.
pub open spec fn star_of(bookmarked: bool) -> Seq<char> {
    if bookmarked {
        " \u{2605} "@
    } else {
        "   "@
    }
}

/// The address bar: a star (or blanks), then either the `rdfs:label`
/// fetched for the resource followed by the bracketed IRI, or the raw IRI
/// alone when it has no label, then,
/// when the focus has types, spaces and the type labels flush to the right.
#[derive(Debug)]
pub struct AddressBar {
    pub star: String,
    /// The label and a space, when an `rdfs:label` was found for the IRI.
    pub label: Option<String>,
    /// The raw IRI, or the bracketed IRI after a label.
    pub uri: String,
    /// The spaces before the types, and the type labels two spaces apart.
    pub types: Option<(usize, String)>,
}

/// The number of spaces that push text of width `used` flush to the right
/// of `width` columns.
pub open spec fn right_pad(width: nat, used: nat) -> nat {
    if width > used {
        (width - used) as nat
    } else {
        0
    }
}

/// The address bar's parts as views: star, optional label, IRI text, and
/// optional padding with the type labels.
pub open spec fn address_bar_of(
    labels: Map<Seq<char>, Option<Seq<char>>>,
    focus: FocusTerm,
    bookmarked: bool,
    types: Seq<Seq<char>>,
    inner_width: nat,
) -> (Seq<char>, Option<Seq<char>>, Seq<char>, Option<(nat, Seq<char>)>) {
    let raw = match focus {
        FocusTerm::NamedNode(n) => n@,
    };
    let star = star_of(bookmarked);
    let bracketed = seq!['<'] + raw + seq!['>'];
    let (label_part, uri_part) = if labels.contains_key(raw) && labels[raw] is Some {
        (Some(labels[raw]->0 + seq![' ']), bracketed)
    } else {
        (None, raw)
    };
    let left_len = star.len() + match label_part {
        Some(l) => l.len(),
        None => 0,
    } + uri_part.len();
    let type_str = join(types, "  "@);
    (
        star,
        label_part,
        uri_part,
        if types.len() > 0 {
            Some((right_pad(inner_width, left_len + type_str.len()), type_str))
        } else {
            None
        },
    )
}

/// The address bar for the resource `focus`, `inner_width` columns wide.
pub fn address_bar(
    display: &DisplayContext,
    focus: &FocusTerm,
    bookmarked: bool,
    type_labels: &Vec<String>,
    inner_width: usize,
) -> (r: AddressBar)
    ensures
        ({
            let spec_bar = address_bar_of(
                display.labels(),
                *focus,
                bookmarked,
                type_labels@.map_values(|s: String| s@),
                inner_width as nat,
            );
            &&& r.star@ == spec_bar.0
            &&& opt_view(r.label) == spec_bar.1
            &&& r.uri@ == spec_bar.2
            &&& match r.types {
                Some((pad, t)) => spec_bar.3 == Some((pad as nat, t@)),
                None => spec_bar.3 is None,
            }
        }),
{
    let raw = match focus {
        FocusTerm::NamedNode(n) => n.as_str(),
    };
    let star = if bookmarked {
        " \u{2605} ".to_owned()
    } else {
        "   ".to_owned()
    };
    let mut bracketed = String::new();
    bracketed.push('<');
    push_all(&mut bracketed, raw);
    bracketed.push('>');
    assert(bracketed@ =~= seq!['<'] + raw@ + seq!['>']);
    let (label_part, uri_part) = match display.cached_label(raw) {
        Some(label) => {
            let mut l = label;
            l.push(' ');
            (Some(l), bracketed)
        },
        None => (None, raw.to_owned()),
    };
    let star_len = chars_of(star.as_str()).len();
    let label_len = match &label_part {
        Some(l) => chars_of(l.as_str()).len(),
        None => 0,
    };
    let uri_len = chars_of(uri_part.as_str()).len();
    let types = if type_labels.len() > 0 {
        let type_str = join_strings(type_labels, "  ");
        let type_len = chars_of(type_str.as_str()).len();
        let pad = sub_all(inner_width, star_len, label_len, uri_len, type_len);
        Some((pad, type_str))
    } else {
        None
    };
    AddressBar { star, label: label_part, uri: uri_part, types }
}

/// `width` less the four widths, or 0 when they take it all.
fn sub_all(width: usize, a: usize, b: usize, c: usize, d: usize) -> (r: usize)
    ensures
        r == right_pad(width as nat, (a + b + c + d) as nat),
{
    if width > a && width - a > b && width - a - b > c && width - a - b - c > d {
        width - a - b - c - d
    } else {
        0
    }
}

/// The number of items in each of the four sections, from where each
/// section starts and the total number of items.
pub open spec fn section_counts_of(offsets: [usize; 4], total: nat) -> [nat; 4] {
    [
        offsets[1] as nat,
        (offsets[2] - offsets[1]) as nat,
        (offsets[3] - offsets[2]) as nat,
        if total >= offsets[3] {
            (total - offsets[3]) as nat
        } else {
            0
        },
    ]
}

/// The number of items in each section: literal properties, outgoing
/// links, incoming links, uses as predicate.
pub fn section_counts(offsets: [usize; 4], total: usize) -> (r: [usize; 4])
    requires
        offsets[1] <= offsets[2] <= offsets[3],
    ensures
        r[0] == section_counts_of(offsets, total as nat)[0],
        r[1] == section_counts_of(offsets, total as nat)[1],
        r[2] == section_counts_of(offsets, total as nat)[2],
        r[3] == section_counts_of(offsets, total as nat)[3],
{
    let last = if total >= offsets[3] {
        total - offsets[3]
    } else {
        0
    };
    [offsets[1], offsets[2] - offsets[1], offsets[3] - offsets[2], last]
}

/// The position of the selection within a section of `count` items that
/// starts at `start`, if the selection is in that section.
pub fn section_selection(selection: usize, start: usize, count: usize) -> (r: Option<usize>)
    ensures
        r == if start <= selection && selection < start + count {
            Some((selection - start) as usize)
        } else {
            None::<usize>
        },
{
    if selection >= start && selection - start < count {
        Some(selection - start)
    } else {
        None
    }
}

/// The four sections, in order, partition the items between the first
/// offset and the end: their counts add up to the items after the first
/// offset, when the offsets are in order and within the list.
pub proof fn lemma_sections_cover_items(offsets: [usize; 4], total: nat)
    requires
        offsets[1] <= offsets[2] <= offsets[3] <= total,
    ensures
        ({
            let c = section_counts_of(offsets, total);
            c[0] + c[1] + c[2] + c[3] == total
        }),
{
}

/// Whether the sections follow one another within the `len` items, the
/// first starting at the top.
pub open spec fn sections_ordered(o: [usize; 4], len: nat) -> bool {
    o[0] == 0 && o[0] <= o[1] <= o[2] <= o[3] <= len
}

/// Where section `k` ends: where the next one starts, or at the end.
pub open spec fn section_end(o: [usize; 4], len: nat, k: int) -> int {
    if k >= 3 {
        len as int
    } else {
        o@[k + 1] as int
    }
}

/// Whether section `k` has items.
pub open spec fn section_nonempty(o: [usize; 4], len: nat, k: int) -> bool {
    (o@[k] as int) < section_end(o, len, k)
}

/// The section that the line `sel` is in: the number of later sections that
/// start at or before it.
pub open spec fn section_of(o: [usize; 4], sel: int) -> int {
    (if sel >= o[1] {
        1int
    } else {
        0int
    }) + (if sel >= o[2] {
        1int
    } else {
        0int
    }) + (if sel >= o[3] {
        1int
    } else {
        0int
    })
}

/// The start of the first section from `k` on that has items.
pub open spec fn first_nonempty_from(o: [usize; 4], len: nat, k: int) -> Option<usize>
    decreases 4 - k,
{
    if k >= 4 {
        None
    } else if k >= 0 && section_nonempty(o, len, k) {
        Some(o@[k])
    } else {
        first_nonempty_from(o, len, k + 1)
    }
}

/// The start of the last section before `k` that has items.
pub open spec fn last_nonempty_before(o: [usize; 4], len: nat, k: int) -> Option<usize>
    decreases k,
{
    if k <= 0 {
        None
    } else if k <= 4 && section_nonempty(o, len, k - 1) {
        Some(o@[k - 1])
    } else {
        last_nonempty_before(o, len, k - 1)
    }
}

fn section_index(o: [usize; 4], sel: usize) -> (r: usize)
    ensures
        r == section_of(o, sel as int),
{
    let mut r: usize = 0;
    if sel >= o[1] {
        r = r + 1;
    }
    if sel >= o[2] {
        r = r + 1;
    }
    if sel >= o[3] {
        r = r + 1;
    }
    r
}

/// Where `Tab` moves the selection from line `sel`: to the first line of
/// the next section that has items, if there is one.
pub fn next_section_start(o: [usize; 4], len: usize, sel: usize) -> (r: Option<usize>)
    ensures
        r == first_nonempty_from(o, len as nat, section_of(o, sel as int) + 1),
{
    let here = section_index(o, sel);
    let mut k = here + 1;
    while k < 4
        invariant
            here < k <= 4,
            here == section_of(o, sel as int),
            first_nonempty_from(o, len as nat, here + 1) == first_nonempty_from(o, len as nat, k as int),
        decreases 4 - k,
    {
        let end = if k == 3 {
            len
        } else {
            o[k + 1]
        };
        if o[k] < end {
            return Some(o[k]);
        }
        k = k + 1;
    }
    None
}

/// Where `Shift+Tab` moves the selection from line `sel`: to the first line
/// of the previous section that has items, if there is one.
pub fn prev_section_start(o: [usize; 4], len: usize, sel: usize) -> (r: Option<usize>)
    ensures
        r == last_nonempty_before(o, len as nat, section_of(o, sel as int)),
{
    let here = section_index(o, sel);
    let mut k = here;
    while k > 0
        invariant
            k <= here <= 3,
            here == section_of(o, sel as int),
            last_nonempty_before(o, len as nat, here as int) == last_nonempty_before(
                o,
                len as nat,
                k as int,
            ),
        decreases k,
    {
        let j = k - 1;
        let end = if j == 3 {
            len
        } else {
            o[j + 1]
        };
        if o[j] < end {
            return Some(o[j]);
        }
        k = j;
    }
    None
}

/// `Tab` lands on a line of a later section, and `Shift+Tab` on a line of an
/// earlier one.
pub proof fn lemma_section_jumps_land_on_items(o: [usize; 4], len: nat, sel: int)
    requires
        sections_ordered(o, len),
    ensures
        first_nonempty_from(o, len, section_of(o, sel) + 1) matches Some(p) ==> p < len
            && section_of(o, p as int) > section_of(o, sel),
        last_nonempty_before(o, len, section_of(o, sel)) matches Some(p) ==> p < len
            && section_of(o, p as int) < section_of(o, sel),
{
    reveal_with_fuel(first_nonempty_from, 5);
    reveal_with_fuel(last_nonempty_before, 5);
}

/// From the first line of a section, `Tab` and then `Shift+Tab` come back
/// to that line.
pub proof fn lemma_tab_then_back(o: [usize; 4], len: nat, sel: int)
    requires
        sections_ordered(o, len),
        0 <= sel < len,
        sel == o@[section_of(o, sel)],
    ensures
        first_nonempty_from(o, len, section_of(o, sel) + 1) matches Some(p) ==> last_nonempty_before(
            o,
            len,
            section_of(o, p as int),
        ) == Some(sel as usize),
{
    reveal_with_fuel(first_nonempty_from, 5);
    reveal_with_fuel(last_nonempty_before, 5);
}

/// Which section a line belongs to, for its colours.
#[derive(Debug, Clone, Copy, PartialEq, Eq)]
pub enum ItemKind {
    LiteralProp,
    OutgoingLink,
    IncomingLink,
    AsPredicateRow,
}

/// The text of one line of a section: a lead with the arrow, the first
/// column, a separator, the second column and, for literals, the suffix.
#[derive(Debug)]
pub struct ItemLine {
    pub kind: ItemKind,
    pub lead: String,
    pub first: String,
    pub sep: String,
    pub second: String,
    pub suffix: String,
}

/// The width of a literal's value on a line `avail` columns wide.
pub open spec fn value_column(avail: nat) -> nat {
    if avail >= 64 {
        (avail - 64) as nat
    } else {
        0
    }
}

/// The columns of a line as views: lead, first, separator, second, suffix.
pub open spec fn item_line_of(
    labels: Map<Seq<char>, Option<Seq<char>>>,
    item: BrowserItem,
    avail: nat,
) -> (Seq<char>, Seq<char>, Seq<char>, Seq<char>, Seq<char>) {
    let prop_w: nat = 37;
    match item {
        BrowserItem::LiteralProp { prop, value } => (
            "  \u{2192} "@,
            padded(truncated(displayed_iri(labels, prop@), prop_w), prop_w),
            " = "@,
            padded(
                truncated(sanitized(sanitized(value.spec_value())), value_column(avail)),
                value_column(avail),
            ),
            truncated(
                match literal_suffix(value) {
                    Some(s) => s,
                    None => seq![],
                },
                20,
            ),
        ),
        BrowserItem::OutgoingLink { prop, target } => (
            "  \u{2192} "@,
            padded(truncated(displayed_iri(labels, prop@), prop_w), prop_w),
            " \u{2192} "@,
            displayed_focus(labels, target),
            seq![],
        ),
        BrowserItem::IncomingLink { prop, source } => (
            "  \u{2190} "@,
            padded(truncated(displayed_iri(labels, prop@), prop_w), prop_w),
            " \u{2190} "@,
            displayed_focus(labels, source),
            seq![],
        ),
        BrowserItem::AsPredicateRow { subject, object } => (
            "  \u{25c6} "@,
            "  "@ + padded(truncated(displayed_focus(labels, subject), prop_w), prop_w),
            " \u{25c6} "@,
            displayed_term(labels, object),
            seq![],
        ),
    }
}

/// The property column: the property shown, cut and padded to its width.
fn prop_cell(display: &DisplayContext, prop: &NamedNode) -> (r: String)
    ensures
        r@ == padded(truncated(displayed_iri(display.labels(), prop@), 37), 37),
{
    let p = truncate(display.display_node(prop), PROP_COL - ARROW);
    pad_right(p.as_str(), PROP_COL - ARROW)
}

/// The text of the line for `item` on a row `avail_width` columns wide.
pub fn item_line(display: &DisplayContext, item: &BrowserItem, avail_width: usize) -> (r: ItemLine)
    ensures
        (r.lead@, r.first@, r.sep@, r.second@, r.suffix@) == item_line_of(
            display.labels(),
            *item,
            avail_width as nat,
        ),
        r.kind == match *item {
            BrowserItem::LiteralProp { .. } => ItemKind::LiteralProp,
            BrowserItem::OutgoingLink { .. } => ItemKind::OutgoingLink,
            BrowserItem::IncomingLink { .. } => ItemKind::IncomingLink,
            BrowserItem::AsPredicateRow { .. } => ItemKind::AsPredicateRow,
        },
{
    match item {
        BrowserItem::LiteralProp { prop, value } => {
            let value_col: usize = if avail_width >= 64 {
                avail_width - 64
            } else {
                0
            };
            let (raw_val, suffix) = display.literal_parts(value);
            let v = truncate(sanitize(raw_val.as_str()), value_col);
            let suffix_text = match suffix {
                Some(s) => s,
                None => String::new(),
            };
            ItemLine {
                kind: ItemKind::LiteralProp,
                lead: "  \u{2192} ".to_owned(),
                first: prop_cell(display, prop),
                sep: " = ".to_owned(),
                second: pad_right(v.as_str(), value_col),
                suffix: truncate(suffix_text, TYPE_COL),
            }
        },
        BrowserItem::OutgoingLink { prop, target } => ItemLine {
            kind: ItemKind::OutgoingLink,
            lead: "  \u{2192} ".to_owned(),
            first: prop_cell(display, prop),
            sep: " \u{2192} ".to_owned(),
            second: display.display_focus(target),
            suffix: String::new(),
        },
        BrowserItem::IncomingLink { prop, source } => ItemLine {
            kind: ItemKind::IncomingLink,
            lead: "  \u{2190} ".to_owned(),
            first: prop_cell(display, prop),
            sep: " \u{2190} ".to_owned(),
            second: display.display_focus(source),
            suffix: String::new(),
        },
        BrowserItem::AsPredicateRow { subject, object } => {
            let s = truncate(display.display_focus(subject), PROP_COL - ARROW);
            let cell = pad_right(s.as_str(), PROP_COL - ARROW);
            ItemLine {
                kind: ItemKind::AsPredicateRow,
                lead: "  \u{25c6} ".to_owned(),
                first: concat_strs("  ", cell.as_str()),
                sep: " \u{25c6} ".to_owned(),
                second: display.display_term(object),
                suffix: String::new(),
            }
        },
    }
}

/// The selected line as a triple in N-Triples notation, with `focus` in the
/// place the line gives the resource on display: subject, predicate and
/// object, each followed by a space, and a closing dot.
pub open spec fn triple_line_of(focus: FocusTerm, item: BrowserItem) -> Seq<char> {
    let f = ntriples_focus(focus);
    let (s, p, o) = match item {
        BrowserItem::LiteralProp { prop, value } => (f, ntriples_iri(prop@), ntriples_literal(value)),
        BrowserItem::OutgoingLink { prop, target } => (f, ntriples_iri(prop@), ntriples_focus(target)),
        BrowserItem::IncomingLink { prop, source } => (ntriples_focus(source), ntriples_iri(prop@), f),
        BrowserItem::AsPredicateRow { subject, object } => (
            ntriples_focus(subject),
            f,
            ntriples_term(object),
        ),
    };
    s + seq![' '] + p + seq![' '] + o + seq![' ', '.']
}

/// The text of the triple that the selected line shows, for the bottom line
/// of the browser and the clipboard.
pub fn triple_line(focus: &FocusTerm, item: &BrowserItem) -> (r: String)
    ensures
        r@ == triple_line_of(*focus, *item),
{
    let f = write_ntriples_focus(focus);
    let (s, p, o) = match item {
        BrowserItem::LiteralProp { prop, value } => (
            f,
            write_ntriples_iri(prop.as_str()),
            write_ntriples_literal(value),
        ),
        BrowserItem::OutgoingLink { prop, target } => (
            f,
            write_ntriples_iri(prop.as_str()),
            write_ntriples_focus(target),
        ),
        BrowserItem::IncomingLink { prop, source } => (
            write_ntriples_focus(source),
            write_ntriples_iri(prop.as_str()),
            f,
        ),
        BrowserItem::AsPredicateRow { subject, object } => (
            write_ntriples_focus(subject),
            f,
            write_ntriples_term(object),
        ),
    };
    let mut r = String::new();
    push_all(&mut r, s.as_str());
    r.push(' ');
    push_all(&mut r, p.as_str());
    r.push(' ');
    push_all(&mut r, o.as_str());
    r.push(' ');
    r.push('.');
    assert(r@ =~= triple_line_of(*focus, *item));
    r
}

/// `x + " " + y + " " + z + " ."` begins with `x + " "` and ends with
/// `" " + z + " ."`.
proof fn lemma_triple_ends(x: Seq<char>, y: Seq<char>, z: Seq<char>)
    ensures
        has_prefix(x + seq![' '] + y + seq![' '] + z + seq![' ', '.'], x + seq![' ']),
        has_prefix(
            x + seq![' '] + y + seq![' '] + z + seq![' ', '.'],
            x + seq![' '] + y + seq![' '],
        ),
        has_suffix(
            x + seq![' '] + y + seq![' '] + z + seq![' ', '.'],
            seq![' '] + z + seq![' ', '.'],
        ),
{
    let l = x + seq![' '] + y + seq![' '] + z + seq![' ', '.'];
    assert(l.take((x + seq![' ']).len() as int) =~= x + seq![' ']);
    assert(l.take((x + seq![' '] + y + seq![' ']).len() as int) =~= x + seq![' '] + y + seq![' ']);
    let t = seq![' '] + z + seq![' ', '.'];
    assert(l.skip(l.len() - t.len()) =~= t);
}

/// An outgoing link from `f` to `t` and the incoming link at `t` from `f`
/// are one triple, and their lines are the same.
pub proof fn lemma_triple_line_same_triple(f: FocusTerm, p: NamedNode, t: FocusTerm)
    ensures
        triple_line_of(f, (BrowserItem::OutgoingLink { prop: p, target: t })) == triple_line_of(
            t,
            (BrowserItem::IncomingLink { prop: p, source: f }),
        ),
{
}

/// The resource on display takes the place that the line gives it: subject
/// of a literal property or an outgoing link, whose value or target is the
/// object; object of an incoming link, whose source is the subject;
/// predicate of a use as predicate, between its subject and its object.
pub proof fn lemma_triple_line_places(f: FocusTerm, item: BrowserItem)
    ensures
        ({
            let line = triple_line_of(f, item);
            let here = ntriples_focus(f);
            match item {
                BrowserItem::LiteralProp { value, .. } => has_prefix(line, here + seq![' '])
                    && has_suffix(line, seq![' '] + ntriples_literal(value) + seq![' ', '.']),
                BrowserItem::OutgoingLink { target, .. } => has_prefix(line, here + seq![' '])
                    && has_suffix(line, seq![' '] + ntriples_focus(target) + seq![' ', '.']),
                BrowserItem::IncomingLink { source, .. } => has_prefix(
                    line,
                    ntriples_focus(source) + seq![' '],
                ) && has_suffix(line, seq![' '] + here + seq![' ', '.']),
                BrowserItem::AsPredicateRow { subject, object } => has_prefix(
                    line,
                    ntriples_focus(subject) + seq![' '] + here + seq![' '],
                ) && has_suffix(line, seq![' '] + ntriples_term(object) + seq![' ', '.']),
            }
        }),
{
    let here = ntriples_focus(f);
    match item {
        BrowserItem::LiteralProp { prop, value } => lemma_triple_ends(
            here,
            ntriples_iri(prop@),
            ntriples_literal(value),
        ),
        BrowserItem::OutgoingLink { prop, target } => lemma_triple_ends(
            here,
            ntriples_iri(prop@),
            ntriples_focus(target),
        ),
        BrowserItem::IncomingLink { prop, source } => lemma_triple_ends(
            ntriples_focus(source),
            ntriples_iri(prop@),
            here,
        ),
        BrowserItem::AsPredicateRow { subject, object } => lemma_triple_ends(
            ntriples_focus(subject),
            here,
            ntriples_term(object),
        ),
    }
}

/// Only an outgoing `rdf:type` link gives a type label, the shown form of
/// its target; every other line, an incoming `rdf:type` link among them,
/// gives none. So a line added to the list adds its type, if it is one, at
/// the end of the type labels, and leaves them as they were otherwise.
pub proof fn lemma_type_labels_from_outgoing_types(
    labels: Map<Seq<char>, Option<Seq<char>>>,
    items: Seq<BrowserItem>,
    it: BrowserItem,
)
    ensures
        type_label_of(labels, it) is Some <==> (it matches BrowserItem::OutgoingLink { prop, .. }
            && prop@ == RDF_TYPE@),
        it matches BrowserItem::OutgoingLink { target, .. } ==> (type_label_of(labels, it) is Some
            ==> type_label_of(labels, it) == Some(displayed_focus(labels, target))),
        type_labels_of(labels, items.push(it)) == match type_label_of(labels, it) {
            Some(l) => type_labels_of(labels, items).push(l),
            None => type_labels_of(labels, items),
        },
{
    let f = |i: BrowserItem| type_label_of(labels, i);
    assert(items.push(it).map_values(f) =~= items.map_values(f).push(f(it)));
    lemma_keep_some_push(items.map_values(f), f(it));
}

} // verus!
