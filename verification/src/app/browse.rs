//! The browser's lines for a resource, and the IRIs whose labels they show.
use vstd::prelude::*;

use crate::app::model::{BrowserItem, FocusTerm, Literal, NamedNode, Term};
use crate::ui::browser::sections_ordered;

verus! {

/// A literal property as a line.
pub open spec fn literal_line(p: (NamedNode, Literal)) -> BrowserItem {
    BrowserItem::LiteralProp { prop: p.0, value: p.1 }
}

/// An outgoing link as a line.
pub open spec fn outgoing_line(p: (NamedNode, FocusTerm)) -> BrowserItem {
    BrowserItem::OutgoingLink { prop: p.0, target: p.1 }
}

/// An incoming link as a line.
pub open spec fn incoming_line(p: (NamedNode, FocusTerm)) -> BrowserItem {
    BrowserItem::IncomingLink { prop: p.0, source: p.1 }
}

/// A use of the focus as predicate as a line.
pub open spec fn predicate_use_line(p: (FocusTerm, Term)) -> BrowserItem {
    BrowserItem::AsPredicateRow { subject: p.0, object: p.1 }
}

/// The browser's lines for a resource: its literal properties, outgoing
/// links, incoming links and uses as predicate, section after section.
pub open spec fn items_of(
    lits: Seq<(NamedNode, Literal)>,
    outs: Seq<(NamedNode, FocusTerm)>,
    ins: Seq<(NamedNode, FocusTerm)>,
    uses: Seq<(FocusTerm, Term)>,
) -> Seq<BrowserItem> {
    lits.map_values(|p: (NamedNode, Literal)| literal_line(p)) + outs.map_values(
        |p: (NamedNode, FocusTerm)| outgoing_line(p),
    ) + ins.map_values(|p: (NamedNode, FocusTerm)| incoming_line(p)) + uses.map_values(
        |p: (FocusTerm, Term)| predicate_use_line(p),
    )
}

/// The lines come section by section, each entry giving its own kind of
/// line in the order given: literal properties first, then outgoing links,
/// incoming links and uses as predicate, each at the position that the
/// sections before it leave.
pub proof fn lemma_items_by_section(
    lits: Seq<(NamedNode, Literal)>,
    outs: Seq<(NamedNode, FocusTerm)>,
    ins: Seq<(NamedNode, FocusTerm)>,
    uses: Seq<(FocusTerm, Term)>,
)
    ensures
        items_of(lits, outs, ins, uses).len() == lits.len() + outs.len() + ins.len() + uses.len(),
        forall|k: int|
            0 <= k < lits.len() ==> #[trigger] items_of(lits, outs, ins, uses)[k]
                == (BrowserItem::LiteralProp { prop: lits[k].0, value: lits[k].1 }),
        forall|k: int|
            0 <= k < outs.len() ==> #[trigger] items_of(lits, outs, ins, uses)[lits.len() + k]
                == (BrowserItem::OutgoingLink { prop: outs[k].0, target: outs[k].1 }),
        forall|k: int|
            0 <= k < ins.len() ==> #[trigger] items_of(lits, outs, ins, uses)[lits.len() + outs.len()
                + k] == (BrowserItem::IncomingLink { prop: ins[k].0, source: ins[k].1 }),
        forall|k: int|
            0 <= k < uses.len() ==> #[trigger] items_of(lits, outs, ins, uses)[lits.len()
                + outs.len() + ins.len() + k] == (BrowserItem::AsPredicateRow {
                subject: uses[k].0,
                object: uses[k].1,
            }),
{
    let a = lits.map_values(|p: (NamedNode, Literal)| literal_line(p));
    let b = outs.map_values(|p: (NamedNode, FocusTerm)| outgoing_line(p));
    let c = ins.map_values(|p: (NamedNode, FocusTerm)| incoming_line(p));
    let d = uses.map_values(|p: (FocusTerm, Term)| predicate_use_line(p));
    let all = items_of(lits, outs, ins, uses);
    assert(all == a + b + c + d);
    assert forall|k: int| 0 <= k < lits.len() implies #[trigger] all[k]
        == BrowserItem::LiteralProp { prop: lits[k].0, value: lits[k].1 } by {
        assert(all[k] == a[k]);
    }
    assert forall|k: int| 0 <= k < outs.len() implies #[trigger] all[lits.len() + k]
        == BrowserItem::OutgoingLink { prop: outs[k].0, target: outs[k].1 } by {
        assert(all[lits.len() + k] == b[k]);
    }
    assert forall|k: int| 0 <= k < ins.len() implies #[trigger] all[lits.len() + outs.len() + k]
        == BrowserItem::IncomingLink { prop: ins[k].0, source: ins[k].1 } by {
        assert(all[lits.len() + outs.len() + k] == c[k]);
    }
    assert forall|k: int| 0 <= k < uses.len() implies #[trigger] all[lits.len() + outs.len()
        + ins.len() + k] == BrowserItem::AsPredicateRow { subject: uses[k].0, object: uses[k].1 } by {
        assert(all[lits.len() + outs.len() + ins.len() + k] == d[k]);
    }
}

/// The browser's lines for a resource, and where each of the four sections
/// starts among them.
pub fn browser_items(
    lits: &Vec<(NamedNode, Literal)>,
    outs: &Vec<(NamedNode, FocusTerm)>,
    ins: &Vec<(NamedNode, FocusTerm)>,
    uses: &Vec<(FocusTerm, Term)>,
) -> (r: (Vec<BrowserItem>, [usize; 4]))
    ensures
        r.0@ == items_of(lits@, outs@, ins@, uses@),
        r.1[0] == 0,
        r.1[1] == lits@.len(),
        r.1[2] == lits@.len() + outs@.len(),
        r.1[3] == lits@.len() + outs@.len() + ins@.len(),
        sections_ordered(r.1, r.0@.len()),
        forall|k: int|
            0 <= k < ins@.len() ==> #[trigger] r.0@[lits@.len() + outs@.len() + k]
                == (BrowserItem::IncomingLink { prop: ins@[k].0, source: ins@[k].1 }),
        forall|k: int|
            0 <= k < outs@.len() ==> #[trigger] r.0@[lits@.len() + k] == (BrowserItem::OutgoingLink {
                prop: outs@[k].0,
                target: outs@[k].1,
            }),
{
    proof {
        lemma_items_by_section(lits@, outs@, ins@, uses@);
    }
    let ghost a = lits@.map_values(|p: (NamedNode, Literal)| literal_line(p));
    let ghost b = outs@.map_values(|p: (NamedNode, FocusTerm)| outgoing_line(p));
    let ghost c = ins@.map_values(|p: (NamedNode, FocusTerm)| incoming_line(p));
    let ghost d = uses@.map_values(|p: (FocusTerm, Term)| predicate_use_line(p));
    let mut items: Vec<BrowserItem> = Vec::new();
    let mut i: usize = 0;
    while i < lits.len()
        invariant
            0 <= i <= lits@.len(),
            a == lits@.map_values(|p: (NamedNode, Literal)| literal_line(p)),
            items@ == a.take(i as int),
        decreases lits@.len() - i,
    {
        let (p, v) = &lits[i];
        items.push(BrowserItem::LiteralProp { prop: p.duplicate(), value: v.duplicate() });
        assert(a.take(i + 1) =~= a.take(i as int).push(a[i as int]));
        i = i + 1;
    }
    assert(a.take(i as int) =~= a);
    let o1 = items.len();
    let mut i: usize = 0;
    while i < outs.len()
        invariant
            0 <= i <= outs@.len(),
            b == outs@.map_values(|p: (NamedNode, FocusTerm)| outgoing_line(p)),
            items@ == a + b.take(i as int),
        decreases outs@.len() - i,
    {
        let (p, t) = &outs[i];
        items.push(BrowserItem::OutgoingLink { prop: p.duplicate(), target: t.duplicate() });
        assert(b.take(i + 1) =~= b.take(i as int).push(b[i as int]));
        i = i + 1;
    }
    assert(b.take(i as int) =~= b);
    let o2 = items.len();
    let mut i: usize = 0;
    while i < ins.len()
        invariant
            0 <= i <= ins@.len(),
            c == ins@.map_values(|p: (NamedNode, FocusTerm)| incoming_line(p)),
            items@ == a + b + c.take(i as int),
        decreases ins@.len() - i,
    {
        let (p, s) = &ins[i];
        items.push(BrowserItem::IncomingLink { prop: p.duplicate(), source: s.duplicate() });
        assert(c.take(i + 1) =~= c.take(i as int).push(c[i as int]));
        i = i + 1;
    }
    assert(c.take(i as int) =~= c);
    let o3 = items.len();
    let mut i: usize = 0;
    while i < uses.len()
        invariant
            0 <= i <= uses@.len(),
            d == uses@.map_values(|p: (FocusTerm, Term)| predicate_use_line(p)),
            items@ == a + b + c + d.take(i as int),
        decreases uses@.len() - i,
    {
        let (s, o) = &uses[i];
        items.push(BrowserItem::AsPredicateRow { subject: s.duplicate(), object: o.duplicate() });
        assert(d.take(i + 1) =~= d.take(i as int).push(d[i as int]));
        i = i + 1;
    }
    assert(d.take(i as int) =~= d);
    (items, [0, o1, o2, o3])
}

/// The IRIs that a line shows, whose labels the browser fetches.
pub open spec fn line_iris(item: BrowserItem) -> Seq<NamedNode> {
    match item {
        BrowserItem::LiteralProp { prop, .. } => seq![prop],
        BrowserItem::OutgoingLink { prop, target: FocusTerm::NamedNode(t) } => seq![prop, t],
        BrowserItem::IncomingLink { prop, source: FocusTerm::NamedNode(s) } => seq![prop, s],
        BrowserItem::AsPredicateRow { subject: FocusTerm::NamedNode(s), object } => match object {
            Term::NamedNode(o) => seq![s, o],
            _ => seq![s],
        },
    }
}

/// The IRIs that `items` show, line after line.
pub fn shown_iris(items: &Vec<BrowserItem>) -> (r: Vec<NamedNode>)
    ensures
        r@ == items@.map_values(|it: BrowserItem| line_iris(it)).flatten(),
{
    let ghost m = items@.map_values(|it: BrowserItem| line_iris(it));
    let mut r: Vec<NamedNode> = Vec::new();
    let mut i: usize = 0;
    while i < items.len()
        invariant
            0 <= i <= items@.len(),
            m == items@.map_values(|it: BrowserItem| line_iris(it)),
            r@ == m.take(i as int).flatten(),
        decreases items@.len() - i,
    {
        let ghost before = r@;
        match &items[i] {
            BrowserItem::LiteralProp { prop, .. } => {
                r.push(prop.duplicate());
            },
            BrowserItem::OutgoingLink { prop, target: FocusTerm::NamedNode(t) } => {
                r.push(prop.duplicate());
                r.push(t.duplicate());
            },
            BrowserItem::IncomingLink { prop, source: FocusTerm::NamedNode(s) } => {
                r.push(prop.duplicate());
                r.push(s.duplicate());
            },
            BrowserItem::AsPredicateRow { subject: FocusTerm::NamedNode(s), object } => {
                r.push(s.duplicate());
                if let Term::NamedNode(o) = object {
                    r.push(o.duplicate());
                }
            },
        }
        proof {
            assert(m.take(i + 1) =~= m.take(i as int).push(m[i as int]));
            m.take(i as int).lemma_flatten_push(m[i as int]);
            assert(r@ =~= before + m[i as int]);
        }
        i = i + 1;
    }
    assert(m.take(i as int) =~= m);
    r
}

} // verus!
