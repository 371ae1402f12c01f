//! The browser's history: the resources to go back to and forward to.
use vstd::prelude::*;

use crate::app::model::FocusTerm;

verus! {

/// A stack holding `cur` when there is one.
pub open spec fn opt_seq(cur: Option<FocusTerm>) -> Seq<FocusTerm> {
    match cur {
        Some(f) => seq![f],
        None => seq![],
    }
}

/// The stacks after following a link away from `cur`: it goes on the back
/// stack and the forward stack is dropped.
pub open spec fn after_visit(v: (Seq<FocusTerm>, Seq<FocusTerm>), cur: Option<FocusTerm>) -> (
    Seq<FocusTerm>,
    Seq<FocusTerm>,
) {
    (v.0 + opt_seq(cur), seq![])
}

/// The stacks after going back from `cur`: the last resource left on the
/// back stack is shown, and `cur` goes on the forward stack. Nothing changes
/// when there is nowhere to go back to.
pub open spec fn after_back(v: (Seq<FocusTerm>, Seq<FocusTerm>), cur: Option<FocusTerm>) -> (
    Seq<FocusTerm>,
    Seq<FocusTerm>,
) {
    if v.0.len() > 0 {
        (v.0.drop_last(), v.1 + opt_seq(cur))
    } else {
        v
    }
}

/// The stacks after going forward from `cur`, the mirror of going back.
pub open spec fn after_forward(v: (Seq<FocusTerm>, Seq<FocusTerm>), cur: Option<FocusTerm>) -> (
    Seq<FocusTerm>,
    Seq<FocusTerm>,
) {
    if v.1.len() > 0 {
        (v.0 + opt_seq(cur), v.1.drop_last())
    } else {
        v
    }
}

/// The resource that going back or forward shows: the top of `stack`.
pub open spec fn top_of(stack: Seq<FocusTerm>) -> Option<FocusTerm> {
    if stack.len() > 0 {
        Some(stack.last())
    } else {
        None
    }
}

/// The resources visited before and after the one on display.
pub struct History {
    back: Vec<FocusTerm>,
    forward: Vec<FocusTerm>,
}

impl History {
    /// The back stack and the forward stack, each with its top last.
    pub closed spec fn stacks(&self) -> (Seq<FocusTerm>, Seq<FocusTerm>) {
        (self.back@, self.forward@)
    }

    /// An empty history.
    pub fn new() -> (r: History)
        ensures
            r.stacks() == (Seq::<FocusTerm>::empty(), Seq::<FocusTerm>::empty()),
    {
        History { back: Vec::new(), forward: Vec::new() }
    }

    /// Records that the browser leaves `current` by following a link.
    pub fn visit(&mut self, current: Option<FocusTerm>)
        ensures
            final(self).stacks() == after_visit(old(self).stacks(), current),
    {
        if let Some(f) = current {
            self.back.push(f);
        }
        self.forward = Vec::new();
        assert(self.stacks().0 =~= after_visit(old(self).stacks(), current).0);
    }

    /// Goes back from `current`: the resource to show, if there is one.
    pub fn go_back(&mut self, current: Option<FocusTerm>) -> (r: Option<FocusTerm>)
        ensures
            r == top_of(old(self).stacks().0),
            final(self).stacks() == after_back(old(self).stacks(), current),
    {
        match self.back.pop() {
            Some(prev) => {
                if let Some(f) = current {
                    self.forward.push(f);
                }
                assert(self.stacks().1 =~= after_back(old(self).stacks(), current).1);
                Some(prev)
            },
            None => None,
        }
    }

    /// Goes forward from `current`: the resource to show, if there is one.
    pub fn go_forward(&mut self, current: Option<FocusTerm>) -> (r: Option<FocusTerm>)
        ensures
            r == top_of(old(self).stacks().1),
            final(self).stacks() == after_forward(old(self).stacks(), current),
    {
        match self.forward.pop() {
            Some(next) => {
                if let Some(f) = current {
                    self.back.push(f);
                }
                assert(self.stacks().0 =~= after_forward(old(self).stacks(), current).0);
                Some(next)
            },
            None => None,
        }
    }
}

/// Going back and then forward again returns to the resource one started
/// from and leaves the history as it was.
pub proof fn lemma_back_then_forward(v: (Seq<FocusTerm>, Seq<FocusTerm>), cur: FocusTerm)
    requires
        v.0.len() > 0,
    ensures
        top_of(after_back(v, Some(cur)).1) == Some(cur),
        after_forward(after_back(v, Some(cur)), top_of(v.0)) == v,
{
    assert(v.0.drop_last() + seq![v.0.last()] =~= v.0);
    assert((v.1 + seq![cur]).drop_last() =~= v.1);
}

/// Going forward and then back again returns to the resource one started
/// from and leaves the history as it was.
pub proof fn lemma_forward_then_back(v: (Seq<FocusTerm>, Seq<FocusTerm>), cur: FocusTerm)
    requires
        v.1.len() > 0,
    ensures
        top_of(after_forward(v, Some(cur)).0) == Some(cur),
        after_back(after_forward(v, Some(cur)), top_of(v.1)) == v,
{
    assert(v.1.drop_last() + seq![v.1.last()] =~= v.1);
    assert((v.0 + seq![cur]).drop_last() =~= v.0);
}

/// Following a link leaves nothing to go forward to.
pub proof fn lemma_visit_clears_forward(v: (Seq<FocusTerm>, Seq<FocusTerm>), cur: Option<FocusTerm>)
    ensures
        top_of(after_visit(v, cur).1) is None,
        cur matches Some(c) ==> top_of(after_visit(v, cur).0) == Some(c),
{
}

} // verus!
