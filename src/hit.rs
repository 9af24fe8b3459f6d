use vstd::prelude::*;

use crate::document::{Document, NodeId};
use crate::drag::Engine;
use crate::selection::contains_id;

verus! {

/// The shape that a point resolves to: the last one in paint order (the
/// topmost drawn) among those whose flag in `hits` says they contain it.
pub open spec fn topmost(ids: Seq<NodeId>, hits: Seq<bool>) -> Option<NodeId>
    decreases ids.len(),
{
    if ids.len() == 0 {
        None
    } else if hits[ids.len() - 1] {
        Some(ids.last())
    } else {
        topmost(ids.drop_last(), hits)
    }
}

/// The selection that a marquee yields: `base` followed by every shape,
/// in paint order, whose flag in `hits` says it overlaps the marquee and
/// that is not already present.
pub open spec fn marquee_pick(base: Seq<NodeId>, ids: Seq<NodeId>, hits: Seq<bool>) -> Seq<NodeId>
    decreases ids.len(),
{
    if ids.len() == 0 {
        base
    } else {
        let s = marquee_pick(base, ids.drop_last(), hits);
        let id = ids.last();
        if hits[ids.len() - 1] && !s.contains(id) {
            s.push(id)
        } else {
            s
        }
    }
}

/// Among shapes that all contain a point, the point resolves to the one
/// drawn last.
pub proof fn lemma_topmost_wins(ids: Seq<NodeId>, hits: Seq<bool>, j: int)
    requires
        ids.len() <= hits.len(),
        0 <= j < ids.len(),
        hits[j],
        forall|k: int| j < k < ids.len() ==> !hits[k],
    ensures
        topmost(ids, hits) == Some(ids[j]),
    decreases ids.len(),
{
    if j < ids.len() - 1 {
        lemma_topmost_wins(ids.drop_last(), hits, j);
    }
}

/// What the marquee yields holds exactly the base members and the
/// flagged shapes, each once when the base has no repeats.
proof fn lemma_marquee_pick_members(base: Seq<NodeId>, ids: Seq<NodeId>, hits: Seq<bool>)
    requires
        ids.len() <= hits.len(),
    ensures
        base.no_duplicates() ==> marquee_pick(base, ids, hits).no_duplicates(),
        forall|x: NodeId|
            #[trigger] marquee_pick(base, ids, hits).contains(x) <==> (base.contains(x) || exists|i: int|
                0 <= i < ids.len() && hits[i] && ids[i] == x),
    decreases ids.len(),
{
    if ids.len() > 0 {
        let prev = ids.drop_last();
        lemma_marquee_pick_members(base, prev, hits);
        let s = marquee_pick(base, prev, hits);
        let r = marquee_pick(base, ids, hits);
        let n = ids.len() - 1;
        assert forall|x: NodeId|
            #[trigger] r.contains(x) <==> (base.contains(x) || exists|i: int|
                0 <= i < ids.len() && hits[i] && ids[i] == x) by {
            if r.contains(x) && !s.contains(x) {
                let i = choose|i: int| 0 <= i < r.len() && r[i] == x;
                assert(i == s.len());
                assert(hits[n] && ids[n] == x);
            }
            if s.contains(x) {
                let i = choose|i: int| 0 <= i < s.len() && s[i] == x;
                assert(r[i] == x);
            }
            if exists|i: int| 0 <= i < ids.len() && hits[i] && ids[i] == x {
                let i = choose|i: int| 0 <= i < ids.len() && hits[i] && ids[i] == x;
                if i < n {
                    assert(prev[i] == x);
                    assert(s.contains(x));
                } else if !s.contains(x) {
                    assert(r[s.len() as int] == x);
                }
            }
        }
    }
}

/// Every shape flagged as overlapping the marquee is selected, whether the
/// marquee holds it whole or only in part, and nothing joins the base
/// selection but such shapes.
pub proof fn lemma_flagged_overlap_selected(base: Seq<NodeId>, ids: Seq<NodeId>, hits: Seq<bool>, i: int)
    requires
        ids.len() <= hits.len(),
        0 <= i < ids.len(),
    ensures
        hits[i] ==> marquee_pick(base, ids, hits).contains(ids[i]),
        base.contains(ids[i]) ==> marquee_pick(base, ids, hits).contains(ids[i]),
        marquee_pick(base, ids, hits).contains(ids[i]) ==> base.contains(ids[i]) || exists|k: int|
            0 <= k < ids.len() && hits[k] && ids[k] == ids[i],
{
    lemma_marquee_pick_members(base, ids, hits);
}

impl<G, P: Copy> Engine<G, P> {
    /// The shape that a point resolves to, given for each shape whether it
    /// contains the point (bounds inclusive): the topmost drawn among them.
    pub fn check_collide_rects(&self, hits: &Vec<bool>) -> (r: Option<NodeId>)
        requires
            hits@.len() == self.doc.rects@.len(),
        ensures
            r == topmost(self.doc.ids(), hits@),
    {
        let ghost ids = self.doc.ids();
        let mut i: usize = self.doc.rects.len();
        assert(ids.subrange(0, i as int) =~= ids);
        while i > 0
            invariant
                i <= self.doc.rects@.len(),
                hits@.len() == self.doc.rects@.len(),
                ids == self.doc.ids(),
                topmost(ids.subrange(0, i as int), hits@) == topmost(ids, hits@),
            decreases i,
        {
            assert(ids.subrange(0, i as int).drop_last() =~= ids.subrange(0, i - 1));
            if hits[i - 1] {
                return Some(self.doc.rects[i - 1].id);
            }
            i = i - 1;
        }
        assert(ids.subrange(0, 0) =~= Seq::<NodeId>::empty());
        None
    }
}

impl<G> Document<G> {
    /// The selection that a marquee yields from `base`, given for each shape
    /// whether it overlaps the marquee.
    pub(crate) fn marquee_selection(&self, base: Vec<NodeId>, overlaps: &Vec<bool>) -> (r: Vec<NodeId>)
        requires
            overlaps@.len() == self.rects@.len(),
        ensures
            r@ == marquee_pick(base@, self.ids(), overlaps@),
            base@.no_duplicates() ==> r@.no_duplicates(),
    {
        let ghost ids = self.ids();
        let mut selected = base;
        let mut i: usize = 0;
        while i < self.rects.len()
            invariant
                i <= self.rects@.len(),
                overlaps@.len() == self.rects@.len(),
                ids == self.ids(),
                selected@ == marquee_pick(base@, ids.subrange(0, i as int), overlaps@),
            decreases self.rects@.len() - i,
        {
            let id = self.rects[i].id;
            assert(ids.subrange(0, i + 1).drop_last() =~= ids.subrange(0, i as int));
            if overlaps[i] && !contains_id(&selected, id) {
                selected.push(id);
            }
            i = i + 1;
        }
        assert(ids.subrange(0, self.rects@.len() as int) =~= ids);
        proof {
            lemma_marquee_pick_members(base@, ids, overlaps@);
        }
        selected
    }
}

} // verus!
