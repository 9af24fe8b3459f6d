use vstd::prelude::*;

use crate::document::{Document, NodeId};
use crate::hit::{marquee_pick, topmost};
use crate::selection::{
    contains_id, lemma_swap_removed_members, lemma_toggle_twice_restores, position_of, selection_after,
};

verus! {

/// Pointer pressed over empty space, not yet moved past the drag threshold.
#[derive(Debug)]
pub struct PendingMarquee<P> {
    pub start_screen_px: P,
    pub start_world: P,
    pub additive: bool,
}

/// A live marquee, dragged from `start_world` to `current_world`.
/// `base` is the selection that the marquee adds to: the selection at the
/// moment the marquee started when `additive`, else empty.
#[derive(Debug)]
pub struct MarqueeDrag<P> {
    pub start_world: P,
    pub current_world: P,
    pub additive: bool,
    pub base: Vec<NodeId>,
}

/// Pointer pressed over a shape; reserved for moving the selection.
#[derive(Debug)]
pub struct PendingSelectionMove<P> {
    pub start_screen_px: P,
    pub start_world: P,
}

/// Moving the selection; reserved. `origins` holds each moved shape's
/// starting position, so that a running delta never accumulates drift.
#[derive(Debug)]
pub struct SelectionDrag<P> {
    pub start_world: P,
    pub current_world: P,
    pub origins: Vec<(NodeId, P)>,
}

/// The pointer gesture in progress, if any.
#[derive(Debug)]
pub enum DragState<P> {
    Idle,
    PendingMarquee(PendingMarquee<P>),
    Marquee(MarqueeDrag<P>),
    PendingSelectionMove(PendingSelectionMove<P>),
    SelectionMove(SelectionDrag<P>),
}

/// The document, the selection and the gesture in progress. `G` is a
/// shape's geometry and `P` a point, both carried through untouched.
#[derive(Debug)]
pub struct Engine<G, P> {
    pub doc: Document<G>,
    pub selected: Vec<NodeId>,
    pub drag_state: DragState<P>,
}

/// A copy of `s`, entry for entry.
fn copy_ids(s: &Vec<NodeId>) -> (r: Vec<NodeId>)
    ensures
        r@ == s@,
{
    let mut r: Vec<NodeId> = Vec::new();
    let mut i: usize = 0;
    while i < s.len()
        invariant
            i <= s@.len(),
            r@ == s@.subrange(0, i as int),
        decreases s@.len() - i,
    {
        r.push(s[i]);
        i = i + 1;
        assert(r@ =~= s@.subrange(0, i as int));
    }
    assert(s@.subrange(0, s@.len() as int) =~= s@);
    r
}

impl<G, P: Copy> Engine<G, P> {
    /// The document is well formed, the selection holds no shape twice,
    /// and neither does the base of a live marquee.
    pub open spec fn wf(&self) -> bool {
        &&& self.doc.wf()
        &&& self.selected@.no_duplicates()
        &&& match self.drag_state {
            DragState::Marquee(d) => d.base@.no_duplicates(),
            _ => true,
        }
    }

    /// An engine over `doc`, with nothing selected and no gesture.
    pub fn with_document(doc: Document<G>) -> (e: Self)
        ensures
            e.doc == doc,
            e.selected@.len() == 0,
            e.drag_state == DragState::<P>::Idle,
            doc.wf() ==> e.wf(),
    {
        Engine { doc, selected: Vec::new(), drag_state: DragState::Idle }
    }

    /// Whether the shape `id` is selected.
    pub fn is_selected(&self, id: NodeId) -> (r: bool)
        ensures
            r == self.selected@.contains(id),
    {
        contains_id(&self.selected, id)
    }

    /// The world point that a pending or live marquee started from.
    pub fn marquee_anchor(&self) -> (r: Option<P>)
        ensures
            r == match self.drag_state {
                DragState::PendingMarquee(p) => Some(p.start_world),
                DragState::Marquee(d) => Some(d.start_world),
                _ => None,
            },
    {
        match &self.drag_state {
            DragState::PendingMarquee(p) => Some(p.start_world),
            DragState::Marquee(d) => Some(d.start_world),
            _ => None,
        }
    }

    /// Updates the selection from a press that resolved to `hit`: a plain
    /// press replaces the selection with the hit shape, or clears it over
    /// empty space; a `shift` press toggles the hit shape (removing it by a
    /// swap with the last entry), and over empty space changes nothing.
    pub fn apply_selection(&mut self, hit: Option<NodeId>, shift: bool)
        ensures
            final(self).selected@ == selection_after(old(self).selected@, hit, shift),
            final(self).doc == old(self).doc,
            final(self).drag_state == old(self).drag_state,
            old(self).selected@.no_duplicates() ==> final(self).selected@.no_duplicates(),
    {
        match hit {
            Some(id) => {
                if !shift {
                    self.selected.clear();
                    self.selected.push(id);
                    assert(self.selected@ =~= seq![id]);
                } else {
                    match position_of(&self.selected, id) {
                        Some(idx) => {
                            self.selected.swap_remove(idx);
                            proof {
                                if old(self).selected@.no_duplicates() {
                                    lemma_swap_removed_members(old(self).selected@, idx as int);
                                }
                            }
                        },
                        None => {
                            self.selected.push(id);
                            proof {
                                if old(self).selected@.no_duplicates() {
                                    lemma_toggle_twice_restores(old(self).selected@, id);
                                }
                            }
                        },
                    }
                }
            },
            None => {
                if !shift {
                    self.selected.clear();
                }
            },
        }
    }

    /// A press at `screen_px`, which the camera maps to `world`; `hits` says
    /// for each shape whether it contains `world`. Any gesture in progress
    /// is dropped. A press on empty space starts a pending marquee, a press
    /// on a shape starts none; either way the selection follows the
    /// selection rules for the shape the press resolved to.
    pub fn pointer_down(&mut self, screen_px: P, world: P, shift: bool, hits: &Vec<bool>)
        requires
            hits@.len() == old(self).doc.rects@.len(),
        ensures
            final(self).doc == old(self).doc,
            final(self).selected@ == selection_after(
                old(self).selected@,
                topmost(old(self).doc.ids(), hits@),
                shift,
            ),
            final(self).drag_state == match topmost(old(self).doc.ids(), hits@) {
                None => DragState::PendingMarquee(
                    (PendingMarquee { start_screen_px: screen_px, start_world: world, additive: shift }),
                ),
                Some(_) => DragState::Idle,
            },
            old(self).wf() ==> final(self).wf(),
    {
        let hit = self.check_collide_rects(hits);
        self.drag_state = DragState::Idle;
        if hit.is_none() {
            self.drag_state = DragState::PendingMarquee(
                PendingMarquee { start_screen_px: screen_px, start_world: world, additive: shift },
            );
        }
        self.apply_selection(hit, shift);
    }

    /// The pointer moved to `world`. `past_threshold` says whether it now
    /// lies at least the drag threshold from where a pending gesture was
    /// pressed, in screen space; `overlaps` says for each shape whether it
    /// overlaps the marquee spanned from the marquee's anchor to `world`.
    /// A pending marquee past the threshold turns live; a live marquee
    /// follows the pointer. Either way the selection becomes the marquee's
    /// base followed by the overlapping shapes. Otherwise nothing changes.
    pub fn pointer_move(&mut self, world: P, past_threshold: bool, overlaps: &Vec<bool>)
        requires
            overlaps@.len() == old(self).doc.rects@.len(),
        ensures
            final(self).doc == old(self).doc,
            old(self).wf() ==> final(self).wf(),
            match old(self).drag_state {
                DragState::PendingMarquee(p) => if past_threshold {
                    let base = if p.additive {
                        old(self).selected@
                    } else {
                        Seq::empty()
                    };
                    &&& final(self).selected@ == marquee_pick(base, old(self).doc.ids(), overlaps@)
                    &&& is_marquee(final(self).drag_state, p.start_world, world, p.additive, base)
                } else {
                    &&& final(self).selected == old(self).selected
                    &&& final(self).drag_state == old(self).drag_state
                },
                DragState::Marquee(m) => {
                    &&& final(self).selected@ == marquee_pick(m.base@, old(self).doc.ids(), overlaps@)
                    &&& is_marquee(final(self).drag_state, m.start_world, world, m.additive, m.base@)
                },
                _ => {
                    &&& final(self).selected == old(self).selected
                    &&& final(self).drag_state == old(self).drag_state
                },
            },
    {
        let mut state: DragState<P> = DragState::Idle;
        std::mem::swap(&mut self.drag_state, &mut state);
        match state {
            DragState::PendingMarquee(p) => {
                if past_threshold {
                    let base = if p.additive {
                        copy_ids(&self.selected)
                    } else {
                        Vec::new()
                    };
                    self.selected = self.doc.marquee_selection(copy_ids(&base), overlaps);
                    self.drag_state = DragState::Marquee(
                        MarqueeDrag {
                            start_world: p.start_world,
                            current_world: world,
                            additive: p.additive,
                            base,
                        },
                    );
                } else {
                    self.drag_state = DragState::PendingMarquee(p);
                }
            },
            DragState::Marquee(m) => {
                self.selected = self.doc.marquee_selection(copy_ids(&m.base), overlaps);
                self.drag_state = DragState::Marquee(
                    MarqueeDrag {
                        start_world: m.start_world,
                        current_world: world,
                        additive: m.additive,
                        base: m.base,
                    },
                );
            },
            other => {
                self.drag_state = other;
            },
        }
    }

    /// The pointer was released at `world`; `overlaps` is as for
    /// `pointer_move`. A live marquee makes its last selection there; then
    /// every gesture ends.
    pub fn pointer_up(&mut self, world: P, overlaps: &Vec<bool>)
        requires
            overlaps@.len() == old(self).doc.rects@.len(),
        ensures
            final(self).doc == old(self).doc,
            final(self).drag_state == DragState::<P>::Idle,
            old(self).wf() ==> final(self).wf(),
            match old(self).drag_state {
                DragState::Marquee(m) => final(self).selected@ == marquee_pick(
                    m.base@,
                    old(self).doc.ids(),
                    overlaps@,
                ),
                _ => final(self).selected == old(self).selected,
            },
    {
        let mut state: DragState<P> = DragState::Idle;
        std::mem::swap(&mut self.drag_state, &mut state);
        if let DragState::Marquee(m) = state {
            self.selected = self.doc.marquee_selection(m.base, overlaps);
        }
    }

    /// The pointer gesture was cancelled: it ends, and nothing else changes.
    pub fn pointer_cancel(&mut self)
        ensures
            final(self).doc == old(self).doc,
            final(self).selected == old(self).selected,
            final(self).drag_state == DragState::<P>::Idle,
            old(self).wf() ==> final(self).wf(),
    {
        self.drag_state = DragState::Idle;
    }
}

/// `s` is a live marquee with these start and current points, mode and base.
pub open spec fn is_marquee<P>(
    s: DragState<P>,
    start_world: P,
    current_world: P,
    additive: bool,
    base: Seq<NodeId>,
) -> bool {
    match s {
        DragState::Marquee(d) => {
            &&& d.start_world == start_world
            &&& d.current_world == current_world
            &&& d.additive == additive
            &&& d.base@ == base
        },
        _ => false,
    }
}

} // verus!
