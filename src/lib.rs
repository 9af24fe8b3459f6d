//! Interaction core of a 2D canvas editor: documents of shapes with
//! monotonic identifiers, selection rules, hit-test priority and the
//! pointer-drag state machine.
//!
//! Geometry is carried through as opaque payloads (`G` for a shape, `P` for
//! a point); the geometric predicates themselves (containment and overlap,
//! one flag per shape; whether a drag passed its threshold) reach the
//! library as plain booleans.

mod document;
mod selection;
mod hit;
mod drag;

pub use document::{ids_of, Document, NodeId, RectNode};
pub use selection::{first_index, lemma_toggle_twice_restores, selection_after, swap_removed};
pub use hit::{lemma_flagged_overlap_selected, lemma_topmost_wins, marquee_pick, topmost};
pub use drag::{
    is_marquee, DragState, Engine, MarqueeDrag, PendingMarquee, PendingSelectionMove, SelectionDrag,
};
