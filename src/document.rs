use vstd::prelude::*;

verus! {

/// Identifier of a shape, unique within its document and never reused.
#[derive(Clone, Copy, Debug, PartialEq, Eq, Hash, Structural)]
pub struct NodeId(pub u64);

/// A shape of a document: its identifier and its geometry.
#[derive(Debug)]
pub struct RectNode<G> {
    pub id: NodeId,
    pub shape: G,
}

/// The identifiers of `rects`, in paint order.
pub open spec fn ids_of<G>(rects: Seq<RectNode<G>>) -> Seq<NodeId> {
    rects.map_values(|r: RectNode<G>| r.id)
}

/// The owned shapes, in paint order, and the identifier counter.
#[derive(Debug)]
pub struct Document<G> {
    pub next_id: u64,
    pub rects: Vec<RectNode<G>>,
}

impl<G> Document<G> {
    /// The identifiers of the shapes, in paint order.
    pub open spec fn ids(&self) -> Seq<NodeId> {
        ids_of(self.rects@)
    }

    /// Every shape carries an identifier that the counter has handed out,
    /// and no two shapes share one.
    pub open spec fn wf(&self) -> bool {
        &&& 1 <= self.next_id
        &&& forall|i: int|
            0 <= i < self.rects@.len() ==> 1 <= #[trigger] self.rects@[i].id.0 < self.next_id
        &&& self.ids().no_duplicates()
    }

    /// An empty document whose first identifier will be 1.
    pub fn new() -> (d: Self)
        ensures
            d.next_id == 1,
            d.rects@.len() == 0,
            d.wf(),
    {
        let d = Document { next_id: 1, rects: Vec::new() };
        assert(d.ids() =~= Seq::<NodeId>::empty());
        d
    }

    /// Hands out the counter's value and advances it; the counter never wraps.
    pub fn alloc_id(&mut self) -> (id: NodeId)
        requires
            old(self).next_id < u64::MAX,
        ensures
            id.0 == old(self).next_id,
            final(self).next_id == old(self).next_id + 1,
            final(self).rects@ == old(self).rects@,
            old(self).wf() ==> final(self).wf(),
    {
        let id = self.next_id;
        self.next_id = self.next_id + 1;
        NodeId(id)
    }

    /// Appends a shape on top of the paint order under a fresh identifier.
    pub fn add_rect(&mut self, shape: G) -> (id: NodeId)
        requires
            old(self).wf(),
            old(self).next_id < u64::MAX,
        ensures
            id.0 == old(self).next_id,
            final(self).next_id == old(self).next_id + 1,
            final(self).rects@ == old(self).rects@.push(RectNode { id, shape }),
            final(self).wf(),
    {
        let id = self.alloc_id();
        self.rects.push(RectNode { id, shape });
        proof {
            let old_ids = old(self).ids();
            assert(self.ids() =~= old_ids.push(id));
            assert forall|i: int| 0 <= i < old_ids.len() implies old_ids[i] != id by {
                assert(old(self).rects@[i].id.0 < id.0);
            }
        }
        id
    }

    /// Where the shape with identifier `id` stands in paint order, if any.
    pub fn index_of_id(&self, id: NodeId) -> (r: Option<usize>)
        ensures
            match r {
                Some(i) => i < self.rects@.len() && self.rects@[i as int].id == id,
                None => !self.ids().contains(id),
            },
    {
        let mut i: usize = 0;
        while i < self.rects.len()
            invariant
                i <= self.rects@.len(),
                forall|j: int| 0 <= j < i ==> self.rects@[j].id != id,
            decreases self.rects@.len() - i,
        {
            if self.rects[i].id == id {
                return Some(i);
            }
            i = i + 1;
        }
        proof {
            assert forall|j: int| 0 <= j < self.ids().len() implies self.ids()[j] != id by {
                assert(self.rects@[j].id != id);
            }
        }
        None
    }
}

} // verus!
