use vstd::prelude::*;

use crate::document::NodeId;

verus! {

/// The first position of `id` in `s` (meaningful when `s` contains it).
pub open spec fn first_index(s: Seq<NodeId>, id: NodeId) -> int {
    choose|i: int| 0 <= i < s.len() && s[i] == id && forall|j: int| 0 <= j < i ==> s[j] != id
}

/// `s` with its entry at `i` replaced by its last entry, then shortened by one.
pub open spec fn swap_removed(s: Seq<NodeId>, i: int) -> Seq<NodeId> {
    s.update(i, s.last()).drop_last()
}

/// The selection after a pointer press resolved to `hit`:
/// a plain press selects just the hit shape (or nothing on empty space);
/// an additive press toggles the hit shape and leaves the rest untouched.
pub open spec fn selection_after(s: Seq<NodeId>, hit: Option<NodeId>, additive: bool) -> Seq<NodeId> {
    match hit {
        Some(id) => if !additive {
            seq![id]
        } else if s.contains(id) {
            swap_removed(s, first_index(s, id))
        } else {
            s.push(id)
        },
        None => if additive {
            s
        } else {
            Seq::empty()
        },
    }
}

/// Where `id` first stands in `s`, if anywhere.
pub(crate) fn position_of(s: &Vec<NodeId>, id: NodeId) -> (r: Option<usize>)
    ensures
        match r {
            Some(i) => s@.contains(id) && i < s@.len() && s@[i as int] == id && i as int
                == first_index(s@, id),
            None => !s@.contains(id),
        },
{
    let mut i: usize = 0;
    while i < s.len()
        invariant
            i <= s@.len(),
            forall|j: int| 0 <= j < i ==> s@[j] != id,
        decreases s@.len() - i,
    {
        if s[i] == id {
            proof {
                let k = first_index(s@, id);
                assert(0 <= k < s@.len() && s@[k] == id && forall|j: int| 0 <= j < k ==> s@[j] != id);
                if k < i {
                    assert(s@[k] != id);
                }
                if i < k {
                    assert(s@[i as int] != id);
                }
            }
            return Some(i);
        }
        i = i + 1;
    }
    None
}

/// Whether `id` occurs in `s`.
pub(crate) fn contains_id(s: &Vec<NodeId>, id: NodeId) -> (r: bool)
    ensures
        r == s@.contains(id),
{
    let mut i: usize = 0;
    while i < s.len()
        invariant
            i <= s@.len(),
            forall|j: int| 0 <= j < i ==> s@[j] != id,
        decreases s@.len() - i,
    {
        if s[i] == id {
            return true;
        }
        i = i + 1;
    }
    false
}

pub(crate) proof fn lemma_swap_removed_members(s: Seq<NodeId>, k: int)
    requires
        s.no_duplicates(),
        0 <= k < s.len(),
    ensures
        swap_removed(s, k).no_duplicates(),
        swap_removed(s, k).to_set() == s.to_set().remove(s[k]),
{
    let r = swap_removed(s, k);
    let n = s.len();
    assert forall|x: NodeId| r.to_set().contains(x) <==> s.to_set().remove(s[k]).contains(x) by {
        if r.contains(x) {
            let i = choose|i: int| 0 <= i < r.len() && r[i] == x;
            if i == k {
                assert(s[n - 1] == x && n - 1 != k);
            } else {
                assert(s[i] == x && i != k);
            }
        }
        if s.contains(x) && x != s[k] {
            let i = choose|i: int| 0 <= i < n && s[i] == x;
            if i == n - 1 {
                assert(r[k] == x);
            } else {
                assert(r[i] == x);
            }
        }
    }
    assert(r.to_set() =~= s.to_set().remove(s[k]));
}

/// Toggling the same shape twice restores the selection's membership
/// (its order may differ).
pub proof fn lemma_toggle_twice_restores(s: Seq<NodeId>, id: NodeId)
    requires
        s.no_duplicates(),
    ensures
        selection_after(s, Some(id), true).no_duplicates(),
        selection_after(selection_after(s, Some(id), true), Some(id), true).to_set() == s.to_set(),
{
    let once = selection_after(s, Some(id), true);
    if s.contains(id) {
        let k = first_index(s, id);
        lemma_swap_removed_members(s, k);
        assert(!once.to_set().contains(id));
        assert(!once.contains(id)) by {
            if once.contains(id) {
                let i = choose|i: int| 0 <= i < once.len() && once[i] == id;
                assert(once.to_set().contains(once[i]));
            }
        }
        let twice = once.push(id);
        assert(twice.to_set() =~= s.to_set()) by {
            assert forall|x: NodeId| twice.to_set().contains(x) <==> s.to_set().contains(x) by {
                if x != id {
                    if twice.contains(x) {
                        let i = choose|i: int| 0 <= i < twice.len() && twice[i] == x;
                        assert(once[i] == x);
                        assert(once.to_set().contains(x));
                    }
                    if s.contains(x) {
                        assert(once.to_set().contains(x));
                        assert(twice[once.len() as int] == id);
                        let i = choose|i: int| 0 <= i < once.len() && once[i] == x;
                        assert(twice[i] == x);
                    }
                } else {
                    assert(twice[once.len() as int] == id);
                }
            }
        }
    } else {
        let n = s.len() as int;
        assert(once[n] == id);
        assert(once.no_duplicates());
        let k = first_index(once, id);
        assert(once.contains(id));
        assert(k == n) by {
            if k < n {
                assert(s[k] == id);
            }
        }
        assert(swap_removed(once, k) =~= s);
    }
}

} // verus!
