//! The slot table a driver keeps its resources in: resources live in slots
//! addressed by index, and freed slots are handed out again, oldest first.

use vstd::prelude::*;
use std::collections::VecDeque;

verus! {

/// Resources in numbered slots, with a queue of the slots freed so far.
pub struct ResourceContainer<T> {
    res: Vec<Option<T>>,
    free_res: VecDeque<usize>,
}

impl<T> ResourceContainer<T> {
    /// The slots, in index order; `None` marks a free slot.
    pub closed spec fn slots(&self) -> Seq<Option<T>> {
        self.res@
    }

    /// The free slots, in the order they will be handed out again.
    pub closed spec fn free(&self) -> Seq<usize> {
        self.free_res@
    }

    /// The free queue names exactly the empty slots, each once.
    pub open spec fn wf(&self) -> bool {
        &&& forall|i: int| 0 <= i < self.free().len() ==> (#[trigger] self.free()[i]) < self.slots().len()
            && self.slots()[self.free()[i] as int] is None
        &&& forall|i: int, j: int| 0 <= i < j < self.free().len() ==> self.free()[i] != self.free()[j]
        &&& forall|k: int| 0 <= k < self.slots().len() && (#[trigger] self.slots()[k]) is None
            ==> self.free().contains(k as usize)
    }

    pub fn new() -> (r: Self)
        ensures
            r.wf(),
            r.slots() == Seq::<Option<T>>::empty(),
            r.free() == Seq::<usize>::empty(),
    {
        Self { res: Vec::new(), free_res: VecDeque::new() }
    }

    /// Stores `t` in the oldest freed slot, or in a new slot at the end if none is free.
    pub fn add(&mut self, t: T) -> (r: usize)
        requires
            old(self).wf(),
        ensures
            final(self).wf(),
            old(self).free().len() == 0 ==> {
                &&& r == old(self).slots().len()
                &&& final(self).slots() == old(self).slots().push(Some(t))
                &&& final(self).free() == old(self).free()
            },
            old(self).free().len() > 0 ==> {
                &&& r == old(self).free()[0]
                &&& final(self).slots() == old(self).slots().update(r as int, Some(t))
                &&& final(self).free() == old(self).free().drop_first()
            },
    {
        if self.free_res.len() == 0 {
            let idx = self.res.len();
            self.res.push(Some(t));
            proof {
                assert forall|k: int| 0 <= k < self.res@.len() && (#[trigger] self.res@[k]) is None
                    implies self.free_res@.contains(k as usize) by {
                    assert(k < old(self).res@.len());
                    assert(old(self).res@[k] is None);
                }
            }
            idx
        } else {
            let idx = self.free_res.pop_front().unwrap();
            proof {
                assert(self.free_res@ == old(self).free_res@.drop_first());
                assert(idx == old(self).free_res@[0]);
            }
            self.res.set(idx, Some(t));
            proof {
                assert forall|i: int| 0 <= i < self.free_res@.len() implies
                    (#[trigger] self.free_res@[i]) < self.res@.len() && self.res@[self.free_res@[i] as int] is None by {
                    assert(self.free_res@[i] == old(self).free_res@[i + 1]);
                    assert(old(self).free_res@[i + 1] != old(self).free_res@[0]);
                }
                assert forall|k: int| 0 <= k < self.res@.len() && (#[trigger] self.res@[k]) is None
                    implies self.free_res@.contains(k as usize) by {
                    assert(k != idx);
                    assert(self.res@.len() == self.res.len());
                    assert(old(self).res@[k] is None);
                    assert(old(self).free_res@.contains(k as usize));
                    let j = choose|j: int| 0 <= j < old(self).free_res@.len() && old(self).free_res@[j] == k as usize;
                    assert(j != 0);
                    assert(self.free_res@[j - 1] == k as usize);
                }
            }
            idx
        }
    }

    /// Empties the slot `idx` and queues it for reuse.
    pub fn remove(&mut self, idx: usize)
        requires
            old(self).wf(),
            idx < old(self).slots().len(),
            old(self).slots()[idx as int] is Some,
        ensures
            final(self).wf(),
            final(self).slots() == old(self).slots().update(idx as int, None),
            final(self).free() == old(self).free().push(idx),
    {
        self.res.set(idx, None);
        self.free_res.push_back(idx);
        proof {
            assert forall|i: int| 0 <= i < self.free_res@.len() implies
                (#[trigger] self.free_res@[i]) < self.res@.len() && self.res@[self.free_res@[i] as int] is None by {
                if i < old(self).free_res@.len() {
                    assert(self.free_res@[i] == old(self).free_res@[i]);
                    assert(old(self).free_res@[i] != idx);
                }
            }
            assert forall|i: int, j: int| 0 <= i < j < self.free_res@.len() implies self.free_res@[i] != self.free_res@[j] by {
                if j == old(self).free_res@.len() {
                    assert(old(self).res@[old(self).free_res@[i] as int] is None);
                }
            }
            assert forall|k: int| 0 <= k < self.res@.len() && (#[trigger] self.res@[k]) is None
                implies self.free_res@.contains(k as usize) by {
                if k == idx {
                    assert(self.free_res@[self.free_res@.len() - 1] == idx);
                } else {
                    assert(old(self).free_res@.contains(k as usize));
                    let j = choose|j: int| 0 <= j < old(self).free_res@.len() && old(self).free_res@[j] == k as usize;
                    assert(self.free_res@[j] == k as usize);
                }
            }
        }
    }

    /// Whether slot `idx` holds a resource.
    pub fn is_live(&self, idx: usize) -> (b: bool)
        ensures
            b == (idx < self.slots().len() && self.slots()[idx as int] is Some),
    {
        idx < self.res.len() && self.res[idx].is_some()
    }

    /// The resource in slot `idx`.
    pub fn index(&self, idx: usize) -> (r: &T)
        requires
            idx < self.slots().len(),
            self.slots()[idx as int] is Some,
        ensures
            Some(*r) == self.slots()[idx as int],
    {
        self.res[idx].as_ref().unwrap()
    }
}

/// Where no slot is free, a slot that `remove` frees is the slot the next
/// `add` fills: the new resource lands in it and the free queue is empty again.
pub proof fn lemma_remove_then_add_reuses<T>(slots: Seq<Option<T>>, free: Seq<usize>, idx: usize, t: T)
    requires
        free.len() == 0,
        idx < slots.len(),
        slots[idx as int] is Some,
    ensures
        ({
            let removed_slots = slots.update(idx as int, None);
            let removed_free = free.push(idx);
            &&& removed_free.len() > 0
            &&& removed_free[0] == idx
            &&& removed_slots.update(removed_free[0] as int, Some(t)) == slots.update(idx as int, Some(t))
            &&& removed_free.drop_first() == free
        }),
{
    assert(free.push(idx).drop_first() =~= free);
    assert(slots.update(idx as int, None).update(idx as int, Some(t)) =~= slots.update(idx as int, Some(t)));
}

} // verus!
