//! The operation table: a dense indexable map from small integer keys to
//! slots, with keys reused after removal so that a key always fits in the
//! user-data field of a submission descriptor.

use vstd::prelude::*;

verus! {

/// Slot storage plus a stack of free indices. An occupied index holds
/// `Some`, a free one holds `None` and appears exactly once on the stack.
pub struct OpTable<T> {
    pub slots: Vec<Option<T>>,
    pub free: Vec<usize>,
}

impl<T> OpTable<T> {
    /// The table as a map from occupied keys to their slots.
    pub open spec fn view(&self) -> Map<int, T> {
        Map::new(
            |i: int| 0 <= i < self.slots@.len() && self.slots@[i] is Some,
            |i: int| self.slots@[i]->0,
        )
    }

    /// The free stack names exactly the vacant indices, each once.
    pub open spec fn wf(&self) -> bool {
        &&& forall|j: int| 0 <= j < self.free@.len() ==> (#[trigger] self.free@[j] as int) < self.slots@.len()
        &&& forall|j: int| 0 <= j < self.free@.len() ==> self.slots@[#[trigger] self.free@[j] as int] is None
        &&& forall|j1: int, j2: int| 0 <= j1 < j2 < self.free@.len() ==> #[trigger] self.free@[j1] != #[trigger] self.free@[j2]
        &&& forall|i: int| 0 <= i < self.slots@.len() && self.slots@[i] is None ==> #[trigger] self.free@.contains(i as usize)
    }

    /// An empty table.
    pub fn new() -> (t: OpTable<T>)
        ensures
            t.wf(),
            t@ == Map::<int, T>::empty(),
            t.slots@.len() == 0,
    {
        let t = OpTable { slots: Vec::new(), free: Vec::new() };
        proof {
            assert(t@ =~= Map::<int, T>::empty());
        }
        t
    }

    /// How many slot positions exist, occupied or free.
    pub fn slot_count(&self) -> (n: usize)
        ensures
            n == self.slots@.len(),
    {
        self.slots.len()
    }

    /// Whether the key names an occupied slot.
    pub fn contains_key(&self, key: usize) -> (r: bool)
        ensures
            r == self@.dom().contains(key as int),
    {
        key < self.slots.len() && self.slots[key].is_some()
    }

    /// Stores a value in a vacant slot and hands back its key, reusing the
    /// most recently freed index if one exists.
    pub fn insert(&mut self, v: T) -> (key: usize)
        requires
            old(self).wf(),
            old(self).slots@.len() < usize::MAX,
        ensures
            final(self).wf(),
            !old(self)@.dom().contains(key as int),
            final(self)@ == old(self)@.insert(key as int, v),
            key < final(self).slots@.len(),
            final(self).slots@.len() <= old(self).slots@.len() + 1,
            final(self).free@.len() <= old(self).free@.len(),
    {
        let popped = self.free.pop();
        match popped {
            Some(key) => {
                proof {
                    let j = old(self).free@.len() - 1;
                    assert(old(self).free@[j] == key);
                }
                self.slots.set(key, Some(v));
                proof {
                    assert forall|i: int| 0 <= i < self.slots@.len() && self.slots@[i] is None
                        implies #[trigger] self.free@.contains(i as usize) by {
                        assert(old(self).free@.contains(i as usize));
                        let j = choose|j: int| 0 <= j < old(self).free@.len() && old(self).free@[j] == i as usize;
                        assert(j < old(self).free@.len() - 1);
                        assert(self.free@[j] == i as usize);
                    }
                    assert(self@ =~= old(self)@.insert(key as int, v));
                }
                key
            }
            None => {
                let key = self.slots.len();
                self.slots.push(Some(v));
                proof {
                    assert forall|i: int| 0 <= i < self.slots@.len() && self.slots@[i] is None
                        implies #[trigger] self.free@.contains(i as usize) by {
                        assert(i < old(self).slots@.len());
                        assert(old(self).free@.contains(i as usize));
                    }
                    assert(self@ =~= old(self)@.insert(key as int, v));
                }
                key
            }
        }
    }

    /// Borrows the slot at an occupied key.
    pub fn borrow_at(&self, key: usize) -> (r: &T)
        requires
            self@.dom().contains(key as int),
        ensures
            *r == self@[key as int],
    {
        self.slots[key].as_ref().unwrap()
    }

    /// Swaps a new value into an occupied slot, returning the old one.
    pub fn swap_at(&mut self, key: usize, v: T) -> (r: T)
        requires
            old(self).wf(),
            old(self)@.dom().contains(key as int),
        ensures
            final(self).wf(),
            r == old(self)@[key as int],
            final(self)@ == old(self)@.insert(key as int, v),
            final(self).slots@.len() == old(self).slots@.len(),
            final(self).free@ == old(self).free@,
    {
        let mut tmp: Option<T> = Some(v);
        core::mem::swap(&mut self.slots[key], &mut tmp);
        proof {
            assert(self@ =~= old(self)@.insert(key as int, v));
        }
        tmp.unwrap()
    }

    /// Removes an occupied slot, returning its value; the key becomes free
    /// and may later be reused.
    pub fn remove(&mut self, key: usize) -> (r: T)
        requires
            old(self).wf(),
            old(self)@.dom().contains(key as int),
        ensures
            final(self).wf(),
            r == old(self)@[key as int],
            final(self)@ == old(self)@.remove(key as int),
            final(self).slots@.len() == old(self).slots@.len(),
    {
        let mut tmp: Option<T> = None;
        core::mem::swap(&mut self.slots[key], &mut tmp);
        self.free.push(key);
        proof {
            let n = self.free@.len() - 1;
            assert(self.free@[n] == key);
            assert forall|j1: int, j2: int| 0 <= j1 < j2 < self.free@.len()
                implies #[trigger] self.free@[j1] != #[trigger] self.free@[j2] by {
                if j2 == n {
                    assert(old(self).slots@[self.free@[j1] as int] is None);
                }
            }
            assert forall|i: int| 0 <= i < self.slots@.len() && self.slots@[i] is None
                implies #[trigger] self.free@.contains(i as usize) by {
                if i == key as int {
                    assert(self.free@[n] == i as usize);
                } else {
                    assert(old(self).free@.contains(i as usize));
                    let j = choose|j: int| 0 <= j < old(self).free@.len() && old(self).free@[j] == i as usize;
                    assert(self.free@[j] == i as usize);
                }
            }
            assert(self@ =~= old(self)@.remove(key as int));
        }
        tmp.unwrap()
    }
}

} // verus!
