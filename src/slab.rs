use vstd::prelude::*;

verus! {

/// A table that hands out integer keys for its values. A key stays valid until its
/// value is removed; freed keys are reused.
pub struct Slab<T> {
    entries: Vec<Option<T>>,
    free: Vec<usize>,
}

impl<T> Slab<T> {
    /// The values held, by key.
    pub closed spec fn view(&self) -> Map<usize, T> {
        Map::new(
            |k: usize| k < self.entries@.len() && self.entries@[k as int] is Some,
            |k: usize| self.entries@[k as int]->Some_0,
        )
    }

    /// Every key on the free list names an empty slot, and none is listed twice.
    pub closed spec fn wf(&self) -> bool {
        &&& self.free@.no_duplicates()
        &&& forall|i: int|
            0 <= i < self.free@.len() ==> {
                let k = #[trigger] self.free@[i];
                k < self.entries@.len() && self.entries@[k as int] is None
            }
    }

    /// An empty table.
    pub fn new() -> (r: Self)
        ensures
            r.wf(),
            r@ == Map::<usize, T>::empty(),
    {
        let r = Slab { entries: Vec::new(), free: Vec::new() };
        assert(r@ =~= Map::<usize, T>::empty());
        r
    }

    /// Stores `value` under a key that was not in use, and returns the key.
    /// Other keys keep their values.
    pub fn insert(&mut self, value: T) -> (k: usize)
        requires
            old(self).wf(),
        ensures
            final(self).wf(),
            !old(self)@.contains_key(k),
            final(self)@ == old(self)@.insert(k, value),
    {
        let ghost before = self@;
        match self.free.pop() {
            Some(k) => {
                proof {
                    assert(self.free@ =~= old(self).free@.drop_last());
                    assert(old(self).free@[old(self).free@.len() - 1] == k);
                    assert forall|i: int| 0 <= i < self.free@.len() implies #[trigger] self.free@[i] != k by {
                        assert(old(self).free@[i] == self.free@[i]);
                    }
                }
                self.entries.set(k, Some(value));
                assert(self@ =~= before.insert(k, value));
                assert forall|i: int| 0 <= i < self.free@.len() implies {
                    let j = #[trigger] self.free@[i];
                    j < self.entries@.len() && self.entries@[j as int] is None
                } by {
                    assert(old(self).free@[i] == self.free@[i]);
                }
                k
            },
            None => {
                let k = self.entries.len();
                self.entries.push(Some(value));
                assert(self@ =~= before.insert(k, value));
                k
            },
        }
    }

    /// The value stored under `k`, if any.
    pub fn get(&self, k: usize) -> (r: Option<&T>)
        ensures
            r matches Some(v) ==> self@.contains_key(k) && *v == self@[k],
            r is None ==> !self@.contains_key(k),
    {
        if k < self.entries.len() {
            match &self.entries[k] {
                Some(v) => Some(v),
                None => None,
            }
        } else {
            None
        }
    }

    /// Whether a value is stored under `k`.
    pub fn contains(&self, k: usize) -> (r: bool)
        ensures
            r == self@.contains_key(k),
    {
        k < self.entries.len() && self.entries[k].is_some()
    }

    /// Removes the value under `k` and returns it. An unknown key leaves the table
    /// as it was.
    pub fn remove(&mut self, k: usize) -> (r: Option<T>)
        requires
            old(self).wf(),
        ensures
            final(self).wf(),
            final(self)@ == old(self)@.remove(k),
            old(self)@.contains_key(k) ==> r == Some(old(self)@[k]),
            !old(self)@.contains_key(k) ==> r is None,
    {
        let ghost before = self@;
        if k < self.entries.len() && self.entries[k].is_some() {
            self.entries.push(None);
            let taken = self.entries.swap_remove(k);
            assert(self.entries@ =~= old(self).entries@.update(k as int, None));
            proof {
                assert forall|i: int| 0 <= i < self.free@.len() implies #[trigger] self.free@[i] != k by {
                    assert(old(self).entries@[self.free@[i] as int] is None);
                }
            }
            self.free.push(k);
            assert(self@ =~= before.remove(k));
            assert forall|i: int| 0 <= i < self.free@.len() implies {
                let j = #[trigger] self.free@[i];
                j < self.entries@.len() && self.entries@[j as int] is None
            } by {
                if i < self.free@.len() - 1 {
                    assert(old(self).free@[i] == self.free@[i]);
                }
            }
            taken
        } else {
            assert(self@ =~= before.remove(k));
            None
        }
    }

    /// Whether slot `k` was emptied by `take` and waits to be refilled.
    pub closed spec fn vacated(&self, k: usize) -> bool {
        &&& k < self.entries@.len()
        &&& self.entries@[k as int] is None
        &&& !self.free@.contains(k)
    }

    /// Moves the value under `k` out of the table, keeping the slot for `restore`.
    /// The key is not reused meanwhile.
    pub fn take(&mut self, k: usize) -> (r: Option<T>)
        requires
            old(self).wf(),
        ensures
            final(self).wf(),
            final(self)@ == old(self)@.remove(k),
            old(self)@.contains_key(k) ==> r == Some(old(self)@[k]) && final(self).vacated(k),
            !old(self)@.contains_key(k) ==> r is None && *final(self) == *old(self),
    {
        let ghost before = self@;
        if k < self.entries.len() && self.entries[k].is_some() {
            self.entries.push(None);
            let taken = self.entries.swap_remove(k);
            assert(self.entries@ =~= old(self).entries@.update(k as int, None));
            assert(self@ =~= before.remove(k));
            assert(!self.free@.contains(k)) by {
                if self.free@.contains(k) {
                    let i = choose|i: int| 0 <= i < self.free@.len() && self.free@[i] == k;
                    assert(old(self).entries@[self.free@[i] as int] is None);
                }
            }
            taken
        } else {
            assert(self@ =~= before.remove(k));
            None
        }
    }

    /// Puts a value back into a slot that `take` emptied.
    pub fn restore(&mut self, k: usize, value: T)
        requires
            old(self).wf(),
            old(self).vacated(k),
        ensures
            final(self).wf(),
            final(self)@ == old(self)@.insert(k, value),
    {
        let ghost before = self@;
        self.entries.set(k, Some(value));
        assert(self@ =~= before.insert(k, value));
        assert forall|i: int| 0 <= i < self.free@.len() implies {
            let j = #[trigger] self.free@[i];
            j < self.entries@.len() && self.entries@[j as int] is None
        } by {
            assert(self.free@[i] != k);
        }
    }
}

} // verus!
