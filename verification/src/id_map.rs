//! A small map keyed by 128-bit task identifiers, kept as a vector of unique keys.
use vstd::prelude::*;

verus! {

/// Per-task state keyed by task id.
pub struct IdMap<V> {
    entries: Vec<(u128, V)>,
}

impl<V> IdMap<V> {
    /// Keys are unique.
    pub closed spec fn wf(&self) -> bool {
        forall|i: int, j: int|
            0 <= i < j < self.entries@.len() ==> self.entries@[i].0 != self.entries@[j].0
    }

    /// The map from task id to state.
    pub closed spec fn view(&self) -> Map<u128, V> {
        Map::new(
            |k: u128| exists|i: int| 0 <= i < self.entries@.len() && self.entries@[i].0 == k,
            |k: u128|
                self.entries@[choose|i: int| 0 <= i < self.entries@.len() && self.entries@[i].0 == k].1,
        )
    }

    /// Task ids in the order they were first inserted.
    pub closed spec fn key_seq(&self) -> Seq<u128> {
        self.entries@.map_values(|e: (u128, V)| e.0)
    }

    pub proof fn lemma_keys(&self)
        requires
            self.wf(),
        ensures
            self.key_seq().no_duplicates(),
            self.key_seq().to_set() == self.view().dom(),
            self.key_seq().len() == self.view().dom().len(),
    {
        let ks = self.key_seq();
        assert(ks.no_duplicates()) by {
            assert forall|i: int, j: int| 0 <= i < ks.len() && 0 <= j < ks.len() && i != j implies ks[i]
                != ks[j] by {
                if i < j {
                } else {
                }
            }
        }
        assert(ks.to_set() =~= self.view().dom()) by {
            assert forall|k: u128| ks.to_set().contains(k) <==> self.view().dom().contains(k) by {
                if ks.to_set().contains(k) {
                    let i = choose|i: int| 0 <= i < ks.len() && ks[i] == k;
                    assert(self.entries@[i].0 == k);
                }
                if self.view().dom().contains(k) {
                    let i = choose|i: int| 0 <= i < self.entries@.len() && self.entries@[i].0 == k;
                    assert(ks[i] == k);
                }
            }
        }
        ks.unique_seq_to_set();
    }

    /// An empty map.
    pub fn new() -> (r: Self)
        ensures
            r.wf(),
            r@ == Map::<u128, V>::empty(),
    {
        let r = IdMap { entries: Vec::new() };
        assert(r@ =~= Map::<u128, V>::empty());
        r
    }

    /// Position of `id` among the entries.
    fn index_of(&self, id: u128) -> (r: Option<usize>)
        requires
            self.wf(),
        ensures
            match r {
                Some(i) => i < self.entries@.len() && self.entries@[i as int].0 == id,
                None => !self@.dom().contains(id),
            },
    {
        let mut i: usize = 0;
        while i < self.entries.len()
            invariant
                i <= self.entries@.len(),
                forall|k: int| 0 <= k < i ==> self.entries@[k].0 != id,
            decreases self.entries.len() - i,
        {
            if self.entries[i].0 == id {
                return Some(i);
            }
            i = i + 1;
        }
        None
    }

    proof fn lemma_view_at(&self, i: int)
        requires
            self.wf(),
            0 <= i < self.entries@.len(),
        ensures
            self@.dom().contains(self.entries@[i].0),
            self@[self.entries@[i].0] == self.entries@[i].1,
    {
        let k = self.entries@[i].0;
        let j = choose|j: int| 0 <= j < self.entries@.len() && self.entries@[j].0 == k;
        assert(j == i) by {
            if j < i {
            } else if j > i {
            }
        }
    }

    /// Whether `id` has an entry.
    pub fn contains(&self, id: u128) -> (r: bool)
        requires
            self.wf(),
        ensures
            r == self@.dom().contains(id),
    {
        match self.index_of(id) {
            Some(i) => {
                proof {
                    self.lemma_view_at(i as int);
                }
                true
            },
            None => false,
        }
    }

    /// The entry for `id`.
    pub fn get(&self, id: u128) -> (r: Option<&V>)
        requires
            self.wf(),
        ensures
            match r {
                Some(v) => self@.dom().contains(id) && self@[id] == *v,
                None => !self@.dom().contains(id),
            },
    {
        match self.index_of(id) {
            Some(i) => {
                proof {
                    self.lemma_view_at(i as int);
                }
                Some(&self.entries[i].1)
            },
            None => None,
        }
    }

    /// Sets the entry for `id`.
    pub fn insert(&mut self, id: u128, v: V)
        requires
            old(self).wf(),
        ensures
            final(self).wf(),
            final(self)@ == old(self)@.insert(id, v),
    {
        let ghost before = self@;
        match self.index_of(id) {
            Some(i) => {
                proof {
                    self.lemma_view_at(i as int);
                }
                let ghost old_entries = self.entries@;
                self.entries.set(i, (id, v));
                assert(self.wf()) by {
                    assert forall|a: int, b: int| 0 <= a < b < self.entries@.len() implies self.entries@[a].0
                        != self.entries@[b].0 by {
                        assert(old_entries[a].0 != old_entries[b].0);
                    }
                }
                assert(self@ =~= before.insert(id, v)) by {
                    assert forall|k: u128| self@.dom().contains(k) <==> before.insert(id, v).dom().contains(k) by {
                        if before.dom().contains(k) {
                            let j = choose|j: int| 0 <= j < old_entries.len() && old_entries[j].0 == k;
                            assert(self.entries@[j].0 == k);
                        }
                        if self@.dom().contains(k) {
                            let j = choose|j: int| 0 <= j < self.entries@.len() && self.entries@[j].0 == k;
                            assert(old_entries[j].0 == k);
                        }
                    }
                    assert forall|k: u128| #[trigger] self@.dom().contains(k) implies self@[k] == before.insert(id, v)[k] by {
                        let j = choose|j: int| 0 <= j < self.entries@.len() && self.entries@[j].0 == k;
                        self.lemma_view_at(j);
                        if k != id {
                            assert(old_entries[j] == self.entries@[j]);
                            assert(before[k] == old_entries[j].1) by {
                                let jj = choose|jj: int| 0 <= jj < old_entries.len() && old_entries[jj].0 == k;
                                assert(jj == j) by {
                                    if jj < j {
                                    } else if jj > j {
                                    }
                                }
                            }
                        }
                    }
                }
            },
            None => {
                let ghost old_entries = self.entries@;
                self.entries.push((id, v));
                assert(self.wf()) by {
                    assert forall|a: int, b: int| 0 <= a < b < self.entries@.len() implies self.entries@[a].0
                        != self.entries@[b].0 by {
                        if b == old_entries.len() {
                            assert(!before.dom().contains(id));
                            if self.entries@[a].0 == id {
                                assert(old_entries[a].0 == id);
                            }
                        } else {
                            assert(old_entries[a].0 != old_entries[b].0);
                        }
                    }
                }
                assert(self@ =~= before.insert(id, v)) by {
                    assert forall|k: u128| self@.dom().contains(k) <==> before.insert(id, v).dom().contains(k) by {
                        if before.dom().contains(k) {
                            let j = choose|j: int| 0 <= j < old_entries.len() && old_entries[j].0 == k;
                            assert(self.entries@[j].0 == k);
                        }
                        if k == id {
                            assert(self.entries@[old_entries.len() as int].0 == id);
                        }
                        if self@.dom().contains(k) && k != id {
                            let j = choose|j: int| 0 <= j < self.entries@.len() && self.entries@[j].0 == k;
                            assert(j < old_entries.len());
                            assert(old_entries[j].0 == k);
                        }
                    }
                    assert forall|k: u128| #[trigger] self@.dom().contains(k) implies self@[k] == before.insert(id, v)[k] by {
                        let j = choose|j: int| 0 <= j < self.entries@.len() && self.entries@[j].0 == k;
                        self.lemma_view_at(j);
                        if k != id {
                            assert(j < old_entries.len());
                            assert(before[k] == old_entries[j].1) by {
                                let jj = choose|jj: int| 0 <= jj < old_entries.len() && old_entries[jj].0 == k;
                                assert(jj == j) by {
                                    if jj < j {
                                    } else if jj > j {
                                    }
                                }
                            }
                        } else {
                            assert(j == old_entries.len());
                        }
                    }
                }
            },
        }
    }

    /// Removes the entry for `id`, if any.
    pub fn remove(&mut self, id: u128)
        requires
            old(self).wf(),
        ensures
            final(self).wf(),
            final(self)@ == old(self)@.remove(id),
    {
        let ghost before = self@;
        match self.index_of(id) {
            Some(i) => {
                let ghost old_entries = self.entries@;
                let _ = self.entries.remove(i);
                assert(self.entries@ =~= old_entries.remove(i as int));
                assert(self.wf()) by {
                    assert forall|a: int, b: int| 0 <= a < b < self.entries@.len() implies self.entries@[a].0
                        != self.entries@[b].0 by {
                        let oa = if a < i { a } else { a + 1 };
                        let ob = if b < i { b } else { b + 1 };
                        assert(self.entries@[a] == old_entries[oa]);
                        assert(self.entries@[b] == old_entries[ob]);
                    }
                }
                assert(self@ =~= before.remove(id)) by {
                    assert forall|k: u128| self@.dom().contains(k) <==> before.remove(id).dom().contains(k) by {
                        if self@.dom().contains(k) {
                            let j = choose|j: int| 0 <= j < self.entries@.len() && self.entries@[j].0 == k;
                            let oj = if j < i { j } else { j + 1 };
                            assert(old_entries[oj].0 == k);
                            assert(k != id);
                        }
                        if before.remove(id).dom().contains(k) {
                            let j = choose|j: int| 0 <= j < old_entries.len() && old_entries[j].0 == k;
                            assert(j != i);
                            let nj = if j < i { j } else { j - 1 };
                            assert(self.entries@[nj].0 == k);
                        }
                    }
                    assert forall|k: u128| #[trigger] self@.dom().contains(k) implies self@[k] == before.remove(id)[k] by {
                        let j = choose|j: int| 0 <= j < self.entries@.len() && self.entries@[j].0 == k;
                        self.lemma_view_at(j);
                        let oj = if j < i { j } else { j + 1 };
                        assert(old_entries[oj] == self.entries@[j]);
                        assert(before[k] == old_entries[oj].1) by {
                            let jj = choose|jj: int| 0 <= jj < old_entries.len() && old_entries[jj].0 == k;
                            assert(jj == oj) by {
                                if jj < oj {
                                } else if jj > oj {
                                }
                            }
                        }
                    }
                }
            },
            None => {
                assert(self@ =~= before.remove(id));
            },
        }
    }

    /// Number of entries.
    pub fn len(&self) -> (r: usize)
        requires
            self.wf(),
        ensures
            r == self@.dom().len(),
    {
        proof {
            self.lemma_keys();
        }
        self.entries.len()
    }

    /// The key and state at position `i` (in insertion order).
    pub fn entry_at(&self, i: usize) -> (r: (u128, &V))
        requires
            self.wf(),
            i < self.key_seq().len(),
        ensures
            r.0 == self.key_seq()[i as int],
            self@.dom().contains(r.0),
            self@[r.0] == *r.1,
    {
        proof {
            self.lemma_view_at(i as int);
        }
        (self.entries[i].0, &self.entries[i].1)
    }
}

} // verus!
