//! The active-key set: the keys currently physically held down, derived
//! purely from the raw press/release events seen so far.

use vstd::prelude::*;

use crate::keys::Key;

verus! {

/// A set of currently-held keys.
pub struct KeySet {
    keys: Vec<Key>,
}

impl View for KeySet {
    type V = Set<Key>;

    closed spec fn view(&self) -> Set<Key> {
        Set::new(|k: Key| self.keys@.contains(k))
    }
}

impl KeySet {
    /// Internal well-formedness: the backing vector holds each key at most
    /// once. Constructors establish it and mutators preserve it.
    pub closed spec fn wf(self) -> bool {
        self.keys@.no_duplicates()
    }

    /// An empty key set.
    pub fn new() -> (r: KeySet)
        ensures
            r.wf(),
            r@ == Set::<Key>::empty(),
    {
        let r = KeySet { keys: Vec::new() };
        proof {
            assert(r@ =~= Set::<Key>::empty());
        }
        r
    }

    /// Whether `k` is currently held.
    pub fn contains(&self, k: Key) -> (r: bool)
        ensures
            r == self@.contains(k),
    {
        let mut i: usize = 0;
        while i < self.keys.len()
            invariant
                i <= self.keys@.len(),
                forall|j: int| 0 <= j < i ==> self.keys@[j] != k,
            decreases self.keys@.len() - i,
        {
            if self.keys[i] == k {
                return true;
            }
            i = i + 1;
        }
        false
    }

    /// Mark `k` as held; inserting a key already held changes nothing.
    pub fn insert(&mut self, k: Key)
        requires
            old(self).wf(),
        ensures
            final(self).wf(),
            final(self)@ == old(self)@.insert(k),
    {
        if !self.contains(k) {
            proof {
                assert(forall|j: int| 0 <= j < self.keys@.len() ==> self.keys@[j] != k);
            }
            self.keys.push(k);
            proof {
                let prev = old(self).keys@;
                let cur = self.keys@;
                assert(cur == prev.push(k));
                assert(cur[cur.len() - 1] == k);
                assert(forall|j: int| 0 <= j < prev.len() ==> cur[j] == prev[j]);
                assert forall|x: Key| old(self)@.insert(k).contains(x) implies self@.contains(
                    x,
                ) by {
                    if x == k {
                        assert(cur.contains(k));
                    } else {
                        let idx = choose|idx: int| 0 <= idx < prev.len() && prev[idx] == x;
                        assert(cur[idx] == x);
                    }
                }
                assert(self@ =~= old(self)@.insert(k));
            }
        } else {
            proof {
                assert(old(self)@.contains(k));
                assert(self@ =~= old(self)@.insert(k));
            }
        }
    }

    /// Mark `k` as released; removing a key not held changes nothing.
    pub fn remove(&mut self, k: Key)
        requires
            old(self).wf(),
        ensures
            final(self).wf(),
            final(self)@ == old(self)@.remove(k),
    {
        let n = self.keys.len();
        let mut i: usize = 0;
        while i < n
            invariant
                old(self).wf(),
                *self == *old(self),
                n == self.keys@.len(),
                i <= n,
                forall|j: int| 0 <= j < i ==> self.keys@[j] != k,
            decreases n - i,
        {
            if self.keys[i] == k {
                self.keys.remove(i);
                proof {
                    let prev = old(self).keys@;
                    let cur = self.keys@;
                    assert(cur == prev.remove(i as int));
                    assert(forall|j: int| 0 <= j < i ==> cur[j] == prev[j]);
                    assert(forall|j: int| i <= j < cur.len() ==> cur[j] == prev[j + 1]);
                    assert forall|p: int, q: int|
                        0 <= p < cur.len() && 0 <= q < cur.len() && p != q implies cur[p]
                        != cur[q] by {
                        let p1: int = if p < i { p } else { p + 1 };
                        let q1: int = if q < i { q } else { q + 1 };
                        assert(prev[p1] == cur[p]);
                        assert(prev[q1] == cur[q]);
                    }
                    assert(cur.no_duplicates());
                    assert forall|x: Key| self@.contains(x) implies old(self)@.remove(k).contains(
                        x,
                    ) by {
                        let idx = choose|idx: int| 0 <= idx < cur.len() && cur[idx] == x;
                        if idx < i {
                            assert(prev[idx] == x);
                        } else {
                            assert(prev[idx + 1] == x);
                        }
                        assert(x != k);
                    }
                    assert forall|x: Key| old(self)@.remove(k).contains(x) implies self@.contains(
                        x,
                    ) by {
                        let idx = choose|idx: int| 0 <= idx < prev.len() && prev[idx] == x;
                        assert(idx != i);
                        if idx < i {
                            assert(cur[idx] == x);
                        } else {
                            assert(cur[idx - 1] == x);
                        }
                    }
                    assert(self@ =~= old(self)@.remove(k));
                }
                return;
            }
            i = i + 1;
        }
        proof {
            assert(!old(self)@.contains(k));
            assert(self@ =~= old(self)@.remove(k));
        }
    }
}

} // verus!
