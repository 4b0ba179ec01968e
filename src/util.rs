//! Tracking which virtual keys are held down.

use vstd::prelude::*;
use crate::input::Key;

verus! {

/// The set of keys currently held.
pub struct KeyTracker {
    held: Vec<Key>,
}

impl View for KeyTracker {
    type V = Set<Key>;

    closed spec fn view(&self) -> Set<Key> {
        self.held@.to_set()
    }
}

impl KeyTracker {
    /// Each held key is recorded once.
    pub closed spec fn wf(&self) -> bool {
        self.held@.no_duplicates()
    }

    fn position(&self, k: Key) -> (r: Option<usize>)
        ensures
            match r {
                Some(i) => i < self.held@.len() && self.held@[i as int] == k,
                None => !self.held@.contains(k),
            },
    {
        let mut i: usize = 0;
        while i < self.held.len()
            invariant
                i <= self.held@.len(),
                forall|j: int| 0 <= j < i ==> self.held@[j] != k,
            decreases self.held.len() - i,
        {
            if self.held[i] == k {
                return Some(i);
            }
            i = i + 1;
        }
        None
    }

    /// No key held.
    pub fn new() -> (r: KeyTracker)
        ensures
            r@ == Set::<Key>::empty(),
            r.wf(),
    {
        let r = KeyTracker { held: Vec::new() };
        proof {
            assert(r.held@.to_set() =~= Set::<Key>::empty());
        }
        r
    }

    /// Marks a key as held.
    pub fn pressed(&mut self, k: Key)
        requires
            old(self).wf(),
        ensures
            final(self).wf(),
            final(self)@ == old(self)@.insert(k),
    {
        match self.position(k) {
            Some(_) => {
                proof {
                    assert(self.held@.to_set().insert(k) =~= self.held@.to_set());
                }
            },
            None => {
                let ghost before = self.held@;
                self.held.push(k);
                proof {
                    before.lemma_push_to_set_commute(k);
                }
            },
        }
    }

    /// Marks a key as no longer held.
    pub fn released(&mut self, k: Key)
        requires
            old(self).wf(),
        ensures
            final(self).wf(),
            final(self)@ == old(self)@.remove(k),
    {
        match self.position(k) {
            Some(i) => {
                let ghost before = self.held@;
                self.held.remove(i);
                proof {
                    assert(self.held@ =~= before.remove(i as int));
                    assert forall|x: Key| self.held@.contains(x) <==> before.to_set().remove(k).contains(x) by {
                        if before.contains(x) && x != k {
                            let j = choose|j: int| 0 <= j < before.len() && before[j] == x;
                            assert(j != i);
                            if j < i {
                                assert(self.held@[j] == x);
                            } else {
                                assert(self.held@[j - 1] == x);
                            }
                        }
                    }
                    assert(self.held@.to_set() =~= before.to_set().remove(k));
                }
            },
            None => {
                proof {
                    assert(self.held@.to_set().remove(k) =~= self.held@.to_set());
                }
            },
        }
    }

    /// Every held key, once each.
    pub fn held_keys(&self) -> (r: Vec<Key>)
        requires
            self.wf(),
        ensures
            r@.to_set() == self@,
            r@.no_duplicates(),
    {
        let mut out: Vec<Key> = Vec::new();
        let mut i: usize = 0;
        while i < self.held.len()
            invariant
                i <= self.held@.len(),
                out@ == self.held@.take(i as int),
            decreases self.held.len() - i,
        {
            out.push(self.held[i]);
            proof {
                assert(out@ =~= self.held@.take(i + 1));
            }
            i = i + 1;
        }
        proof {
            assert(out@ =~= self.held@);
        }
        out
    }
}

} // verus!
