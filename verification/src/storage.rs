use vstd::prelude::*;
use std::collections::HashMap;
use crate::word::Word;

verus! {

broadcast use vstd::std_specs::hash::group_hash_axioms;

/// Persistent key-value storage with a per-run warm set: the first access
/// to a key in a run is cold, later ones warm. An absent key reads as zero.
///
/// Keys are 64-bit integers; the storage opcodes key by the low 64 bits of
/// the popped word, so two words that agree there name the same slot.
pub struct Storage {
    data: HashMap<u64, Word>,
    cache: Vec<u64>,
}

impl Storage {
    /// The value stored under a key, zero where none was written.
    pub closed spec fn val(&self, key: u64) -> nat {
        if self.data@.contains_key(key) {
            self.data@[key].as_nat()
        } else {
            0
        }
    }

    /// Whether the key was already touched this run.
    pub closed spec fn warm(&self, key: u64) -> bool {
        self.cache@.contains(key)
    }

    pub fn new() -> (r: Storage)
        ensures
            forall|k: u64| r.val(k) == 0,
            forall|k: u64| !r.warm(k),
    {
        let r = Storage { data: HashMap::new(), cache: Vec::new() };
        proof {
            assert(forall|k: u64| !r.cache@.contains(k));
            assert(forall|k: u64| #![auto] !r.data@.contains_key(k));
        }
        r
    }

    fn cache_contains(&self, key: u64) -> (r: bool)
        ensures
            r == self.warm(key),
    {
        let mut i: usize = 0;
        while i < self.cache.len()
            invariant
                i <= self.cache@.len(),
                forall|j: int| 0 <= j < i ==> self.cache@[j] != key,
            decreases self.cache@.len() - i,
        {
            if self.cache[i] == key {
                proof {
                    assert(self.cache@.contains(key));
                }
                return true;
            }
            i += 1;
        }
        proof {
            assert(!self.cache@.contains(key));
        }
        false
    }

    /// Whether a key is warm, without touching it.
    pub fn is_warm(&self, key: u64) -> (r: bool)
        ensures
            r == self.warm(key),
    {
        self.cache_contains(key)
    }

    /// Read a key: reports whether the key was warm before the call, and
    /// leaves it warm afterwards; values are untouched.
    pub fn load(&mut self, key: u64) -> (r: (bool, Word))
        ensures
            r.0 == old(self).warm(key),
            r.1.as_nat() == old(self).val(key),
            final(self).warm(key),
            forall|k: u64| k != key ==> final(self).warm(k) == old(self).warm(k),
            forall|k: u64| final(self).val(k) == old(self).val(k),
    {
        let warm_access = self.cache_contains(key);
        if !warm_access {
            self.cache.push(key);
            proof {
                let c0 = old(self).cache@;
                let c1 = self.cache@;
                assert(c1[c0.len() as int] == key);
                assert(c1.contains(key));
                assert forall|k: u64| c0.contains(k) implies c1.contains(k) by {
                    let j = choose|j: int| 0 <= j < c0.len() && c0[j] == k;
                    assert(c1[j] == k);
                }
                assert forall|k: u64| k != key && c1.contains(k) implies c0.contains(k) by {
                    let j = choose|j: int| 0 <= j < c1.len() && c1[j] == k;
                    assert(c0[j] == k);
                }
            }
        }
        let value = match self.data.get(&key) {
            Some(v) => *v,
            None => Word::zero(),
        };
        (warm_access, value)
    }

    /// Write a key unconditionally and mark it warm.
    pub fn store(&mut self, key: u64, value: Word) -> (r: ())
        ensures
            final(self).val(key) == value.as_nat(),
            forall|k: u64| k != key ==> final(self).val(k) == old(self).val(k),
            final(self).warm(key),
            forall|k: u64| k != key ==> final(self).warm(k) == old(self).warm(k),
    {
        let warm_access = self.cache_contains(key);
        if !warm_access {
            self.cache.push(key);
            proof {
                let c0 = old(self).cache@;
                let c1 = self.cache@;
                assert(c1[c0.len() as int] == key);
                assert(c1.contains(key));
                assert forall|k: u64| c0.contains(k) implies c1.contains(k) by {
                    let j = choose|j: int| 0 <= j < c0.len() && c0[j] == k;
                    assert(c1[j] == k);
                }
                assert forall|k: u64| k != key && c1.contains(k) implies c0.contains(k) by {
                    let j = choose|j: int| 0 <= j < c1.len() && c1[j] == k;
                    assert(c0[j] == k);
                }
            }
        }
        self.data.insert(key, value);
    }
}

} // verus!
