use vstd::prelude::*;
use std::collections::HashMap;
use crate::word::Word;

verus! {

broadcast use vstd::std_specs::hash::group_hash_axioms;

/// Transient key-value storage: the same read/write contract as the
/// persistent store, always priced warm, and cleared at the run boundary.
pub struct Transient {
    data: HashMap<u64, Word>,
}

impl Transient {
    /// The value stored under a key, zero where none was written.
    pub closed spec fn val(&self, key: u64) -> nat {
        if self.data@.contains_key(key) {
            self.data@[key].as_nat()
        } else {
            0
        }
    }

    pub fn new() -> (r: Transient)
        ensures
            forall|k: u64| r.val(k) == 0,
    {
        let r = Transient { data: HashMap::new() };
        proof {
            assert(forall|k: u64| #![auto] !r.data@.contains_key(k));
        }
        r
    }

    /// Read a key; an absent key yields zero.
    pub fn load(&self, key: u64) -> (r: Word)
        ensures
            r.as_nat() == self.val(key),
    {
        match self.data.get(&key) {
            Some(v) => *v,
            None => Word::zero(),
        }
    }

    /// Write a key unconditionally.
    pub fn store(&mut self, key: u64, value: Word) -> (r: ())
        ensures
            final(self).val(key) == value.as_nat(),
            forall|k: u64| k != key ==> final(self).val(k) == old(self).val(k),
    {
        self.data.insert(key, value);
    }

    /// Forget everything: every key reads as zero again.
    pub fn clear(&mut self) -> (r: ())
        ensures
            forall|k: u64| final(self).val(k) == 0,
    {
        self.data = HashMap::new();
        proof {
            assert(forall|k: u64| #![auto] !self.data@.contains_key(k));
        }
    }
}

} // verus!
