use vstd::prelude::*;
use vstd::arithmetic::div_mod::*;

verus! {

/// The error the byte-memory reports when an access cannot be represented
/// on this machine at all.
#[derive(Clone, Copy, PartialEq, Eq, Structural, Debug)]
pub enum MemoryError {
    ErrOutOfBounds,
}

/// The gas price of holding `w` 32-byte words of memory: `3w + w^2/512`.
pub open spec fn mem_cost(w: nat) -> nat {
    3 * w + (w * w) / 512
}

/// The smallest 32-byte-aligned length that covers `end` bytes.
pub open spec fn aligned_len(end: nat) -> nat {
    ((end + 31) / 32) * 32
}

/// The length after an access reaching `end`: memory only ever grows.
pub open spec fn grown_len(cur: nat, end: nat) -> nat {
    if aligned_len(end) > cur {
        aligned_len(end)
    } else {
        cur
    }
}

/// Any access leaves memory at least as long as before and at least as
/// long as the access reaches, and the length stays a multiple of 32
/// bytes: memory never shrinks within a run, and is word aligned once it
/// is non-empty.
pub proof fn lemma_growth_monotone(cur: nat, end: nat)
    requires
        cur % 32 == 0,
    ensures
        grown_len(cur, end) >= cur,
        grown_len(cur, end) >= end,
        grown_len(cur, end) % 32 == 0,
{
    lemma_fundamental_div_mod((end + 31) as int, 32);
    lemma_mod_multiples_basic(((end + 31) / 32) as int, 32);
    lemma_mod_bound((end + 31) as int, 32);
}

/// Growing never prices lower: the cost function is monotonic.
pub proof fn lemma_mem_cost_mono(w1: nat, w2: nat)
    requires
        w1 <= w2,
    ensures
        mem_cost(w1) <= mem_cost(w2),
{
    assert(w1 * w1 <= w2 * w2) by (nonlinear_arith)
        requires
            w1 <= w2,
    ;
    lemma_div_is_ordered((w1 * w1) as int, (w2 * w2) as int, 512);
}

/// Growable, zero-filled, byte-addressable scratch memory; its length is
/// always a multiple of 32 bytes and never shrinks within a run.
pub struct Memory {
    data: Vec<u8>,
}

impl Memory {
    /// The memory contents as a byte sequence.
    pub closed spec fn view(&self) -> Seq<u8> {
        self.data@
    }

    /// The length is a multiple of the 32-byte word size.
    pub open spec fn wf(&self) -> bool {
        self@.len() % 32 == 0
    }

    pub fn new() -> (r: Memory)
        ensures
            r@ =~= Seq::<u8>::empty(),
            r.wf(),
    {
        Memory { data: Vec::new() }
    }

    pub fn len(&self) -> (r: usize)
        ensures
            r == self@.len(),
    {
        self.data.len()
    }

    /// The raw contents, for inspection.
    pub fn data(&self) -> (r: &Vec<u8>)
        ensures
            r@ == self@,
    {
        &self.data
    }

    /// The marginal gas price of growing far enough to reach `end` bytes.
    pub fn growth_cost(&self, end: usize) -> (c: u128)
        requires
            self.wf(),
        ensures
            c == mem_cost(grown_len(self@.len(), end as nat) / 32) - mem_cost(self@.len() / 32),
            grown_len(self@.len(), end as nat) == self@.len() ==> c == 0,
            c < 0x1_0000_0000_0000_0000_0000_0000_0000,
    {
        let cur: u128 = self.data.len() as u128;
        let aligned: u128 = ((end as u128 + 31) / 32) * 32;
        proof {
            lemma_mem_cost_mono(self@.len() / 32, grown_len(self@.len(), end as nat) / 32);
            lemma_div_multiples_vanish((((end as nat) + 31) / 32) as int, 32);
            lemma_div_multiples_vanish((self@.len() / 32) as int, 32);
        }
        if aligned <= cur {
            0
        } else {
            let w2: u128 = aligned / 32;
            let w1: u128 = cur / 32;
            proof {
                assert(w2 * w2 < 0x1000_0000_0000_0000 * 0x1000_0000_0000_0000)
                    by (nonlinear_arith)
                    requires
                        w2 < 0x1000_0000_0000_0000,
                ;
                assert(w1 * w1 < 0x1000_0000_0000_0000 * 0x1000_0000_0000_0000)
                    by (nonlinear_arith)
                    requires
                        w1 < 0x1000_0000_0000_0000,
                ;
            }
            let c2: u128 = 3 * w2 + (w2 * w2) / 512;
            let c1: u128 = 3 * w1 + (w1 * w1) / 512;
            c2 - c1
        }
    }

    /// Grow to the minimal aligned length covering `end`, zero-filling; a
    /// no-op where memory already reaches that far.
    pub fn grow(&mut self, end: usize) -> (r: ())
        requires
            old(self).wf(),
            grown_len(old(self)@.len(), end as nat) <= usize::MAX,
        ensures
            final(self).wf(),
            final(self)@.len() == grown_len(old(self)@.len(), end as nat),
            forall|j: int| 0 <= j < old(self)@.len() ==> final(self)@[j] == old(self)@[j],
            forall|j: int|
                old(self)@.len() <= j < final(self)@.len() ==> final(self)@[j] == 0,
    {
        let aligned: u128 = ((end as u128 + 31) / 32) * 32;
        let cur = self.data.len();
        if aligned <= cur as u128 {
            return ;
        }
        let target: usize = aligned as usize;
        proof {
            lemma_div_multiples_vanish((((end as nat) + 31) / 32) as int, 32);
            lemma_mod_multiples_basic((((end as nat) + 31) / 32) as int, 32);
        }
        while self.data.len() < target
            invariant
                old(self)@.len() <= self.data@.len() <= target,
                forall|j: int| 0 <= j < old(self)@.len() ==> self.data@[j] == old(self)@[j],
                forall|j: int| old(self)@.len() <= j < self.data@.len() ==> self.data@[j] == 0,
            decreases target - self.data@.len(),
        {
            self.data.push(0);
        }
    }

    /// Copy `size` bytes out of memory; the span must already be in bounds.
    pub fn read(&self, offset: usize, size: usize) -> (r: Vec<u8>)
        requires
            offset + size <= self@.len(),
        ensures
            r@ == self@.subrange(offset as int, offset + size),
    {
        let mut out: Vec<u8> = Vec::new();
        let mut i: usize = 0;
        let total = self.data.len();
        while i < size
            invariant
                i <= size,
                offset + size <= total,
                total == self@.len(),
                out@.len() == i,
                forall|j: int| 0 <= j < i ==> out@[j] == self@[offset + j],
            decreases size - i,
        {
            out.push(self.data[offset + i]);
            i += 1;
        }
        proof {
            assert(out@ =~= self@.subrange(offset as int, offset + size));
        }
        out
    }

    /// Overwrite bytes in place; the span must already be in bounds.
    pub fn write(&mut self, offset: usize, bytes: &Vec<u8>) -> (r: ())
        requires
            offset + bytes@.len() <= old(self)@.len(),
        ensures
            final(self)@.len() == old(self)@.len(),
            forall|j: int|
                offset <= j < offset + bytes@.len() ==> final(self)@[j] == bytes@[j - offset],
            forall|j: int|
                0 <= j < old(self)@.len() && !(offset <= j < offset + bytes@.len())
                    ==> final(self)@[j] == old(self)@[j],
    {
        let mut i: usize = 0;
        let total = self.data.len();
        while i < bytes.len()
            invariant
                i <= bytes@.len(),
                offset + bytes@.len() <= total,
                total == self.data@.len(),
                self.data@.len() == old(self)@.len(),
                forall|j: int| offset <= j < offset + i ==> self.data@[j] == bytes@[j - offset],
                forall|j: int|
                    0 <= j < old(self)@.len() && !(offset <= j < offset + i) ==> self.data@[j]
                        == old(self)@[j],
            decreases bytes@.len() - i,
        {
            self.data.set(offset + i, bytes[i]);
            i += 1;
        }
    }

    /// Read-only view of a span, growing first as the access rule demands;
    /// fails only where the span cannot be addressed on this machine.
    pub fn access(&mut self, offset: usize, size: usize) -> (r: Result<
        Vec<u8>,
        MemoryError,
    >)
        requires
            old(self).wf(),
        ensures
            final(self).wf(),
            match r {
                Ok(v) => {
                    &&& offset + size <= usize::MAX
                    &&& grown_len(old(self)@.len(), (offset + size) as nat) <= usize::MAX
                    &&& final(self)@.len() == grown_len(old(self)@.len(), (offset + size) as nat)
                    &&& forall|j: int|
                        0 <= j < old(self)@.len() ==> final(self)@[j] == old(self)@[j]
                    &&& forall|j: int|
                        old(self)@.len() <= j < final(self)@.len() ==> final(self)@[j] == 0
                    &&& v@ == final(self)@.subrange(offset as int, offset + size)
                },
                Err(e) => {
                    &&& e == MemoryError::ErrOutOfBounds
                    &&& final(self)@ == old(self)@
                    &&& (offset + size > usize::MAX || grown_len(
                        old(self)@.len(),
                        (offset + size) as nat,
                    ) > usize::MAX)
                },
            },
    {
        let end = match offset.checked_add(size) {
            Some(e) => e,
            None => {
                return Err(MemoryError::ErrOutOfBounds);
            },
        };
        let aligned: u128 = ((end as u128 + 31) / 32) * 32;
        if aligned > usize::MAX as u128 {
            proof {
                lemma_div_multiples_vanish((((end as nat) + 31) / 32) as int, 32);
            }
            return Err(MemoryError::ErrOutOfBounds);
        }
        let curlen = self.data.len();
        proof {
            lemma_div_multiples_vanish((((end as nat) + 31) / 32) as int, 32);
            assert(grown_len(self@.len(), end as nat) <= usize::MAX);
        }
        self.grow(end);
        proof {
            lemma_mod_multiples_basic((((end as nat) + 31) / 32) as int, 32);
        }
        Ok(self.read(offset, size))
    }

    /// A one-word read at the offset, with the same growth rule.
    pub fn load(&mut self, offset: usize) -> (r: Result<Vec<u8>, MemoryError>)
        requires
            old(self).wf(),
        ensures
            final(self).wf(),
            match r {
                Ok(v) => {
                    &&& offset + 32 <= usize::MAX
                    &&& grown_len(old(self)@.len(), (offset + 32) as nat) <= usize::MAX
                    &&& final(self)@.len() == grown_len(old(self)@.len(), (offset + 32) as nat)
                    &&& forall|j: int|
                        0 <= j < old(self)@.len() ==> final(self)@[j] == old(self)@[j]
                    &&& forall|j: int|
                        old(self)@.len() <= j < final(self)@.len() ==> final(self)@[j] == 0
                    &&& v@ == final(self)@.subrange(offset as int, offset + 32)
                },
                Err(e) => {
                    &&& e == MemoryError::ErrOutOfBounds
                    &&& final(self)@ == old(self)@
                    &&& (offset + 32 > usize::MAX || grown_len(
                        old(self)@.len(),
                        (offset + 32) as nat,
                    ) > usize::MAX)
                },
            },
    {
        self.access(offset, 32)
    }

    /// Write bytes at the offset, growing first as the access rule demands,
    /// and report the marginal gas price of the growth.
    pub fn store(&mut self, offset: usize, value: &Vec<u8>) -> (r: Result<
        usize,
        MemoryError,
    >)
        requires
            old(self).wf(),
        ensures
            final(self).wf(),
            match r {
                Ok(c) => {
                    let g = grown_len(old(self)@.len(), (offset + value@.len()) as nat);
                    &&& offset + value@.len() <= usize::MAX
                    &&& g <= usize::MAX
                    &&& c == mem_cost(g / 32) - mem_cost(old(self)@.len() / 32)
                    &&& final(self)@.len() == g
                    &&& forall|j: int|
                        offset <= j < offset + value@.len() ==> final(self)@[j] == value@[j
                            - offset]
                    &&& forall|j: int|
                        0 <= j < old(self)@.len() && !(offset <= j < offset + value@.len())
                            ==> final(self)@[j] == old(self)@[j]
                    &&& forall|j: int|
                        old(self)@.len() <= j < g && !(offset <= j < offset + value@.len())
                            ==> final(self)@[j] == 0
                },
                Err(e) => {
                    let g = grown_len(old(self)@.len(), (offset + value@.len()) as nat);
                    &&& e == MemoryError::ErrOutOfBounds
                    &&& final(self)@ == old(self)@
                    &&& (offset + value@.len() > usize::MAX || g > usize::MAX || mem_cost(g / 32)
                        - mem_cost(old(self)@.len() / 32) > usize::MAX)
                },
            },
    {
        let end = match offset.checked_add(value.len()) {
            Some(e) => e,
            None => {
                return Err(MemoryError::ErrOutOfBounds);
            },
        };
        let aligned: u128 = ((end as u128 + 31) / 32) * 32;
        if aligned > usize::MAX as u128 {
            proof {
                lemma_div_multiples_vanish((((end as nat) + 31) / 32) as int, 32);
            }
            return Err(MemoryError::ErrOutOfBounds);
        }
        proof {
            lemma_div_multiples_vanish((((end as nat) + 31) / 32) as int, 32);
        }
        let cost = self.growth_cost(end);
        if cost > usize::MAX as u128 {
            return Err(MemoryError::ErrOutOfBounds);
        }
        let curlen = self.data.len();
        proof {
            assert(grown_len(self@.len(), end as nat) <= usize::MAX);
        }
        self.grow(end);
        self.write(offset, value);
        Ok(cost as usize)
    }
}

} // verus!
