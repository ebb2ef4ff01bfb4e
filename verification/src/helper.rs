use vstd::prelude::*;
use crate::memory::mem_cost;

verus! {

/// Shared gas-accounting arithmetic used by the instruction handlers.
pub struct Helper;

impl Helper {
    /// The number of 32-byte words needed to cover `size` bytes.
    pub fn to_word_size(size: usize) -> (r: usize)
        requires
            size + 31 <= usize::MAX,
        ensures
            r == (size + 31) / 32,
    {
        (size + 31) / 32
    }

    /// The absolute gas price of a memory of `size` bytes:
    /// `3w + w^2/512` over its word count.
    pub fn calc_mem_gas_cost(size: usize) -> (r: usize)
        requires
            size + 31 <= usize::MAX,
            mem_cost(((size + 31) / 32) as nat) <= usize::MAX,
        ensures
            r == mem_cost(((size + 31) / 32) as nat),
    {
        let w: u128 = ((size as u128) + 31) / 32;
        proof {
            assert(w * w < 0x1_0000_0000_0000_0000 * 0x1_0000_0000_0000_0000)
                by (nonlinear_arith)
                requires
                    w < 0x1_0000_0000_0000_0000,
            ;
        }
        let c: u128 = 3 * w + (w * w) / 512;
        c as usize
    }

    /// The dynamic gas price of a log: 375 per topic, 8 per payload byte,
    /// plus the memory expansion just paid for.
    pub fn calc_log_gas_cost(size: usize, topic_count: usize, mem_expansion_cost: usize) -> (r:
        usize)
        requires
            375 * topic_count + 8 * size + mem_expansion_cost <= usize::MAX,
        ensures
            r == 375 * topic_count + 8 * size + mem_expansion_cost,
    {
        let static_gas = 375 * topic_count;
        let mem_gas = 8 * size + mem_expansion_cost;
        static_gas + mem_gas
    }
}

} // verus!
