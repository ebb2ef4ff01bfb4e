use vstd::prelude::*;
use vstd::arithmetic::power2::pow2;
use crate::errors::VmError;
use crate::opcodes::Opcode;
use crate::evm::{EVM, ctx_eq, only_stack_gas_changed, only_stack_gas_pc_changed, only_stack_gas_mem_changed, only_stack_gas_storage_changed, only_stack_gas_transient_changed, only_stack_gas_mem_logs_changed, only_stack_gas_mem_halt_changed, mem_grown, padded_slice};
use crate::memory::mem_cost;
use crate::word::{Word, be_val, sdiv_spec, smod_spec, sext_spec, extend_sign};

verus! {

/// After a successful handler that pops `pops` words and pushes one:
/// exactly that happened, the static cost was charged, and nothing else
/// moved.
pub open spec fn frame_pops_push(pre: EVM, post: EVM, pops: nat, cost: nat) -> bool {
    &&& pre.stack@.len() >= pops
    &&& pre.gas >= cost
    &&& post.gas == pre.gas - cost
    &&& post.stack@.len() == pre.stack@.len() - pops + 1
    &&& post.stack@ == pre.stack@.subrange(0, pre.stack@.len() - pops).push(post.stack@.last())
    &&& only_stack_gas_changed(pre, post)
}

/// A handler that failed did nothing, and failed for the stated reason:
/// too few operands, or too little gas once the operands were there.
pub open spec fn frame_err(pre: EVM, post: EVM, pops: nat, cost: nat, e: VmError) -> bool {
    &&& post == pre
    &&& (e == VmError::StackUnderflow && pre.stack@.len() < pops || e == VmError::OutOfGas
        && pre.stack@.len() >= pops && pre.gas < cost)
}

/// A pure push that failed did nothing: the stack was full, or gas ran out.
pub open spec fn frame_push_err(pre: EVM, post: EVM, cost: nat, e: VmError) -> bool {
    &&& post == pre
    &&& (e == VmError::StackOverflow && pre.stack@.len() == 1024 || e == VmError::OutOfGas
        && pre.stack@.len() < 1024 && pre.gas < cost)
}

/// Check depth, charge, and pop one operand.
fn take1(evm: &mut EVM, cost: usize) -> (r: Result<Word, VmError>)
    requires
        old(evm).wf(),
    ensures
        final(evm).wf(),
        match r {
            Ok(a) => {
                &&& old(evm).stack@.len() >= 1
                &&& old(evm).gas >= cost
                &&& a == old(evm).stack@.last()
                &&& final(evm).stack@ == old(evm).stack@.subrange(
                    0,
                    old(evm).stack@.len() - 1,
                )
                &&& final(evm).gas == old(evm).gas - cost
                &&& only_stack_gas_changed(*old(evm), *final(evm))
            },
            Err(e) => frame_err(*old(evm), *final(evm), 1, cost as nat, e),
        },
{
    if evm.stack.len() < 1 {
        return Err(VmError::StackUnderflow);
    }
    evm.gas_decrease(cost)?;
    let a = evm.stack.pop()?;
    proof {
        assert(final(evm).stack@ =~= old(evm).stack@.subrange(0, old(evm).stack@.len() - 1));
    }
    Ok(a)
}

/// Check depth, charge, and pop two operands: first the top, then the word
/// beneath it.
fn take2(evm: &mut EVM, cost: usize) -> (r: Result<(Word, Word), VmError>)
    requires
        old(evm).wf(),
    ensures
        final(evm).wf(),
        match r {
            Ok(p) => {
                &&& old(evm).stack@.len() >= 2
                &&& old(evm).gas >= cost
                &&& p.0 == old(evm).stack@[old(evm).stack@.len() - 1]
                &&& p.1 == old(evm).stack@[old(evm).stack@.len() - 2]
                &&& final(evm).stack@ == old(evm).stack@.subrange(
                    0,
                    old(evm).stack@.len() - 2,
                )
                &&& final(evm).gas == old(evm).gas - cost
                &&& only_stack_gas_changed(*old(evm), *final(evm))
            },
            Err(e) => frame_err(*old(evm), *final(evm), 2, cost as nat, e),
        },
{
    if evm.stack.len() < 2 {
        return Err(VmError::StackUnderflow);
    }
    evm.gas_decrease(cost)?;
    let a = evm.stack.pop()?;
    let b = evm.stack.pop()?;
    proof {
        assert(final(evm).stack@ =~= old(evm).stack@.subrange(0, old(evm).stack@.len() - 2));
    }
    Ok((a, b))
}

/// Check depth, charge, and pop three operands in stack order.
fn take3(evm: &mut EVM, cost: usize) -> (r: Result<(Word, Word, Word), VmError>)
    requires
        old(evm).wf(),
    ensures
        final(evm).wf(),
        match r {
            Ok(p) => {
                &&& old(evm).stack@.len() >= 3
                &&& old(evm).gas >= cost
                &&& p.0 == old(evm).stack@[old(evm).stack@.len() - 1]
                &&& p.1 == old(evm).stack@[old(evm).stack@.len() - 2]
                &&& p.2 == old(evm).stack@[old(evm).stack@.len() - 3]
                &&& final(evm).stack@ == old(evm).stack@.subrange(
                    0,
                    old(evm).stack@.len() - 3,
                )
                &&& final(evm).gas == old(evm).gas - cost
                &&& only_stack_gas_changed(*old(evm), *final(evm))
            },
            Err(e) => frame_err(*old(evm), *final(evm), 3, cost as nat, e),
        },
{
    if evm.stack.len() < 3 {
        return Err(VmError::StackUnderflow);
    }
    evm.gas_decrease(cost)?;
    let a = evm.stack.pop()?;
    let b = evm.stack.pop()?;
    let c = evm.stack.pop()?;
    proof {
        assert(final(evm).stack@ =~= old(evm).stack@.subrange(0, old(evm).stack@.len() - 3));
    }
    Ok((a, b, c))
}

/// Check that one more word fits and charge; used by handlers that only
/// push.
fn make_room(evm: &mut EVM, cost: usize) -> (r: Result<(), VmError>)
    requires
        old(evm).wf(),
    ensures
        final(evm).wf(),
        match r {
            Ok(()) => {
                &&& old(evm).stack@.len() < 1024
                &&& old(evm).gas >= cost
                &&& final(evm).stack@ == old(evm).stack@
                &&& final(evm).gas == old(evm).gas - cost
                &&& only_stack_gas_changed(*old(evm), *final(evm))
            },
            Err(e) => frame_push_err(*old(evm), *final(evm), cost as nat, e),
        },
{
    if evm.stack.len() >= 1024 {
        return Err(VmError::StackOverflow);
    }
    evm.gas_decrease(cost)?;
    Ok(())
}

// ----------- arithmetic -----------

pub fn add(evm: &mut EVM) -> (r: Result<(), VmError>)
    requires
        old(evm).wf(),
    ensures
        final(evm).wf(),
        match r {
            Ok(()) => frame_pops_push(*old(evm), *final(evm), 2, 3) && final(evm).stack@.last().as_nat() == (old(evm).stack@.last().as_nat() + old(evm).stack@[old(
                evm,
            ).stack@.len() - 2].as_nat()) % pow2(256),
            Err(e) => frame_err(*old(evm), *final(evm), 2, 3, e),
        },
{
    let (a, b) = take2(evm, 3)?;
    let c = a.wrapping_add(&b);
    evm.stack.push(c)?;
    Ok(())
}

pub fn mul(evm: &mut EVM) -> (r: Result<(), VmError>)
    requires
        old(evm).wf(),
    ensures
        final(evm).wf(),
        match r {
            Ok(()) => frame_pops_push(*old(evm), *final(evm), 2, 5) && final(evm).stack@.last().as_nat() == (old(evm).stack@.last().as_nat() * old(evm).stack@[old(
                evm,
            ).stack@.len() - 2].as_nat()) % pow2(256),
            Err(e) => frame_err(*old(evm), *final(evm), 2, 5, e),
        },
{
    let (a, b) = take2(evm, 5)?;
    let c = a.wrapping_mul(&b);
    evm.stack.push(c)?;
    Ok(())
}

/// Subtraction takes the word beneath the top as minuend: the result is
/// `second - top`, modulo 2^256.
pub fn sub(evm: &mut EVM) -> (r: Result<(), VmError>)
    requires
        old(evm).wf(),
    ensures
        final(evm).wf(),
        match r {
            Ok(()) => frame_pops_push(*old(evm), *final(evm), 2, 3) && final(evm).stack@.last().as_nat() == (old(evm).stack@[old(evm).stack@.len() - 2].as_nat()
                + pow2(256) - old(evm).stack@.last().as_nat()) % (pow2(256) as int),
            Err(e) => frame_err(*old(evm), *final(evm), 2, 3, e),
        },
{
    let (a, b) = take2(evm, 3)?;
    let c = b.wrapping_sub(&a);
    evm.stack.push(c)?;
    Ok(())
}

/// Unsigned division of the second word by the top one; a zero divisor
/// pushes zero rather than faulting.
pub fn div(evm: &mut EVM) -> (r: Result<(), VmError>)
    requires
        old(evm).wf(),
    ensures
        final(evm).wf(),
        match r {
            Ok(()) => frame_pops_push(*old(evm), *final(evm), 2, 5) && final(evm).stack@.last().as_nat() == (if old(evm).stack@.last().as_nat() == 0 {
                0nat
            } else {
                old(evm).stack@[old(evm).stack@.len() - 2].as_nat() / old(
                    evm,
                ).stack@.last().as_nat()
            }),
            Err(e) => frame_err(*old(evm), *final(evm), 2, 5, e),
        },
{
    let (a, b) = take2(evm, 5)?;
    let c = if a.is_zero() {
        Word::zero()
    } else {
        let (q, _rem) = b.div_rem(&a);
        q
    };
    evm.stack.push(c)?;
    Ok(())
}

/// Signed division under two's complement, truncating toward zero; a zero
/// divisor pushes zero.
pub fn sdiv(evm: &mut EVM) -> (r: Result<(), VmError>)
    requires
        old(evm).wf(),
    ensures
        final(evm).wf(),
        match r {
            Ok(()) => frame_pops_push(*old(evm), *final(evm), 2, 5) && final(evm).stack@.last().as_nat() == sdiv_spec(
                old(evm).stack@[old(evm).stack@.len() - 2],
                old(evm).stack@.last(),
            ),
            Err(e) => frame_err(*old(evm), *final(evm), 2, 5, e),
        },
{
    let (a, b) = take2(evm, 5)?;
    let c = b.sdiv_w(&a);
    evm.stack.push(c)?;
    Ok(())
}

/// Unsigned remainder of the second word by the top one; a zero divisor
/// pushes zero rather than faulting.
pub fn _mod(evm: &mut EVM) -> (r: Result<(), VmError>)
    requires
        old(evm).wf(),
    ensures
        final(evm).wf(),
        match r {
            Ok(()) => frame_pops_push(*old(evm), *final(evm), 2, 5) && final(evm).stack@.last().as_nat() == (if old(evm).stack@.last().as_nat() == 0 {
                0nat
            } else {
                old(evm).stack@[old(evm).stack@.len() - 2].as_nat() % old(
                    evm,
                ).stack@.last().as_nat()
            }),
            Err(e) => frame_err(*old(evm), *final(evm), 2, 5, e),
        },
{
    let (a, b) = take2(evm, 5)?;
    let c = if a.is_zero() {
        Word::zero()
    } else {
        let (_q, rem) = b.div_rem(&a);
        rem
    };
    evm.stack.push(c)?;
    Ok(())
}

/// Signed remainder carrying the dividend's sign; a zero divisor pushes
/// zero.
pub fn smod(evm: &mut EVM) -> (r: Result<(), VmError>)
    requires
        old(evm).wf(),
    ensures
        final(evm).wf(),
        match r {
            Ok(()) => frame_pops_push(*old(evm), *final(evm), 2, 5) && final(evm).stack@.last().as_nat() == smod_spec(
                old(evm).stack@[old(evm).stack@.len() - 2],
                old(evm).stack@.last(),
            ),
            Err(e) => frame_err(*old(evm), *final(evm), 2, 5, e),
        },
{
    let (a, b) = take2(evm, 5)?;
    let c = b.smod_w(&a);
    evm.stack.push(c)?;
    Ok(())
}

/// Addition of the two top words reduced modulo the third, at full
/// precision; a zero modulus pushes zero.
pub fn addmod(evm: &mut EVM) -> (r: Result<(), VmError>)
    requires
        old(evm).wf(),
    ensures
        final(evm).wf(),
        match r {
            Ok(()) => frame_pops_push(*old(evm), *final(evm), 3, 8) && {
                let s = old(evm).stack@;
                let n = s[s.len() - 3].as_nat();
                final(evm).stack@.last().as_nat() == (if n == 0 {
                    0nat
                } else {
                    (s[s.len() - 1].as_nat() + s[s.len() - 2].as_nat()) % n
                })
            },
            Err(e) => frame_err(*old(evm), *final(evm), 3, 8, e),
        },
{
    let (x, y, n) = take3(evm, 8)?;
    let c = x.add_mod(&y, &n);
    evm.stack.push(c)?;
    Ok(())
}

/// Multiplication of the two top words reduced modulo the third, at full
/// precision; a zero modulus pushes zero.
pub fn mulmod(evm: &mut EVM) -> (r: Result<(), VmError>)
    requires
        old(evm).wf(),
    ensures
        final(evm).wf(),
        match r {
            Ok(()) => frame_pops_push(*old(evm), *final(evm), 3, 8) && {
                let s = old(evm).stack@;
                let n = s[s.len() - 3].as_nat();
                final(evm).stack@.last().as_nat() == (if n == 0 {
                    0nat
                } else {
                    (s[s.len() - 1].as_nat() * s[s.len() - 2].as_nat()) % n
                })
            },
            Err(e) => frame_err(*old(evm), *final(evm), 3, 8, e),
        },
{
    let (x, y, n) = take3(evm, 8)?;
    let c = x.mul_mod(&y, &n);
    evm.stack.push(c)?;
    Ok(())
}

/// The second word raised to the top word, modulo 2^256.
pub fn exp(evm: &mut EVM) -> (r: Result<(), VmError>)
    requires
        old(evm).wf(),
    ensures
        final(evm).wf(),
        match r {
            Ok(()) => frame_pops_push(*old(evm), *final(evm), 2, 10) && final(evm).stack@.last().as_nat() == vstd::arithmetic::power::pow(
                old(evm).stack@[old(evm).stack@.len() - 2].as_nat() as int,
                old(evm).stack@.last().as_nat(),
            ) % (pow2(256) as int),
            Err(e) => frame_err(*old(evm), *final(evm), 2, 10, e),
        },
{
    let (a, b) = take2(evm, 10)?;
    let c = b.wrapping_exp(&a);
    evm.stack.push(c)?;
    Ok(())
}

/// Sign extension from the byte the top word selects, applied to the
/// second word.
pub fn signextend(evm: &mut EVM) -> (r: Result<(), VmError>)
    requires
        old(evm).wf(),
    ensures
        final(evm).wf(),
        match r {
            Ok(()) => frame_pops_push(*old(evm), *final(evm), 2, 5) && final(evm).stack@.last().as_nat() == sext_spec(
                old(evm).stack@[old(evm).stack@.len() - 2],
                old(evm).stack@.last(),
            ),
            Err(e) => frame_err(*old(evm), *final(evm), 2, 5, e),
        },
{
    let (b, num) = take2(evm, 5)?;
    let c = extend_sign(num, b);
    evm.stack.push(c)?;
    Ok(())
}

// ----------- comparison -----------

pub fn lt(evm: &mut EVM) -> (r: Result<(), VmError>)
    requires
        old(evm).wf(),
    ensures
        final(evm).wf(),
        match r {
            Ok(()) => frame_pops_push(*old(evm), *final(evm), 2, 3) && final(evm).stack@.last().as_nat() == (if old(evm).stack@[old(evm).stack@.len() - 2].as_nat()
                < old(evm).stack@.last().as_nat() {
                1nat
            } else {
                0nat
            }),
            Err(e) => frame_err(*old(evm), *final(evm), 2, 3, e),
        },
{
    let (a, b) = take2(evm, 3)?;
    let c = if b.lt_u(&a) {
        Word::one()
    } else {
        Word::zero()
    };
    evm.stack.push(c)?;
    Ok(())
}

pub fn gt(evm: &mut EVM) -> (r: Result<(), VmError>)
    requires
        old(evm).wf(),
    ensures
        final(evm).wf(),
        match r {
            Ok(()) => frame_pops_push(*old(evm), *final(evm), 2, 3) && final(evm).stack@.last().as_nat() == (if old(evm).stack@[old(evm).stack@.len() - 2].as_nat()
                > old(evm).stack@.last().as_nat() {
                1nat
            } else {
                0nat
            }),
            Err(e) => frame_err(*old(evm), *final(evm), 2, 3, e),
        },
{
    let (a, b) = take2(evm, 3)?;
    let c = if a.lt_u(&b) {
        Word::one()
    } else {
        Word::zero()
    };
    evm.stack.push(c)?;
    Ok(())
}

pub fn slt(evm: &mut EVM) -> (r: Result<(), VmError>)
    requires
        old(evm).wf(),
    ensures
        final(evm).wf(),
        match r {
            Ok(()) => frame_pops_push(*old(evm), *final(evm), 2, 3) && final(evm).stack@.last().as_nat() == (if old(evm).stack@[old(evm).stack@.len()
                - 2].sign_val() < old(evm).stack@.last().sign_val() {
                1nat
            } else {
                0nat
            }),
            Err(e) => frame_err(*old(evm), *final(evm), 2, 3, e),
        },
{
    let (a, b) = take2(evm, 3)?;
    let c = if b.lt_s(&a) {
        Word::one()
    } else {
        Word::zero()
    };
    evm.stack.push(c)?;
    Ok(())
}

pub fn sgt(evm: &mut EVM) -> (r: Result<(), VmError>)
    requires
        old(evm).wf(),
    ensures
        final(evm).wf(),
        match r {
            Ok(()) => frame_pops_push(*old(evm), *final(evm), 2, 3) && final(evm).stack@.last().as_nat() == (if old(evm).stack@[old(evm).stack@.len()
                - 2].sign_val() > old(evm).stack@.last().sign_val() {
                1nat
            } else {
                0nat
            }),
            Err(e) => frame_err(*old(evm), *final(evm), 2, 3, e),
        },
{
    let (a, b) = take2(evm, 3)?;
    let c = if a.lt_s(&b) {
        Word::one()
    } else {
        Word::zero()
    };
    evm.stack.push(c)?;
    Ok(())
}

pub fn eq(evm: &mut EVM) -> (r: Result<(), VmError>)
    requires
        old(evm).wf(),
    ensures
        final(evm).wf(),
        match r {
            Ok(()) => frame_pops_push(*old(evm), *final(evm), 2, 3) && final(evm).stack@.last().as_nat() == (if old(evm).stack@[old(evm).stack@.len() - 2].as_nat()
                == old(evm).stack@.last().as_nat() {
                1nat
            } else {
                0nat
            }),
            Err(e) => frame_err(*old(evm), *final(evm), 2, 3, e),
        },
{
    let (a, b) = take2(evm, 3)?;
    proof {
        crate::word::lemma_value_injective(a, b);
    }
    let c = if a == b {
        Word::one()
    } else {
        Word::zero()
    };
    evm.stack.push(c)?;
    Ok(())
}

pub fn iszero(evm: &mut EVM) -> (r: Result<(), VmError>)
    requires
        old(evm).wf(),
    ensures
        final(evm).wf(),
        match r {
            Ok(()) => frame_pops_push(*old(evm), *final(evm), 1, 3) && final(evm).stack@.last().as_nat() == (if old(evm).stack@.last().as_nat() == 0 {
                1nat
            } else {
                0nat
            }),
            Err(e) => frame_err(*old(evm), *final(evm), 1, 3, e),
        },
{
    let a = take1(evm, 3)?;
    let c = if a.is_zero() {
        Word::one()
    } else {
        Word::zero()
    };
    evm.stack.push(c)?;
    Ok(())
}

// ----------- bitwise -----------

pub fn and(evm: &mut EVM) -> (r: Result<(), VmError>)
    requires
        old(evm).wf(),
    ensures
        final(evm).wf(),
        match r {
            Ok(()) => frame_pops_push(*old(evm), *final(evm), 2, 3) && {
                let a = old(evm).stack@.last();
                let b = old(evm).stack@[old(evm).stack@.len() - 2];
                let c = final(evm).stack@.last();
                c.w0 == (b.w0 & a.w0) && c.w1 == (b.w1 & a.w1) && c.w2 == (b.w2 & a.w2) && c.w3
                    == (b.w3 & a.w3)
            },
            Err(e) => frame_err(*old(evm), *final(evm), 2, 3, e),
        },
{
    let (a, b) = take2(evm, 3)?;
    let c = b.bit_and(&a);
    evm.stack.push(c)?;
    Ok(())
}

pub fn or(evm: &mut EVM) -> (r: Result<(), VmError>)
    requires
        old(evm).wf(),
    ensures
        final(evm).wf(),
        match r {
            Ok(()) => frame_pops_push(*old(evm), *final(evm), 2, 3) && {
                let a = old(evm).stack@.last();
                let b = old(evm).stack@[old(evm).stack@.len() - 2];
                let c = final(evm).stack@.last();
                c.w0 == (b.w0 | a.w0) && c.w1 == (b.w1 | a.w1) && c.w2 == (b.w2 | a.w2) && c.w3
                    == (b.w3 | a.w3)
            },
            Err(e) => frame_err(*old(evm), *final(evm), 2, 3, e),
        },
{
    let (a, b) = take2(evm, 3)?;
    let c = b.bit_or(&a);
    evm.stack.push(c)?;
    Ok(())
}

pub fn xor(evm: &mut EVM) -> (r: Result<(), VmError>)
    requires
        old(evm).wf(),
    ensures
        final(evm).wf(),
        match r {
            Ok(()) => frame_pops_push(*old(evm), *final(evm), 2, 3) && {
                let a = old(evm).stack@.last();
                let b = old(evm).stack@[old(evm).stack@.len() - 2];
                let c = final(evm).stack@.last();
                c.w0 == (b.w0 ^ a.w0) && c.w1 == (b.w1 ^ a.w1) && c.w2 == (b.w2 ^ a.w2) && c.w3
                    == (b.w3 ^ a.w3)
            },
            Err(e) => frame_err(*old(evm), *final(evm), 2, 3, e),
        },
{
    let (a, b) = take2(evm, 3)?;
    let c = b.bit_xor(&a);
    evm.stack.push(c)?;
    Ok(())
}

pub fn not(evm: &mut EVM) -> (r: Result<(), VmError>)
    requires
        old(evm).wf(),
    ensures
        final(evm).wf(),
        match r {
            Ok(()) => frame_pops_push(*old(evm), *final(evm), 1, 3) && final(evm).stack@.last().as_nat() == pow2(256) - 1 - old(evm).stack@.last().as_nat(),
            Err(e) => frame_err(*old(evm), *final(evm), 1, 3, e),
        },
{
    let a = take1(evm, 3)?;
    let c = a.bit_not();
    evm.stack.push(c)?;
    Ok(())
}

/// The byte of the second word that the top word indexes, counting from
/// the most significant; indexes past the word give zero.
pub fn byte(evm: &mut EVM) -> (r: Result<(), VmError>)
    requires
        old(evm).wf(),
    ensures
        final(evm).wf(),
        match r {
            Ok(()) => frame_pops_push(*old(evm), *final(evm), 2, 3) && {
                let i = old(evm).stack@.last().as_nat();
                let x = old(evm).stack@[old(evm).stack@.len() - 2].as_nat();
                final(evm).stack@.last().as_nat() == (if i >= 32 {
                    0nat
                } else {
                    (x / pow2((8 * (31 - i)) as nat)) % 256
                })
            },
            Err(e) => frame_err(*old(evm), *final(evm), 2, 3, e),
        },
{
    let (a, b) = take2(evm, 3)?;
    let c = match a.to_usize() {
        Some(i) if i < 32 => b.byte_msb(i),
        _ => Word::zero(),
    };
    evm.stack.push(c)?;
    Ok(())
}

/// Shift the second word left by the top word's bit count, modulo 2^256;
/// counts of 256 or more give zero.
pub fn shl(evm: &mut EVM) -> (r: Result<(), VmError>)
    requires
        old(evm).wf(),
    ensures
        final(evm).wf(),
        match r {
            Ok(()) => frame_pops_push(*old(evm), *final(evm), 2, 3) && {
                let sh = old(evm).stack@.last().as_nat();
                let x = old(evm).stack@[old(evm).stack@.len() - 2].as_nat();
                final(evm).stack@.last().as_nat() == (if sh >= 256 {
                    0nat
                } else {
                    (x * pow2(sh)) % pow2(256)
                })
            },
            Err(e) => frame_err(*old(evm), *final(evm), 2, 3, e),
        },
{
    let (a, b) = take2(evm, 3)?;
    let c = match a.to_usize() {
        Some(k) if k < 256 => b.shl_k(k),
        _ => Word::zero(),
    };
    evm.stack.push(c)?;
    Ok(())
}

/// Shift the second word right by the top word's bit count; counts of 256
/// or more give zero.
pub fn shr(evm: &mut EVM) -> (r: Result<(), VmError>)
    requires
        old(evm).wf(),
    ensures
        final(evm).wf(),
        match r {
            Ok(()) => frame_pops_push(*old(evm), *final(evm), 2, 3) && {
                let sh = old(evm).stack@.last().as_nat();
                let x = old(evm).stack@[old(evm).stack@.len() - 2].as_nat();
                final(evm).stack@.last().as_nat() == (if sh >= 256 {
                    0nat
                } else {
                    x / pow2(sh)
                })
            },
            Err(e) => frame_err(*old(evm), *final(evm), 2, 3, e),
        },
{
    let (a, b) = take2(evm, 3)?;
    let c = match a.to_usize() {
        Some(k) if k < 256 => b.shr_k(k),
        _ => Word::zero(),
    };
    evm.stack.push(c)?;
    Ok(())
}

/// Arithmetic right shift of the second word: the sign bit is replicated;
/// counts of 256 or more give zero or all ones by that sign.
pub fn sar(evm: &mut EVM) -> (r: Result<(), VmError>)
    requires
        old(evm).wf(),
    ensures
        final(evm).wf(),
        match r {
            Ok(()) => frame_pops_push(*old(evm), *final(evm), 2, 3) && {
                let sh = old(evm).stack@.last().as_nat();
                let x = old(evm).stack@[old(evm).stack@.len() - 2].as_nat();
                final(evm).stack@.last().as_nat() == (if x < pow2(255) {
                    if sh >= 256 {
                        0nat
                    } else {
                        x / pow2(sh)
                    }
                } else {
                    if sh >= 256 {
                        (pow2(256) - 1) as nat
                    } else {
                        (pow2(256) - 1 - ((pow2(256) - 1 - x) / (pow2(sh) as int))) as nat
                    }
                })
            },
            Err(e) => frame_err(*old(evm), *final(evm), 2, 3, e),
        },
{
    let (a, b) = take2(evm, 3)?;
    let c = match a.to_usize() {
        Some(k) if k < 256 => b.sar_k(k),
        _ => {
            if b.is_neg() {
                Word::zero().bit_not()
            } else {
                Word::zero()
            }
        },
    };
    evm.stack.push(c)?;
    Ok(())
}

// ----------- stack shaping -----------

pub fn pop(evm: &mut EVM) -> (r: Result<(), VmError>)
    requires
        old(evm).wf(),
    ensures
        final(evm).wf(),
        match r {
            Ok(()) => {
                &&& old(evm).stack@.len() >= 1
                &&& old(evm).gas >= 2
                &&& final(evm).gas == old(evm).gas - 2
                &&& final(evm).stack@ == old(evm).stack@.subrange(
                    0,
                    old(evm).stack@.len() - 1,
                )
                &&& only_stack_gas_changed(*old(evm), *final(evm))
            },
            Err(e) => frame_err(*old(evm), *final(evm), 1, 2, e),
        },
{
    let _a = take1(evm, 2)?;
    Ok(())
}

/// Exchange the top of the stack with the word `n` positions below it.
pub fn swap_n(evm: &mut EVM, n: usize) -> (r: Result<(), VmError>)
    requires
        old(evm).wf(),
        1 <= n <= 16,
    ensures
        final(evm).wf(),
        match r {
            Ok(()) => {
                let s = old(evm).stack@;
                &&& s.len() > n
                &&& old(evm).gas >= 3
                &&& final(evm).gas == old(evm).gas - 3
                &&& final(evm).stack@.len() == s.len()
                &&& final(evm).stack@[s.len() - 1] == s[s.len() - 1 - n]
                &&& final(evm).stack@[s.len() - 1 - n] == s[s.len() - 1]
                &&& forall|j: int|
                    0 <= j < s.len() && j != s.len() - 1 && j != s.len() - 1 - n ==> final(evm).stack@[j] == s[j]
                &&& only_stack_gas_changed(*old(evm), *final(evm))
            },
            Err(e) => frame_err(*old(evm), *final(evm), (n + 1) as nat, 3, e),
        },
{
    if evm.stack.len() <= n {
        return Err(VmError::StackUnderflow);
    }
    evm.gas_decrease(3)?;
    evm.stack.swap(n)?;
    Ok(())
}

/// Push a copy of the word `n` positions below the top.
pub fn dun_n(evm: &mut EVM, n: usize) -> (r: Result<(), VmError>)
    requires
        old(evm).wf(),
        1 <= n <= 16,
    ensures
        final(evm).wf(),
        match r {
            Ok(()) => {
                let s = old(evm).stack@;
                &&& s.len() >= n
                &&& s.len() < 1024
                &&& old(evm).gas >= 3
                &&& final(evm).gas == old(evm).gas - 3
                &&& final(evm).stack@ == s.push(s[s.len() - n])
                &&& only_stack_gas_changed(*old(evm), *final(evm))
            },
            Err(e) => {
                &&& *final(evm) == *old(evm)
                &&& (e == VmError::StackUnderflow && old(evm).stack@.len() < n
                    || e == VmError::StackOverflow && old(evm).stack@.len() >= n && old(
                    evm,
                ).stack@.len() == 1024 || e == VmError::OutOfGas && n <= old(evm).stack@.len()
                    < 1024 && old(evm).gas < 3)
            },
        },
{
    if evm.stack.len() < n {
        return Err(VmError::StackUnderflow);
    }
    if evm.stack.len() >= 1024 {
        return Err(VmError::StackOverflow);
    }
    evm.gas_decrease(3)?;
    evm.stack.dup(n)?;
    Ok(())
}


// ----------- gas for dynamic costs -----------

/// Charge a wide gas amount; fails with the out-of-gas fault before any
/// mutation.
fn charge_wide(evm: &mut EVM, amount: u128) -> (r: Result<(), VmError>)
    requires
        old(evm).wf(),
    ensures
        final(evm).wf(),
        match r {
            Ok(()) => {
                &&& amount <= old(evm).gas
                &&& final(evm).gas == old(evm).gas - amount
                &&& final(evm).stack == old(evm).stack
                &&& only_stack_gas_changed(*old(evm), *final(evm))
            },
            Err(e) => e == VmError::OutOfGas && amount > old(evm).gas && *final(evm) == *old(
                evm,
            ),
        },
{
    if amount > evm.gas as u128 {
        return Err(VmError::OutOfGas);
    }
    evm.gas = evm.gas - (amount as usize);
    Ok(())
}

/// Charge a static cost plus the memory-expansion cost of reaching `end`
/// bytes, then perform the growth; fails out-of-gas with nothing mutated,
/// and faults where the grown length cannot exist on this machine at all.
fn charge_and_grow(evm: &mut EVM, end: usize, static_cost: u128) -> (r: Result<(), VmError>)
    requires
        old(evm).wf(),
        static_cost <= 0x1_0000_0000_0000_0000_0000_0000_0000,
    ensures
        final(evm).wf(),
        match r {
            Ok(()) => {
                let delta = mem_cost(
                    crate::memory::grown_len(old(evm).memory@.len(), end as nat) / 32,
                ) - mem_cost(old(evm).memory@.len() / 32);
                &&& crate::memory::grown_len(old(evm).memory@.len(), end as nat) <= usize::MAX
                &&& delta >= 0
                &&& static_cost + delta <= old(evm).gas
                &&& final(evm).gas == old(evm).gas - static_cost - delta
                &&& mem_grown(old(evm).memory@, final(evm).memory@, end as nat)
                &&& final(evm).stack == old(evm).stack
                &&& only_stack_gas_mem_changed(*old(evm), *final(evm))
            },
            Err(e) => *final(evm) == *old(evm) && (e == VmError::MemoryAccessFault
                && crate::memory::grown_len(old(evm).memory@.len(), end as nat) > usize::MAX
                || e == VmError::OutOfGas && crate::memory::grown_len(
                old(evm).memory@.len(),
                end as nat,
            ) <= usize::MAX && static_cost + mem_cost(
                crate::memory::grown_len(old(evm).memory@.len(), end as nat) / 32,
            ) - mem_cost(old(evm).memory@.len() / 32) > old(evm).gas),
        },
{
    let aligned: u128 = ((end as u128 + 31) / 32) * 32;
    let cur = evm.memory.len();
    let grown: u128 = if aligned > cur as u128 {
        aligned
    } else {
        cur as u128
    };
    if grown > usize::MAX as u128 {
        return Err(VmError::MemoryAccessFault);
    }
    let delta = evm.memory.growth_cost(end);
    let total: u128 = static_cost + delta;
    charge_wide(evm, total)?;
    evm.memory.grow(end);
    Ok(())
}

// ----------- memory -----------

/// Store the second word at the byte offset the top word names, as 32
/// big-endian bytes, growing and pricing memory by the access rule.
pub fn mstore(evm: &mut EVM) -> (r: Result<(), VmError>)
    requires
        old(evm).wf(),
    ensures
        final(evm).wf(),
        match r {
            Ok(()) => {
                let s = old(evm).stack@;
                let addr = s.last().as_nat();
                let val = s[s.len() - 2].as_nat();
                let delta = mem_cost(
                    crate::memory::grown_len(old(evm).memory@.len(), (addr + 32) as nat) / 32,
                ) - mem_cost(old(evm).memory@.len() / 32);
                &&& s.len() >= 2
                &&& addr + 32 <= usize::MAX
                &&& delta >= 0
                &&& old(evm).gas >= 3 + delta
                &&& final(evm).gas < old(evm).gas
                &&& final(evm).gas == old(evm).gas - 3 - delta
                &&& final(evm).stack@ == s.subrange(0, s.len() - 2)
                &&& final(evm).memory@.len() == crate::memory::grown_len(
                    old(evm).memory@.len(),
                    (addr + 32) as nat,
                )
                &&& be_val(final(evm).memory@.subrange(addr as int, (addr + 32) as int)) == val
                &&& forall|j: int|
                    0 <= j < old(evm).memory@.len() && !(addr <= j < addr + 32) ==> final(evm).memory@[j] == old(evm).memory@[j]
                &&& forall|j: int|
                    old(evm).memory@.len() <= j < final(evm).memory@.len() && !(addr <= j < addr
                        + 32) ==> final(evm).memory@[j] == 0
                &&& only_stack_gas_mem_changed(*old(evm), *final(evm))
            },
            Err(e) => *final(evm) == *old(evm) && mem_op_err(*old(evm), 2, 3, 32, e),
        },
{
    if evm.stack.len() < 2 {
        return Err(VmError::StackUnderflow);
    }
    let a = evm.stack.peek()?;
    let v = evm.stack.peek_n(1)?;
    let addr = match a.to_usize() {
        Some(x) => x,
        None => {
            return Err(VmError::MemoryAccessFault);
        },
    };
    let end = match addr.checked_add(32) {
        Some(e) => e,
        None => {
            return Err(VmError::MemoryAccessFault);
        },
    };
    charge_and_grow(evm, end, 3)?;
    let _ = evm.stack.pop()?;
    let _ = evm.stack.pop()?;
    let bytes = v.to_be_bytes();
    evm.memory.write(addr, &bytes);
    proof {
        assert(final(evm).stack@ =~= old(evm).stack@.subrange(0, old(evm).stack@.len() - 2));
        assert(final(evm).memory@.subrange(addr as int, addr + 32) =~= bytes@);
    }
    Ok(())
}

/// The error cases shared by the memory-touching handlers: too few
/// operands; an address that cannot exist on this machine; or, with the
/// operands in place, too little gas for the static and expansion cost.
pub open spec fn mem_op_err(pre: EVM, pops: nat, static_cost: nat, width: nat, e: VmError) -> bool {
    ||| e == VmError::StackUnderflow && pre.stack@.len() < pops
    ||| e == VmError::MemoryAccessFault && pre.stack@.len() >= pops && (pre.stack@.last().as_nat()
        + width > usize::MAX || crate::memory::grown_len(
        pre.memory@.len(),
        (pre.stack@.last().as_nat() + width) as nat,
    ) > usize::MAX)
    ||| e == VmError::OutOfGas && pre.stack@.len() >= pops && pre.stack@.last().as_nat() + width
        <= usize::MAX && crate::memory::grown_len(
        pre.memory@.len(),
        (pre.stack@.last().as_nat() + width) as nat,
    ) <= usize::MAX && pre.gas < static_cost + mem_cost(
        crate::memory::grown_len(
            pre.memory@.len(),
            (pre.stack@.last().as_nat() + width) as nat,
        ) / 32,
    ) - mem_cost(pre.memory@.len() / 32)
}

/// Store only the low byte of the second word at the offset the top word
/// names.
pub fn mstore8(evm: &mut EVM) -> (r: Result<(), VmError>)
    requires
        old(evm).wf(),
    ensures
        final(evm).wf(),
        match r {
            Ok(()) => {
                let s = old(evm).stack@;
                let addr = s.last().as_nat();
                let val = s[s.len() - 2].as_nat();
                let delta = mem_cost(
                    crate::memory::grown_len(old(evm).memory@.len(), (addr + 1) as nat) / 32,
                ) - mem_cost(old(evm).memory@.len() / 32);
                &&& s.len() >= 2
                &&& addr + 1 <= usize::MAX
                &&& delta >= 0
                &&& old(evm).gas >= 3 + delta
                &&& final(evm).gas < old(evm).gas
                &&& final(evm).gas == old(evm).gas - 3 - delta
                &&& final(evm).stack@ == s.subrange(0, s.len() - 2)
                &&& final(evm).memory@.len() == crate::memory::grown_len(
                    old(evm).memory@.len(),
                    (addr + 1) as nat,
                )
                &&& final(evm).memory@[addr as int] == val % 256
                &&& forall|j: int|
                    0 <= j < old(evm).memory@.len() && j != addr ==> final(evm).memory@[j]
                        == old(evm).memory@[j]
                &&& forall|j: int|
                    old(evm).memory@.len() <= j < final(evm).memory@.len() && j != addr
                        ==> final(evm).memory@[j] == 0
                &&& only_stack_gas_mem_changed(*old(evm), *final(evm))
            },
            Err(e) => *final(evm) == *old(evm) && mem_op_err(*old(evm), 2, 3, 1, e),
        },
{
    if evm.stack.len() < 2 {
        return Err(VmError::StackUnderflow);
    }
    let a = evm.stack.peek()?;
    let v = evm.stack.peek_n(1)?;
    let addr = match a.to_usize() {
        Some(x) => x,
        None => {
            return Err(VmError::MemoryAccessFault);
        },
    };
    let end = match addr.checked_add(1) {
        Some(e) => e,
        None => {
            return Err(VmError::MemoryAccessFault);
        },
    };
    charge_and_grow(evm, end, 3)?;
    let _ = evm.stack.pop()?;
    let _ = evm.stack.pop()?;
    proof {
        crate::word::lemma_low_byte(v);
    }
    let mut bytes: Vec<u8> = Vec::new();
    bytes.push((v.w0 % 256) as u8);
    evm.memory.write(addr, &bytes);
    proof {
        assert(final(evm).stack@ =~= old(evm).stack@.subrange(0, old(evm).stack@.len() - 2));
    }
    Ok(())
}

/// Replace the top word with the 32 bytes of memory it points at, read
/// big-endian, growing and pricing memory by the access rule.
pub fn mload(evm: &mut EVM) -> (r: Result<(), VmError>)
    requires
        old(evm).wf(),
    ensures
        final(evm).wf(),
        match r {
            Ok(()) => {
                let s = old(evm).stack@;
                let addr = s.last().as_nat();
                let delta = mem_cost(
                    crate::memory::grown_len(old(evm).memory@.len(), (addr + 32) as nat) / 32,
                ) - mem_cost(old(evm).memory@.len() / 32);
                &&& s.len() >= 1
                &&& addr + 32 <= usize::MAX
                &&& delta >= 0
                &&& old(evm).gas >= 3 + delta
                &&& final(evm).gas < old(evm).gas
                &&& final(evm).gas == old(evm).gas - 3 - delta
                &&& final(evm).stack@ == s.subrange(0, s.len() - 1).push(
                    final(evm).stack@.last(),
                )
                &&& final(evm).stack@.len() == s.len()
                &&& final(evm).stack@.last().as_nat() == be_val(
                    final(evm).memory@.subrange(addr as int, (addr + 32) as int),
                )
                &&& mem_grown(old(evm).memory@, final(evm).memory@, (addr + 32) as nat)
                &&& only_stack_gas_mem_changed(*old(evm), *final(evm))
            },
            Err(e) => *final(evm) == *old(evm) && mem_op_err(*old(evm), 1, 3, 32, e),
        },
{
    if evm.stack.len() < 1 {
        return Err(VmError::StackUnderflow);
    }
    let a = evm.stack.peek()?;
    let addr = match a.to_usize() {
        Some(x) => x,
        None => {
            return Err(VmError::MemoryAccessFault);
        },
    };
    let end = match addr.checked_add(32) {
        Some(e) => e,
        None => {
            return Err(VmError::MemoryAccessFault);
        },
    };
    charge_and_grow(evm, end, 3)?;
    let _ = evm.stack.pop()?;
    let bytes = evm.memory.read(addr, 32);
    let w = Word::from_be_slice(bytes.as_slice());
    evm.stack.push(w)?;
    proof {
        assert(final(evm).stack@ =~= old(evm).stack@.subrange(0, old(evm).stack@.len() - 1).push(
            final(evm).stack@.last(),
        ));
    }
    Ok(())
}

/// Hash the memory span the two top words describe and push the digest.
pub fn _keccak256(evm: &mut EVM) -> (r: Result<(), VmError>)
    requires
        old(evm).wf(),
    ensures
        final(evm).wf(),
        match r {
            Ok(()) => {
                let s = old(evm).stack@;
                let off = s.last().as_nat();
                let sz = s[s.len() - 2].as_nat();
                &&& s.len() >= 2
                &&& off + sz <= usize::MAX
                &&& final(evm).stack@.len() == s.len() - 1
                &&& final(evm).stack@ == s.subrange(0, s.len() - 2).push(
                    final(evm).stack@.last(),
                )
                &&& final(evm).stack@.last().as_nat() == be_val(
                    crate::keccak::keccak_of(
                        final(evm).memory@.subrange(off as int, (off + sz) as int),
                    ),
                )
                &&& mem_grown(old(evm).memory@, final(evm).memory@, (off + sz) as nat)
                &&& final(evm).gas < old(evm).gas
                &&& final(evm).gas == old(evm).gas - 30 - (mem_cost(
                    crate::memory::grown_len(old(evm).memory@.len(), (off + sz) as nat) / 32,
                ) - mem_cost(old(evm).memory@.len() / 32))
                &&& only_stack_gas_mem_changed(*old(evm), *final(evm))
            },
            Err(e) => *final(evm) == *old(evm) && span_err(
                *old(evm),
                2,
                30,
                old(evm).stack@.last().as_nat(),
                old(evm).stack@[old(evm).stack@.len() - 2].as_nat(),
                e,
            ),
        },
{
    if evm.stack.len() < 2 {
        return Err(VmError::StackUnderflow);
    }
    let a = evm.stack.peek()?;
    let b = evm.stack.peek_n(1)?;
    let off = match a.to_usize() {
        Some(x) => x,
        None => {
            return Err(VmError::MemoryAccessFault);
        },
    };
    let sz = match b.to_usize() {
        Some(x) => x,
        None => {
            return Err(VmError::MemoryAccessFault);
        },
    };
    let end = match off.checked_add(sz) {
        Some(e) => e,
        None => {
            return Err(VmError::MemoryAccessFault);
        },
    };
    charge_and_grow(evm, end, 30)?;
    let _ = evm.stack.pop()?;
    let _ = evm.stack.pop()?;
    let data = evm.memory.read(off, sz);
    let digest = crate::keccak::keccak256_digest(&data);
    let w = Word::from_be_slice(digest.as_slice());
    evm.stack.push(w)?;
    proof {
        assert(final(evm).stack@ =~= old(evm).stack@.subrange(0, old(evm).stack@.len() - 2).push(
            final(evm).stack@.last(),
        ));
        assert(data@ == final(evm).memory@.subrange(
            old(evm).stack@.last().as_nat() as int,
            (old(evm).stack@.last().as_nat() + old(evm).stack@[old(evm).stack@.len()
                - 2].as_nat()) as int,
        ));
    }
    Ok(())
}

// ----------- storage and transient storage -----------

/// Replace the top word with the stored value its low 64 bits key; a cold
/// key costs 2100 gas, a warm one 100, and the key is warm afterwards.
pub fn sload(evm: &mut EVM) -> (r: Result<(), VmError>)
    requires
        old(evm).wf(),
    ensures
        final(evm).wf(),
        match r {
            Ok(()) => {
                let s = old(evm).stack@;
                let key = s.last().as_nat() % pow2(64);
                let cost: nat = if old(evm).storage.warm(key as u64) {
                    100nat
                } else {
                    2100nat
                };
                &&& s.len() >= 1
                &&& old(evm).gas >= cost
                &&& final(evm).gas == old(evm).gas - cost
                &&& final(evm).stack@.len() == s.len()
                &&& final(evm).stack@ == s.subrange(0, s.len() - 1).push(
                    final(evm).stack@.last(),
                )
                &&& final(evm).stack@.last().as_nat() == old(evm).storage.val(key as u64)
                &&& final(evm).storage.warm(key as u64)
                &&& forall|k: u64|
                    k != key as u64 ==> final(evm).storage.warm(k) == old(evm).storage.warm(k)
                &&& forall|k: u64| final(evm).storage.val(k) == old(evm).storage.val(k)
                &&& only_stack_gas_storage_changed(*old(evm), *final(evm))
            },
            Err(e) => *final(evm) == *old(evm) && (e == VmError::StackUnderflow && old(
                evm,
            ).stack@.len() < 1 || e == VmError::OutOfGas && old(evm).stack@.len() >= 1 && old(
                evm,
            ).gas < (if old(evm).storage.warm((old(evm).stack@.last().as_nat() % pow2(
                64,
            )) as u64) {
                100nat
            } else {
                2100nat
            })),
        },
{
    if evm.stack.len() < 1 {
        return Err(VmError::StackUnderflow);
    }
    let a = evm.stack.peek()?;
    let key = a.low_u64();
    let warm = evm.storage.is_warm(key);
    let cost: usize = if warm {
        100
    } else {
        2100
    };
    evm.gas_decrease(cost)?;
    let _ = evm.stack.pop()?;
    let (_was_warm, v) = evm.storage.load(key);
    evm.stack.push(v)?;
    proof {
        assert(final(evm).stack@ =~= old(evm).stack@.subrange(0, old(evm).stack@.len() - 1).push(
            final(evm).stack@.last(),
        ));
    }
    Ok(())
}

/// Store the second word under the key the top word's low 64 bits name,
/// for a flat 20 gas, marking the key warm.
pub fn sstore(evm: &mut EVM) -> (r: Result<(), VmError>)
    requires
        old(evm).wf(),
    ensures
        final(evm).wf(),
        match r {
            Ok(()) => {
                let s = old(evm).stack@;
                let key = (s.last().as_nat() % pow2(64)) as u64;
                &&& s.len() >= 2
                &&& old(evm).gas >= 20
                &&& final(evm).gas == old(evm).gas - 20
                &&& final(evm).stack@ == s.subrange(0, s.len() - 2)
                &&& final(evm).storage.val(key) == s[s.len() - 2].as_nat()
                &&& forall|k: u64|
                    k != key ==> final(evm).storage.val(k) == old(evm).storage.val(k)
                &&& final(evm).storage.warm(key)
                &&& forall|k: u64|
                    k != key ==> final(evm).storage.warm(k) == old(evm).storage.warm(k)
                &&& only_stack_gas_storage_changed(*old(evm), *final(evm))
            },
            Err(e) => frame_err(*old(evm), *final(evm), 2, 20, e),
        },
{
    let (a, v) = take2(evm, 20)?;
    let key = a.low_u64();
    evm.storage.store(key, v);
    Ok(())
}

/// Store the top word in transient storage under the key the second
/// word's low 64 bits name, always priced warm.
pub fn tstore(evm: &mut EVM) -> (r: Result<(), VmError>)
    requires
        old(evm).wf(),
    ensures
        final(evm).wf(),
        match r {
            Ok(()) => {
                let s = old(evm).stack@;
                let key = (s[s.len() - 2].as_nat() % pow2(64)) as u64;
                &&& s.len() >= 2
                &&& old(evm).gas >= 100
                &&& final(evm).gas == old(evm).gas - 100
                &&& final(evm).stack@ == s.subrange(0, s.len() - 2)
                &&& final(evm).transient.val(key) == s.last().as_nat()
                &&& forall|k: u64|
                    k != key ==> final(evm).transient.val(k) == old(evm).transient.val(k)
                &&& only_stack_gas_transient_changed(*old(evm), *final(evm))
            },
            Err(e) => frame_err(*old(evm), *final(evm), 2, 100, e),
        },
{
    let (v, a) = take2(evm, 100)?;
    let key = a.low_u64();
    evm.transient.store(key, v);
    Ok(())
}

/// Replace the top word with the transient value its low 64 bits key,
/// always priced warm.
pub fn tload(evm: &mut EVM) -> (r: Result<(), VmError>)
    requires
        old(evm).wf(),
    ensures
        final(evm).wf(),
        match r {
            Ok(()) => {
                let s = old(evm).stack@;
                let key = (s.last().as_nat() % pow2(64)) as u64;
                &&& frame_pops_push(*old(evm), *final(evm), 1, 100)
                &&& final(evm).stack@.last().as_nat() == old(evm).transient.val(key)
            },
            Err(e) => frame_err(*old(evm), *final(evm), 1, 100, e),
        },
{
    let a = take1(evm, 100)?;
    let key = a.low_u64();
    let v = evm.transient.load(key);
    evm.stack.push(v)?;
    Ok(())
}

// ----------- control flow -----------

/// A byte position is a valid jump target exactly when it lies inside the
/// program and holds the jump-destination marker byte.
pub open spec fn valid_jump_target(program: Seq<u8>, t: nat) -> bool {
    t < program.len() && program[t as int] == 0x5b
}

/// Redirect the counter to the target the top word names; any target that
/// is not a marker byte inside the program is fatal, with nothing mutated.
pub fn jump(evm: &mut EVM) -> (r: Result<(), VmError>)
    requires
        old(evm).wf(),
    ensures
        final(evm).wf(),
        match r {
            Ok(()) => {
                let s = old(evm).stack@;
                &&& s.len() >= 1
                &&& valid_jump_target(old(evm).program@, s.last().as_nat())
                &&& old(evm).gas >= 8
                &&& final(evm).gas == old(evm).gas - 8
                &&& final(evm).pc == s.last().as_nat()
                &&& final(evm).stack@ == s.subrange(0, s.len() - 1)
                &&& only_stack_gas_pc_changed(*old(evm), *final(evm))
            },
            Err(e) => *final(evm) == *old(evm) && (e == VmError::StackUnderflow && old(
                evm,
            ).stack@.len() < 1 || e == VmError::InvalidJumpDestination && old(
                evm,
            ).stack@.len() >= 1 && !valid_jump_target(
                old(evm).program@,
                old(evm).stack@.last().as_nat(),
            ) || e == VmError::OutOfGas && old(evm).stack@.len() >= 1 && valid_jump_target(
                old(evm).program@,
                old(evm).stack@.last().as_nat(),
            ) && old(evm).gas < 8),
        },
{
    if evm.stack.len() < 1 {
        return Err(VmError::StackUnderflow);
    }
    let a = evm.stack.peek()?;
    let t = match a.to_usize() {
        Some(x) => x,
        None => {
            return Err(VmError::InvalidJumpDestination);
        },
    };
    if t >= evm.program.len() {
        return Err(VmError::InvalidJumpDestination);
    }
    if evm.program[t] != 0x5b {
        return Err(VmError::InvalidJumpDestination);
    }
    evm.gas_decrease(8)?;
    let _ = evm.stack.pop()?;
    evm.pc = t;
    Ok(())
}

/// Conditional jump: redirects only when the second word is non-zero, and
/// validates the target only when it jumps. The returned flag reports
/// whether the counter was redirected.
pub fn jumpi(evm: &mut EVM) -> (r: Result<bool, VmError>)
    requires
        old(evm).wf(),
    ensures
        final(evm).wf(),
        match r {
            Ok(redirected) => {
                let s = old(evm).stack@;
                &&& s.len() >= 2
                &&& old(evm).gas >= 10
                &&& final(evm).gas == old(evm).gas - 10
                &&& final(evm).stack@ == s.subrange(0, s.len() - 2)
                &&& redirected == (s[s.len() - 2].as_nat() != 0)
                &&& (redirected ==> valid_jump_target(old(evm).program@, s.last().as_nat())
                    && final(evm).pc == s.last().as_nat())
                &&& (!redirected ==> final(evm).pc == old(evm).pc)
                &&& only_stack_gas_pc_changed(*old(evm), *final(evm))
            },
            Err(e) => *final(evm) == *old(evm) && (e == VmError::StackUnderflow && old(
                evm,
            ).stack@.len() < 2 || e == VmError::InvalidJumpDestination && old(
                evm,
            ).stack@.len() >= 2 && old(evm).stack@[old(evm).stack@.len() - 2].as_nat() != 0
                && !valid_jump_target(old(evm).program@, old(evm).stack@.last().as_nat())
                || e == VmError::OutOfGas && old(evm).stack@.len() >= 2 && old(evm).gas < 10),
        },
{
    if evm.stack.len() < 2 {
        return Err(VmError::StackUnderflow);
    }
    let a = evm.stack.peek()?;
    let cond = evm.stack.peek_n(1)?;
    if !cond.is_zero() {
        let t = match a.to_usize() {
            Some(x) => x,
            None => {
                return Err(VmError::InvalidJumpDestination);
            },
        };
        if t >= evm.program.len() {
            return Err(VmError::InvalidJumpDestination);
        }
        if evm.program[t] != 0x5b {
            return Err(VmError::InvalidJumpDestination);
        }
        evm.gas_decrease(10)?;
        let _ = evm.stack.pop()?;
        let _ = evm.stack.pop()?;
        evm.pc = t;
        proof {
            assert(final(evm).stack@ =~= old(evm).stack@.subrange(
                0,
                old(evm).stack@.len() - 2,
            ));
        }
        Ok(true)
    } else {
        evm.gas_decrease(10)?;
        let _ = evm.stack.pop()?;
        let _ = evm.stack.pop()?;
        proof {
            assert(final(evm).stack@ =~= old(evm).stack@.subrange(
                0,
                old(evm).stack@.len() - 2,
            ));
        }
        Ok(false)
    }
}

/// Push the current program counter.
pub fn pc(evm: &mut EVM) -> (r: Result<(), VmError>)
    requires
        old(evm).wf(),
    ensures
        final(evm).wf(),
        match r {
            Ok(()) => {
                &&& old(evm).stack@.len() < 1024
                &&& old(evm).gas >= 2
                &&& final(evm).gas == old(evm).gas - 2
                &&& final(evm).stack@ == old(evm).stack@.push(final(evm).stack@.last())
                &&& final(evm).stack@.last().as_nat() == old(evm).pc
                &&& only_stack_gas_changed(*old(evm), *final(evm))
            },
            Err(e) => frame_push_err(*old(evm), *final(evm), 2, e),
        },
{
    make_room(evm, 2)?;
    let w = Word::from_usize(evm.pc);
    evm.stack.push(w)?;
    Ok(())
}

/// The jump-destination marker itself only charges its gas.
pub fn jump_dest(evm: &mut EVM) -> (r: Result<(), VmError>)
    requires
        old(evm).wf(),
    ensures
        final(evm).wf(),
        match r {
            Ok(()) => old(evm).gas >= 1 && final(evm).gas == old(evm).gas - 1 && final(evm).stack == old(evm).stack && only_stack_gas_changed(*old(evm), *final(evm)),
            Err(e) => e == VmError::OutOfGas && old(evm).gas < 1 && *final(evm) == *old(evm),
        },
{
    evm.gas_decrease(1)?;
    Ok(())
}

/// Halt the run successfully, with no data and no gas charge.
pub fn stop(evm: &mut EVM) -> (r: Result<(), VmError>)
    requires
        old(evm).wf(),
    ensures
        final(evm).wf(),
        r is Ok,
        final(evm).stop_flag,
        final(evm).gas == old(evm).gas,
        final(evm).pc == old(evm).pc,
        final(evm).stack == old(evm).stack,
        final(evm).memory == old(evm).memory,
        final(evm).storage == old(evm).storage,
        final(evm).transient == old(evm).transient,
        final(evm).revert_flag == old(evm).revert_flag,
        final(evm).return_data == old(evm).return_data,
        final(evm).logs == old(evm).logs,
        ctx_eq(*old(evm), *final(evm)),
{
    evm.stop_flag = true;
    Ok(())
}

// ----------- push -----------

/// The `n` immediate bytes after the counter, read as they stand in the
/// program and as zero past its end.
pub open spec fn push_imm(program: Seq<u8>, pc: nat, n: nat) -> Seq<u8> {
    Seq::new(n, |i: int| if pc + 1 + i < program.len() {
        program[pc + 1 + i]
    } else {
        0u8
    })
}

/// Push the `n`-byte immediate after the counter, big-endian and
/// zero-padded, and advance the counter past the immediate.
pub fn push_n(evm: &mut EVM, n: usize) -> (r: Result<(), VmError>)
    requires
        old(evm).wf(),
        1 <= n <= 32,
        old(evm).pc < old(evm).program@.len(),
    ensures
        final(evm).wf(),
        match r {
            Ok(()) => {
                &&& old(evm).stack@.len() < 1024
                &&& old(evm).gas >= 3
                &&& final(evm).gas == old(evm).gas - 3
                &&& final(evm).stack@ == old(evm).stack@.push(final(evm).stack@.last())
                &&& final(evm).stack@.last().as_nat() == be_val(
                    push_imm(old(evm).program@, old(evm).pc as nat, n as nat),
                )
                &&& final(evm).pc == old(evm).pc + n
                &&& only_stack_gas_pc_changed(*old(evm), *final(evm))
            },
            Err(e) => frame_push_err(*old(evm), *final(evm), 3, e),
        },
{
    make_room(evm, 3)?;
    let mut bytes: Vec<u8> = Vec::new();
    let mut i: usize = 0;
    let plen = evm.program.len();
    while i < n
        invariant
            i <= n,
            n <= 32,
            evm.pc + 33 <= usize::MAX,
            plen == evm.program@.len(),
            bytes@.len() == i,
            forall|j: int|
                0 <= j < i ==> bytes@[j] == push_imm(evm.program@, evm.pc as nat, n as nat)[j],
        decreases n - i,
    {
        let idx = evm.pc + 1 + i;
        if idx < plen {
            bytes.push(evm.program[idx]);
        } else {
            bytes.push(0);
        }
        i += 1;
    }
    proof {
        assert(bytes@ =~= push_imm(evm.program@, evm.pc as nat, n as nat));
    }
    let w = Word::from_be_slice(bytes.as_slice());
    evm.stack.push(w)?;
    evm.pc = evm.pc + n;
    Ok(())
}


// ----------- environment and context -----------

/// The 20 address bytes as a word.
fn addr_word(sender: &[u8; 20]) -> (r: Word)
    ensures
        r.as_nat() == be_val(sender@),
{
    let mut bytes: Vec<u8> = Vec::new();
    let mut i: usize = 0;
    while i < 20
        invariant
            i <= 20,
            bytes@.len() == i,
            forall|j: int| 0 <= j < i ==> bytes@[j] == sender@[j],
        decreases 20 - i,
    {
        bytes.push(sender[i]);
        i += 1;
    }
    proof {
        assert(bytes@ =~= sender@);
    }
    Word::from_be_slice(bytes.as_slice())
}

/// Check room, charge, and push one word.
fn push_word(evm: &mut EVM, w: Word, cost: usize) -> (r: Result<(), VmError>)
    requires
        old(evm).wf(),
    ensures
        final(evm).wf(),
        match r {
            Ok(()) => {
                &&& old(evm).stack@.len() < 1024
                &&& old(evm).gas >= cost
                &&& final(evm).gas == old(evm).gas - cost
                &&& final(evm).stack@ == old(evm).stack@.push(w)
                &&& only_stack_gas_changed(*old(evm), *final(evm))
            },
            Err(e) => frame_push_err(*old(evm), *final(evm), cost as nat, e),
        },
{
    make_room(evm, cost)?;
    evm.stack.push(w)?;
    Ok(())
}

/// Pop an ignored operand and push a mocked chain-state answer of zero.
fn pop_push_zero(evm: &mut EVM, cost: usize) -> (r: Result<(), VmError>)
    requires
        old(evm).wf(),
    ensures
        final(evm).wf(),
        match r {
            Ok(()) => frame_pops_push(*old(evm), *final(evm), 1, cost as nat) && final(evm).stack@.last().as_nat() == 0,
            Err(e) => frame_err(*old(evm), *final(evm), 1, cost as nat, e),
        },
{
    let _a = take1(evm, cost)?;
    evm.stack.push(Word::zero())?;
    Ok(())
}

/// Push the executing account's address.
pub fn address(evm: &mut EVM) -> (r: Result<(), VmError>)
    requires
        old(evm).wf(),
    ensures
        final(evm).wf(),
        match r {
            Ok(()) => {
                &&& old(evm).stack@.len() < 1024
                &&& old(evm).gas >= 2
                &&& final(evm).gas == old(evm).gas - 2
                &&& final(evm).stack@ == old(evm).stack@.push(final(evm).stack@.last())
                &&& final(evm).stack@.last().as_nat() == be_val(old(evm).sender@)
                &&& only_stack_gas_changed(*old(evm), *final(evm))
            },
            Err(e) => frame_push_err(*old(evm), *final(evm), 2, e),
        },
{
    let w = addr_word(&evm.sender);
    push_word(evm, w, 2)?;
    Ok(())
}

/// Push the transaction originator's address; in this single-frame
/// machine that is the sender.
pub fn origin(evm: &mut EVM) -> (r: Result<(), VmError>)
    requires
        old(evm).wf(),
    ensures
        final(evm).wf(),
        match r {
            Ok(()) => {
                &&& old(evm).stack@.len() < 1024
                &&& old(evm).gas >= 2
                &&& final(evm).gas == old(evm).gas - 2
                &&& final(evm).stack@ == old(evm).stack@.push(final(evm).stack@.last())
                &&& final(evm).stack@.last().as_nat() == be_val(old(evm).sender@)
                &&& only_stack_gas_changed(*old(evm), *final(evm))
            },
            Err(e) => frame_push_err(*old(evm), *final(evm), 2, e),
        },
{
    let w = addr_word(&evm.sender);
    push_word(evm, w, 2)?;
    Ok(())
}

/// Push the immediate caller's address; in this single-frame machine that
/// is the sender.
pub fn caller(evm: &mut EVM) -> (r: Result<(), VmError>)
    requires
        old(evm).wf(),
    ensures
        final(evm).wf(),
        match r {
            Ok(()) => {
                &&& old(evm).stack@.len() < 1024
                &&& old(evm).gas >= 2
                &&& final(evm).gas == old(evm).gas - 2
                &&& final(evm).stack@ == old(evm).stack@.push(final(evm).stack@.last())
                &&& final(evm).stack@.last().as_nat() == be_val(old(evm).sender@)
                &&& only_stack_gas_changed(*old(evm), *final(evm))
            },
            Err(e) => frame_push_err(*old(evm), *final(evm), 2, e),
        },
{
    let w = addr_word(&evm.sender);
    push_word(evm, w, 2)?;
    Ok(())
}

/// Push the value sent with the call.
pub fn callvalue(evm: &mut EVM) -> (r: Result<(), VmError>)
    requires
        old(evm).wf(),
    ensures
        final(evm).wf(),
        match r {
            Ok(()) => {
                &&& old(evm).stack@.len() < 1024
                &&& old(evm).gas >= 2
                &&& final(evm).gas == old(evm).gas - 2
                &&& final(evm).stack@ == old(evm).stack@.push(final(evm).stack@.last())
                &&& final(evm).stack@.last().as_nat() == old(evm).value
                &&& only_stack_gas_changed(*old(evm), *final(evm))
            },
            Err(e) => frame_push_err(*old(evm), *final(evm), 2, e),
        },
{
    let w = Word::from_usize(evm.value);
    push_word(evm, w, 2)?;
    Ok(())
}

/// A mocked account balance: absent the chain-state collaborator, zero.
pub fn balance(evm: &mut EVM) -> (r: Result<(), VmError>)
    requires
        old(evm).wf(),
    ensures
        final(evm).wf(),
        match r {
            Ok(()) => frame_pops_push(*old(evm), *final(evm), 1, 2600) && final(evm).stack@.last().as_nat() == 0,
            Err(e) => frame_err(*old(evm), *final(evm), 1, 2600, e),
        },
{
    pop_push_zero(evm, 2600)
}

/// A mocked gas price: absent the chain-state collaborator, zero.
pub fn gasprice(evm: &mut EVM) -> (r: Result<(), VmError>)
    requires
        old(evm).wf(),
    ensures
        final(evm).wf(),
        match r {
            Ok(()) => {
                &&& old(evm).stack@.len() < 1024
                &&& old(evm).gas >= 2
                &&& final(evm).gas == old(evm).gas - 2
                &&& final(evm).stack@ == old(evm).stack@.push(final(evm).stack@.last())
                &&& final(evm).stack@.last().as_nat() == 0
                &&& only_stack_gas_changed(*old(evm), *final(evm))
            },
            Err(e) => frame_push_err(*old(evm), *final(evm), 2, e),
        },
{
    push_word(evm, Word::zero(), 2)?;
    Ok(())
}

/// A mocked external code size: absent the chain-state collaborator, zero.
pub fn extcodesize(evm: &mut EVM) -> (r: Result<(), VmError>)
    requires
        old(evm).wf(),
    ensures
        final(evm).wf(),
        match r {
            Ok(()) => frame_pops_push(*old(evm), *final(evm), 1, 2600) && final(evm).stack@.last().as_nat() == 0,
            Err(e) => frame_err(*old(evm), *final(evm), 1, 2600, e),
        },
{
    pop_push_zero(evm, 2600)
}

/// A mocked external code hash: absent the chain-state collaborator, zero.
pub fn extcodehash(evm: &mut EVM) -> (r: Result<(), VmError>)
    requires
        old(evm).wf(),
    ensures
        final(evm).wf(),
        match r {
            Ok(()) => frame_pops_push(*old(evm), *final(evm), 1, 2600) && final(evm).stack@.last().as_nat() == 0,
            Err(e) => frame_err(*old(evm), *final(evm), 1, 2600, e),
        },
{
    pop_push_zero(evm, 2600)
}

/// A mocked block hash: absent the chain-state collaborator, zero.
pub fn blockhash(evm: &mut EVM) -> (r: Result<(), VmError>)
    requires
        old(evm).wf(),
    ensures
        final(evm).wf(),
        match r {
            Ok(()) => frame_pops_push(*old(evm), *final(evm), 1, 20) && final(evm).stack@.last().as_nat() == 0,
            Err(e) => frame_err(*old(evm), *final(evm), 1, 20, e),
        },
{
    pop_push_zero(evm, 20)
}

/// A mocked block miner's address: absent the chain-state collaborator,
/// zero.
pub fn coinbase(evm: &mut EVM) -> (r: Result<(), VmError>)
    requires
        old(evm).wf(),
    ensures
        final(evm).wf(),
        match r {
            Ok(()) => {
                &&& old(evm).stack@.len() < 1024
                &&& old(evm).gas >= 2
                &&& final(evm).gas == old(evm).gas - 2
                &&& final(evm).stack@ == old(evm).stack@.push(final(evm).stack@.last())
                &&& final(evm).stack@.last().as_nat() == 0
                &&& only_stack_gas_changed(*old(evm), *final(evm))
            },
            Err(e) => frame_push_err(*old(evm), *final(evm), 2, e),
        },
{
    push_word(evm, Word::zero(), 2)?;
    Ok(())
}

/// Push the length of the call data.
pub fn calldatasize(evm: &mut EVM) -> (r: Result<(), VmError>)
    requires
        old(evm).wf(),
    ensures
        final(evm).wf(),
        match r {
            Ok(()) => {
                &&& old(evm).stack@.len() < 1024
                &&& old(evm).gas >= 2
                &&& final(evm).gas == old(evm).gas - 2
                &&& final(evm).stack@ == old(evm).stack@.push(final(evm).stack@.last())
                &&& final(evm).stack@.last().as_nat() == old(evm).call_data@.len()
                &&& only_stack_gas_changed(*old(evm), *final(evm))
            },
            Err(e) => frame_push_err(*old(evm), *final(evm), 2, e),
        },
{
    let w = Word::from_usize(evm.call_data.len());
    push_word(evm, w, 2)?;
    Ok(())
}

/// Push the length of the running program.
pub fn codesize(evm: &mut EVM) -> (r: Result<(), VmError>)
    requires
        old(evm).wf(),
    ensures
        final(evm).wf(),
        match r {
            Ok(()) => {
                &&& old(evm).stack@.len() < 1024
                &&& old(evm).gas >= 2
                &&& final(evm).gas == old(evm).gas - 2
                &&& final(evm).stack@ == old(evm).stack@.push(final(evm).stack@.last())
                &&& final(evm).stack@.last().as_nat() == old(evm).program@.len()
                &&& only_stack_gas_changed(*old(evm), *final(evm))
            },
            Err(e) => frame_push_err(*old(evm), *final(evm), 2, e),
        },
{
    let w = Word::from_usize(evm.program.len());
    push_word(evm, w, 2)?;
    Ok(())
}

/// Push the length of the return data of the previous call.
pub fn returndatasize(evm: &mut EVM) -> (r: Result<(), VmError>)
    requires
        old(evm).wf(),
    ensures
        final(evm).wf(),
        match r {
            Ok(()) => {
                &&& old(evm).stack@.len() < 1024
                &&& old(evm).gas >= 2
                &&& final(evm).gas == old(evm).gas - 2
                &&& final(evm).stack@ == old(evm).stack@.push(final(evm).stack@.last())
                &&& final(evm).stack@.last().as_nat() == old(evm).return_data@.len()
                &&& only_stack_gas_changed(*old(evm), *final(evm))
            },
            Err(e) => frame_push_err(*old(evm), *final(evm), 2, e),
        },
{
    let w = Word::from_usize(evm.return_data.len());
    push_word(evm, w, 2)?;
    Ok(())
}

/// A window of a byte source, zero-padded past its end.
fn padded_bytes(src: &Vec<u8>, off: &Word, n: usize) -> (r: Vec<u8>)
    ensures
        r@ == padded_slice(src@, off.as_nat(), n as nat),
{
    let mut out: Vec<u8> = Vec::new();
    let ob = off.to_usize();
    let slen = src.len();
    let mut i: usize = 0;
    while i < n
        invariant
            i <= n,
            slen == src@.len(),
            out@.len() == i,
            forall|j: int|
                0 <= j < i ==> out@[j] == padded_slice(src@, off.as_nat(), n as nat)[j],
            match ob {
                Some(o) => o == off.as_nat(),
                None => off.as_nat() > usize::MAX,
            },
        decreases n - i,
    {
        let byte: u8 = match ob {
            Some(o) => {
                if o < slen && i < slen - o {
                    src[o + i]
                } else {
                    0
                }
            },
            None => 0,
        };
        out.push(byte);
        i += 1;
    }
    proof {
        assert(out@ =~= padded_slice(src@, off.as_nat(), n as nat));
    }
    out
}

/// Replace the top word with 32 bytes of call data read at the offset it
/// names, zero-padded past the end.
pub fn calldataload(evm: &mut EVM) -> (r: Result<(), VmError>)
    requires
        old(evm).wf(),
    ensures
        final(evm).wf(),
        match r {
            Ok(()) => frame_pops_push(*old(evm), *final(evm), 1, 3) && final(evm).stack@.last().as_nat() == be_val(
                padded_slice(old(evm).call_data@, old(evm).stack@.last().as_nat(), 32),
            ),
            Err(e) => frame_err(*old(evm), *final(evm), 1, 3, e),
        },
{
    let a = take1(evm, 3)?;
    let bytes = padded_bytes(&evm.call_data, &a, 32);
    let w = Word::from_be_slice(bytes.as_slice());
    evm.stack.push(w)?;
    Ok(())
}

/// The error cases shared by the handlers that read or write a memory
/// span: too few operands; a destination span or grown length that cannot
/// exist on this machine; or, with the operands in place, too little gas
/// for the handler's static and expansion cost.
pub open spec fn span_err(pre: EVM, pops: nat, static_cost: nat, dest: nat, sz: nat, e: VmError) -> bool {
    ||| e == VmError::StackUnderflow && pre.stack@.len() < pops
    ||| e == VmError::MemoryAccessFault && pre.stack@.len() >= pops && (dest + sz > usize::MAX
        || crate::memory::grown_len(pre.memory@.len(), (dest + sz) as nat) > usize::MAX)
    ||| e == VmError::OutOfGas && pre.stack@.len() >= pops && dest + sz <= usize::MAX
        && crate::memory::grown_len(pre.memory@.len(), (dest + sz) as nat) <= usize::MAX
        && pre.gas < static_cost + mem_cost(
        crate::memory::grown_len(pre.memory@.len(), (dest + sz) as nat) / 32,
    ) - mem_cost(pre.memory@.len() / 32)
}

/// Copy a window of call data into memory, zero-padded, with the copy
/// family's dynamic gas.
pub fn calldatacopy(evm: &mut EVM) -> (r: Result<(), VmError>)
    requires
        old(evm).wf(),
    ensures
        final(evm).wf(),
        match r {
            Ok(()) => {
                let s = old(evm).stack@;
                let dest = s.last().as_nat();
                let off = s[s.len() - 2].as_nat();
                let sz = s[s.len() - 3].as_nat();
                &&& s.len() >= 3
                &&& dest + sz <= usize::MAX
                &&& final(evm).stack@ == s.subrange(0, s.len() - 3)
                &&& final(evm).memory@.len() == crate::memory::grown_len(
                    old(evm).memory@.len(),
                    (dest + sz) as nat,
                )
                &&& final(evm).memory@.subrange(dest as int, (dest + sz) as int) == padded_slice(
                    old(evm).call_data@,
                    off,
                    sz,
                )
                &&& forall|j: int|
                    0 <= j < old(evm).memory@.len() && !(dest <= j < dest + sz) ==> final(evm).memory@[j] == old(evm).memory@[j]
                &&& final(evm).gas < old(evm).gas
                &&& final(evm).gas == old(evm).gas - 3 - 3 * ((sz + 31) / 32) - (mem_cost(
                    crate::memory::grown_len(old(evm).memory@.len(), (dest + sz) as nat) / 32,
                ) - mem_cost(old(evm).memory@.len() / 32))
                &&& only_stack_gas_mem_changed(*old(evm), *final(evm))
            },
            Err(e) => *final(evm) == *old(evm) && span_err(
                *old(evm),
                3,
                (3 + 3 * ((old(evm).stack@[old(evm).stack@.len() - 3].as_nat() + 31) / 32)) as nat,
                old(evm).stack@.last().as_nat(),
                old(evm).stack@[old(evm).stack@.len() - 3].as_nat(),
                e,
            ),
        },
{
    if evm.stack.len() < 3 {
        return Err(VmError::StackUnderflow);
    }
    let d = evm.stack.peek()?;
    let o = evm.stack.peek_n(1)?;
    let szw = evm.stack.peek_n(2)?;
    let dest = match d.to_usize() {
        Some(x) => x,
        None => {
            return Err(VmError::MemoryAccessFault);
        },
    };
    let sz = match szw.to_usize() {
        Some(x) => x,
        None => {
            return Err(VmError::MemoryAccessFault);
        },
    };
    let end = match dest.checked_add(sz) {
        Some(e) => e,
        None => {
            return Err(VmError::MemoryAccessFault);
        },
    };
    let static_cost: u128 = 3 + 3 * ((sz as u128 + 31) / 32);
    charge_and_grow(evm, end, static_cost)?;
    let _ = evm.stack.pop()?;
    let _ = evm.stack.pop()?;
    let _ = evm.stack.pop()?;
    let bytes = padded_bytes(&evm.call_data, &o, sz);
    evm.memory.write(dest, &bytes);
    proof {
        assert(final(evm).stack@ =~= old(evm).stack@.subrange(0, old(evm).stack@.len() - 3));
        assert(final(evm).memory@.subrange(
            old(evm).stack@.last().as_nat() as int,
            (old(evm).stack@.last().as_nat() + old(evm).stack@[old(evm).stack@.len()
                - 3].as_nat()) as int,
        ) =~= padded_slice(
            old(evm).call_data@,
            old(evm).stack@[old(evm).stack@.len() - 2].as_nat(),
            old(evm).stack@[old(evm).stack@.len() - 3].as_nat(),
        ));
    }
    Ok(())
}

/// Copy a window of the running program into memory, zero-padded, with
/// the copy family's dynamic gas.
pub fn codecopy(evm: &mut EVM) -> (r: Result<(), VmError>)
    requires
        old(evm).wf(),
    ensures
        final(evm).wf(),
        match r {
            Ok(()) => {
                let s = old(evm).stack@;
                let dest = s.last().as_nat();
                let off = s[s.len() - 2].as_nat();
                let sz = s[s.len() - 3].as_nat();
                &&& s.len() >= 3
                &&& dest + sz <= usize::MAX
                &&& final(evm).stack@ == s.subrange(0, s.len() - 3)
                &&& final(evm).memory@.len() == crate::memory::grown_len(
                    old(evm).memory@.len(),
                    (dest + sz) as nat,
                )
                &&& final(evm).memory@.subrange(dest as int, (dest + sz) as int) == padded_slice(
                    old(evm).program@,
                    off,
                    sz,
                )
                &&& forall|j: int|
                    0 <= j < old(evm).memory@.len() && !(dest <= j < dest + sz) ==> final(evm).memory@[j] == old(evm).memory@[j]
                &&& final(evm).gas < old(evm).gas
                &&& final(evm).gas == old(evm).gas - 3 - 3 * ((sz + 31) / 32) - (mem_cost(
                    crate::memory::grown_len(old(evm).memory@.len(), (dest + sz) as nat) / 32,
                ) - mem_cost(old(evm).memory@.len() / 32))
                &&& only_stack_gas_mem_changed(*old(evm), *final(evm))
            },
            Err(e) => *final(evm) == *old(evm) && span_err(
                *old(evm),
                3,
                (3 + 3 * ((old(evm).stack@[old(evm).stack@.len() - 3].as_nat() + 31) / 32)) as nat,
                old(evm).stack@.last().as_nat(),
                old(evm).stack@[old(evm).stack@.len() - 3].as_nat(),
                e,
            ),
        },
{
    if evm.stack.len() < 3 {
        return Err(VmError::StackUnderflow);
    }
    let d = evm.stack.peek()?;
    let o = evm.stack.peek_n(1)?;
    let szw = evm.stack.peek_n(2)?;
    let dest = match d.to_usize() {
        Some(x) => x,
        None => {
            return Err(VmError::MemoryAccessFault);
        },
    };
    let sz = match szw.to_usize() {
        Some(x) => x,
        None => {
            return Err(VmError::MemoryAccessFault);
        },
    };
    let end = match dest.checked_add(sz) {
        Some(e) => e,
        None => {
            return Err(VmError::MemoryAccessFault);
        },
    };
    let static_cost: u128 = 3 + 3 * ((sz as u128 + 31) / 32);
    charge_and_grow(evm, end, static_cost)?;
    let _ = evm.stack.pop()?;
    let _ = evm.stack.pop()?;
    let _ = evm.stack.pop()?;
    let bytes = padded_bytes(&evm.program, &o, sz);
    evm.memory.write(dest, &bytes);
    proof {
        assert(final(evm).stack@ =~= old(evm).stack@.subrange(0, old(evm).stack@.len() - 3));
        assert(final(evm).memory@.subrange(
            old(evm).stack@.last().as_nat() as int,
            (old(evm).stack@.last().as_nat() + old(evm).stack@[old(evm).stack@.len()
                - 3].as_nat()) as int,
        ) =~= padded_slice(
            old(evm).program@,
            old(evm).stack@[old(evm).stack@.len() - 2].as_nat(),
            old(evm).stack@[old(evm).stack@.len() - 3].as_nat(),
        ));
    }
    Ok(())
}

/// Copy a window of the previous call's return data into memory,
/// zero-padded, with the copy family's dynamic gas.
pub fn returndatacopy(evm: &mut EVM) -> (r: Result<(), VmError>)
    requires
        old(evm).wf(),
    ensures
        final(evm).wf(),
        match r {
            Ok(()) => {
                let s = old(evm).stack@;
                let dest = s.last().as_nat();
                let off = s[s.len() - 2].as_nat();
                let sz = s[s.len() - 3].as_nat();
                &&& s.len() >= 3
                &&& dest + sz <= usize::MAX
                &&& final(evm).stack@ == s.subrange(0, s.len() - 3)
                &&& final(evm).memory@.len() == crate::memory::grown_len(
                    old(evm).memory@.len(),
                    (dest + sz) as nat,
                )
                &&& final(evm).memory@.subrange(dest as int, (dest + sz) as int) == padded_slice(
                    old(evm).return_data@,
                    off,
                    sz,
                )
                &&& forall|j: int|
                    0 <= j < old(evm).memory@.len() && !(dest <= j < dest + sz) ==> final(evm).memory@[j] == old(evm).memory@[j]
                &&& final(evm).gas < old(evm).gas
                &&& final(evm).gas == old(evm).gas - 3 - 3 * ((sz + 31) / 32) - (mem_cost(
                    crate::memory::grown_len(old(evm).memory@.len(), (dest + sz) as nat) / 32,
                ) - mem_cost(old(evm).memory@.len() / 32))
                &&& only_stack_gas_mem_changed(*old(evm), *final(evm))
            },
            Err(e) => *final(evm) == *old(evm) && span_err(
                *old(evm),
                3,
                (3 + 3 * ((old(evm).stack@[old(evm).stack@.len() - 3].as_nat() + 31) / 32)) as nat,
                old(evm).stack@.last().as_nat(),
                old(evm).stack@[old(evm).stack@.len() - 3].as_nat(),
                e,
            ),
        },
{
    if evm.stack.len() < 3 {
        return Err(VmError::StackUnderflow);
    }
    let d = evm.stack.peek()?;
    let o = evm.stack.peek_n(1)?;
    let szw = evm.stack.peek_n(2)?;
    let dest = match d.to_usize() {
        Some(x) => x,
        None => {
            return Err(VmError::MemoryAccessFault);
        },
    };
    let sz = match szw.to_usize() {
        Some(x) => x,
        None => {
            return Err(VmError::MemoryAccessFault);
        },
    };
    let end = match dest.checked_add(sz) {
        Some(e) => e,
        None => {
            return Err(VmError::MemoryAccessFault);
        },
    };
    let static_cost: u128 = 3 + 3 * ((sz as u128 + 31) / 32);
    charge_and_grow(evm, end, static_cost)?;
    let _ = evm.stack.pop()?;
    let _ = evm.stack.pop()?;
    let _ = evm.stack.pop()?;
    let src = &evm.return_data;
    let bytes = padded_bytes(src, &o, sz);
    evm.memory.write(dest, &bytes);
    proof {
        assert(final(evm).stack@ =~= old(evm).stack@.subrange(0, old(evm).stack@.len() - 3));
        assert(final(evm).memory@.subrange(
            old(evm).stack@.last().as_nat() as int,
            (old(evm).stack@.last().as_nat() + old(evm).stack@[old(evm).stack@.len()
                - 3].as_nat()) as int,
        ) =~= padded_slice(
            old(evm).return_data@,
            old(evm).stack@[old(evm).stack@.len() - 2].as_nat(),
            old(evm).stack@[old(evm).stack@.len() - 3].as_nat(),
        ));
    }
    Ok(())
}

/// Copy mocked external code into memory: absent the chain-state
/// collaborator the code is empty, so the window is zeroed.
pub fn extcodecopy(evm: &mut EVM) -> (r: Result<(), VmError>)
    requires
        old(evm).wf(),
    ensures
        final(evm).wf(),
        match r {
            Ok(()) => {
                let s = old(evm).stack@;
                let dest = s[s.len() - 2].as_nat();
                let sz = s[s.len() - 4].as_nat();
                &&& s.len() >= 4
                &&& dest + sz <= usize::MAX
                &&& final(evm).stack@ == s.subrange(0, s.len() - 4)
                &&& final(evm).memory@.len() == crate::memory::grown_len(
                    old(evm).memory@.len(),
                    (dest + sz) as nat,
                )
                &&& forall|j: int|
                    dest <= j < dest + sz ==> final(evm).memory@[j] == 0
                &&& forall|j: int|
                    0 <= j < old(evm).memory@.len() && !(dest <= j < dest + sz) ==> final(evm).memory@[j] == old(evm).memory@[j]
                &&& final(evm).gas < old(evm).gas
                &&& final(evm).gas == old(evm).gas - 2600 - 3 * ((sz + 31) / 32) - (mem_cost(
                    crate::memory::grown_len(old(evm).memory@.len(), (dest + sz) as nat) / 32,
                ) - mem_cost(old(evm).memory@.len() / 32))
                &&& only_stack_gas_mem_changed(*old(evm), *final(evm))
            },
            Err(e) => *final(evm) == *old(evm) && span_err(
                *old(evm),
                4,
                (2600 + 3 * ((old(evm).stack@[old(evm).stack@.len() - 4].as_nat() + 31) / 32)) as nat,
                old(evm).stack@[old(evm).stack@.len() - 2].as_nat(),
                old(evm).stack@[old(evm).stack@.len() - 4].as_nat(),
                e,
            ),
        },
{
    if evm.stack.len() < 4 {
        return Err(VmError::StackUnderflow);
    }
    let d = evm.stack.peek_n(1)?;
    let o = evm.stack.peek_n(2)?;
    let szw = evm.stack.peek_n(3)?;
    let dest = match d.to_usize() {
        Some(x) => x,
        None => {
            return Err(VmError::MemoryAccessFault);
        },
    };
    let sz = match szw.to_usize() {
        Some(x) => x,
        None => {
            return Err(VmError::MemoryAccessFault);
        },
    };
    let end = match dest.checked_add(sz) {
        Some(e) => e,
        None => {
            return Err(VmError::MemoryAccessFault);
        },
    };
    let static_cost: u128 = 2600 + 3 * ((sz as u128 + 31) / 32);
    charge_and_grow(evm, end, static_cost)?;
    let _ = evm.stack.pop()?;
    let _ = evm.stack.pop()?;
    let _ = evm.stack.pop()?;
    let _ = evm.stack.pop()?;
    let empty: Vec<u8> = Vec::new();
    let bytes = padded_bytes(&empty, &o, sz);
    evm.memory.write(dest, &bytes);
    proof {
        assert(final(evm).stack@ =~= old(evm).stack@.subrange(0, old(evm).stack@.len() - 4));
    }
    Ok(())
}

// ----------- logging -----------

/// Pop the span and `n` topics, read the span from memory with growth,
/// and append one log entry; topics keep their pop order.
fn log_n(evm: &mut EVM, n: usize) -> (r: Result<(), VmError>)
    requires
        old(evm).wf(),
        n <= 4,
    ensures
        final(evm).wf(),
        match r {
            Ok(()) => {
                let s = old(evm).stack@;
                let off = s.last().as_nat();
                let sz = s[s.len() - 2].as_nat();
                &&& s.len() >= 2 + n
                &&& off + sz <= usize::MAX
                &&& final(evm).stack@ == s.subrange(0, s.len() - 2 - n)
                &&& mem_grown(old(evm).memory@, final(evm).memory@, (off + sz) as nat)
                &&& final(evm).logs@.len() == old(evm).logs@.len() + 1
                &&& forall|j: int|
                    0 <= j < old(evm).logs@.len() ==> final(evm).logs@[j] == old(evm).logs@[j]
                &&& final(evm).logs@.last().topics@.len() == n
                &&& forall|i: int|
                    0 <= i < n ==> final(evm).logs@.last().topics@[i] == s[s.len() - 3 - i]
                &&& final(evm).logs@.last().data@ == final(evm).memory@.subrange(
                    off as int,
                    (off + sz) as int,
                )
                &&& final(evm).gas < old(evm).gas
                &&& final(evm).gas == old(evm).gas - 375 - 375 * n - 8 * sz - (mem_cost(
                    crate::memory::grown_len(old(evm).memory@.len(), (off + sz) as nat) / 32,
                ) - mem_cost(old(evm).memory@.len() / 32))
                &&& only_stack_gas_mem_logs_changed(*old(evm), *final(evm))
            },
            Err(e) => *final(evm) == *old(evm) && span_err(
                *old(evm),
                (2 + n) as nat,
                (375 + 375 * n + 8 * old(evm).stack@[old(evm).stack@.len() - 2].as_nat()) as nat,
                old(evm).stack@.last().as_nat(),
                old(evm).stack@[old(evm).stack@.len() - 2].as_nat(),
                e,
            ),
        },
{
    if evm.stack.len() < 2 + n {
        return Err(VmError::StackUnderflow);
    }
    let ow = evm.stack.peek()?;
    let szw = evm.stack.peek_n(1)?;
    let off = match ow.to_usize() {
        Some(x) => x,
        None => {
            return Err(VmError::MemoryAccessFault);
        },
    };
    let sz = match szw.to_usize() {
        Some(x) => x,
        None => {
            return Err(VmError::MemoryAccessFault);
        },
    };
    let end = match off.checked_add(sz) {
        Some(e) => e,
        None => {
            return Err(VmError::MemoryAccessFault);
        },
    };
    let static_cost: u128 = 375 + 375 * (n as u128) + 8 * (sz as u128);
    charge_and_grow(evm, end, static_cost)?;
    let _ = evm.stack.pop()?;
    let _ = evm.stack.pop()?;
    let ghost mid = *evm;
    let mut topics: Vec<Word> = Vec::new();
    let mut i: usize = 0;
    proof {
        assert(mid.stack@ =~= old(evm).stack@.subrange(0, old(evm).stack@.len() - 2));
    }
    while i < n
        invariant
            old(evm).wf(),
            i <= n,
            n <= 4,
            old(evm).stack@.len() >= 2 + n,
            topics@.len() == i,
            forall|k: int|
                0 <= k < i ==> topics@[k] == old(evm).stack@[old(evm).stack@.len() - 3 - k],
            evm.stack@ == old(evm).stack@.subrange(0, old(evm).stack@.len() - 2 - i),
            evm.stack.wf(),
            evm.memory == mid.memory,
            evm.gas == mid.gas,
            evm.logs == mid.logs,
            evm.pc == mid.pc,
            evm.storage == mid.storage,
            evm.transient == mid.transient,
            evm.stop_flag == mid.stop_flag,
            evm.revert_flag == mid.revert_flag,
            evm.return_data == mid.return_data,
            evm.sender == mid.sender,
            evm.program == mid.program,
            evm.gas_limit == mid.gas_limit,
            evm.value == mid.value,
            evm.call_data == mid.call_data,
            evm.wf(),
        decreases n - i,
    {
        let t = evm.stack.pop()?;
        proof {
            assert(evm.stack@ =~= old(evm).stack@.subrange(
                0,
                old(evm).stack@.len() - 2 - i - 1,
            ));
        }
        topics.push(t);
        i += 1;
    }
    let data = evm.memory.read(off, sz);
    evm.log(topics, data);
    proof {
        assert(final(evm).stack@ =~= old(evm).stack@.subrange(
            0,
            old(evm).stack@.len() - 2 - n,
        ));
    }
    Ok(())
}

pub fn log0(evm: &mut EVM) -> (r: Result<(), VmError>)
    requires
        old(evm).wf(),
    ensures
        final(evm).wf(),
        match r {
            Ok(()) => log_ok(*old(evm), *final(evm), 0),
            Err(e) => *final(evm) == *old(evm) && span_err(
                *old(evm),
                2,
                (375 + 375 * 0 + 8 * old(evm).stack@[old(evm).stack@.len() - 2].as_nat()) as nat,
                old(evm).stack@.last().as_nat(),
                old(evm).stack@[old(evm).stack@.len() - 2].as_nat(),
                e,
            ),
        },
{
    log_n(evm, 0)
}

pub fn log1(evm: &mut EVM) -> (r: Result<(), VmError>)
    requires
        old(evm).wf(),
    ensures
        final(evm).wf(),
        match r {
            Ok(()) => log_ok(*old(evm), *final(evm), 1),
            Err(e) => *final(evm) == *old(evm) && span_err(
                *old(evm),
                3,
                (375 + 375 * 1 + 8 * old(evm).stack@[old(evm).stack@.len() - 2].as_nat()) as nat,
                old(evm).stack@.last().as_nat(),
                old(evm).stack@[old(evm).stack@.len() - 2].as_nat(),
                e,
            ),
        },
{
    log_n(evm, 1)
}

pub fn log2(evm: &mut EVM) -> (r: Result<(), VmError>)
    requires
        old(evm).wf(),
    ensures
        final(evm).wf(),
        match r {
            Ok(()) => log_ok(*old(evm), *final(evm), 2),
            Err(e) => *final(evm) == *old(evm) && span_err(
                *old(evm),
                4,
                (375 + 375 * 2 + 8 * old(evm).stack@[old(evm).stack@.len() - 2].as_nat()) as nat,
                old(evm).stack@.last().as_nat(),
                old(evm).stack@[old(evm).stack@.len() - 2].as_nat(),
                e,
            ),
        },
{
    log_n(evm, 2)
}

pub fn log3(evm: &mut EVM) -> (r: Result<(), VmError>)
    requires
        old(evm).wf(),
    ensures
        final(evm).wf(),
        match r {
            Ok(()) => log_ok(*old(evm), *final(evm), 3),
            Err(e) => *final(evm) == *old(evm) && span_err(
                *old(evm),
                5,
                (375 + 375 * 3 + 8 * old(evm).stack@[old(evm).stack@.len() - 2].as_nat()) as nat,
                old(evm).stack@.last().as_nat(),
                old(evm).stack@[old(evm).stack@.len() - 2].as_nat(),
                e,
            ),
        },
{
    log_n(evm, 3)
}

pub fn log4(evm: &mut EVM) -> (r: Result<(), VmError>)
    requires
        old(evm).wf(),
    ensures
        final(evm).wf(),
        match r {
            Ok(()) => log_ok(*old(evm), *final(evm), 4),
            Err(e) => *final(evm) == *old(evm) && span_err(
                *old(evm),
                6,
                (375 + 375 * 4 + 8 * old(evm).stack@[old(evm).stack@.len() - 2].as_nat()) as nat,
                old(evm).stack@.last().as_nat(),
                old(evm).stack@[old(evm).stack@.len() - 2].as_nat(),
                e,
            ),
        },
{
    log_n(evm, 4)
}

/// What a successful log handler with `n` topics did.
pub open spec fn log_ok(pre: EVM, post: EVM, n: nat) -> bool {
    let s = pre.stack@;
    let off = s.last().as_nat();
    let sz = s[s.len() - 2].as_nat();
    &&& s.len() >= 2 + n
    &&& off + sz <= usize::MAX
    &&& post.stack@ == s.subrange(0, s.len() - 2 - n)
    &&& mem_grown(pre.memory@, post.memory@, (off + sz) as nat)
    &&& post.logs@.len() == pre.logs@.len() + 1
    &&& forall|j: int| 0 <= j < pre.logs@.len() ==> post.logs@[j] == pre.logs@[j]
    &&& post.logs@.last().topics@.len() == n
    &&& forall|i: int| 0 <= i < n ==> post.logs@.last().topics@[i] == s[s.len() - 3 - i]
    &&& post.logs@.last().data@ == post.memory@.subrange(off as int, (off + sz) as int)
    &&& post.gas < pre.gas
    &&& post.gas == pre.gas - 375 - 375 * n - 8 * sz - (mem_cost(
        crate::memory::grown_len(pre.memory@.len(), (off + sz) as nat) / 32,
    ) - mem_cost(pre.memory@.len() / 32))
    &&& only_stack_gas_mem_logs_changed(pre, post)
}

// ----------- termination -----------

/// Halt successfully, returning the memory span the two top words name.
pub fn _return(evm: &mut EVM) -> (r: Result<(), VmError>)
    requires
        old(evm).wf(),
    ensures
        final(evm).wf(),
        match r {
            Ok(()) => {
                let s = old(evm).stack@;
                let off = s.last().as_nat();
                let sz = s[s.len() - 2].as_nat();
                &&& s.len() >= 2
                &&& off + sz <= usize::MAX
                &&& final(evm).stack@ == s.subrange(0, s.len() - 2)
                &&& mem_grown(old(evm).memory@, final(evm).memory@, (off + sz) as nat)
                &&& final(evm).return_data@ == final(evm).memory@.subrange(
                    off as int,
                    (off + sz) as int,
                )
                &&& final(evm).stop_flag
                &&& final(evm).revert_flag == old(evm).revert_flag
                &&& final(evm).gas <= old(evm).gas
                &&& final(evm).gas == old(evm).gas - (mem_cost(
                    crate::memory::grown_len(old(evm).memory@.len(), (off + sz) as nat) / 32,
                ) - mem_cost(old(evm).memory@.len() / 32))
                &&& only_stack_gas_mem_halt_changed(*old(evm), *final(evm))
            },
            Err(e) => *final(evm) == *old(evm) && span_err(
                *old(evm),
                2,
                0,
                old(evm).stack@.last().as_nat(),
                old(evm).stack@[old(evm).stack@.len() - 2].as_nat(),
                e,
            ),
        },
{
    if evm.stack.len() < 2 {
        return Err(VmError::StackUnderflow);
    }
    let ow = evm.stack.peek()?;
    let szw = evm.stack.peek_n(1)?;
    let off = match ow.to_usize() {
        Some(x) => x,
        None => {
            return Err(VmError::MemoryAccessFault);
        },
    };
    let sz = match szw.to_usize() {
        Some(x) => x,
        None => {
            return Err(VmError::MemoryAccessFault);
        },
    };
    let end = match off.checked_add(sz) {
        Some(e) => e,
        None => {
            return Err(VmError::MemoryAccessFault);
        },
    };
    charge_and_grow(evm, end, 0)?;
    let _ = evm.stack.pop()?;
    let _ = evm.stack.pop()?;
    let data = evm.memory.read(off, sz);
    evm.return_data = data;
    evm.stop_flag = true;
    proof {
        assert(final(evm).stack@ =~= old(evm).stack@.subrange(0, old(evm).stack@.len() - 2));
    }
    Ok(())
}

/// Abort at the program's own request, returning the memory span the two
/// top words name as the reason; state changes are for the caller to
/// discard.
pub fn revert(evm: &mut EVM) -> (r: Result<(), VmError>)
    requires
        old(evm).wf(),
    ensures
        final(evm).wf(),
        match r {
            Ok(()) => {
                let s = old(evm).stack@;
                let off = s.last().as_nat();
                let sz = s[s.len() - 2].as_nat();
                &&& s.len() >= 2
                &&& off + sz <= usize::MAX
                &&& final(evm).stack@ == s.subrange(0, s.len() - 2)
                &&& mem_grown(old(evm).memory@, final(evm).memory@, (off + sz) as nat)
                &&& final(evm).return_data@ == final(evm).memory@.subrange(
                    off as int,
                    (off + sz) as int,
                )
                &&& final(evm).revert_flag
                &&& final(evm).stop_flag == old(evm).stop_flag
                &&& final(evm).gas <= old(evm).gas
                &&& final(evm).gas == old(evm).gas - (mem_cost(
                    crate::memory::grown_len(old(evm).memory@.len(), (off + sz) as nat) / 32,
                ) - mem_cost(old(evm).memory@.len() / 32))
                &&& only_stack_gas_mem_halt_changed(*old(evm), *final(evm))
            },
            Err(e) => *final(evm) == *old(evm) && span_err(
                *old(evm),
                2,
                0,
                old(evm).stack@.last().as_nat(),
                old(evm).stack@[old(evm).stack@.len() - 2].as_nat(),
                e,
            ),
        },
{
    if evm.stack.len() < 2 {
        return Err(VmError::StackUnderflow);
    }
    let ow = evm.stack.peek()?;
    let szw = evm.stack.peek_n(1)?;
    let off = match ow.to_usize() {
        Some(x) => x,
        None => {
            return Err(VmError::MemoryAccessFault);
        },
    };
    let sz = match szw.to_usize() {
        Some(x) => x,
        None => {
            return Err(VmError::MemoryAccessFault);
        },
    };
    let end = match off.checked_add(sz) {
        Some(e) => e,
        None => {
            return Err(VmError::MemoryAccessFault);
        },
    };
    charge_and_grow(evm, end, 0)?;
    let _ = evm.stack.pop()?;
    let _ = evm.stack.pop()?;
    let data = evm.memory.read(off, sz);
    evm.return_data = data;
    evm.revert_flag = true;
    proof {
        assert(final(evm).stack@ =~= old(evm).stack@.subrange(0, old(evm).stack@.len() - 2));
    }
    Ok(())
}


/// What dispatching one decoded instruction does, opcode by opcode: each
/// arm restates the matching handler's success contract over the machine
/// before and after, with `redirected` true exactly for a taken jump. The
/// inter-contract family and the sentinel never succeed.
pub open spec fn dispatch_ok(op: Opcode, pre: EVM, post: EVM, redirected: bool) -> bool {
    match op {
        Opcode::STOP => !redirected && (post.stop_flag && post.gas == pre.gas && post.pc == pre.pc && post.stack == pre.stack
                && post.memory == pre.memory && post.storage == pre.storage && post.transient
                == pre.transient && post.revert_flag == pre.revert_flag && post.return_data
                == pre.return_data && post.logs == pre.logs && ctx_eq(pre, post)),
        Opcode::ADD => !redirected && (frame_pops_push(pre, post, 2, 3) && post.stack@.last().as_nat() == (pre.stack@.last().as_nat() + pre.stack@[pre.stack@.len() - 2].as_nat()) % pow2(256)),
        Opcode::MUL => !redirected && (frame_pops_push(pre, post, 2, 5) && post.stack@.last().as_nat() == (pre.stack@.last().as_nat() * pre.stack@[pre.stack@.len() - 2].as_nat()) % pow2(256)),
        Opcode::SUB => !redirected && (frame_pops_push(pre, post, 2, 3) && post.stack@.last().as_nat() == (pre.stack@[pre.stack@.len() - 2].as_nat()
                + pow2(256) - pre.stack@.last().as_nat()) % (pow2(256) as int)),
        Opcode::DIV => !redirected && (frame_pops_push(pre, post, 2, 5) && post.stack@.last().as_nat() == (if pre.stack@.last().as_nat() == 0 {
                0nat
            } else {
                pre.stack@[pre.stack@.len() - 2].as_nat() / pre.stack@.last().as_nat()
            })),
        Opcode::SDIV => !redirected && (frame_pops_push(pre, post, 2, 5) && post.stack@.last().as_nat() == sdiv_spec(
                pre.stack@[pre.stack@.len() - 2],
                pre.stack@.last(),
            )),
        Opcode::MOD => !redirected && (frame_pops_push(pre, post, 2, 5) && post.stack@.last().as_nat() == (if pre.stack@.last().as_nat() == 0 {
                0nat
            } else {
                pre.stack@[pre.stack@.len() - 2].as_nat() % pre.stack@.last().as_nat()
            })),
        Opcode::SMOD => !redirected && (frame_pops_push(pre, post, 2, 5) && post.stack@.last().as_nat() == smod_spec(
                pre.stack@[pre.stack@.len() - 2],
                pre.stack@.last(),
            )),
        Opcode::ADDMOD => !redirected && (frame_pops_push(pre, post, 3, 8) && {
                let s = pre.stack@;
                let n = s[s.len() - 3].as_nat();
                post.stack@.last().as_nat() == (if n == 0 {
                    0nat
                } else {
                    (s[s.len() - 1].as_nat() + s[s.len() - 2].as_nat()) % n
                })
            }),
        Opcode::MULMOD => !redirected && (frame_pops_push(pre, post, 3, 8) && {
                let s = pre.stack@;
                let n = s[s.len() - 3].as_nat();
                post.stack@.last().as_nat() == (if n == 0 {
                    0nat
                } else {
                    (s[s.len() - 1].as_nat() * s[s.len() - 2].as_nat()) % n
                })
            }),
        Opcode::EXP => !redirected && (frame_pops_push(pre, post, 2, 10) && post.stack@.last().as_nat() == vstd::arithmetic::power::pow(
                pre.stack@[pre.stack@.len() - 2].as_nat() as int,
                pre.stack@.last().as_nat(),
            ) % (pow2(256) as int)),
        Opcode::SIGNEXTEND => !redirected && (frame_pops_push(pre, post, 2, 5) && post.stack@.last().as_nat() == sext_spec(
                pre.stack@[pre.stack@.len() - 2],
                pre.stack@.last(),
            )),
        Opcode::LT => !redirected && (frame_pops_push(pre, post, 2, 3) && post.stack@.last().as_nat() == (if pre.stack@[pre.stack@.len() - 2].as_nat()
                < pre.stack@.last().as_nat() {
                1nat
            } else {
                0nat
            })),
        Opcode::GT => !redirected && (frame_pops_push(pre, post, 2, 3) && post.stack@.last().as_nat() == (if pre.stack@[pre.stack@.len() - 2].as_nat()
                > pre.stack@.last().as_nat() {
                1nat
            } else {
                0nat
            })),
        Opcode::SLT => !redirected && (frame_pops_push(pre, post, 2, 3) && post.stack@.last().as_nat() == (if pre.stack@[pre.stack@.len()
                - 2].sign_val() < pre.stack@.last().sign_val() {
                1nat
            } else {
                0nat
            })),
        Opcode::SGT => !redirected && (frame_pops_push(pre, post, 2, 3) && post.stack@.last().as_nat() == (if pre.stack@[pre.stack@.len()
                - 2].sign_val() > pre.stack@.last().sign_val() {
                1nat
            } else {
                0nat
            })),
        Opcode::EQ => !redirected && (frame_pops_push(pre, post, 2, 3) && post.stack@.last().as_nat() == (if pre.stack@[pre.stack@.len() - 2].as_nat()
                == pre.stack@.last().as_nat() {
                1nat
            } else {
                0nat
            })),
        Opcode::ISZERO => !redirected && (frame_pops_push(pre, post, 1, 3) && post.stack@.last().as_nat() == (if pre.stack@.last().as_nat() == 0 {
                1nat
            } else {
                0nat
            })),
        Opcode::AND => !redirected && (frame_pops_push(pre, post, 2, 3) && {
                let a = pre.stack@.last();
                let b = pre.stack@[pre.stack@.len() - 2];
                let c = post.stack@.last();
                c.w0 == (b.w0 & a.w0) && c.w1 == (b.w1 & a.w1) && c.w2 == (b.w2 & a.w2) && c.w3
                    == (b.w3 & a.w3)
            }),
        Opcode::OR => !redirected && (frame_pops_push(pre, post, 2, 3) && {
                let a = pre.stack@.last();
                let b = pre.stack@[pre.stack@.len() - 2];
                let c = post.stack@.last();
                c.w0 == (b.w0 | a.w0) && c.w1 == (b.w1 | a.w1) && c.w2 == (b.w2 | a.w2) && c.w3
                    == (b.w3 | a.w3)
            }),
        Opcode::XOR => !redirected && (frame_pops_push(pre, post, 2, 3) && {
                let a = pre.stack@.last();
                let b = pre.stack@[pre.stack@.len() - 2];
                let c = post.stack@.last();
                c.w0 == (b.w0 ^ a.w0) && c.w1 == (b.w1 ^ a.w1) && c.w2 == (b.w2 ^ a.w2) && c.w3
                    == (b.w3 ^ a.w3)
            }),
        Opcode::NOT => !redirected && (frame_pops_push(pre, post, 1, 3) && post.stack@.last().as_nat() == pow2(256) - 1 - pre.stack@.last().as_nat()),
        Opcode::BYTE => !redirected && (frame_pops_push(pre, post, 2, 3) && {
                let i = pre.stack@.last().as_nat();
                let x = pre.stack@[pre.stack@.len() - 2].as_nat();
                post.stack@.last().as_nat() == (if i >= 32 {
                    0nat
                } else {
                    (x / pow2((8 * (31 - i)) as nat)) % 256
                })
            }),
        Opcode::SHL => !redirected && (frame_pops_push(pre, post, 2, 3) && {
                let sh = pre.stack@.last().as_nat();
                let x = pre.stack@[pre.stack@.len() - 2].as_nat();
                post.stack@.last().as_nat() == (if sh >= 256 {
                    0nat
                } else {
                    (x * pow2(sh)) % pow2(256)
                })
            }),
        Opcode::SHR => !redirected && (frame_pops_push(pre, post, 2, 3) && {
                let sh = pre.stack@.last().as_nat();
                let x = pre.stack@[pre.stack@.len() - 2].as_nat();
                post.stack@.last().as_nat() == (if sh >= 256 {
                    0nat
                } else {
                    x / pow2(sh)
                })
            }),
        Opcode::SAR => !redirected && (frame_pops_push(pre, post, 2, 3) && {
                let sh = pre.stack@.last().as_nat();
                let x = pre.stack@[pre.stack@.len() - 2].as_nat();
                post.stack@.last().as_nat() == (if x < pow2(255) {
                    if sh >= 256 {
                        0nat
                    } else {
                        x / pow2(sh)
                    }
                } else {
                    if sh >= 256 {
                        (pow2(256) - 1) as nat
                    } else {
                        (pow2(256) - 1 - ((pow2(256) - 1 - x) / (pow2(sh) as int))) as nat
                    }
                })
            }),
        Opcode::KECCAK256 => !redirected && ({
                let s = pre.stack@;
                let off = s.last().as_nat();
                let sz = s[s.len() - 2].as_nat();
                &&& s.len() >= 2
                &&& off + sz <= usize::MAX
                &&& post.stack@.len() == s.len() - 1
                &&& post.stack@ == s.subrange(0, s.len() - 2).push(
                    post.stack@.last(),
                )
                &&& post.stack@.last().as_nat() == be_val(
                    crate::keccak::keccak_of(
                        post.memory@.subrange(off as int, (off + sz) as int),
                    ),
                )
                &&& mem_grown(pre.memory@, post.memory@, (off + sz) as nat)
                &&& post.gas < pre.gas
                &&& post.gas == pre.gas - 30 - (mem_cost(
                    crate::memory::grown_len(pre.memory@.len(), (off + sz) as nat) / 32,
                ) - mem_cost(pre.memory@.len() / 32))
                &&& only_stack_gas_mem_changed(pre, post)
            }),
        Opcode::ADDRESS => !redirected && ({
                &&& pre.stack@.len() < 1024
                &&& pre.gas >= 2
                &&& post.gas == pre.gas - 2
                &&& post.stack@ == pre.stack@.push(post.stack@.last())
                &&& post.stack@.last().as_nat() == be_val(pre.sender@)
                &&& only_stack_gas_changed(pre, post)
            }),
        Opcode::BALANCE => !redirected && (frame_pops_push(pre, post, 1, 2600) && post.stack@.last().as_nat() == 0),
        Opcode::ORIGIN => !redirected && ({
                &&& pre.stack@.len() < 1024
                &&& pre.gas >= 2
                &&& post.gas == pre.gas - 2
                &&& post.stack@ == pre.stack@.push(post.stack@.last())
                &&& post.stack@.last().as_nat() == be_val(pre.sender@)
                &&& only_stack_gas_changed(pre, post)
            }),
        Opcode::CALLER => !redirected && ({
                &&& pre.stack@.len() < 1024
                &&& pre.gas >= 2
                &&& post.gas == pre.gas - 2
                &&& post.stack@ == pre.stack@.push(post.stack@.last())
                &&& post.stack@.last().as_nat() == be_val(pre.sender@)
                &&& only_stack_gas_changed(pre, post)
            }),
        Opcode::CALLVALUE => !redirected && ({
                &&& pre.stack@.len() < 1024
                &&& pre.gas >= 2
                &&& post.gas == pre.gas - 2
                &&& post.stack@ == pre.stack@.push(post.stack@.last())
                &&& post.stack@.last().as_nat() == pre.value
                &&& only_stack_gas_changed(pre, post)
            }),
        Opcode::CALLDATALOAD => !redirected && (frame_pops_push(pre, post, 1, 3) && post.stack@.last().as_nat() == be_val(
                padded_slice(pre.call_data@, pre.stack@.last().as_nat(), 32),
            )),
        Opcode::CALLDATASIZE => !redirected && ({
                &&& pre.stack@.len() < 1024
                &&& pre.gas >= 2
                &&& post.gas == pre.gas - 2
                &&& post.stack@ == pre.stack@.push(post.stack@.last())
                &&& post.stack@.last().as_nat() == pre.call_data@.len()
                &&& only_stack_gas_changed(pre, post)
            }),
        Opcode::CALLDATACOPY => !redirected && ({
                let s = pre.stack@;
                let dest = s.last().as_nat();
                let off = s[s.len() - 2].as_nat();
                let sz = s[s.len() - 3].as_nat();
                &&& s.len() >= 3
                &&& dest + sz <= usize::MAX
                &&& post.stack@ == s.subrange(0, s.len() - 3)
                &&& post.memory@.len() == crate::memory::grown_len(
                    pre.memory@.len(),
                    (dest + sz) as nat,
                )
                &&& post.memory@.subrange(dest as int, (dest + sz) as int) == padded_slice(
                    pre.call_data@,
                    off,
                    sz,
                )
                &&& forall|j: int|
                    0 <= j < pre.memory@.len() && !(dest <= j < dest + sz) ==> post.memory@[j] == pre.memory@[j]
                &&& post.gas < pre.gas
                &&& post.gas == pre.gas - 3 - 3 * ((sz + 31) / 32) - (mem_cost(
                    crate::memory::grown_len(pre.memory@.len(), (dest + sz) as nat) / 32,
                ) - mem_cost(pre.memory@.len() / 32))
                &&& only_stack_gas_mem_changed(pre, post)
            }),
        Opcode::CODESIZE => !redirected && ({
                &&& pre.stack@.len() < 1024
                &&& pre.gas >= 2
                &&& post.gas == pre.gas - 2
                &&& post.stack@ == pre.stack@.push(post.stack@.last())
                &&& post.stack@.last().as_nat() == pre.program@.len()
                &&& only_stack_gas_changed(pre, post)
            }),
        Opcode::CODECOPY => !redirected && ({
                let s = pre.stack@;
                let dest = s.last().as_nat();
                let off = s[s.len() - 2].as_nat();
                let sz = s[s.len() - 3].as_nat();
                &&& s.len() >= 3
                &&& dest + sz <= usize::MAX
                &&& post.stack@ == s.subrange(0, s.len() - 3)
                &&& post.memory@.len() == crate::memory::grown_len(
                    pre.memory@.len(),
                    (dest + sz) as nat,
                )
                &&& post.memory@.subrange(dest as int, (dest + sz) as int) == padded_slice(
                    pre.program@,
                    off,
                    sz,
                )
                &&& forall|j: int|
                    0 <= j < pre.memory@.len() && !(dest <= j < dest + sz) ==> post.memory@[j] == pre.memory@[j]
                &&& post.gas < pre.gas
                &&& post.gas == pre.gas - 3 - 3 * ((sz + 31) / 32) - (mem_cost(
                    crate::memory::grown_len(pre.memory@.len(), (dest + sz) as nat) / 32,
                ) - mem_cost(pre.memory@.len() / 32))
                &&& only_stack_gas_mem_changed(pre, post)
            }),
        Opcode::GASPRICE => !redirected && ({
                &&& pre.stack@.len() < 1024
                &&& pre.gas >= 2
                &&& post.gas == pre.gas - 2
                &&& post.stack@ == pre.stack@.push(post.stack@.last())
                &&& post.stack@.last().as_nat() == 0
                &&& only_stack_gas_changed(pre, post)
            }),
        Opcode::EXTCODESIZE => !redirected && (frame_pops_push(pre, post, 1, 2600) && post.stack@.last().as_nat() == 0),
        Opcode::EXTCODECOPY => !redirected && ({
                let s = pre.stack@;
                let dest = s[s.len() - 2].as_nat();
                let sz = s[s.len() - 4].as_nat();
                &&& s.len() >= 4
                &&& dest + sz <= usize::MAX
                &&& post.stack@ == s.subrange(0, s.len() - 4)
                &&& post.memory@.len() == crate::memory::grown_len(
                    pre.memory@.len(),
                    (dest + sz) as nat,
                )
                &&& forall|j: int|
                    dest <= j < dest + sz ==> post.memory@[j] == 0
                &&& forall|j: int|
                    0 <= j < pre.memory@.len() && !(dest <= j < dest + sz) ==> post.memory@[j] == pre.memory@[j]
                &&& post.gas < pre.gas
                &&& post.gas == pre.gas - 2600 - 3 * ((sz + 31) / 32) - (mem_cost(
                    crate::memory::grown_len(pre.memory@.len(), (dest + sz) as nat) / 32,
                ) - mem_cost(pre.memory@.len() / 32))
                &&& only_stack_gas_mem_changed(pre, post)
            }),
        Opcode::RETURNDATASIZE => !redirected && ({
                &&& pre.stack@.len() < 1024
                &&& pre.gas >= 2
                &&& post.gas == pre.gas - 2
                &&& post.stack@ == pre.stack@.push(post.stack@.last())
                &&& post.stack@.last().as_nat() == pre.return_data@.len()
                &&& only_stack_gas_changed(pre, post)
            }),
        Opcode::RETURNDATACOPY => !redirected && ({
                let s = pre.stack@;
                let dest = s.last().as_nat();
                let off = s[s.len() - 2].as_nat();
                let sz = s[s.len() - 3].as_nat();
                &&& s.len() >= 3
                &&& dest + sz <= usize::MAX
                &&& post.stack@ == s.subrange(0, s.len() - 3)
                &&& post.memory@.len() == crate::memory::grown_len(
                    pre.memory@.len(),
                    (dest + sz) as nat,
                )
                &&& post.memory@.subrange(dest as int, (dest + sz) as int) == padded_slice(
                    pre.return_data@,
                    off,
                    sz,
                )
                &&& forall|j: int|
                    0 <= j < pre.memory@.len() && !(dest <= j < dest + sz) ==> post.memory@[j] == pre.memory@[j]
                &&& post.gas < pre.gas
                &&& post.gas == pre.gas - 3 - 3 * ((sz + 31) / 32) - (mem_cost(
                    crate::memory::grown_len(pre.memory@.len(), (dest + sz) as nat) / 32,
                ) - mem_cost(pre.memory@.len() / 32))
                &&& only_stack_gas_mem_changed(pre, post)
            }),
        Opcode::EXTCODEHASH => !redirected && (frame_pops_push(pre, post, 1, 2600) && post.stack@.last().as_nat() == 0),
        Opcode::BLOCKHASH => !redirected && (frame_pops_push(pre, post, 1, 20) && post.stack@.last().as_nat() == 0),
        Opcode::COINBASE => !redirected && ({
                &&& pre.stack@.len() < 1024
                &&& pre.gas >= 2
                &&& post.gas == pre.gas - 2
                &&& post.stack@ == pre.stack@.push(post.stack@.last())
                &&& post.stack@.last().as_nat() == 0
                &&& only_stack_gas_changed(pre, post)
            }),
        Opcode::POP => !redirected && ({
                &&& pre.stack@.len() >= 1
                &&& pre.gas >= 2
                &&& post.gas == pre.gas - 2
                &&& post.stack@ == pre.stack@.subrange(
                    0,
                    pre.stack@.len() - 1,
                )
                &&& only_stack_gas_changed(pre, post)
            }),
        Opcode::MLOAD => !redirected && ({
                let s = pre.stack@;
                let addr = s.last().as_nat();
                let delta = mem_cost(
                    crate::memory::grown_len(pre.memory@.len(), (addr + 32) as nat) / 32,
                ) - mem_cost(pre.memory@.len() / 32);
                &&& s.len() >= 1
                &&& addr + 32 <= usize::MAX
                &&& delta >= 0
                &&& pre.gas >= 3 + delta
                &&& post.gas < pre.gas
                &&& post.gas == pre.gas - 3 - delta
                &&& post.stack@ == s.subrange(0, s.len() - 1).push(
                    post.stack@.last(),
                )
                &&& post.stack@.len() == s.len()
                &&& post.stack@.last().as_nat() == be_val(
                    post.memory@.subrange(addr as int, (addr + 32) as int),
                )
                &&& mem_grown(pre.memory@, post.memory@, (addr + 32) as nat)
                &&& only_stack_gas_mem_changed(pre, post)
            }),
        Opcode::MSTORE => !redirected && ({
                let s = pre.stack@;
                let addr = s.last().as_nat();
                let val = s[s.len() - 2].as_nat();
                let delta = mem_cost(
                    crate::memory::grown_len(pre.memory@.len(), (addr + 32) as nat) / 32,
                ) - mem_cost(pre.memory@.len() / 32);
                &&& s.len() >= 2
                &&& addr + 32 <= usize::MAX
                &&& delta >= 0
                &&& pre.gas >= 3 + delta
                &&& post.gas < pre.gas
                &&& post.gas == pre.gas - 3 - delta
                &&& post.stack@ == s.subrange(0, s.len() - 2)
                &&& post.memory@.len() == crate::memory::grown_len(
                    pre.memory@.len(),
                    (addr + 32) as nat,
                )
                &&& be_val(post.memory@.subrange(addr as int, (addr + 32) as int)) == val
                &&& forall|j: int|
                    0 <= j < pre.memory@.len() && !(addr <= j < addr + 32) ==> post.memory@[j] == pre.memory@[j]
                &&& forall|j: int|
                    pre.memory@.len() <= j < post.memory@.len() && !(addr <= j < addr
                        + 32) ==> post.memory@[j] == 0
                &&& only_stack_gas_mem_changed(pre, post)
            }),
        Opcode::MSTORE8 => !redirected && ({
                let s = pre.stack@;
                let addr = s.last().as_nat();
                let val = s[s.len() - 2].as_nat();
                let delta = mem_cost(
                    crate::memory::grown_len(pre.memory@.len(), (addr + 1) as nat) / 32,
                ) - mem_cost(pre.memory@.len() / 32);
                &&& s.len() >= 2
                &&& addr + 1 <= usize::MAX
                &&& delta >= 0
                &&& pre.gas >= 3 + delta
                &&& post.gas < pre.gas
                &&& post.gas == pre.gas - 3 - delta
                &&& post.stack@ == s.subrange(0, s.len() - 2)
                &&& post.memory@.len() == crate::memory::grown_len(
                    pre.memory@.len(),
                    (addr + 1) as nat,
                )
                &&& post.memory@[addr as int] == val % 256
                &&& forall|j: int|
                    0 <= j < pre.memory@.len() && j != addr ==> post.memory@[j]
                        == pre.memory@[j]
                &&& forall|j: int|
                    pre.memory@.len() <= j < post.memory@.len() && j != addr
                        ==> post.memory@[j] == 0
                &&& only_stack_gas_mem_changed(pre, post)
            }),
        Opcode::SLOAD => !redirected && ({
                let s = pre.stack@;
                let key = s.last().as_nat() % pow2(64);
                let cost: nat = if pre.storage.warm(key as u64) {
                    100nat
                } else {
                    2100nat
                };
                &&& s.len() >= 1
                &&& pre.gas >= cost
                &&& post.gas == pre.gas - cost
                &&& post.stack@.len() == s.len()
                &&& post.stack@ == s.subrange(0, s.len() - 1).push(
                    post.stack@.last(),
                )
                &&& post.stack@.last().as_nat() == pre.storage.val(key as u64)
                &&& post.storage.warm(key as u64)
                &&& forall|k: u64|
                    k != key as u64 ==> post.storage.warm(k) == pre.storage.warm(k)
                &&& forall|k: u64| post.storage.val(k) == pre.storage.val(k)
                &&& only_stack_gas_storage_changed(pre, post)
            }),
        Opcode::SSTORE => !redirected && ({
                let s = pre.stack@;
                let key = (s.last().as_nat() % pow2(64)) as u64;
                &&& s.len() >= 2
                &&& pre.gas >= 20
                &&& post.gas == pre.gas - 20
                &&& post.stack@ == s.subrange(0, s.len() - 2)
                &&& post.storage.val(key) == s[s.len() - 2].as_nat()
                &&& forall|k: u64|
                    k != key ==> post.storage.val(k) == pre.storage.val(k)
                &&& post.storage.warm(key)
                &&& forall|k: u64|
                    k != key ==> post.storage.warm(k) == pre.storage.warm(k)
                &&& only_stack_gas_storage_changed(pre, post)
            }),
        Opcode::PC => !redirected && ({
                &&& pre.stack@.len() < 1024
                &&& pre.gas >= 2
                &&& post.gas == pre.gas - 2
                &&& post.stack@ == pre.stack@.push(post.stack@.last())
                &&& post.stack@.last().as_nat() == pre.pc
                &&& only_stack_gas_changed(pre, post)
            }),
        Opcode::JUMPDEST => !redirected && (pre.gas >= 1 && post.gas == pre.gas - 1 && post.stack == pre.stack && only_stack_gas_changed(pre, post)),
        Opcode::TLOAD => !redirected && ({
                let s = pre.stack@;
                let key = (s.last().as_nat() % pow2(64)) as u64;
                &&& frame_pops_push(pre, post, 1, 100)
                &&& post.stack@.last().as_nat() == pre.transient.val(key)
            }),
        Opcode::TSTORE => !redirected && ({
                let s = pre.stack@;
                let key = (s[s.len() - 2].as_nat() % pow2(64)) as u64;
                &&& s.len() >= 2
                &&& pre.gas >= 100
                &&& post.gas == pre.gas - 100
                &&& post.stack@ == s.subrange(0, s.len() - 2)
                &&& post.transient.val(key) == s.last().as_nat()
                &&& forall|k: u64|
                    k != key ==> post.transient.val(k) == pre.transient.val(k)
                &&& only_stack_gas_transient_changed(pre, post)
            }),
        Opcode::PUSH1 => !redirected && ({
                &&& pre.stack@.len() < 1024
                &&& pre.gas >= 3
                &&& post.gas == pre.gas - 3
                &&& post.stack@ == pre.stack@.push(post.stack@.last())
                &&& post.stack@.last().as_nat() == be_val(
                    push_imm(pre.program@, pre.pc as nat, 1 as nat),
                )
                &&& post.pc == pre.pc + 1
                &&& only_stack_gas_pc_changed(pre, post)
            }),
        Opcode::PUSH2 => !redirected && ({
                &&& pre.stack@.len() < 1024
                &&& pre.gas >= 3
                &&& post.gas == pre.gas - 3
                &&& post.stack@ == pre.stack@.push(post.stack@.last())
                &&& post.stack@.last().as_nat() == be_val(
                    push_imm(pre.program@, pre.pc as nat, 2 as nat),
                )
                &&& post.pc == pre.pc + 2
                &&& only_stack_gas_pc_changed(pre, post)
            }),
        Opcode::PUSH3 => !redirected && ({
                &&& pre.stack@.len() < 1024
                &&& pre.gas >= 3
                &&& post.gas == pre.gas - 3
                &&& post.stack@ == pre.stack@.push(post.stack@.last())
                &&& post.stack@.last().as_nat() == be_val(
                    push_imm(pre.program@, pre.pc as nat, 3 as nat),
                )
                &&& post.pc == pre.pc + 3
                &&& only_stack_gas_pc_changed(pre, post)
            }),
        Opcode::PUSH4 => !redirected && ({
                &&& pre.stack@.len() < 1024
                &&& pre.gas >= 3
                &&& post.gas == pre.gas - 3
                &&& post.stack@ == pre.stack@.push(post.stack@.last())
                &&& post.stack@.last().as_nat() == be_val(
                    push_imm(pre.program@, pre.pc as nat, 4 as nat),
                )
                &&& post.pc == pre.pc + 4
                &&& only_stack_gas_pc_changed(pre, post)
            }),
        Opcode::PUSH5 => !redirected && ({
                &&& pre.stack@.len() < 1024
                &&& pre.gas >= 3
                &&& post.gas == pre.gas - 3
                &&& post.stack@ == pre.stack@.push(post.stack@.last())
                &&& post.stack@.last().as_nat() == be_val(
                    push_imm(pre.program@, pre.pc as nat, 5 as nat),
                )
                &&& post.pc == pre.pc + 5
                &&& only_stack_gas_pc_changed(pre, post)
            }),
        Opcode::PUSH6 => !redirected && ({
                &&& pre.stack@.len() < 1024
                &&& pre.gas >= 3
                &&& post.gas == pre.gas - 3
                &&& post.stack@ == pre.stack@.push(post.stack@.last())
                &&& post.stack@.last().as_nat() == be_val(
                    push_imm(pre.program@, pre.pc as nat, 6 as nat),
                )
                &&& post.pc == pre.pc + 6
                &&& only_stack_gas_pc_changed(pre, post)
            }),
        Opcode::PUSH7 => !redirected && ({
                &&& pre.stack@.len() < 1024
                &&& pre.gas >= 3
                &&& post.gas == pre.gas - 3
                &&& post.stack@ == pre.stack@.push(post.stack@.last())
                &&& post.stack@.last().as_nat() == be_val(
                    push_imm(pre.program@, pre.pc as nat, 7 as nat),
                )
                &&& post.pc == pre.pc + 7
                &&& only_stack_gas_pc_changed(pre, post)
            }),
        Opcode::PUSH8 => !redirected && ({
                &&& pre.stack@.len() < 1024
                &&& pre.gas >= 3
                &&& post.gas == pre.gas - 3
                &&& post.stack@ == pre.stack@.push(post.stack@.last())
                &&& post.stack@.last().as_nat() == be_val(
                    push_imm(pre.program@, pre.pc as nat, 8 as nat),
                )
                &&& post.pc == pre.pc + 8
                &&& only_stack_gas_pc_changed(pre, post)
            }),
        Opcode::PUSH9 => !redirected && ({
                &&& pre.stack@.len() < 1024
                &&& pre.gas >= 3
                &&& post.gas == pre.gas - 3
                &&& post.stack@ == pre.stack@.push(post.stack@.last())
                &&& post.stack@.last().as_nat() == be_val(
                    push_imm(pre.program@, pre.pc as nat, 9 as nat),
                )
                &&& post.pc == pre.pc + 9
                &&& only_stack_gas_pc_changed(pre, post)
            }),
        Opcode::PUSH10 => !redirected && ({
                &&& pre.stack@.len() < 1024
                &&& pre.gas >= 3
                &&& post.gas == pre.gas - 3
                &&& post.stack@ == pre.stack@.push(post.stack@.last())
                &&& post.stack@.last().as_nat() == be_val(
                    push_imm(pre.program@, pre.pc as nat, 10 as nat),
                )
                &&& post.pc == pre.pc + 10
                &&& only_stack_gas_pc_changed(pre, post)
            }),
        Opcode::PUSH11 => !redirected && ({
                &&& pre.stack@.len() < 1024
                &&& pre.gas >= 3
                &&& post.gas == pre.gas - 3
                &&& post.stack@ == pre.stack@.push(post.stack@.last())
                &&& post.stack@.last().as_nat() == be_val(
                    push_imm(pre.program@, pre.pc as nat, 11 as nat),
                )
                &&& post.pc == pre.pc + 11
                &&& only_stack_gas_pc_changed(pre, post)
            }),
        Opcode::PUSH12 => !redirected && ({
                &&& pre.stack@.len() < 1024
                &&& pre.gas >= 3
                &&& post.gas == pre.gas - 3
                &&& post.stack@ == pre.stack@.push(post.stack@.last())
                &&& post.stack@.last().as_nat() == be_val(
                    push_imm(pre.program@, pre.pc as nat, 12 as nat),
                )
                &&& post.pc == pre.pc + 12
                &&& only_stack_gas_pc_changed(pre, post)
            }),
        Opcode::PUSH13 => !redirected && ({
                &&& pre.stack@.len() < 1024
                &&& pre.gas >= 3
                &&& post.gas == pre.gas - 3
                &&& post.stack@ == pre.stack@.push(post.stack@.last())
                &&& post.stack@.last().as_nat() == be_val(
                    push_imm(pre.program@, pre.pc as nat, 13 as nat),
                )
                &&& post.pc == pre.pc + 13
                &&& only_stack_gas_pc_changed(pre, post)
            }),
        Opcode::PUSH14 => !redirected && ({
                &&& pre.stack@.len() < 1024
                &&& pre.gas >= 3
                &&& post.gas == pre.gas - 3
                &&& post.stack@ == pre.stack@.push(post.stack@.last())
                &&& post.stack@.last().as_nat() == be_val(
                    push_imm(pre.program@, pre.pc as nat, 14 as nat),
                )
                &&& post.pc == pre.pc + 14
                &&& only_stack_gas_pc_changed(pre, post)
            }),
        Opcode::PUSH15 => !redirected && ({
                &&& pre.stack@.len() < 1024
                &&& pre.gas >= 3
                &&& post.gas == pre.gas - 3
                &&& post.stack@ == pre.stack@.push(post.stack@.last())
                &&& post.stack@.last().as_nat() == be_val(
                    push_imm(pre.program@, pre.pc as nat, 15 as nat),
                )
                &&& post.pc == pre.pc + 15
                &&& only_stack_gas_pc_changed(pre, post)
            }),
        Opcode::PUSH16 => !redirected && ({
                &&& pre.stack@.len() < 1024
                &&& pre.gas >= 3
                &&& post.gas == pre.gas - 3
                &&& post.stack@ == pre.stack@.push(post.stack@.last())
                &&& post.stack@.last().as_nat() == be_val(
                    push_imm(pre.program@, pre.pc as nat, 16 as nat),
                )
                &&& post.pc == pre.pc + 16
                &&& only_stack_gas_pc_changed(pre, post)
            }),
        Opcode::PUSH17 => !redirected && ({
                &&& pre.stack@.len() < 1024
                &&& pre.gas >= 3
                &&& post.gas == pre.gas - 3
                &&& post.stack@ == pre.stack@.push(post.stack@.last())
                &&& post.stack@.last().as_nat() == be_val(
                    push_imm(pre.program@, pre.pc as nat, 17 as nat),
                )
                &&& post.pc == pre.pc + 17
                &&& only_stack_gas_pc_changed(pre, post)
            }),
        Opcode::PUSH18 => !redirected && ({
                &&& pre.stack@.len() < 1024
                &&& pre.gas >= 3
                &&& post.gas == pre.gas - 3
                &&& post.stack@ == pre.stack@.push(post.stack@.last())
                &&& post.stack@.last().as_nat() == be_val(
                    push_imm(pre.program@, pre.pc as nat, 18 as nat),
                )
                &&& post.pc == pre.pc + 18
                &&& only_stack_gas_pc_changed(pre, post)
            }),
        Opcode::PUSH19 => !redirected && ({
                &&& pre.stack@.len() < 1024
                &&& pre.gas >= 3
                &&& post.gas == pre.gas - 3
                &&& post.stack@ == pre.stack@.push(post.stack@.last())
                &&& post.stack@.last().as_nat() == be_val(
                    push_imm(pre.program@, pre.pc as nat, 19 as nat),
                )
                &&& post.pc == pre.pc + 19
                &&& only_stack_gas_pc_changed(pre, post)
            }),
        Opcode::PUSH20 => !redirected && ({
                &&& pre.stack@.len() < 1024
                &&& pre.gas >= 3
                &&& post.gas == pre.gas - 3
                &&& post.stack@ == pre.stack@.push(post.stack@.last())
                &&& post.stack@.last().as_nat() == be_val(
                    push_imm(pre.program@, pre.pc as nat, 20 as nat),
                )
                &&& post.pc == pre.pc + 20
                &&& only_stack_gas_pc_changed(pre, post)
            }),
        Opcode::PUSH21 => !redirected && ({
                &&& pre.stack@.len() < 1024
                &&& pre.gas >= 3
                &&& post.gas == pre.gas - 3
                &&& post.stack@ == pre.stack@.push(post.stack@.last())
                &&& post.stack@.last().as_nat() == be_val(
                    push_imm(pre.program@, pre.pc as nat, 21 as nat),
                )
                &&& post.pc == pre.pc + 21
                &&& only_stack_gas_pc_changed(pre, post)
            }),
        Opcode::PUSH22 => !redirected && ({
                &&& pre.stack@.len() < 1024
                &&& pre.gas >= 3
                &&& post.gas == pre.gas - 3
                &&& post.stack@ == pre.stack@.push(post.stack@.last())
                &&& post.stack@.last().as_nat() == be_val(
                    push_imm(pre.program@, pre.pc as nat, 22 as nat),
                )
                &&& post.pc == pre.pc + 22
                &&& only_stack_gas_pc_changed(pre, post)
            }),
        Opcode::PUSH23 => !redirected && ({
                &&& pre.stack@.len() < 1024
                &&& pre.gas >= 3
                &&& post.gas == pre.gas - 3
                &&& post.stack@ == pre.stack@.push(post.stack@.last())
                &&& post.stack@.last().as_nat() == be_val(
                    push_imm(pre.program@, pre.pc as nat, 23 as nat),
                )
                &&& post.pc == pre.pc + 23
                &&& only_stack_gas_pc_changed(pre, post)
            }),
        Opcode::PUSH24 => !redirected && ({
                &&& pre.stack@.len() < 1024
                &&& pre.gas >= 3
                &&& post.gas == pre.gas - 3
                &&& post.stack@ == pre.stack@.push(post.stack@.last())
                &&& post.stack@.last().as_nat() == be_val(
                    push_imm(pre.program@, pre.pc as nat, 24 as nat),
                )
                &&& post.pc == pre.pc + 24
                &&& only_stack_gas_pc_changed(pre, post)
            }),
        Opcode::PUSH25 => !redirected && ({
                &&& pre.stack@.len() < 1024
                &&& pre.gas >= 3
                &&& post.gas == pre.gas - 3
                &&& post.stack@ == pre.stack@.push(post.stack@.last())
                &&& post.stack@.last().as_nat() == be_val(
                    push_imm(pre.program@, pre.pc as nat, 25 as nat),
                )
                &&& post.pc == pre.pc + 25
                &&& only_stack_gas_pc_changed(pre, post)
            }),
        Opcode::PUSH26 => !redirected && ({
                &&& pre.stack@.len() < 1024
                &&& pre.gas >= 3
                &&& post.gas == pre.gas - 3
                &&& post.stack@ == pre.stack@.push(post.stack@.last())
                &&& post.stack@.last().as_nat() == be_val(
                    push_imm(pre.program@, pre.pc as nat, 26 as nat),
                )
                &&& post.pc == pre.pc + 26
                &&& only_stack_gas_pc_changed(pre, post)
            }),
        Opcode::PUSH27 => !redirected && ({
                &&& pre.stack@.len() < 1024
                &&& pre.gas >= 3
                &&& post.gas == pre.gas - 3
                &&& post.stack@ == pre.stack@.push(post.stack@.last())
                &&& post.stack@.last().as_nat() == be_val(
                    push_imm(pre.program@, pre.pc as nat, 27 as nat),
                )
                &&& post.pc == pre.pc + 27
                &&& only_stack_gas_pc_changed(pre, post)
            }),
        Opcode::PUSH28 => !redirected && ({
                &&& pre.stack@.len() < 1024
                &&& pre.gas >= 3
                &&& post.gas == pre.gas - 3
                &&& post.stack@ == pre.stack@.push(post.stack@.last())
                &&& post.stack@.last().as_nat() == be_val(
                    push_imm(pre.program@, pre.pc as nat, 28 as nat),
                )
                &&& post.pc == pre.pc + 28
                &&& only_stack_gas_pc_changed(pre, post)
            }),
        Opcode::PUSH29 => !redirected && ({
                &&& pre.stack@.len() < 1024
                &&& pre.gas >= 3
                &&& post.gas == pre.gas - 3
                &&& post.stack@ == pre.stack@.push(post.stack@.last())
                &&& post.stack@.last().as_nat() == be_val(
                    push_imm(pre.program@, pre.pc as nat, 29 as nat),
                )
                &&& post.pc == pre.pc + 29
                &&& only_stack_gas_pc_changed(pre, post)
            }),
        Opcode::PUSH30 => !redirected && ({
                &&& pre.stack@.len() < 1024
                &&& pre.gas >= 3
                &&& post.gas == pre.gas - 3
                &&& post.stack@ == pre.stack@.push(post.stack@.last())
                &&& post.stack@.last().as_nat() == be_val(
                    push_imm(pre.program@, pre.pc as nat, 30 as nat),
                )
                &&& post.pc == pre.pc + 30
                &&& only_stack_gas_pc_changed(pre, post)
            }),
        Opcode::PUSH31 => !redirected && ({
                &&& pre.stack@.len() < 1024
                &&& pre.gas >= 3
                &&& post.gas == pre.gas - 3
                &&& post.stack@ == pre.stack@.push(post.stack@.last())
                &&& post.stack@.last().as_nat() == be_val(
                    push_imm(pre.program@, pre.pc as nat, 31 as nat),
                )
                &&& post.pc == pre.pc + 31
                &&& only_stack_gas_pc_changed(pre, post)
            }),
        Opcode::PUSH32 => !redirected && ({
                &&& pre.stack@.len() < 1024
                &&& pre.gas >= 3
                &&& post.gas == pre.gas - 3
                &&& post.stack@ == pre.stack@.push(post.stack@.last())
                &&& post.stack@.last().as_nat() == be_val(
                    push_imm(pre.program@, pre.pc as nat, 32 as nat),
                )
                &&& post.pc == pre.pc + 32
                &&& only_stack_gas_pc_changed(pre, post)
            }),
        Opcode::DUP1 => !redirected && ({
                let s = pre.stack@;
                &&& s.len() >= 1
                &&& s.len() < 1024
                &&& pre.gas >= 3
                &&& post.gas == pre.gas - 3
                &&& post.stack@ == s.push(s[s.len() - 1])
                &&& only_stack_gas_changed(pre, post)
            }),
        Opcode::DUP2 => !redirected && ({
                let s = pre.stack@;
                &&& s.len() >= 2
                &&& s.len() < 1024
                &&& pre.gas >= 3
                &&& post.gas == pre.gas - 3
                &&& post.stack@ == s.push(s[s.len() - 2])
                &&& only_stack_gas_changed(pre, post)
            }),
        Opcode::DUP3 => !redirected && ({
                let s = pre.stack@;
                &&& s.len() >= 3
                &&& s.len() < 1024
                &&& pre.gas >= 3
                &&& post.gas == pre.gas - 3
                &&& post.stack@ == s.push(s[s.len() - 3])
                &&& only_stack_gas_changed(pre, post)
            }),
        Opcode::DUP4 => !redirected && ({
                let s = pre.stack@;
                &&& s.len() >= 4
                &&& s.len() < 1024
                &&& pre.gas >= 3
                &&& post.gas == pre.gas - 3
                &&& post.stack@ == s.push(s[s.len() - 4])
                &&& only_stack_gas_changed(pre, post)
            }),
        Opcode::DUP5 => !redirected && ({
                let s = pre.stack@;
                &&& s.len() >= 5
                &&& s.len() < 1024
                &&& pre.gas >= 3
                &&& post.gas == pre.gas - 3
                &&& post.stack@ == s.push(s[s.len() - 5])
                &&& only_stack_gas_changed(pre, post)
            }),
        Opcode::DUP6 => !redirected && ({
                let s = pre.stack@;
                &&& s.len() >= 6
                &&& s.len() < 1024
                &&& pre.gas >= 3
                &&& post.gas == pre.gas - 3
                &&& post.stack@ == s.push(s[s.len() - 6])
                &&& only_stack_gas_changed(pre, post)
            }),
        Opcode::DUP7 => !redirected && ({
                let s = pre.stack@;
                &&& s.len() >= 7
                &&& s.len() < 1024
                &&& pre.gas >= 3
                &&& post.gas == pre.gas - 3
                &&& post.stack@ == s.push(s[s.len() - 7])
                &&& only_stack_gas_changed(pre, post)
            }),
        Opcode::DUP8 => !redirected && ({
                let s = pre.stack@;
                &&& s.len() >= 8
                &&& s.len() < 1024
                &&& pre.gas >= 3
                &&& post.gas == pre.gas - 3
                &&& post.stack@ == s.push(s[s.len() - 8])
                &&& only_stack_gas_changed(pre, post)
            }),
        Opcode::DUP9 => !redirected && ({
                let s = pre.stack@;
                &&& s.len() >= 9
                &&& s.len() < 1024
                &&& pre.gas >= 3
                &&& post.gas == pre.gas - 3
                &&& post.stack@ == s.push(s[s.len() - 9])
                &&& only_stack_gas_changed(pre, post)
            }),
        Opcode::DUP10 => !redirected && ({
                let s = pre.stack@;
                &&& s.len() >= 10
                &&& s.len() < 1024
                &&& pre.gas >= 3
                &&& post.gas == pre.gas - 3
                &&& post.stack@ == s.push(s[s.len() - 10])
                &&& only_stack_gas_changed(pre, post)
            }),
        Opcode::DUP11 => !redirected && ({
                let s = pre.stack@;
                &&& s.len() >= 11
                &&& s.len() < 1024
                &&& pre.gas >= 3
                &&& post.gas == pre.gas - 3
                &&& post.stack@ == s.push(s[s.len() - 11])
                &&& only_stack_gas_changed(pre, post)
            }),
        Opcode::DUP12 => !redirected && ({
                let s = pre.stack@;
                &&& s.len() >= 12
                &&& s.len() < 1024
                &&& pre.gas >= 3
                &&& post.gas == pre.gas - 3
                &&& post.stack@ == s.push(s[s.len() - 12])
                &&& only_stack_gas_changed(pre, post)
            }),
        Opcode::DUP13 => !redirected && ({
                let s = pre.stack@;
                &&& s.len() >= 13
                &&& s.len() < 1024
                &&& pre.gas >= 3
                &&& post.gas == pre.gas - 3
                &&& post.stack@ == s.push(s[s.len() - 13])
                &&& only_stack_gas_changed(pre, post)
            }),
        Opcode::DUP14 => !redirected && ({
                let s = pre.stack@;
                &&& s.len() >= 14
                &&& s.len() < 1024
                &&& pre.gas >= 3
                &&& post.gas == pre.gas - 3
                &&& post.stack@ == s.push(s[s.len() - 14])
                &&& only_stack_gas_changed(pre, post)
            }),
        Opcode::DUP15 => !redirected && ({
                let s = pre.stack@;
                &&& s.len() >= 15
                &&& s.len() < 1024
                &&& pre.gas >= 3
                &&& post.gas == pre.gas - 3
                &&& post.stack@ == s.push(s[s.len() - 15])
                &&& only_stack_gas_changed(pre, post)
            }),
        Opcode::DUP16 => !redirected && ({
                let s = pre.stack@;
                &&& s.len() >= 16
                &&& s.len() < 1024
                &&& pre.gas >= 3
                &&& post.gas == pre.gas - 3
                &&& post.stack@ == s.push(s[s.len() - 16])
                &&& only_stack_gas_changed(pre, post)
            }),
        Opcode::SWAP1 => !redirected && ({
                let s = pre.stack@;
                &&& s.len() > 1
                &&& pre.gas >= 3
                &&& post.gas == pre.gas - 3
                &&& post.stack@.len() == s.len()
                &&& post.stack@[s.len() - 1] == s[s.len() - 1 - 1]
                &&& post.stack@[s.len() - 1 - 1] == s[s.len() - 1]
                &&& forall|j: int|
                    0 <= j < s.len() && j != s.len() - 1 && j != s.len() - 1 - 1 ==> post.stack@[j] == s[j]
                &&& only_stack_gas_changed(pre, post)
            }),
        Opcode::SWAP2 => !redirected && ({
                let s = pre.stack@;
                &&& s.len() > 2
                &&& pre.gas >= 3
                &&& post.gas == pre.gas - 3
                &&& post.stack@.len() == s.len()
                &&& post.stack@[s.len() - 1] == s[s.len() - 1 - 2]
                &&& post.stack@[s.len() - 1 - 2] == s[s.len() - 1]
                &&& forall|j: int|
                    0 <= j < s.len() && j != s.len() - 1 && j != s.len() - 1 - 2 ==> post.stack@[j] == s[j]
                &&& only_stack_gas_changed(pre, post)
            }),
        Opcode::SWAP3 => !redirected && ({
                let s = pre.stack@;
                &&& s.len() > 3
                &&& pre.gas >= 3
                &&& post.gas == pre.gas - 3
                &&& post.stack@.len() == s.len()
                &&& post.stack@[s.len() - 1] == s[s.len() - 1 - 3]
                &&& post.stack@[s.len() - 1 - 3] == s[s.len() - 1]
                &&& forall|j: int|
                    0 <= j < s.len() && j != s.len() - 1 && j != s.len() - 1 - 3 ==> post.stack@[j] == s[j]
                &&& only_stack_gas_changed(pre, post)
            }),
        Opcode::SWAP4 => !redirected && ({
                let s = pre.stack@;
                &&& s.len() > 4
                &&& pre.gas >= 3
                &&& post.gas == pre.gas - 3
                &&& post.stack@.len() == s.len()
                &&& post.stack@[s.len() - 1] == s[s.len() - 1 - 4]
                &&& post.stack@[s.len() - 1 - 4] == s[s.len() - 1]
                &&& forall|j: int|
                    0 <= j < s.len() && j != s.len() - 1 && j != s.len() - 1 - 4 ==> post.stack@[j] == s[j]
                &&& only_stack_gas_changed(pre, post)
            }),
        Opcode::SWAP5 => !redirected && ({
                let s = pre.stack@;
                &&& s.len() > 5
                &&& pre.gas >= 3
                &&& post.gas == pre.gas - 3
                &&& post.stack@.len() == s.len()
                &&& post.stack@[s.len() - 1] == s[s.len() - 1 - 5]
                &&& post.stack@[s.len() - 1 - 5] == s[s.len() - 1]
                &&& forall|j: int|
                    0 <= j < s.len() && j != s.len() - 1 && j != s.len() - 1 - 5 ==> post.stack@[j] == s[j]
                &&& only_stack_gas_changed(pre, post)
            }),
        Opcode::SWAP6 => !redirected && ({
                let s = pre.stack@;
                &&& s.len() > 6
                &&& pre.gas >= 3
                &&& post.gas == pre.gas - 3
                &&& post.stack@.len() == s.len()
                &&& post.stack@[s.len() - 1] == s[s.len() - 1 - 6]
                &&& post.stack@[s.len() - 1 - 6] == s[s.len() - 1]
                &&& forall|j: int|
                    0 <= j < s.len() && j != s.len() - 1 && j != s.len() - 1 - 6 ==> post.stack@[j] == s[j]
                &&& only_stack_gas_changed(pre, post)
            }),
        Opcode::SWAP7 => !redirected && ({
                let s = pre.stack@;
                &&& s.len() > 7
                &&& pre.gas >= 3
                &&& post.gas == pre.gas - 3
                &&& post.stack@.len() == s.len()
                &&& post.stack@[s.len() - 1] == s[s.len() - 1 - 7]
                &&& post.stack@[s.len() - 1 - 7] == s[s.len() - 1]
                &&& forall|j: int|
                    0 <= j < s.len() && j != s.len() - 1 && j != s.len() - 1 - 7 ==> post.stack@[j] == s[j]
                &&& only_stack_gas_changed(pre, post)
            }),
        Opcode::SWAP8 => !redirected && ({
                let s = pre.stack@;
                &&& s.len() > 8
                &&& pre.gas >= 3
                &&& post.gas == pre.gas - 3
                &&& post.stack@.len() == s.len()
                &&& post.stack@[s.len() - 1] == s[s.len() - 1 - 8]
                &&& post.stack@[s.len() - 1 - 8] == s[s.len() - 1]
                &&& forall|j: int|
                    0 <= j < s.len() && j != s.len() - 1 && j != s.len() - 1 - 8 ==> post.stack@[j] == s[j]
                &&& only_stack_gas_changed(pre, post)
            }),
        Opcode::SWAP9 => !redirected && ({
                let s = pre.stack@;
                &&& s.len() > 9
                &&& pre.gas >= 3
                &&& post.gas == pre.gas - 3
                &&& post.stack@.len() == s.len()
                &&& post.stack@[s.len() - 1] == s[s.len() - 1 - 9]
                &&& post.stack@[s.len() - 1 - 9] == s[s.len() - 1]
                &&& forall|j: int|
                    0 <= j < s.len() && j != s.len() - 1 && j != s.len() - 1 - 9 ==> post.stack@[j] == s[j]
                &&& only_stack_gas_changed(pre, post)
            }),
        Opcode::SWAP10 => !redirected && ({
                let s = pre.stack@;
                &&& s.len() > 10
                &&& pre.gas >= 3
                &&& post.gas == pre.gas - 3
                &&& post.stack@.len() == s.len()
                &&& post.stack@[s.len() - 1] == s[s.len() - 1 - 10]
                &&& post.stack@[s.len() - 1 - 10] == s[s.len() - 1]
                &&& forall|j: int|
                    0 <= j < s.len() && j != s.len() - 1 && j != s.len() - 1 - 10 ==> post.stack@[j] == s[j]
                &&& only_stack_gas_changed(pre, post)
            }),
        Opcode::SWAP11 => !redirected && ({
                let s = pre.stack@;
                &&& s.len() > 11
                &&& pre.gas >= 3
                &&& post.gas == pre.gas - 3
                &&& post.stack@.len() == s.len()
                &&& post.stack@[s.len() - 1] == s[s.len() - 1 - 11]
                &&& post.stack@[s.len() - 1 - 11] == s[s.len() - 1]
                &&& forall|j: int|
                    0 <= j < s.len() && j != s.len() - 1 && j != s.len() - 1 - 11 ==> post.stack@[j] == s[j]
                &&& only_stack_gas_changed(pre, post)
            }),
        Opcode::SWAP12 => !redirected && ({
                let s = pre.stack@;
                &&& s.len() > 12
                &&& pre.gas >= 3
                &&& post.gas == pre.gas - 3
                &&& post.stack@.len() == s.len()
                &&& post.stack@[s.len() - 1] == s[s.len() - 1 - 12]
                &&& post.stack@[s.len() - 1 - 12] == s[s.len() - 1]
                &&& forall|j: int|
                    0 <= j < s.len() && j != s.len() - 1 && j != s.len() - 1 - 12 ==> post.stack@[j] == s[j]
                &&& only_stack_gas_changed(pre, post)
            }),
        Opcode::SWAP13 => !redirected && ({
                let s = pre.stack@;
                &&& s.len() > 13
                &&& pre.gas >= 3
                &&& post.gas == pre.gas - 3
                &&& post.stack@.len() == s.len()
                &&& post.stack@[s.len() - 1] == s[s.len() - 1 - 13]
                &&& post.stack@[s.len() - 1 - 13] == s[s.len() - 1]
                &&& forall|j: int|
                    0 <= j < s.len() && j != s.len() - 1 && j != s.len() - 1 - 13 ==> post.stack@[j] == s[j]
                &&& only_stack_gas_changed(pre, post)
            }),
        Opcode::SWAP14 => !redirected && ({
                let s = pre.stack@;
                &&& s.len() > 14
                &&& pre.gas >= 3
                &&& post.gas == pre.gas - 3
                &&& post.stack@.len() == s.len()
                &&& post.stack@[s.len() - 1] == s[s.len() - 1 - 14]
                &&& post.stack@[s.len() - 1 - 14] == s[s.len() - 1]
                &&& forall|j: int|
                    0 <= j < s.len() && j != s.len() - 1 && j != s.len() - 1 - 14 ==> post.stack@[j] == s[j]
                &&& only_stack_gas_changed(pre, post)
            }),
        Opcode::SWAP15 => !redirected && ({
                let s = pre.stack@;
                &&& s.len() > 15
                &&& pre.gas >= 3
                &&& post.gas == pre.gas - 3
                &&& post.stack@.len() == s.len()
                &&& post.stack@[s.len() - 1] == s[s.len() - 1 - 15]
                &&& post.stack@[s.len() - 1 - 15] == s[s.len() - 1]
                &&& forall|j: int|
                    0 <= j < s.len() && j != s.len() - 1 && j != s.len() - 1 - 15 ==> post.stack@[j] == s[j]
                &&& only_stack_gas_changed(pre, post)
            }),
        Opcode::SWAP16 => !redirected && ({
                let s = pre.stack@;
                &&& s.len() > 16
                &&& pre.gas >= 3
                &&& post.gas == pre.gas - 3
                &&& post.stack@.len() == s.len()
                &&& post.stack@[s.len() - 1] == s[s.len() - 1 - 16]
                &&& post.stack@[s.len() - 1 - 16] == s[s.len() - 1]
                &&& forall|j: int|
                    0 <= j < s.len() && j != s.len() - 1 && j != s.len() - 1 - 16 ==> post.stack@[j] == s[j]
                &&& only_stack_gas_changed(pre, post)
            }),
        Opcode::LOG0 => !redirected && (log_ok(pre, post, 0)),
        Opcode::LOG1 => !redirected && (log_ok(pre, post, 1)),
        Opcode::LOG2 => !redirected && (log_ok(pre, post, 2)),
        Opcode::LOG3 => !redirected && (log_ok(pre, post, 3)),
        Opcode::LOG4 => !redirected && (log_ok(pre, post, 4)),
        Opcode::RETURN => !redirected && ({
                let s = pre.stack@;
                let off = s.last().as_nat();
                let sz = s[s.len() - 2].as_nat();
                &&& s.len() >= 2
                &&& off + sz <= usize::MAX
                &&& post.stack@ == s.subrange(0, s.len() - 2)
                &&& mem_grown(pre.memory@, post.memory@, (off + sz) as nat)
                &&& post.return_data@ == post.memory@.subrange(
                    off as int,
                    (off + sz) as int,
                )
                &&& post.stop_flag
                &&& post.revert_flag == pre.revert_flag
                &&& post.gas <= pre.gas
                &&& post.gas == pre.gas - (mem_cost(
                    crate::memory::grown_len(pre.memory@.len(), (off + sz) as nat) / 32,
                ) - mem_cost(pre.memory@.len() / 32))
                &&& only_stack_gas_mem_halt_changed(pre, post)
            }),
        Opcode::REVERT => !redirected && ({
                let s = pre.stack@;
                let off = s.last().as_nat();
                let sz = s[s.len() - 2].as_nat();
                &&& s.len() >= 2
                &&& off + sz <= usize::MAX
                &&& post.stack@ == s.subrange(0, s.len() - 2)
                &&& mem_grown(pre.memory@, post.memory@, (off + sz) as nat)
                &&& post.return_data@ == post.memory@.subrange(
                    off as int,
                    (off + sz) as int,
                )
                &&& post.revert_flag
                &&& post.stop_flag == pre.stop_flag
                &&& post.gas <= pre.gas
                &&& post.gas == pre.gas - (mem_cost(
                    crate::memory::grown_len(pre.memory@.len(), (off + sz) as nat) / 32,
                ) - mem_cost(pre.memory@.len() / 32))
                &&& only_stack_gas_mem_halt_changed(pre, post)
            }),
        Opcode::JUMPI => ({
                let s = pre.stack@;
                &&& s.len() >= 2
                &&& pre.gas >= 10
                &&& post.gas == pre.gas - 10
                &&& post.stack@ == s.subrange(0, s.len() - 2)
                &&& redirected == (s[s.len() - 2].as_nat() != 0)
                &&& (redirected ==> valid_jump_target(pre.program@, s.last().as_nat())
                    && post.pc == s.last().as_nat())
                &&& (!redirected ==> post.pc == pre.pc)
                &&& only_stack_gas_pc_changed(pre, post)
            }),
        Opcode::JUMP => redirected && ({
                let s = pre.stack@;
                &&& s.len() >= 1
                &&& valid_jump_target(pre.program@, s.last().as_nat())
                &&& pre.gas >= 8
                &&& post.gas == pre.gas - 8
                &&& post.pc == s.last().as_nat()
                &&& post.stack@ == s.subrange(0, s.len() - 1)
                &&& only_stack_gas_pc_changed(pre, post)
            }),
        _ => false,
    }
}

/// When dispatching one decoded instruction fails, and with which fault,
/// opcode by opcode: each arm restates the matching handler's failure
/// conditions over the machine before the step, which the step leaves
/// untouched. The inter-contract family and the sentinel always abort as
/// an invalid opcode.
pub open spec fn dispatch_err(op: Opcode, pre: EVM, e: VmError) -> bool {
    match op {
        Opcode::STOP => false,
        Opcode::ADD => (frame_err(pre, pre, 2, 3, e)),
        Opcode::MUL => (frame_err(pre, pre, 2, 5, e)),
        Opcode::SUB => (frame_err(pre, pre, 2, 3, e)),
        Opcode::DIV => (frame_err(pre, pre, 2, 5, e)),
        Opcode::SDIV => (frame_err(pre, pre, 2, 5, e)),
        Opcode::MOD => (frame_err(pre, pre, 2, 5, e)),
        Opcode::SMOD => (frame_err(pre, pre, 2, 5, e)),
        Opcode::ADDMOD => (frame_err(pre, pre, 3, 8, e)),
        Opcode::MULMOD => (frame_err(pre, pre, 3, 8, e)),
        Opcode::EXP => (frame_err(pre, pre, 2, 10, e)),
        Opcode::SIGNEXTEND => (frame_err(pre, pre, 2, 5, e)),
        Opcode::LT => (frame_err(pre, pre, 2, 3, e)),
        Opcode::GT => (frame_err(pre, pre, 2, 3, e)),
        Opcode::SLT => (frame_err(pre, pre, 2, 3, e)),
        Opcode::SGT => (frame_err(pre, pre, 2, 3, e)),
        Opcode::EQ => (frame_err(pre, pre, 2, 3, e)),
        Opcode::ISZERO => (frame_err(pre, pre, 1, 3, e)),
        Opcode::AND => (frame_err(pre, pre, 2, 3, e)),
        Opcode::OR => (frame_err(pre, pre, 2, 3, e)),
        Opcode::XOR => (frame_err(pre, pre, 2, 3, e)),
        Opcode::NOT => (frame_err(pre, pre, 1, 3, e)),
        Opcode::BYTE => (frame_err(pre, pre, 2, 3, e)),
        Opcode::SHL => (frame_err(pre, pre, 2, 3, e)),
        Opcode::SHR => (frame_err(pre, pre, 2, 3, e)),
        Opcode::SAR => (frame_err(pre, pre, 2, 3, e)),
        Opcode::KECCAK256 => (span_err(
                pre,
                2,
                30,
                pre.stack@.last().as_nat(),
                pre.stack@[pre.stack@.len() - 2].as_nat(),
                e,
            )),
        Opcode::ADDRESS => (frame_push_err(pre, pre, 2, e)),
        Opcode::BALANCE => (frame_err(pre, pre, 1, 2600, e)),
        Opcode::ORIGIN => (frame_push_err(pre, pre, 2, e)),
        Opcode::CALLER => (frame_push_err(pre, pre, 2, e)),
        Opcode::CALLVALUE => (frame_push_err(pre, pre, 2, e)),
        Opcode::CALLDATALOAD => (frame_err(pre, pre, 1, 3, e)),
        Opcode::CALLDATASIZE => (frame_push_err(pre, pre, 2, e)),
        Opcode::CALLDATACOPY => (span_err(
                pre,
                3,
                (3 + 3 * ((pre.stack@[pre.stack@.len() - 3].as_nat() + 31) / 32)) as nat,
                pre.stack@.last().as_nat(),
                pre.stack@[pre.stack@.len() - 3].as_nat(),
                e,
            )),
        Opcode::CODESIZE => (frame_push_err(pre, pre, 2, e)),
        Opcode::CODECOPY => (span_err(
                pre,
                3,
                (3 + 3 * ((pre.stack@[pre.stack@.len() - 3].as_nat() + 31) / 32)) as nat,
                pre.stack@.last().as_nat(),
                pre.stack@[pre.stack@.len() - 3].as_nat(),
                e,
            )),
        Opcode::GASPRICE => (frame_push_err(pre, pre, 2, e)),
        Opcode::EXTCODESIZE => (frame_err(pre, pre, 1, 2600, e)),
        Opcode::EXTCODECOPY => (span_err(
                pre,
                4,
                (2600 + 3 * ((pre.stack@[pre.stack@.len() - 4].as_nat() + 31) / 32)) as nat,
                pre.stack@[pre.stack@.len() - 2].as_nat(),
                pre.stack@[pre.stack@.len() - 4].as_nat(),
                e,
            )),
        Opcode::RETURNDATASIZE => (frame_push_err(pre, pre, 2, e)),
        Opcode::RETURNDATACOPY => (span_err(
                pre,
                3,
                (3 + 3 * ((pre.stack@[pre.stack@.len() - 3].as_nat() + 31) / 32)) as nat,
                pre.stack@.last().as_nat(),
                pre.stack@[pre.stack@.len() - 3].as_nat(),
                e,
            )),
        Opcode::EXTCODEHASH => (frame_err(pre, pre, 1, 2600, e)),
        Opcode::BLOCKHASH => (frame_err(pre, pre, 1, 20, e)),
        Opcode::COINBASE => (frame_push_err(pre, pre, 2, e)),
        Opcode::POP => (frame_err(pre, pre, 1, 2, e)),
        Opcode::MLOAD => (mem_op_err(pre, 1, 3, 32, e)),
        Opcode::MSTORE => (mem_op_err(pre, 2, 3, 32, e)),
        Opcode::MSTORE8 => (mem_op_err(pre, 2, 3, 1, e)),
        Opcode::SLOAD => ((e == VmError::StackUnderflow && pre.stack@.len() < 1 || e == VmError::OutOfGas && pre.stack@.len() >= 1 && pre.gas < (if pre.storage.warm((pre.stack@.last().as_nat() % pow2(
                64,
            )) as u64) {
                100nat
            } else {
                2100nat
            }))),
        Opcode::SSTORE => (frame_err(pre, pre, 2, 20, e)),
        Opcode::PC => (frame_push_err(pre, pre, 2, e)),
        Opcode::JUMPDEST => (e == VmError::OutOfGas && pre.gas < 1),
        Opcode::TLOAD => (frame_err(pre, pre, 1, 100, e)),
        Opcode::TSTORE => (frame_err(pre, pre, 2, 100, e)),
        Opcode::PUSH1 => (frame_push_err(pre, pre, 3, e)),
        Opcode::PUSH2 => (frame_push_err(pre, pre, 3, e)),
        Opcode::PUSH3 => (frame_push_err(pre, pre, 3, e)),
        Opcode::PUSH4 => (frame_push_err(pre, pre, 3, e)),
        Opcode::PUSH5 => (frame_push_err(pre, pre, 3, e)),
        Opcode::PUSH6 => (frame_push_err(pre, pre, 3, e)),
        Opcode::PUSH7 => (frame_push_err(pre, pre, 3, e)),
        Opcode::PUSH8 => (frame_push_err(pre, pre, 3, e)),
        Opcode::PUSH9 => (frame_push_err(pre, pre, 3, e)),
        Opcode::PUSH10 => (frame_push_err(pre, pre, 3, e)),
        Opcode::PUSH11 => (frame_push_err(pre, pre, 3, e)),
        Opcode::PUSH12 => (frame_push_err(pre, pre, 3, e)),
        Opcode::PUSH13 => (frame_push_err(pre, pre, 3, e)),
        Opcode::PUSH14 => (frame_push_err(pre, pre, 3, e)),
        Opcode::PUSH15 => (frame_push_err(pre, pre, 3, e)),
        Opcode::PUSH16 => (frame_push_err(pre, pre, 3, e)),
        Opcode::PUSH17 => (frame_push_err(pre, pre, 3, e)),
        Opcode::PUSH18 => (frame_push_err(pre, pre, 3, e)),
        Opcode::PUSH19 => (frame_push_err(pre, pre, 3, e)),
        Opcode::PUSH20 => (frame_push_err(pre, pre, 3, e)),
        Opcode::PUSH21 => (frame_push_err(pre, pre, 3, e)),
        Opcode::PUSH22 => (frame_push_err(pre, pre, 3, e)),
        Opcode::PUSH23 => (frame_push_err(pre, pre, 3, e)),
        Opcode::PUSH24 => (frame_push_err(pre, pre, 3, e)),
        Opcode::PUSH25 => (frame_push_err(pre, pre, 3, e)),
        Opcode::PUSH26 => (frame_push_err(pre, pre, 3, e)),
        Opcode::PUSH27 => (frame_push_err(pre, pre, 3, e)),
        Opcode::PUSH28 => (frame_push_err(pre, pre, 3, e)),
        Opcode::PUSH29 => (frame_push_err(pre, pre, 3, e)),
        Opcode::PUSH30 => (frame_push_err(pre, pre, 3, e)),
        Opcode::PUSH31 => (frame_push_err(pre, pre, 3, e)),
        Opcode::PUSH32 => (frame_push_err(pre, pre, 3, e)),
        Opcode::DUP1 => ({
                &&& (e == VmError::StackUnderflow && pre.stack@.len() < 1
                    || e == VmError::StackOverflow && pre.stack@.len() >= 1 && pre.stack@.len() == 1024 || e == VmError::OutOfGas && 1 <= pre.stack@.len()
                    < 1024 && pre.gas < 3)
            }),
        Opcode::DUP2 => ({
                &&& (e == VmError::StackUnderflow && pre.stack@.len() < 2
                    || e == VmError::StackOverflow && pre.stack@.len() >= 2 && pre.stack@.len() == 1024 || e == VmError::OutOfGas && 2 <= pre.stack@.len()
                    < 1024 && pre.gas < 3)
            }),
        Opcode::DUP3 => ({
                &&& (e == VmError::StackUnderflow && pre.stack@.len() < 3
                    || e == VmError::StackOverflow && pre.stack@.len() >= 3 && pre.stack@.len() == 1024 || e == VmError::OutOfGas && 3 <= pre.stack@.len()
                    < 1024 && pre.gas < 3)
            }),
        Opcode::DUP4 => ({
                &&& (e == VmError::StackUnderflow && pre.stack@.len() < 4
                    || e == VmError::StackOverflow && pre.stack@.len() >= 4 && pre.stack@.len() == 1024 || e == VmError::OutOfGas && 4 <= pre.stack@.len()
                    < 1024 && pre.gas < 3)
            }),
        Opcode::DUP5 => ({
                &&& (e == VmError::StackUnderflow && pre.stack@.len() < 5
                    || e == VmError::StackOverflow && pre.stack@.len() >= 5 && pre.stack@.len() == 1024 || e == VmError::OutOfGas && 5 <= pre.stack@.len()
                    < 1024 && pre.gas < 3)
            }),
        Opcode::DUP6 => ({
                &&& (e == VmError::StackUnderflow && pre.stack@.len() < 6
                    || e == VmError::StackOverflow && pre.stack@.len() >= 6 && pre.stack@.len() == 1024 || e == VmError::OutOfGas && 6 <= pre.stack@.len()
                    < 1024 && pre.gas < 3)
            }),
        Opcode::DUP7 => ({
                &&& (e == VmError::StackUnderflow && pre.stack@.len() < 7
                    || e == VmError::StackOverflow && pre.stack@.len() >= 7 && pre.stack@.len() == 1024 || e == VmError::OutOfGas && 7 <= pre.stack@.len()
                    < 1024 && pre.gas < 3)
            }),
        Opcode::DUP8 => ({
                &&& (e == VmError::StackUnderflow && pre.stack@.len() < 8
                    || e == VmError::StackOverflow && pre.stack@.len() >= 8 && pre.stack@.len() == 1024 || e == VmError::OutOfGas && 8 <= pre.stack@.len()
                    < 1024 && pre.gas < 3)
            }),
        Opcode::DUP9 => ({
                &&& (e == VmError::StackUnderflow && pre.stack@.len() < 9
                    || e == VmError::StackOverflow && pre.stack@.len() >= 9 && pre.stack@.len() == 1024 || e == VmError::OutOfGas && 9 <= pre.stack@.len()
                    < 1024 && pre.gas < 3)
            }),
        Opcode::DUP10 => ({
                &&& (e == VmError::StackUnderflow && pre.stack@.len() < 10
                    || e == VmError::StackOverflow && pre.stack@.len() >= 10 && pre.stack@.len() == 1024 || e == VmError::OutOfGas && 10 <= pre.stack@.len()
                    < 1024 && pre.gas < 3)
            }),
        Opcode::DUP11 => ({
                &&& (e == VmError::StackUnderflow && pre.stack@.len() < 11
                    || e == VmError::StackOverflow && pre.stack@.len() >= 11 && pre.stack@.len() == 1024 || e == VmError::OutOfGas && 11 <= pre.stack@.len()
                    < 1024 && pre.gas < 3)
            }),
        Opcode::DUP12 => ({
                &&& (e == VmError::StackUnderflow && pre.stack@.len() < 12
                    || e == VmError::StackOverflow && pre.stack@.len() >= 12 && pre.stack@.len() == 1024 || e == VmError::OutOfGas && 12 <= pre.stack@.len()
                    < 1024 && pre.gas < 3)
            }),
        Opcode::DUP13 => ({
                &&& (e == VmError::StackUnderflow && pre.stack@.len() < 13
                    || e == VmError::StackOverflow && pre.stack@.len() >= 13 && pre.stack@.len() == 1024 || e == VmError::OutOfGas && 13 <= pre.stack@.len()
                    < 1024 && pre.gas < 3)
            }),
        Opcode::DUP14 => ({
                &&& (e == VmError::StackUnderflow && pre.stack@.len() < 14
                    || e == VmError::StackOverflow && pre.stack@.len() >= 14 && pre.stack@.len() == 1024 || e == VmError::OutOfGas && 14 <= pre.stack@.len()
                    < 1024 && pre.gas < 3)
            }),
        Opcode::DUP15 => ({
                &&& (e == VmError::StackUnderflow && pre.stack@.len() < 15
                    || e == VmError::StackOverflow && pre.stack@.len() >= 15 && pre.stack@.len() == 1024 || e == VmError::OutOfGas && 15 <= pre.stack@.len()
                    < 1024 && pre.gas < 3)
            }),
        Opcode::DUP16 => ({
                &&& (e == VmError::StackUnderflow && pre.stack@.len() < 16
                    || e == VmError::StackOverflow && pre.stack@.len() >= 16 && pre.stack@.len() == 1024 || e == VmError::OutOfGas && 16 <= pre.stack@.len()
                    < 1024 && pre.gas < 3)
            }),
        Opcode::SWAP1 => (frame_err(pre, pre, (1 + 1) as nat, 3, e)),
        Opcode::SWAP2 => (frame_err(pre, pre, (2 + 1) as nat, 3, e)),
        Opcode::SWAP3 => (frame_err(pre, pre, (3 + 1) as nat, 3, e)),
        Opcode::SWAP4 => (frame_err(pre, pre, (4 + 1) as nat, 3, e)),
        Opcode::SWAP5 => (frame_err(pre, pre, (5 + 1) as nat, 3, e)),
        Opcode::SWAP6 => (frame_err(pre, pre, (6 + 1) as nat, 3, e)),
        Opcode::SWAP7 => (frame_err(pre, pre, (7 + 1) as nat, 3, e)),
        Opcode::SWAP8 => (frame_err(pre, pre, (8 + 1) as nat, 3, e)),
        Opcode::SWAP9 => (frame_err(pre, pre, (9 + 1) as nat, 3, e)),
        Opcode::SWAP10 => (frame_err(pre, pre, (10 + 1) as nat, 3, e)),
        Opcode::SWAP11 => (frame_err(pre, pre, (11 + 1) as nat, 3, e)),
        Opcode::SWAP12 => (frame_err(pre, pre, (12 + 1) as nat, 3, e)),
        Opcode::SWAP13 => (frame_err(pre, pre, (13 + 1) as nat, 3, e)),
        Opcode::SWAP14 => (frame_err(pre, pre, (14 + 1) as nat, 3, e)),
        Opcode::SWAP15 => (frame_err(pre, pre, (15 + 1) as nat, 3, e)),
        Opcode::SWAP16 => (frame_err(pre, pre, (16 + 1) as nat, 3, e)),
        Opcode::LOG0 => (span_err(
                pre,
                2,
                (375 + 375 * 0 + 8 * pre.stack@[pre.stack@.len() - 2].as_nat()) as nat,
                pre.stack@.last().as_nat(),
                pre.stack@[pre.stack@.len() - 2].as_nat(),
                e,
            )),
        Opcode::LOG1 => (span_err(
                pre,
                3,
                (375 + 375 * 1 + 8 * pre.stack@[pre.stack@.len() - 2].as_nat()) as nat,
                pre.stack@.last().as_nat(),
                pre.stack@[pre.stack@.len() - 2].as_nat(),
                e,
            )),
        Opcode::LOG2 => (span_err(
                pre,
                4,
                (375 + 375 * 2 + 8 * pre.stack@[pre.stack@.len() - 2].as_nat()) as nat,
                pre.stack@.last().as_nat(),
                pre.stack@[pre.stack@.len() - 2].as_nat(),
                e,
            )),
        Opcode::LOG3 => (span_err(
                pre,
                5,
                (375 + 375 * 3 + 8 * pre.stack@[pre.stack@.len() - 2].as_nat()) as nat,
                pre.stack@.last().as_nat(),
                pre.stack@[pre.stack@.len() - 2].as_nat(),
                e,
            )),
        Opcode::LOG4 => (span_err(
                pre,
                6,
                (375 + 375 * 4 + 8 * pre.stack@[pre.stack@.len() - 2].as_nat()) as nat,
                pre.stack@.last().as_nat(),
                pre.stack@[pre.stack@.len() - 2].as_nat(),
                e,
            )),
        Opcode::RETURN => (span_err(
                pre,
                2,
                0,
                pre.stack@.last().as_nat(),
                pre.stack@[pre.stack@.len() - 2].as_nat(),
                e,
            )),
        Opcode::REVERT => (span_err(
                pre,
                2,
                0,
                pre.stack@.last().as_nat(),
                pre.stack@[pre.stack@.len() - 2].as_nat(),
                e,
            )),
        Opcode::JUMPI => ((e == VmError::StackUnderflow && pre.stack@.len() < 2 || e == VmError::InvalidJumpDestination && pre.stack@.len() >= 2 && pre.stack@[pre.stack@.len() - 2].as_nat() != 0
                && !valid_jump_target(pre.program@, pre.stack@.last().as_nat())
                || e == VmError::OutOfGas && pre.stack@.len() >= 2 && pre.gas < 10)),
        Opcode::JUMP => ((e == VmError::StackUnderflow && pre.stack@.len() < 1 || e == VmError::InvalidJumpDestination && pre.stack@.len() >= 1 && !valid_jump_target(
                pre.program@,
                pre.stack@.last().as_nat(),
            ) || e == VmError::OutOfGas && pre.stack@.len() >= 1 && valid_jump_target(
                pre.program@,
                pre.stack@.last().as_nat(),
            ) && pre.gas < 8)),
        _ => e == VmError::InvalidOpcode,
    }
}

} // verus!
