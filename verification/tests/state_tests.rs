use evm_core::stack::Stack;
use evm_core::memory::Memory;
use evm_core::storage::Storage;
use evm_core::transient::Transient;
use evm_core::helper::Helper;
use evm_core::errors::VmError;
use evm_core::word::Word;
use evm_core::opcodes::Opcode;

#[test]
fn stack_bound_is_exactly_1024() {
    let mut s = Stack::new();
    for i in 0..1024u64 {
        assert!(s.push(Word::from_u64(i)).is_ok());
    }
    assert_eq!(s.len(), 1024);
    assert_eq!(s.push(Word::from_u64(9)), Err(VmError::StackOverflow));
    assert_eq!(s.len(), 1024);
}

#[test]
fn stack_pop_and_peek_on_empty_underflow() {
    let mut s = Stack::new();
    assert_eq!(s.pop().err(), Some(VmError::StackUnderflow));
    assert!(s.peek().is_err());
    assert!(s.push(Word::from_u64(3)).is_ok());
    assert_eq!(s.peek().unwrap(), Word::from_u64(3));
    assert_eq!(s.pop().unwrap(), Word::from_u64(3));
}

#[test]
fn stack_swap_and_dup() {
    let mut s = Stack::new();
    for i in 1..=3u64 {
        assert!(s.push(Word::from_u64(i)).is_ok());
    }
    assert!(s.swap(2).is_ok());
    assert_eq!(s.peek().unwrap(), Word::from_u64(1));
    assert_eq!(s.swap(3), Err(VmError::StackUnderflow));
    assert!(s.dup(3).is_ok());
    assert_eq!(s.peek().unwrap(), Word::from_u64(3));
}

#[test]
fn memory_grows_to_aligned_lengths_and_reports_cost() {
    let mut m = Memory::new();
    assert_eq!(m.len(), 0);
    // one byte at offset zero grows to one 32-byte word: cost 3*1 + 0
    let c = m.store(0, &vec![0xaa]).unwrap();
    assert_eq!(c, 3);
    assert_eq!(m.len(), 32);
    // a second word: marginal cost 3 more
    let c2 = m.store(32, &vec![0xbb]).unwrap();
    assert_eq!(c2, 3);
    assert_eq!(m.len(), 64);
    // re-writing inside does not grow or charge
    let c3 = m.store(10, &vec![1, 2, 3]).unwrap();
    assert_eq!(c3, 0);
    assert_eq!(m.len(), 64);
    assert_eq!(m.data()[10], 1);
    assert_eq!(m.data()[0], 0xaa);
}

#[test]
fn memory_access_zero_fills_and_never_shrinks() {
    let mut m = Memory::new();
    let v = m.access(40, 8).unwrap();
    assert_eq!(v, vec![0u8; 8]);
    assert_eq!(m.len(), 64);
    let _ = m.access(0, 1).unwrap();
    assert_eq!(m.len(), 64);
    let lo = m.load(0).unwrap();
    assert_eq!(lo.len(), 32);
}

#[test]
fn quadratic_memory_cost_formula() {
    // cost(w) = 3w + w^2/512
    assert_eq!(Helper::calc_mem_gas_cost(32), 3);
    assert_eq!(Helper::calc_mem_gas_cost(1024), 3 * 32 + (32 * 32) / 512);
    assert_eq!(Helper::calc_mem_gas_cost(32 * 512), 3 * 512 + 512);
    assert_eq!(Helper::to_word_size(0), 0);
    assert_eq!(Helper::to_word_size(1), 1);
    assert_eq!(Helper::to_word_size(33), 2);
}

#[test]
fn log_gas_formula() {
    assert_eq!(Helper::calc_log_gas_cost(10, 2, 5), 375 * 2 + 8 * 10 + 5);
    assert_eq!(Helper::calc_log_gas_cost(0, 0, 0), 0);
}

#[test]
fn storage_tracks_warm_keys_per_run() {
    let mut st = Storage::new();
    let (warm0, v0) = st.load(7);
    assert!(!warm0);
    assert_eq!(v0, Word::from_u64(0));
    let (warm1, _v1) = st.load(7);
    assert!(warm1);
    st.store(9, Word::from_u64(5));
    let (warm2, v2) = st.load(9);
    assert!(warm2);
    assert_eq!(v2, Word::from_u64(5));
    st.store(9, Word::from_u64(6));
    let (_w, v3) = st.load(9);
    assert_eq!(v3, Word::from_u64(6));
}

#[test]
fn transient_storage_clears() {
    let mut t = Transient::new();
    assert_eq!(t.load(4), Word::from_u64(0));
    t.store(4, Word::from_u64(11));
    assert_eq!(t.load(4), Word::from_u64(11));
    t.clear();
    assert_eq!(t.load(4), Word::from_u64(0));
}

#[test]
fn opcode_decode_round_trip_of_known_bytes() {
    assert_eq!(Opcode::from_u8(0x00), Opcode::STOP);
    assert_eq!(Opcode::from_u8(0x01), Opcode::ADD);
    assert_eq!(Opcode::from_u8(0x51), Opcode::MLOAD);
    assert_eq!(Opcode::from_u8(0x52), Opcode::MSTORE);
    assert_eq!(Opcode::from_u8(0x5b), Opcode::JUMPDEST);
    assert_eq!(Opcode::from_u8(0x60), Opcode::PUSH1);
    assert_eq!(Opcode::from_u8(0x7f), Opcode::PUSH32);
    assert_eq!(Opcode::from_u8(0x80), Opcode::DUP1);
    assert_eq!(Opcode::from_u8(0x90), Opcode::SWAP1);
    assert_eq!(Opcode::from_u8(0xa0), Opcode::LOG0);
    assert_eq!(Opcode::from_u8(0xfe), Opcode::INVALID);
    assert_eq!(Opcode::from_u8(0x0c), Opcode::INVALID);
    assert_eq!(Opcode::from_u8(0x21), Opcode::INVALID);
}
