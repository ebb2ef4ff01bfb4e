use evm_core::evm::EVM;
use evm_core::errors::VmError;
use evm_core::word::Word;

fn fresh(program: Vec<u8>, gas: usize) -> EVM {
    EVM::new([0u8; 20], gas, 0, program, Vec::new())
}

#[test]
fn scenario_add_halts_with_sum_and_exact_gas() {
    // PUSH1 0x0d, PUSH1 0x0e, ADD, STOP with a budget of 1000
    let program = vec![0x60, 0x0d, 0x60, 0x0e, 0x01, 0x00];
    let mut evm = fresh(program, 1000);
    let r = evm.run();
    assert!(r.is_ok());
    assert!(evm.stop_flag);
    assert!(!evm.revert_flag);
    let top = evm.stack.peek().unwrap();
    assert_eq!(top, Word::from_u64(27));
    assert_eq!(evm.gas, 1000 - 9);
}

#[test]
fn scenario_memory_and_storage_round_trip() {
    // ADD, MSTORE(0), MLOAD(0), SSTORE(key 1), SLOAD(key 1)
    let program = vec![
        0x60, 0x0d, // PUSH1 13
        0x60, 0x0e, // PUSH1 14
        0x01, // ADD
        0x60, 0x00, // PUSH1 0
        0x52, // MSTORE
        0x60, 0x00, // PUSH1 0
        0x51, // MLOAD
        0x60, 0x01, // PUSH1 1
        0x55, // SSTORE
        0x60, 0x01, // PUSH1 1
        0x54, // SLOAD
        0x00, // STOP
    ];
    let mut evm = fresh(program, 100_000);
    let r = evm.run();
    assert!(r.is_ok());
    let top = evm.stack.peek().unwrap();
    assert_eq!(top, Word::from_u64(27));
    let (_warm, stored) = evm.storage.load(1);
    assert_eq!(stored, Word::from_u64(27));
}

#[test]
fn scenario_transient_storage_and_reset() {
    // PUSH1 0x01, PUSH1 0x42, TSTORE, PUSH1 0x01, TLOAD, STOP
    let program = vec![0x60, 0x01, 0x60, 0x42, 0x5d, 0x60, 0x01, 0x5c, 0x00];
    let mut evm = EVM::new([0u8; 20], 10_000, 0, program.clone(), vec![7, 8]);
    let r = evm.run();
    assert!(r.is_ok());
    let top = evm.stack.peek().unwrap();
    assert_eq!(top, Word::from_u64(0x42));
    evm.reset();
    assert_eq!(evm.transient.load(1), Word::from_u64(0));
    assert_eq!(evm.pc, 0);
    assert!(!evm.stop_flag);
    // the call context survives a reset untouched
    assert_eq!(evm.call_data, vec![7, 8]);
    assert_eq!(evm.program, program);
}

#[test]
fn scenario_out_of_gas_at_exact_instruction_without_mutation() {
    // Two pushes cost 6; the ADD then needs 3 more, but only 1 remains.
    let program = vec![0x60, 0x01, 0x60, 0x02, 0x01, 0x00];
    let mut evm = fresh(program, 7);
    let r = evm.run();
    assert_eq!(r, Err(VmError::OutOfGas));
    // the faulting instruction mutated nothing: both operands still there
    assert_eq!(evm.stack.len(), 2);
    assert_eq!(evm.gas, 1);
    assert!(!evm.stop_flag);
    assert!(!evm.revert_flag);
}

#[test]
fn jump_to_non_marker_byte_faults() {
    // PUSH1 3, JUMP; byte 3 is 0x00, not the marker
    let program = vec![0x60, 0x03, 0x56, 0x00];
    let mut evm = fresh(program, 1000);
    let r = evm.run();
    assert_eq!(r, Err(VmError::InvalidJumpDestination));
}

#[test]
fn jump_into_push_immediate_that_is_marker_byte_is_valid() {
    // byte 5 is 0x5b, but only as the immediate of the PUSH1 at byte 4;
    // the byte-level rule accepts it as a target anyway
    let program = vec![0x60, 0x05, 0x56, 0x00, 0x60, 0x5b];
    let mut evm = fresh(program, 1000);
    let r = evm.run();
    assert!(r.is_ok());
    assert!(evm.stop_flag);
    // 3 (PUSH) + 8 (JUMP) + 1 (JUMPDEST at the target)
    assert_eq!(evm.gas, 1000 - 12);
}

#[test]
fn jumpi_taken_and_not_taken() {
    // PUSH1 1 (condition), PUSH1 6, JUMPI, INVALID, ..., JUMPDEST, STOP
    let program = vec![0x60, 0x01, 0x60, 0x06, 0x57, 0xfe, 0x5b, 0x00];
    let mut evm = fresh(program, 1000);
    assert!(evm.run().is_ok());
    assert!(evm.stop_flag);
    // with a zero condition the jump is not taken and the sentinel aborts
    let program2 = vec![0x60, 0x00, 0x60, 0x06, 0x57, 0xfe, 0x5b, 0x00];
    let mut evm2 = fresh(program2, 1000);
    assert_eq!(evm2.run(), Err(VmError::InvalidOpcode));
}

#[test]
fn stack_overflow_on_1025th_push() {
    let mut program = Vec::new();
    for _ in 0..1025 {
        program.push(0x60);
        program.push(0x00);
    }
    let mut evm = fresh(program, 10_000);
    let r = evm.run();
    assert_eq!(r, Err(VmError::StackOverflow));
    assert_eq!(evm.stack.len(), 1024);
}

#[test]
fn pop_on_empty_stack_underflows() {
    let program = vec![0x50];
    let mut evm = fresh(program, 1000);
    assert_eq!(evm.run(), Err(VmError::StackUnderflow));
}

#[test]
fn sload_charges_cold_then_warm() {
    // SLOAD key 5 twice: 2100 cold then 100 warm, plus 4 pushes at 3
    let program = vec![0x60, 0x05, 0x54, 0x60, 0x05, 0x54, 0x00];
    let mut evm = fresh(program, 10_000);
    assert!(evm.run().is_ok());
    assert_eq!(evm.gas, 10_000 - 3 - 2100 - 3 - 100);
}

#[test]
fn unknown_byte_decodes_to_sentinel_and_aborts() {
    let program = vec![0x0c];
    let mut evm = fresh(program, 1000);
    assert_eq!(evm.run(), Err(VmError::InvalidOpcode));
}

#[test]
fn call_family_is_out_of_scope_and_aborts() {
    let program = vec![0xf1];
    let mut evm = fresh(program, 1000);
    assert_eq!(evm.run(), Err(VmError::InvalidOpcode));
}

#[test]
fn mload_at_unrepresentable_offset_faults() {
    // PUSH32 of all ones, MLOAD: the offset cannot exist on this machine
    let mut program = vec![0x7f];
    for _ in 0..32 {
        program.push(0xff);
    }
    program.push(0x51);
    let mut evm = fresh(program, 100_000);
    assert_eq!(evm.run(), Err(VmError::MemoryAccessFault));
}

#[test]
fn memory_stays_word_aligned_and_grows() {
    // MSTORE8 at byte 0 grows memory to 32; at byte 32 it grows to 64
    let program = vec![
        0x60, 0xaa, 0x60, 0x00, 0x53, // MSTORE8 value 0xaa at 0
        0x60, 0xbb, 0x60, 0x20, 0x53, // MSTORE8 value 0xbb at 32
        0x00,
    ];
    let mut evm = fresh(program, 10_000);
    assert!(evm.run().is_ok());
    assert_eq!(evm.memory.len(), 64);
    assert_eq!(evm.memory.data()[0], 0xaa);
    assert_eq!(evm.memory.data()[32], 0xbb);
}

#[test]
fn end_of_program_halts_like_stop() {
    let program = vec![0x60, 0x07];
    let mut evm = fresh(program, 1000);
    assert!(evm.run().is_ok());
    assert!(evm.stop_flag);
    assert_eq!(evm.stack.peek().unwrap(), Word::from_u64(7));
}

#[test]
fn return_sets_data_and_halts() {
    // store 13+14 at 0, then RETURN 32 bytes from 0
    let program = vec![
        0x60, 0x0d, 0x60, 0x0e, 0x01, // 27
        0x60, 0x00, 0x52, // MSTORE at 0
        0x60, 0x20, // size 32
        0x60, 0x00, // offset 0 (top)
        0xf3, // RETURN
    ];
    let mut evm = fresh(program, 10_000);
    assert!(evm.run().is_ok());
    assert!(evm.stop_flag);
    assert_eq!(evm.return_data.len(), 32);
    assert_eq!(evm.return_data[31], 27);
    assert_eq!(evm.return_data[0], 0);
}

#[test]
fn revert_sets_flag_and_data() {
    let program = vec![0x60, 0x00, 0x60, 0x00, 0xfd];
    let mut evm = fresh(program, 10_000);
    assert!(evm.run().is_ok());
    assert!(evm.revert_flag);
    assert!(!evm.stop_flag);
    assert_eq!(evm.return_data.len(), 0);
}

#[test]
fn log_topics_keep_pop_order() {
    // stack bottom-to-top: 7, 5, size 0, offset 0; LOG2 pops offset, size,
    // then the topics: first popped topic is 5
    let program = vec![0x60, 0x07, 0x60, 0x05, 0x60, 0x00, 0x60, 0x00, 0xa2, 0x00];
    let mut evm = fresh(program, 10_000);
    assert!(evm.run().is_ok());
    assert_eq!(evm.logs.len(), 1);
    assert_eq!(evm.logs[0].topics, vec![Word::from_u64(5), Word::from_u64(7)]);
    assert_eq!(evm.logs[0].data.len(), 0);
    // 4 pushes, then 375 base + 2 * 375 per topic
    assert_eq!(evm.gas, 10_000 - 12 - 375 - 750);
}

#[test]
fn swap_and_dup_move_the_right_words() {
    // PUSH 1, 2, 3 then SWAP2: top exchanges with the word two below
    let program = vec![0x60, 0x01, 0x60, 0x02, 0x60, 0x03, 0x91, 0x00];
    let mut evm = fresh(program, 1000);
    assert!(evm.run().is_ok());
    assert_eq!(evm.stack.peek().unwrap(), Word::from_u64(1));
    // PUSH 1, 2 then DUP2 copies the word beneath the top
    let program2 = vec![0x60, 0x01, 0x60, 0x02, 0x81, 0x00];
    let mut evm2 = fresh(program2, 1000);
    assert!(evm2.run().is_ok());
    assert_eq!(evm2.stack.len(), 3);
    assert_eq!(evm2.stack.peek().unwrap(), Word::from_u64(1));
}

#[test]
fn keccak_of_fixed_input_is_deterministic_across_runs() {
    // hash the first 4 bytes of zeroed memory, twice, on separate machines
    let program = vec![0x60, 0x04, 0x60, 0x00, 0x20, 0x00];
    let mut evm1 = fresh(program.clone(), 10_000);
    let mut evm2 = fresh(program, 10_000);
    assert!(evm1.run().is_ok());
    assert!(evm2.run().is_ok());
    let d1 = evm1.stack.peek().unwrap();
    let d2 = evm2.stack.peek().unwrap();
    assert_eq!(d1, d2);
    // and the digest is not the input handed back unchanged
    assert_ne!(d1, Word::from_u64(0));
}

#[test]
fn keccak_of_empty_input_matches_reference_digest() {
    // size 0, offset 0
    let program = vec![0x60, 0x00, 0x60, 0x00, 0x20, 0x00];
    let mut evm = fresh(program, 10_000);
    assert!(evm.run().is_ok());
    let top = evm.stack.peek().unwrap();
    // reference digest computed with tiny_keccak directly
    let mut hasher = tiny_keccak::Keccak::v256();
    let mut out = [0u8; 32];
    tiny_keccak::Hasher::update(&mut hasher, &[]);
    tiny_keccak::Hasher::finalize(hasher, &mut out);
    let expected = Word::from_be_slice(&out);
    assert_eq!(top, expected);
}

#[test]
fn calldataload_reads_padded_window() {
    // call data [1, 2]; load at offset 1 gives 0x02 followed by 31 zeros
    let program = vec![0x60, 0x01, 0x35, 0x00];
    let mut evm = EVM::new([0u8; 20], 1000, 0, program, vec![1, 2]);
    assert!(evm.run().is_ok());
    let top = evm.stack.peek().unwrap();
    // 0x02 shifted into the most significant byte
    let expected = Word::from_u64(2).shl_k(248);
    assert_eq!(top, expected);
}

#[test]
fn callvalue_and_sizes_are_pushed() {
    let program = vec![0x34, 0x36, 0x38, 0x00];
    let mut evm = EVM::new([0u8; 20], 1000, 99, program.clone(), vec![5, 6, 7]);
    assert!(evm.run().is_ok());
    assert_eq!(evm.stack.peek().unwrap(), Word::from_u64(program.len() as u64));
    assert!(evm.stack.pop().is_ok());
    assert_eq!(evm.stack.peek().unwrap(), Word::from_u64(3));
    assert!(evm.stack.pop().is_ok());
    assert_eq!(evm.stack.peek().unwrap(), Word::from_u64(99));
}

#[test]
fn pc_pushes_current_counter() {
    let program = vec![0x60, 0x00, 0x58, 0x00];
    let mut evm = fresh(program, 1000);
    assert!(evm.run().is_ok());
    assert_eq!(evm.stack.peek().unwrap(), Word::from_u64(2));
}
