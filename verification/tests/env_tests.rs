use evm_core::evm::EVM;
use evm_core::word::Word;

fn top(evm: &EVM) -> Word {
    evm.stack.peek().unwrap()
}

#[test]
fn calldatacopy_writes_padded_window_into_memory() {
    // size 3, offset 0, dest 0
    let program = vec![0x60, 0x03, 0x60, 0x00, 0x60, 0x00, 0x37, 0x00];
    let mut evm = EVM::new([0u8; 20], 10_000, 0, program, vec![1, 2, 3]);
    assert!(evm.run().is_ok());
    assert_eq!(evm.memory.len(), 32);
    assert_eq!(evm.memory.data()[0], 1);
    assert_eq!(evm.memory.data()[2], 3);
    assert_eq!(evm.memory.data()[3], 0);
}

#[test]
fn calldatacopy_past_the_end_pads_with_zeros() {
    // size 4 from offset 2 of a 3-byte input
    let program = vec![0x60, 0x04, 0x60, 0x02, 0x60, 0x00, 0x37, 0x00];
    let mut evm = EVM::new([0u8; 20], 10_000, 0, program, vec![1, 2, 3]);
    assert!(evm.run().is_ok());
    assert_eq!(evm.memory.data()[0], 3);
    assert_eq!(evm.memory.data()[1], 0);
}

#[test]
fn codecopy_copies_the_running_program() {
    let program = vec![0x60, 0x02, 0x60, 0x00, 0x60, 0x00, 0x39, 0x00];
    let mut evm = EVM::new([0u8; 20], 10_000, 0, program, Vec::new());
    assert!(evm.run().is_ok());
    assert_eq!(evm.memory.data()[0], 0x60);
    assert_eq!(evm.memory.data()[1], 0x02);
}

#[test]
fn returndatasize_and_copy_with_no_previous_call() {
    let program = vec![0x3d, 0x60, 0x01, 0x60, 0x00, 0x60, 0x00, 0x3e, 0x00];
    let mut evm = EVM::new([0u8; 20], 10_000, 0, program, Vec::new());
    assert!(evm.run().is_ok());
    assert_eq!(top(&evm), Word::from_u64(0));
    assert_eq!(evm.memory.data()[0], 0);
}

#[test]
fn external_code_reads_are_mocked_to_zero() {
    // EXTCODESIZE, EXTCODEHASH of address 9; then BLOCKHASH of block 1
    let program = vec![
        0x60, 0x09, 0x3b, // EXTCODESIZE
        0x60, 0x09, 0x3f, // EXTCODEHASH
        0x60, 0x01, 0x40, // BLOCKHASH
        0x00,
    ];
    let mut evm = EVM::new([0u8; 20], 100_000, 0, program, Vec::new());
    assert!(evm.run().is_ok());
    assert_eq!(evm.stack.len(), 3);
    for _ in 0..3 {
        assert_eq!(evm.stack.peek().unwrap(), Word::from_u64(0));
        assert!(evm.stack.pop().is_ok());
    }
}

#[test]
fn extcodecopy_zeroes_the_destination_window() {
    // write a marker first, then copy 2 mocked code bytes over it
    let program = vec![
        0x60, 0xaa, 0x60, 0x00, 0x53, // MSTORE8 0xaa at 0
        0x60, 0x02, // size 2
        0x60, 0x00, // code offset
        0x60, 0x00, // dest
        0x60, 0x09, // address
        0x3c, // EXTCODECOPY
        0x00,
    ];
    let mut evm = EVM::new([0u8; 20], 100_000, 0, program, Vec::new());
    assert!(evm.run().is_ok());
    assert_eq!(evm.memory.data()[0], 0);
    assert_eq!(evm.memory.data()[1], 0);
}

#[test]
fn origin_and_caller_are_the_sender_in_a_single_frame() {
    let mut sender = [0u8; 20];
    sender[19] = 0x77;
    let program = vec![0x32, 0x33, 0x00];
    let mut evm = EVM::new(sender, 1000, 0, program, Vec::new());
    assert!(evm.run().is_ok());
    assert_eq!(evm.stack.peek().unwrap(), Word::from_u64(0x77));
    assert!(evm.stack.pop().is_ok());
    assert_eq!(evm.stack.peek().unwrap(), Word::from_u64(0x77));
}

#[test]
fn log0_records_payload_without_topics() {
    let program = vec![
        0x60, 0xab, 0x60, 0x00, 0x53, // MSTORE8 0xab at 0
        0x60, 0x01, // size 1
        0x60, 0x00, // offset 0
        0xa0, // LOG0
        0x00,
    ];
    let mut evm = EVM::new([0u8; 20], 100_000, 0, program, Vec::new());
    assert!(evm.run().is_ok());
    assert_eq!(evm.logs.len(), 1);
    assert!(evm.logs[0].topics.is_empty());
    assert_eq!(evm.logs[0].data, vec![0xab]);
}

#[test]
fn log4_pops_four_topics_in_order() {
    let program = vec![
        0x60, 0x04, 0x60, 0x03, 0x60, 0x02, 0x60, 0x01, // topics, deepest first
        0x60, 0x00, 0x60, 0x00, // size 0, offset 0
        0xa4, 0x00,
    ];
    let mut evm = EVM::new([0u8; 20], 100_000, 0, program, Vec::new());
    assert!(evm.run().is_ok());
    assert_eq!(evm.logs.len(), 1);
    let expect: Vec<Word> = (1..=4u64).map(Word::from_u64).collect();
    assert_eq!(evm.logs[0].topics, expect);
}

#[test]
fn gas_decrease_checks_before_subtracting() {
    let mut evm = EVM::new([0u8; 20], 10, 0, vec![0x00], Vec::new());
    assert!(evm.gas_decrease(4).is_ok());
    assert_eq!(evm.gas, 6);
    assert!(evm.gas_decrease(7).is_err());
    assert_eq!(evm.gas, 6);
}
