use evm_core::evm::EVM;
use evm_core::word::Word;

fn run_program(program: Vec<u8>) -> EVM {
    let mut evm = EVM::new([0u8; 20], 100_000, 0, program, Vec::new());
    assert!(evm.run().is_ok());
    evm
}

fn top(evm: &EVM) -> Word {
    evm.stack.peek().unwrap()
}

fn all_ones() -> Word {
    Word { w0: u64::MAX, w1: u64::MAX, w2: u64::MAX, w3: u64::MAX }
}

#[test]
fn division_family_by_zero_pushes_zero_without_fault() {
    // divisor is the top word; DIV, MOD, SDIV, SMOD each see a zero there
    for op in [0x04u8, 0x06, 0x05, 0x07] {
        let evm = run_program(vec![0x60, 0x05, 0x60, 0x00, op, 0x00]);
        assert!(evm.stop_flag);
        assert_eq!(top(&evm), Word::from_u64(0));
    }
}

#[test]
fn division_and_remainder_take_second_over_top() {
    // 17 / 5 and 17 % 5
    let evm = run_program(vec![0x60, 0x11, 0x60, 0x05, 0x04, 0x00]);
    assert_eq!(top(&evm), Word::from_u64(3));
    let evm2 = run_program(vec![0x60, 0x11, 0x60, 0x05, 0x06, 0x00]);
    assert_eq!(top(&evm2), Word::from_u64(2));
}

#[test]
fn mul_and_sub_orders() {
    // SUB pushes second minus top: 9 - 4
    let evm = run_program(vec![0x60, 0x09, 0x60, 0x04, 0x03, 0x00]);
    assert_eq!(top(&evm), Word::from_u64(5));
    let evm2 = run_program(vec![0x60, 0x06, 0x60, 0x07, 0x02, 0x00]);
    assert_eq!(top(&evm2), Word::from_u64(42));
}

#[test]
fn addmod_and_mulmod_reduce_by_third_operand() {
    // modulus pushed first, so it sits third from the top
    let evm = run_program(vec![0x60, 0x03, 0x60, 0x0a, 0x60, 0x0a, 0x08, 0x00]);
    assert_eq!(top(&evm), Word::from_u64(2));
    let evm2 = run_program(vec![0x60, 0x07, 0x60, 0x0a, 0x60, 0x0a, 0x09, 0x00]);
    assert_eq!(top(&evm2), Word::from_u64(2));
    // a zero modulus yields zero, never a fault
    let evm3 = run_program(vec![0x60, 0x00, 0x60, 0x0a, 0x60, 0x0a, 0x08, 0x00]);
    assert_eq!(top(&evm3), Word::from_u64(0));
}

#[test]
fn exp_raises_second_to_top() {
    let evm = run_program(vec![0x60, 0x02, 0x60, 0x0a, 0x0a, 0x00]);
    assert_eq!(top(&evm), Word::from_u64(1024));
}

#[test]
fn signextend_fills_from_chosen_byte() {
    let evm = run_program(vec![0x60, 0xff, 0x60, 0x00, 0x0b, 0x00]);
    assert_eq!(top(&evm), all_ones());
}

#[test]
fn comparisons_push_one_or_zero() {
    // LT: second < top, so 3 < 5
    let evm = run_program(vec![0x60, 0x03, 0x60, 0x05, 0x10, 0x00]);
    assert_eq!(top(&evm), Word::from_u64(1));
    // GT: second > top, so 3 > 5 is false
    let evm2 = run_program(vec![0x60, 0x03, 0x60, 0x05, 0x11, 0x00]);
    assert_eq!(top(&evm2), Word::from_u64(0));
    // SLT: minus one is below one under the signed view
    // 0 - 1 via SUB (second minus top) gives minus one; then PUSH1 1, SLT
    let evm3 = run_program(vec![0x60, 0x00, 0x60, 0x01, 0x03, 0x60, 0x01, 0x12, 0x00]);
    assert_eq!(top(&evm3), Word::from_u64(1));
    // EQ and ISZERO
    let evm4 = run_program(vec![0x60, 0x07, 0x60, 0x07, 0x14, 0x15, 0x00]);
    assert_eq!(top(&evm4), Word::from_u64(0));
}

#[test]
fn byte_opcode_indexes_from_most_significant() {
    // value 0x1122 sits in the two lowest bytes; index 31 names the lowest
    let evm = run_program(vec![0x61, 0x11, 0x22, 0x60, 0x1f, 0x1a, 0x00]);
    assert_eq!(top(&evm), Word::from_u64(0x22));
    // an index of 32 or more gives zero
    let evm2 = run_program(vec![0x61, 0x11, 0x22, 0x60, 0x20, 0x1a, 0x00]);
    assert_eq!(top(&evm2), Word::from_u64(0));
}

#[test]
fn shifts_take_count_from_top() {
    // SHL: 1 << 8
    let evm = run_program(vec![0x60, 0x01, 0x60, 0x08, 0x1b, 0x00]);
    assert_eq!(top(&evm), Word::from_u64(256));
    // SHR: 256 >> 4
    let evm2 = run_program(vec![0x61, 0x01, 0x00, 0x60, 0x04, 0x1c, 0x00]);
    assert_eq!(top(&evm2), Word::from_u64(16));
    // SAR of minus two by one gives minus one
    let evm3 = run_program(vec![0x60, 0x00, 0x60, 0x02, 0x03, 0x60, 0x01, 0x1d, 0x00]);
    assert_eq!(top(&evm3), all_ones());
}

#[test]
fn bitwise_opcodes() {
    let evm = run_program(vec![0x60, 0x0c, 0x60, 0x0a, 0x16, 0x00]);
    assert_eq!(top(&evm), Word::from_u64(8));
    let evm2 = run_program(vec![0x60, 0x0c, 0x60, 0x0a, 0x17, 0x00]);
    assert_eq!(top(&evm2), Word::from_u64(14));
    let evm3 = run_program(vec![0x60, 0x0c, 0x60, 0x0a, 0x18, 0x00]);
    assert_eq!(top(&evm3), Word::from_u64(6));
    let evm4 = run_program(vec![0x60, 0x00, 0x19, 0x00]);
    assert_eq!(top(&evm4), all_ones());
}

#[test]
fn multi_byte_push_reads_big_endian_immediate() {
    let evm = run_program(vec![0x62, 0x01, 0x02, 0x03, 0x00]);
    assert_eq!(top(&evm), Word::from_u64(0x010203));
}

#[test]
fn push_truncated_by_end_of_program_pads_with_zeros() {
    // PUSH2 with only one immediate byte left reads the missing one as 0
    let evm = run_program(vec![0x61, 0x7b]);
    assert!(evm.stop_flag);
    assert_eq!(top(&evm), Word::from_u64(0x7b00));
}

#[test]
fn address_pushes_sender_bytes() {
    let mut sender = [0u8; 20];
    sender[19] = 0x44;
    let mut evm = EVM::new(sender, 1000, 0, vec![0x30, 0x00], Vec::new());
    assert!(evm.run().is_ok());
    assert_eq!(top(&evm), Word::from_u64(0x44));
}

#[test]
fn mocked_chain_reads_are_zero_and_deterministic() {
    // BALANCE of some address, GASPRICE, COINBASE
    let evm = run_program(vec![0x60, 0x09, 0x31, 0x3a, 0x41, 0x00]);
    assert_eq!(evm.stack.len(), 3);
    assert_eq!(top(&evm), Word::from_u64(0));
}
