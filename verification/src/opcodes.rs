use vstd::prelude::*;

verus! {

/// Every instruction the machine decodes, plus an explicit sentinel for
/// bytes outside the opcode map.
#[derive(Clone, Copy, PartialEq, Eq, Structural, Debug)]
pub enum Opcode {
    STOP,
    ADD,
    MUL,
    SUB,
    DIV,
    SDIV,
    MOD,
    SMOD,
    ADDMOD,
    MULMOD,
    EXP,
    SIGNEXTEND,
    LT,
    GT,
    SLT,
    SGT,
    EQ,
    ISZERO,
    AND,
    OR,
    XOR,
    NOT,
    BYTE,
    SHL,
    SHR,
    SAR,
    KECCAK256,
    ADDRESS,
    BALANCE,
    ORIGIN,
    CALLER,
    CALLVALUE,
    CALLDATALOAD,
    CALLDATASIZE,
    CALLDATACOPY,
    CODESIZE,
    CODECOPY,
    GASPRICE,
    EXTCODESIZE,
    EXTCODECOPY,
    RETURNDATASIZE,
    RETURNDATACOPY,
    EXTCODEHASH,
    BLOCKHASH,
    COINBASE,
    TIMESTAMP,
    NUMBER,
    DIFFICULTY,
    GASLIMIT,
    CHAINID,
    SELFBALANCE,
    BASEFEE,
    POP,
    MLOAD,
    MSTORE,
    MSTORE8,
    SLOAD,
    SSTORE,
    JUMP,
    JUMPI,
    PC,
    JUMPDEST,
    TLOAD,
    TSTORE,
    PUSH1,
    PUSH2,
    PUSH3,
    PUSH4,
    PUSH5,
    PUSH6,
    PUSH7,
    PUSH8,
    PUSH9,
    PUSH10,
    PUSH11,
    PUSH12,
    PUSH13,
    PUSH14,
    PUSH15,
    PUSH16,
    PUSH17,
    PUSH18,
    PUSH19,
    PUSH20,
    PUSH21,
    PUSH22,
    PUSH23,
    PUSH24,
    PUSH25,
    PUSH26,
    PUSH27,
    PUSH28,
    PUSH29,
    PUSH30,
    PUSH31,
    PUSH32,
    DUP1,
    DUP2,
    DUP3,
    DUP4,
    DUP5,
    DUP6,
    DUP7,
    DUP8,
    DUP9,
    DUP10,
    DUP11,
    DUP12,
    DUP13,
    DUP14,
    DUP15,
    DUP16,
    SWAP1,
    SWAP2,
    SWAP3,
    SWAP4,
    SWAP5,
    SWAP6,
    SWAP7,
    SWAP8,
    SWAP9,
    SWAP10,
    SWAP11,
    SWAP12,
    SWAP13,
    SWAP14,
    SWAP15,
    SWAP16,
    LOG0,
    LOG1,
    LOG2,
    LOG3,
    LOG4,
    CREATE,
    CALL,
    CALLCODE,
    RETURN,
    DELEGATECALL,
    CREATE2,
    STATICCALL,
    REVERT,
    INVALID,
    SELFDESTRUCT,
}

/// The opcode map: each assigned byte decodes to its instruction, every
/// other byte to the sentinel.
pub open spec fn opcode_of(value: u8) -> Opcode {
    match value {
        0x00u8 => Opcode::STOP,
        0x01u8 => Opcode::ADD,
        0x02u8 => Opcode::MUL,
        0x03u8 => Opcode::SUB,
        0x04u8 => Opcode::DIV,
        0x05u8 => Opcode::SDIV,
        0x06u8 => Opcode::MOD,
        0x07u8 => Opcode::SMOD,
        0x08u8 => Opcode::ADDMOD,
        0x09u8 => Opcode::MULMOD,
        0x0au8 => Opcode::EXP,
        0x0bu8 => Opcode::SIGNEXTEND,
        0x10u8 => Opcode::LT,
        0x11u8 => Opcode::GT,
        0x12u8 => Opcode::SLT,
        0x13u8 => Opcode::SGT,
        0x14u8 => Opcode::EQ,
        0x15u8 => Opcode::ISZERO,
        0x16u8 => Opcode::AND,
        0x17u8 => Opcode::OR,
        0x18u8 => Opcode::XOR,
        0x19u8 => Opcode::NOT,
        0x1au8 => Opcode::BYTE,
        0x1bu8 => Opcode::SHL,
        0x1cu8 => Opcode::SHR,
        0x1du8 => Opcode::SAR,
        0x20u8 => Opcode::KECCAK256,
        0x30u8 => Opcode::ADDRESS,
        0x31u8 => Opcode::BALANCE,
        0x32u8 => Opcode::ORIGIN,
        0x33u8 => Opcode::CALLER,
        0x34u8 => Opcode::CALLVALUE,
        0x35u8 => Opcode::CALLDATALOAD,
        0x36u8 => Opcode::CALLDATASIZE,
        0x37u8 => Opcode::CALLDATACOPY,
        0x38u8 => Opcode::CODESIZE,
        0x39u8 => Opcode::CODECOPY,
        0x3au8 => Opcode::GASPRICE,
        0x3bu8 => Opcode::EXTCODESIZE,
        0x3cu8 => Opcode::EXTCODECOPY,
        0x3du8 => Opcode::RETURNDATASIZE,
        0x3eu8 => Opcode::RETURNDATACOPY,
        0x3fu8 => Opcode::EXTCODEHASH,
        0x40u8 => Opcode::BLOCKHASH,
        0x41u8 => Opcode::COINBASE,
        0x42u8 => Opcode::TIMESTAMP,
        0x43u8 => Opcode::NUMBER,
        0x44u8 => Opcode::DIFFICULTY,
        0x45u8 => Opcode::GASLIMIT,
        0x46u8 => Opcode::CHAINID,
        0x47u8 => Opcode::SELFBALANCE,
        0x48u8 => Opcode::BASEFEE,
        0x50u8 => Opcode::POP,
        0x51u8 => Opcode::MLOAD,
        0x52u8 => Opcode::MSTORE,
        0x53u8 => Opcode::MSTORE8,
        0x54u8 => Opcode::SLOAD,
        0x55u8 => Opcode::SSTORE,
        0x56u8 => Opcode::JUMP,
        0x57u8 => Opcode::JUMPI,
        0x58u8 => Opcode::PC,
        0x5bu8 => Opcode::JUMPDEST,
        0x5cu8 => Opcode::TLOAD,
        0x5du8 => Opcode::TSTORE,
        0x60u8 => Opcode::PUSH1,
        0x61u8 => Opcode::PUSH2,
        0x62u8 => Opcode::PUSH3,
        0x63u8 => Opcode::PUSH4,
        0x64u8 => Opcode::PUSH5,
        0x65u8 => Opcode::PUSH6,
        0x66u8 => Opcode::PUSH7,
        0x67u8 => Opcode::PUSH8,
        0x68u8 => Opcode::PUSH9,
        0x69u8 => Opcode::PUSH10,
        0x6au8 => Opcode::PUSH11,
        0x6bu8 => Opcode::PUSH12,
        0x6cu8 => Opcode::PUSH13,
        0x6du8 => Opcode::PUSH14,
        0x6eu8 => Opcode::PUSH15,
        0x6fu8 => Opcode::PUSH16,
        0x70u8 => Opcode::PUSH17,
        0x71u8 => Opcode::PUSH18,
        0x72u8 => Opcode::PUSH19,
        0x73u8 => Opcode::PUSH20,
        0x74u8 => Opcode::PUSH21,
        0x75u8 => Opcode::PUSH22,
        0x76u8 => Opcode::PUSH23,
        0x77u8 => Opcode::PUSH24,
        0x78u8 => Opcode::PUSH25,
        0x79u8 => Opcode::PUSH26,
        0x7au8 => Opcode::PUSH27,
        0x7bu8 => Opcode::PUSH28,
        0x7cu8 => Opcode::PUSH29,
        0x7du8 => Opcode::PUSH30,
        0x7eu8 => Opcode::PUSH31,
        0x7fu8 => Opcode::PUSH32,
        0x80u8 => Opcode::DUP1,
        0x81u8 => Opcode::DUP2,
        0x82u8 => Opcode::DUP3,
        0x83u8 => Opcode::DUP4,
        0x84u8 => Opcode::DUP5,
        0x85u8 => Opcode::DUP6,
        0x86u8 => Opcode::DUP7,
        0x87u8 => Opcode::DUP8,
        0x88u8 => Opcode::DUP9,
        0x89u8 => Opcode::DUP10,
        0x8au8 => Opcode::DUP11,
        0x8bu8 => Opcode::DUP12,
        0x8cu8 => Opcode::DUP13,
        0x8du8 => Opcode::DUP14,
        0x8eu8 => Opcode::DUP15,
        0x8fu8 => Opcode::DUP16,
        0x90u8 => Opcode::SWAP1,
        0x91u8 => Opcode::SWAP2,
        0x92u8 => Opcode::SWAP3,
        0x93u8 => Opcode::SWAP4,
        0x94u8 => Opcode::SWAP5,
        0x95u8 => Opcode::SWAP6,
        0x96u8 => Opcode::SWAP7,
        0x97u8 => Opcode::SWAP8,
        0x98u8 => Opcode::SWAP9,
        0x99u8 => Opcode::SWAP10,
        0x9au8 => Opcode::SWAP11,
        0x9bu8 => Opcode::SWAP12,
        0x9cu8 => Opcode::SWAP13,
        0x9du8 => Opcode::SWAP14,
        0x9eu8 => Opcode::SWAP15,
        0x9fu8 => Opcode::SWAP16,
        0xa0u8 => Opcode::LOG0,
        0xa1u8 => Opcode::LOG1,
        0xa2u8 => Opcode::LOG2,
        0xa3u8 => Opcode::LOG3,
        0xa4u8 => Opcode::LOG4,
        0xf0u8 => Opcode::CREATE,
        0xf1u8 => Opcode::CALL,
        0xf2u8 => Opcode::CALLCODE,
        0xf3u8 => Opcode::RETURN,
        0xf4u8 => Opcode::DELEGATECALL,
        0xf5u8 => Opcode::CREATE2,
        0xfau8 => Opcode::STATICCALL,
        0xfdu8 => Opcode::REVERT,
        0xffu8 => Opcode::SELFDESTRUCT,
        _ => Opcode::INVALID,
    }
}

impl Opcode {
    /// Decode one byte of program text.
    pub fn from_u8(value: u8) -> (r: Opcode)
        ensures
            r == opcode_of(value),
    {
        match value {
            0x00u8 => Opcode::STOP,
            0x01u8 => Opcode::ADD,
            0x02u8 => Opcode::MUL,
            0x03u8 => Opcode::SUB,
            0x04u8 => Opcode::DIV,
            0x05u8 => Opcode::SDIV,
            0x06u8 => Opcode::MOD,
            0x07u8 => Opcode::SMOD,
            0x08u8 => Opcode::ADDMOD,
            0x09u8 => Opcode::MULMOD,
            0x0au8 => Opcode::EXP,
            0x0bu8 => Opcode::SIGNEXTEND,
            0x10u8 => Opcode::LT,
            0x11u8 => Opcode::GT,
            0x12u8 => Opcode::SLT,
            0x13u8 => Opcode::SGT,
            0x14u8 => Opcode::EQ,
            0x15u8 => Opcode::ISZERO,
            0x16u8 => Opcode::AND,
            0x17u8 => Opcode::OR,
            0x18u8 => Opcode::XOR,
            0x19u8 => Opcode::NOT,
            0x1au8 => Opcode::BYTE,
            0x1bu8 => Opcode::SHL,
            0x1cu8 => Opcode::SHR,
            0x1du8 => Opcode::SAR,
            0x20u8 => Opcode::KECCAK256,
            0x30u8 => Opcode::ADDRESS,
            0x31u8 => Opcode::BALANCE,
            0x32u8 => Opcode::ORIGIN,
            0x33u8 => Opcode::CALLER,
            0x34u8 => Opcode::CALLVALUE,
            0x35u8 => Opcode::CALLDATALOAD,
            0x36u8 => Opcode::CALLDATASIZE,
            0x37u8 => Opcode::CALLDATACOPY,
            0x38u8 => Opcode::CODESIZE,
            0x39u8 => Opcode::CODECOPY,
            0x3au8 => Opcode::GASPRICE,
            0x3bu8 => Opcode::EXTCODESIZE,
            0x3cu8 => Opcode::EXTCODECOPY,
            0x3du8 => Opcode::RETURNDATASIZE,
            0x3eu8 => Opcode::RETURNDATACOPY,
            0x3fu8 => Opcode::EXTCODEHASH,
            0x40u8 => Opcode::BLOCKHASH,
            0x41u8 => Opcode::COINBASE,
            0x42u8 => Opcode::TIMESTAMP,
            0x43u8 => Opcode::NUMBER,
            0x44u8 => Opcode::DIFFICULTY,
            0x45u8 => Opcode::GASLIMIT,
            0x46u8 => Opcode::CHAINID,
            0x47u8 => Opcode::SELFBALANCE,
            0x48u8 => Opcode::BASEFEE,
            0x50u8 => Opcode::POP,
            0x51u8 => Opcode::MLOAD,
            0x52u8 => Opcode::MSTORE,
            0x53u8 => Opcode::MSTORE8,
            0x54u8 => Opcode::SLOAD,
            0x55u8 => Opcode::SSTORE,
            0x56u8 => Opcode::JUMP,
            0x57u8 => Opcode::JUMPI,
            0x58u8 => Opcode::PC,
            0x5bu8 => Opcode::JUMPDEST,
            0x5cu8 => Opcode::TLOAD,
            0x5du8 => Opcode::TSTORE,
            0x60u8 => Opcode::PUSH1,
            0x61u8 => Opcode::PUSH2,
            0x62u8 => Opcode::PUSH3,
            0x63u8 => Opcode::PUSH4,
            0x64u8 => Opcode::PUSH5,
            0x65u8 => Opcode::PUSH6,
            0x66u8 => Opcode::PUSH7,
            0x67u8 => Opcode::PUSH8,
            0x68u8 => Opcode::PUSH9,
            0x69u8 => Opcode::PUSH10,
            0x6au8 => Opcode::PUSH11,
            0x6bu8 => Opcode::PUSH12,
            0x6cu8 => Opcode::PUSH13,
            0x6du8 => Opcode::PUSH14,
            0x6eu8 => Opcode::PUSH15,
            0x6fu8 => Opcode::PUSH16,
            0x70u8 => Opcode::PUSH17,
            0x71u8 => Opcode::PUSH18,
            0x72u8 => Opcode::PUSH19,
            0x73u8 => Opcode::PUSH20,
            0x74u8 => Opcode::PUSH21,
            0x75u8 => Opcode::PUSH22,
            0x76u8 => Opcode::PUSH23,
            0x77u8 => Opcode::PUSH24,
            0x78u8 => Opcode::PUSH25,
            0x79u8 => Opcode::PUSH26,
            0x7au8 => Opcode::PUSH27,
            0x7bu8 => Opcode::PUSH28,
            0x7cu8 => Opcode::PUSH29,
            0x7du8 => Opcode::PUSH30,
            0x7eu8 => Opcode::PUSH31,
            0x7fu8 => Opcode::PUSH32,
            0x80u8 => Opcode::DUP1,
            0x81u8 => Opcode::DUP2,
            0x82u8 => Opcode::DUP3,
            0x83u8 => Opcode::DUP4,
            0x84u8 => Opcode::DUP5,
            0x85u8 => Opcode::DUP6,
            0x86u8 => Opcode::DUP7,
            0x87u8 => Opcode::DUP8,
            0x88u8 => Opcode::DUP9,
            0x89u8 => Opcode::DUP10,
            0x8au8 => Opcode::DUP11,
            0x8bu8 => Opcode::DUP12,
            0x8cu8 => Opcode::DUP13,
            0x8du8 => Opcode::DUP14,
            0x8eu8 => Opcode::DUP15,
            0x8fu8 => Opcode::DUP16,
            0x90u8 => Opcode::SWAP1,
            0x91u8 => Opcode::SWAP2,
            0x92u8 => Opcode::SWAP3,
            0x93u8 => Opcode::SWAP4,
            0x94u8 => Opcode::SWAP5,
            0x95u8 => Opcode::SWAP6,
            0x96u8 => Opcode::SWAP7,
            0x97u8 => Opcode::SWAP8,
            0x98u8 => Opcode::SWAP9,
            0x99u8 => Opcode::SWAP10,
            0x9au8 => Opcode::SWAP11,
            0x9bu8 => Opcode::SWAP12,
            0x9cu8 => Opcode::SWAP13,
            0x9du8 => Opcode::SWAP14,
            0x9eu8 => Opcode::SWAP15,
            0x9fu8 => Opcode::SWAP16,
            0xa0u8 => Opcode::LOG0,
            0xa1u8 => Opcode::LOG1,
            0xa2u8 => Opcode::LOG2,
            0xa3u8 => Opcode::LOG3,
            0xa4u8 => Opcode::LOG4,
            0xf0u8 => Opcode::CREATE,
            0xf1u8 => Opcode::CALL,
            0xf2u8 => Opcode::CALLCODE,
            0xf3u8 => Opcode::RETURN,
            0xf4u8 => Opcode::DELEGATECALL,
            0xf5u8 => Opcode::CREATE2,
            0xfau8 => Opcode::STATICCALL,
            0xfdu8 => Opcode::REVERT,
            0xffu8 => Opcode::SELFDESTRUCT,
            _ => Opcode::INVALID,
        }
    }
}

} // verus!
