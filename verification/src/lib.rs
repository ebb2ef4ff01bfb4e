//! A deterministic bytecode interpreter for the Ethereum Virtual Machine's
//! single-frame instruction set: a bounded operand stack of 256-bit words,
//! word-aligned scratch memory with quadratic expansion pricing, persistent
//! and transient key-value storage with cold/warm accounting, a gas meter,
//! and a fetch-decode-execute engine with byte-level jump validation.
//!
//! Every component carries contracts over a mathematical model: words are
//! valued as naturals below 2^256, memory as a byte sequence, the stack as
//! a word sequence, and storage as key-indexed values. The inter-contract
//! call family is out of scope and aborts as an invalid opcode.

pub mod errors;
pub mod evm;
pub mod helper;
pub mod keccak;
pub mod memory;
pub mod opcode_instructions;
pub mod opcodes;
pub mod stack;
pub mod storage;
pub mod transient;
pub mod word;
