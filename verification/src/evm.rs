use vstd::prelude::*;
use crate::errors::VmError;
use crate::memory::{Memory, mem_cost};
use crate::stack::Stack;
use crate::storage::Storage;
use crate::transient::Transient;
use crate::word::Word;
use crate::opcodes::{Opcode, opcode_of};
use crate::opcode_instructions;

verus! {

/// One emitted log: up to four topic words and an opaque byte payload.
pub struct LogEntry {
    pub topics: Vec<Word>,
    pub data: Vec<u8>,
}

/// The execution engine: program counter, machine state, immutable call
/// context, and the terminal flags of the run.
pub struct EVM {
    pub pc: usize,
    pub stack: Stack,
    pub memory: Memory,
    pub storage: Storage,
    pub transient: Transient,
    pub sender: [u8; 20],
    pub program: Vec<u8>,
    pub gas: usize,
    pub gas_limit: usize,
    pub value: usize,
    pub call_data: Vec<u8>,
    pub stop_flag: bool,
    pub revert_flag: bool,
    pub return_data: Vec<u8>,
    pub logs: Vec<LogEntry>,
}

/// The per-run context never changes after construction.
pub open spec fn ctx_eq(pre: EVM, post: EVM) -> bool {
    &&& post.sender == pre.sender
    &&& post.program == pre.program
    &&& post.gas_limit == pre.gas_limit
    &&& post.value == pre.value
    &&& post.call_data == pre.call_data
}

/// Everything outside the stack, the gas counter, and the program counter
/// is untouched.
pub open spec fn only_stack_gas_pc_changed(pre: EVM, post: EVM) -> bool {
    &&& ctx_eq(pre, post)
    &&& post.memory == pre.memory
    &&& post.storage == pre.storage
    &&& post.transient == pre.transient
    &&& post.stop_flag == pre.stop_flag
    &&& post.revert_flag == pre.revert_flag
    &&& post.return_data == pre.return_data
    &&& post.logs == pre.logs
}

/// Everything outside the stack, the gas counter, and memory is untouched.
pub open spec fn only_stack_gas_mem_changed(pre: EVM, post: EVM) -> bool {
    &&& ctx_eq(pre, post)
    &&& post.pc == pre.pc
    &&& post.storage == pre.storage
    &&& post.transient == pre.transient
    &&& post.stop_flag == pre.stop_flag
    &&& post.revert_flag == pre.revert_flag
    &&& post.return_data == pre.return_data
    &&& post.logs == pre.logs
}

/// Everything outside the stack, the gas counter, and persistent storage
/// is untouched.
pub open spec fn only_stack_gas_storage_changed(pre: EVM, post: EVM) -> bool {
    &&& ctx_eq(pre, post)
    &&& post.pc == pre.pc
    &&& post.memory == pre.memory
    &&& post.transient == pre.transient
    &&& post.stop_flag == pre.stop_flag
    &&& post.revert_flag == pre.revert_flag
    &&& post.return_data == pre.return_data
    &&& post.logs == pre.logs
}

/// Everything outside the stack, the gas counter, and transient storage
/// is untouched.
pub open spec fn only_stack_gas_transient_changed(pre: EVM, post: EVM) -> bool {
    &&& ctx_eq(pre, post)
    &&& post.pc == pre.pc
    &&& post.memory == pre.memory
    &&& post.storage == pre.storage
    &&& post.stop_flag == pre.stop_flag
    &&& post.revert_flag == pre.revert_flag
    &&& post.return_data == pre.return_data
    &&& post.logs == pre.logs
}

/// Everything outside the stack, the gas counter, memory, and the log list
/// is untouched.
pub open spec fn only_stack_gas_mem_logs_changed(pre: EVM, post: EVM) -> bool {
    &&& ctx_eq(pre, post)
    &&& post.pc == pre.pc
    &&& post.storage == pre.storage
    &&& post.transient == pre.transient
    &&& post.stop_flag == pre.stop_flag
    &&& post.revert_flag == pre.revert_flag
    &&& post.return_data == pre.return_data
}

/// Everything outside the stack, the gas counter, memory, the return data,
/// and the terminal flags is untouched.
pub open spec fn only_stack_gas_mem_halt_changed(pre: EVM, post: EVM) -> bool {
    &&& ctx_eq(pre, post)
    &&& post.pc == pre.pc
    &&& post.storage == pre.storage
    &&& post.transient == pre.transient
    &&& post.logs == pre.logs
}

/// Memory after the growth an access to `end` bytes demands: aligned, the
/// old contents kept, the new bytes zero.
pub open spec fn mem_grown(pre_mem: Seq<u8>, post_mem: Seq<u8>, end: nat) -> bool {
    &&& post_mem.len() == crate::memory::grown_len(pre_mem.len(), end)
    &&& forall|j: int| 0 <= j < pre_mem.len() ==> post_mem[j] == pre_mem[j]
    &&& forall|j: int| pre_mem.len() <= j < post_mem.len() ==> post_mem[j] == 0
}

/// A byte window read from `src` starting at `off`, zero-padded past its
/// end.
pub open spec fn padded_slice(src: Seq<u8>, off: nat, n: nat) -> Seq<u8> {
    Seq::new(n, |i: int| if off + i < src.len() {
        src[off + i]
    } else {
        0u8
    })
}

/// Two machines that agree on everything but the program counter.
pub open spec fn eq_except_pc(a: EVM, b: EVM) -> bool {
    &&& ctx_eq(a, b)
    &&& b.stack == a.stack
    &&& b.memory == a.memory
    &&& b.storage == a.storage
    &&& b.transient == a.transient
    &&& b.gas == a.gas
    &&& b.stop_flag == a.stop_flag
    &&& b.revert_flag == a.revert_flag
    &&& b.return_data == a.return_data
    &&& b.logs == a.logs
}

/// The machine may take another step: the counter is inside the program
/// and no terminal flag is set.
pub open spec fn can_continue(q: EVM) -> bool {
    q.pc < q.program@.len() && !q.stop_flag && !q.revert_flag
}

/// One small step of the machine: the instruction under the counter
/// executes as its dispatch relation says, and then the counter advances
/// by one unless the instruction redirected it.
pub open spec fn step_rel(pre: EVM, post: EVM) -> bool {
    &&& can_continue(pre)
    &&& exists|mid: EVM, red: bool|
        #[trigger] crate::opcode_instructions::dispatch_ok(
            opcode_of(pre.program@[pre.pc as int]),
            pre,
            mid,
            red,
        ) && (if red {
            post == mid
        } else {
            eq_except_pc(mid, post) && post.pc == mid.pc + 1
        })
}

/// Every adjacent pair of the sequence is one machine step.
pub open spec fn steps_trace(tr: Seq<EVM>) -> bool {
    forall|i: int| 0 <= i < tr.len() - 1 ==> step_rel(tr[i], #[trigger] tr[i + 1])
}

/// Reaching the end of the program halts like an explicit stop: the halt
/// flag is raised, the counter is brought back onto the program, and
/// nothing else moves.
pub open spec fn wrap_halt(q: EVM, post: EVM) -> bool {
    &&& post.stop_flag
    &&& post.pc == (if q.pc <= q.program@.len() {
        q.pc as int
    } else {
        q.program@.len() as int
    })
    &&& ctx_eq(q, post)
    &&& post.stack == q.stack
    &&& post.memory == q.memory
    &&& post.storage == q.storage
    &&& post.transient == q.transient
    &&& post.gas == q.gas
    &&& post.revert_flag == q.revert_flag
    &&& post.return_data == q.return_data
    &&& post.logs == q.logs
}

/// Everything outside the stack and the gas counter is untouched.
pub open spec fn only_stack_gas_changed(pre: EVM, post: EVM) -> bool {
    &&& ctx_eq(pre, post)
    &&& post.pc == pre.pc
    &&& post.memory == pre.memory
    &&& post.storage == pre.storage
    &&& post.transient == pre.transient
    &&& post.stop_flag == pre.stop_flag
    &&& post.revert_flag == pre.revert_flag
    &&& post.return_data == pre.return_data
    &&& post.logs == pre.logs
}

impl EVM {
    /// Well-formedness: the stack respects its bound, memory is word
    /// aligned, and the gas already spent covers the memory held.
    pub open spec fn wf(self) -> bool {
        &&& self.stack.wf()
        &&& self.memory.wf()
        &&& mem_cost(self.memory@.len() / 32) + self.gas <= self.gas_limit
        &&& self.program@.len() + 33 <= usize::MAX
    }

    pub fn new(sender: [u8; 20], gas: usize, value: usize, program: Vec<u8>, call_data: Vec<u8>)
        -> (r: EVM)
        requires
            program@.len() + 33 <= usize::MAX,
        ensures
            r.wf(),
            r.pc == 0,
            r.stack@.len() == 0,
            r.memory@.len() == 0,
            forall|k: u64| r.storage.val(k) == 0 && !r.storage.warm(k),
            forall|k: u64| r.transient.val(k) == 0,
            r.sender == sender,
            r.program == program,
            r.gas == gas,
            r.gas_limit == gas,
            r.value == value,
            r.call_data == call_data,
            !r.stop_flag && !r.revert_flag,
            r.return_data@.len() == 0,
            r.logs@.len() == 0,
    {
        EVM {
            pc: 0,
            stack: Stack::new(),
            memory: Memory::new(),
            storage: Storage::new(),
            transient: Transient::new(),
            sender,
            program,
            gas,
            gas_limit: gas,
            value,
            call_data,
            stop_flag: false,
            revert_flag: false,
            return_data: Vec::new(),
            logs: Vec::new(),
        }
    }

    /// Charge gas; fails with the out-of-gas fault before any subtraction
    /// would go negative, leaving the whole machine untouched.
    pub fn gas_decrease(&mut self, gas: usize) -> (r: Result<(), VmError>)
        requires
            old(self).wf(),
        ensures
            final(self).wf(),
            match r {
                Ok(()) => old(self).gas >= gas && final(self).gas == old(self).gas - gas
                    && only_stack_gas_changed(*old(self), *final(self)) && final(self).stack == old(
                    self,
                ).stack,
                Err(e) => e == VmError::OutOfGas && old(self).gas < gas && *final(self) == *old(
                    self,
                ),
            },
    {
        if self.gas < gas {
            return Err(VmError::OutOfGas);
        }
        self.gas = self.gas - gas;
        Ok(())
    }

    /// Whether the loop may take another step: the counter is inside the
    /// program and no terminal flag is set.
    pub fn continue_execution(&self) -> (r: bool)
        ensures
            r == (self.pc < self.program@.len() && !self.stop_flag && !self.revert_flag),
    {
        self.pc < self.program.len() && !self.stop_flag && !self.revert_flag
    }

    /// The opcode byte under the program counter.
    pub fn fetch_opcode(&self) -> (r: u8)
        requires
            self.pc < self.program@.len(),
        ensures
            r == self.program@[self.pc as int],
    {
        self.program[self.pc]
    }

    /// Dispatch one decoded instruction. The boolean reports whether the
    /// handler redirected the program counter, which suppresses the
    /// implicit advance for this step.
    #[verifier::rlimit(100)]
    #[verifier::spinoff_prover]
    pub fn execute_opcode(&mut self, opcode: u8) -> (r: Result<bool, VmError>)
        requires
            old(self).wf(),
            old(self).pc < old(self).program@.len(),
        ensures
            final(self).wf(),
            ctx_eq(*old(self), *final(self)),
            final(self).gas <= old(self).gas,
            match r {
                Ok(redirected) => {
                    &&& (final(self).gas < old(self).gas || final(self).stop_flag || final(self).revert_flag)
                    &&& (redirected ==> final(self).pc < final(self).program@.len())
                    &&& (!redirected ==> old(self).pc <= final(self).pc <= old(self).pc + 32)
                    &&& ((final(self).stop_flag || final(self).revert_flag) && !(old(self).stop_flag
                        || old(self).revert_flag) ==> final(self).pc == old(self).pc)
                    &&& crate::opcode_instructions::dispatch_ok(
                        opcode_of(opcode),
                        *old(self),
                        *final(self),
                        redirected,
                    )
                },
                Err(e) => *final(self) == *old(self) && crate::opcode_instructions::dispatch_err(
                    opcode_of(opcode),
                    *old(self),
                    e,
                ),
            },
    {
        match Opcode::from_u8(opcode) {
            Opcode::JUMP => {
                opcode_instructions::jump(self)?;
                Ok(true)
            },
            Opcode::JUMPI => opcode_instructions::jumpi(self),
            Opcode::STOP => {
                opcode_instructions::stop(self)?;
                Ok(false)
            },
            Opcode::ADD => {
                opcode_instructions::add(self)?;
                Ok(false)
            },
            Opcode::MUL => {
                opcode_instructions::mul(self)?;
                Ok(false)
            },
            Opcode::SUB => {
                opcode_instructions::sub(self)?;
                Ok(false)
            },
            Opcode::DIV => {
                opcode_instructions::div(self)?;
                Ok(false)
            },
            Opcode::SDIV => {
                opcode_instructions::sdiv(self)?;
                Ok(false)
            },
            Opcode::MOD => {
                opcode_instructions::_mod(self)?;
                Ok(false)
            },
            Opcode::SMOD => {
                opcode_instructions::smod(self)?;
                Ok(false)
            },
            Opcode::ADDMOD => {
                opcode_instructions::addmod(self)?;
                Ok(false)
            },
            Opcode::MULMOD => {
                opcode_instructions::mulmod(self)?;
                Ok(false)
            },
            Opcode::EXP => {
                opcode_instructions::exp(self)?;
                Ok(false)
            },
            Opcode::SIGNEXTEND => {
                opcode_instructions::signextend(self)?;
                Ok(false)
            },
            Opcode::LT => {
                opcode_instructions::lt(self)?;
                Ok(false)
            },
            Opcode::GT => {
                opcode_instructions::gt(self)?;
                Ok(false)
            },
            Opcode::SLT => {
                opcode_instructions::slt(self)?;
                Ok(false)
            },
            Opcode::SGT => {
                opcode_instructions::sgt(self)?;
                Ok(false)
            },
            Opcode::EQ => {
                opcode_instructions::eq(self)?;
                Ok(false)
            },
            Opcode::ISZERO => {
                opcode_instructions::iszero(self)?;
                Ok(false)
            },
            Opcode::AND => {
                opcode_instructions::and(self)?;
                Ok(false)
            },
            Opcode::OR => {
                opcode_instructions::or(self)?;
                Ok(false)
            },
            Opcode::XOR => {
                opcode_instructions::xor(self)?;
                Ok(false)
            },
            Opcode::NOT => {
                opcode_instructions::not(self)?;
                Ok(false)
            },
            Opcode::BYTE => {
                opcode_instructions::byte(self)?;
                Ok(false)
            },
            Opcode::SHL => {
                opcode_instructions::shl(self)?;
                Ok(false)
            },
            Opcode::SHR => {
                opcode_instructions::shr(self)?;
                Ok(false)
            },
            Opcode::SAR => {
                opcode_instructions::sar(self)?;
                Ok(false)
            },
            Opcode::KECCAK256 => {
                opcode_instructions::_keccak256(self)?;
                Ok(false)
            },
            Opcode::ADDRESS => {
                opcode_instructions::address(self)?;
                Ok(false)
            },
            Opcode::BALANCE => {
                opcode_instructions::balance(self)?;
                Ok(false)
            },
            Opcode::ORIGIN => {
                opcode_instructions::origin(self)?;
                Ok(false)
            },
            Opcode::CALLER => {
                opcode_instructions::caller(self)?;
                Ok(false)
            },
            Opcode::CALLVALUE => {
                opcode_instructions::callvalue(self)?;
                Ok(false)
            },
            Opcode::CALLDATALOAD => {
                opcode_instructions::calldataload(self)?;
                Ok(false)
            },
            Opcode::CALLDATASIZE => {
                opcode_instructions::calldatasize(self)?;
                Ok(false)
            },
            Opcode::CALLDATACOPY => {
                opcode_instructions::calldatacopy(self)?;
                Ok(false)
            },
            Opcode::CODESIZE => {
                opcode_instructions::codesize(self)?;
                Ok(false)
            },
            Opcode::CODECOPY => {
                opcode_instructions::codecopy(self)?;
                Ok(false)
            },
            Opcode::GASPRICE => {
                opcode_instructions::gasprice(self)?;
                Ok(false)
            },
            Opcode::EXTCODESIZE => {
                opcode_instructions::extcodesize(self)?;
                Ok(false)
            },
            Opcode::EXTCODECOPY => {
                opcode_instructions::extcodecopy(self)?;
                Ok(false)
            },
            Opcode::RETURNDATASIZE => {
                opcode_instructions::returndatasize(self)?;
                Ok(false)
            },
            Opcode::RETURNDATACOPY => {
                opcode_instructions::returndatacopy(self)?;
                Ok(false)
            },
            Opcode::EXTCODEHASH => {
                opcode_instructions::extcodehash(self)?;
                Ok(false)
            },
            Opcode::BLOCKHASH => {
                opcode_instructions::blockhash(self)?;
                Ok(false)
            },
            Opcode::COINBASE => {
                opcode_instructions::coinbase(self)?;
                Ok(false)
            },
            Opcode::POP => {
                opcode_instructions::pop(self)?;
                Ok(false)
            },
            Opcode::MLOAD => {
                opcode_instructions::mload(self)?;
                Ok(false)
            },
            Opcode::MSTORE => {
                opcode_instructions::mstore(self)?;
                Ok(false)
            },
            Opcode::MSTORE8 => {
                opcode_instructions::mstore8(self)?;
                Ok(false)
            },
            Opcode::SLOAD => {
                opcode_instructions::sload(self)?;
                Ok(false)
            },
            Opcode::SSTORE => {
                opcode_instructions::sstore(self)?;
                Ok(false)
            },
            Opcode::PC => {
                opcode_instructions::pc(self)?;
                Ok(false)
            },
            Opcode::JUMPDEST => {
                opcode_instructions::jump_dest(self)?;
                Ok(false)
            },
            Opcode::TLOAD => {
                opcode_instructions::tload(self)?;
                Ok(false)
            },
            Opcode::TSTORE => {
                opcode_instructions::tstore(self)?;
                Ok(false)
            },
            Opcode::PUSH1 => {
                opcode_instructions::push_n(self, 1)?;
                Ok(false)
            },
            Opcode::PUSH2 => {
                opcode_instructions::push_n(self, 2)?;
                Ok(false)
            },
            Opcode::PUSH3 => {
                opcode_instructions::push_n(self, 3)?;
                Ok(false)
            },
            Opcode::PUSH4 => {
                opcode_instructions::push_n(self, 4)?;
                Ok(false)
            },
            Opcode::PUSH5 => {
                opcode_instructions::push_n(self, 5)?;
                Ok(false)
            },
            Opcode::PUSH6 => {
                opcode_instructions::push_n(self, 6)?;
                Ok(false)
            },
            Opcode::PUSH7 => {
                opcode_instructions::push_n(self, 7)?;
                Ok(false)
            },
            Opcode::PUSH8 => {
                opcode_instructions::push_n(self, 8)?;
                Ok(false)
            },
            Opcode::PUSH9 => {
                opcode_instructions::push_n(self, 9)?;
                Ok(false)
            },
            Opcode::PUSH10 => {
                opcode_instructions::push_n(self, 10)?;
                Ok(false)
            },
            Opcode::PUSH11 => {
                opcode_instructions::push_n(self, 11)?;
                Ok(false)
            },
            Opcode::PUSH12 => {
                opcode_instructions::push_n(self, 12)?;
                Ok(false)
            },
            Opcode::PUSH13 => {
                opcode_instructions::push_n(self, 13)?;
                Ok(false)
            },
            Opcode::PUSH14 => {
                opcode_instructions::push_n(self, 14)?;
                Ok(false)
            },
            Opcode::PUSH15 => {
                opcode_instructions::push_n(self, 15)?;
                Ok(false)
            },
            Opcode::PUSH16 => {
                opcode_instructions::push_n(self, 16)?;
                Ok(false)
            },
            Opcode::PUSH17 => {
                opcode_instructions::push_n(self, 17)?;
                Ok(false)
            },
            Opcode::PUSH18 => {
                opcode_instructions::push_n(self, 18)?;
                Ok(false)
            },
            Opcode::PUSH19 => {
                opcode_instructions::push_n(self, 19)?;
                Ok(false)
            },
            Opcode::PUSH20 => {
                opcode_instructions::push_n(self, 20)?;
                Ok(false)
            },
            Opcode::PUSH21 => {
                opcode_instructions::push_n(self, 21)?;
                Ok(false)
            },
            Opcode::PUSH22 => {
                opcode_instructions::push_n(self, 22)?;
                Ok(false)
            },
            Opcode::PUSH23 => {
                opcode_instructions::push_n(self, 23)?;
                Ok(false)
            },
            Opcode::PUSH24 => {
                opcode_instructions::push_n(self, 24)?;
                Ok(false)
            },
            Opcode::PUSH25 => {
                opcode_instructions::push_n(self, 25)?;
                Ok(false)
            },
            Opcode::PUSH26 => {
                opcode_instructions::push_n(self, 26)?;
                Ok(false)
            },
            Opcode::PUSH27 => {
                opcode_instructions::push_n(self, 27)?;
                Ok(false)
            },
            Opcode::PUSH28 => {
                opcode_instructions::push_n(self, 28)?;
                Ok(false)
            },
            Opcode::PUSH29 => {
                opcode_instructions::push_n(self, 29)?;
                Ok(false)
            },
            Opcode::PUSH30 => {
                opcode_instructions::push_n(self, 30)?;
                Ok(false)
            },
            Opcode::PUSH31 => {
                opcode_instructions::push_n(self, 31)?;
                Ok(false)
            },
            Opcode::PUSH32 => {
                opcode_instructions::push_n(self, 32)?;
                Ok(false)
            },
            Opcode::DUP1 => {
                opcode_instructions::dun_n(self, 1)?;
                Ok(false)
            },
            Opcode::DUP2 => {
                opcode_instructions::dun_n(self, 2)?;
                Ok(false)
            },
            Opcode::DUP3 => {
                opcode_instructions::dun_n(self, 3)?;
                Ok(false)
            },
            Opcode::DUP4 => {
                opcode_instructions::dun_n(self, 4)?;
                Ok(false)
            },
            Opcode::DUP5 => {
                opcode_instructions::dun_n(self, 5)?;
                Ok(false)
            },
            Opcode::DUP6 => {
                opcode_instructions::dun_n(self, 6)?;
                Ok(false)
            },
            Opcode::DUP7 => {
                opcode_instructions::dun_n(self, 7)?;
                Ok(false)
            },
            Opcode::DUP8 => {
                opcode_instructions::dun_n(self, 8)?;
                Ok(false)
            },
            Opcode::DUP9 => {
                opcode_instructions::dun_n(self, 9)?;
                Ok(false)
            },
            Opcode::DUP10 => {
                opcode_instructions::dun_n(self, 10)?;
                Ok(false)
            },
            Opcode::DUP11 => {
                opcode_instructions::dun_n(self, 11)?;
                Ok(false)
            },
            Opcode::DUP12 => {
                opcode_instructions::dun_n(self, 12)?;
                Ok(false)
            },
            Opcode::DUP13 => {
                opcode_instructions::dun_n(self, 13)?;
                Ok(false)
            },
            Opcode::DUP14 => {
                opcode_instructions::dun_n(self, 14)?;
                Ok(false)
            },
            Opcode::DUP15 => {
                opcode_instructions::dun_n(self, 15)?;
                Ok(false)
            },
            Opcode::DUP16 => {
                opcode_instructions::dun_n(self, 16)?;
                Ok(false)
            },
            Opcode::SWAP1 => {
                opcode_instructions::swap_n(self, 1)?;
                Ok(false)
            },
            Opcode::SWAP2 => {
                opcode_instructions::swap_n(self, 2)?;
                Ok(false)
            },
            Opcode::SWAP3 => {
                opcode_instructions::swap_n(self, 3)?;
                Ok(false)
            },
            Opcode::SWAP4 => {
                opcode_instructions::swap_n(self, 4)?;
                Ok(false)
            },
            Opcode::SWAP5 => {
                opcode_instructions::swap_n(self, 5)?;
                Ok(false)
            },
            Opcode::SWAP6 => {
                opcode_instructions::swap_n(self, 6)?;
                Ok(false)
            },
            Opcode::SWAP7 => {
                opcode_instructions::swap_n(self, 7)?;
                Ok(false)
            },
            Opcode::SWAP8 => {
                opcode_instructions::swap_n(self, 8)?;
                Ok(false)
            },
            Opcode::SWAP9 => {
                opcode_instructions::swap_n(self, 9)?;
                Ok(false)
            },
            Opcode::SWAP10 => {
                opcode_instructions::swap_n(self, 10)?;
                Ok(false)
            },
            Opcode::SWAP11 => {
                opcode_instructions::swap_n(self, 11)?;
                Ok(false)
            },
            Opcode::SWAP12 => {
                opcode_instructions::swap_n(self, 12)?;
                Ok(false)
            },
            Opcode::SWAP13 => {
                opcode_instructions::swap_n(self, 13)?;
                Ok(false)
            },
            Opcode::SWAP14 => {
                opcode_instructions::swap_n(self, 14)?;
                Ok(false)
            },
            Opcode::SWAP15 => {
                opcode_instructions::swap_n(self, 15)?;
                Ok(false)
            },
            Opcode::SWAP16 => {
                opcode_instructions::swap_n(self, 16)?;
                Ok(false)
            },
            Opcode::LOG0 => {
                opcode_instructions::log0(self)?;
                Ok(false)
            },
            Opcode::LOG1 => {
                opcode_instructions::log1(self)?;
                Ok(false)
            },
            Opcode::LOG2 => {
                opcode_instructions::log2(self)?;
                Ok(false)
            },
            Opcode::LOG3 => {
                opcode_instructions::log3(self)?;
                Ok(false)
            },
            Opcode::LOG4 => {
                opcode_instructions::log4(self)?;
                Ok(false)
            },
            Opcode::RETURN => {
                opcode_instructions::_return(self)?;
                Ok(false)
            },
            Opcode::REVERT => {
                opcode_instructions::revert(self)?;
                Ok(false)
            },
            // inter-contract operations are outside this machine's scope,
            // and unmapped bytes decode to the sentinel: both abort the run
            _ => Err(VmError::InvalidOpcode),
        }
    }

    /// Drive fetch-decode-execute until a terminal condition. The final
    /// state is reached from the initial one by a chain of single
    /// instruction steps; reaching the end of the program halts like an
    /// explicit stop; a fatal condition surfaces as the structured error
    /// of the first failing instruction, with the effects of every
    /// instruction before it kept and nothing of the failing one applied.
    pub fn run(&mut self) -> (r: Result<(), VmError>)
        requires
            old(self).wf(),
            old(self).pc <= old(self).program@.len(),
        ensures
            final(self).wf(),
            ctx_eq(*old(self), *final(self)),
            final(self).gas <= old(self).gas,
            final(self).pc <= final(self).program@.len(),
            r is Ok ==> final(self).stop_flag || final(self).revert_flag,
            old(self).stop_flag || old(self).revert_flag ==> *final(self) == *old(self),
            exists|tr: Seq<EVM>|
                #![trigger steps_trace(tr)]
                {
                    &&& tr.len() >= 1
                    &&& tr[0] == *old(self)
                    &&& steps_trace(tr)
                    &&& match r {
                        Ok(()) => (tr.last().stop_flag || tr.last().revert_flag) && *final(self)
                            == tr.last() || !tr.last().stop_flag && !tr.last().revert_flag
                            && tr.last().pc >= tr.last().program@.len() && wrap_halt(
                            tr.last(),
                            *final(self),
                        ),
                        Err(e) => *final(self) == tr.last() && can_continue(tr.last())
                            && crate::opcode_instructions::dispatch_err(
                            opcode_of(tr.last().program@[tr.last().pc as int]),
                            tr.last(),
                            e,
                        ),
                    }
                },
    {
        let ghost mut tr: Seq<EVM> = seq![*old(self)];
        loop
            invariant
                self.wf(),
                ctx_eq(*old(self), *self),
                self.gas <= old(self).gas,
                old(self).stop_flag || old(self).revert_flag ==> *self == *old(self),
                tr.len() >= 1,
                tr[0] == *old(self),
                steps_trace(tr),
                tr.last() == *self,
                self.stop_flag || self.revert_flag ==> self.pc <= self.program@.len(),
                old(self).pc <= old(self).program@.len(),
            ensures
                self.wf(),
                ctx_eq(*old(self), *self),
                self.gas <= old(self).gas,
                old(self).stop_flag || old(self).revert_flag ==> *self == *old(self),
                tr.len() >= 1,
                tr[0] == *old(self),
                steps_trace(tr),
                tr.last() == *self,
                self.stop_flag || self.revert_flag ==> self.pc <= self.program@.len(),
                !(self.pc < self.program@.len() && !self.stop_flag && !self.revert_flag),
            decreases self.gas + (if self.stop_flag || self.revert_flag {
                0int
            } else {
                1int
            }),
        {
            if !self.continue_execution() {
                break ;
            }
            let ghost prev = *self;
            let op_u8 = self.fetch_opcode();
            let step_res = self.execute_opcode(op_u8);
            let redirected = match step_res {
                Ok(red) => red,
                Err(e) => {
                    proof {
                        assert(steps_trace(tr));
                        assert(*self == tr.last());
                        assert(can_continue(tr.last()));
                        assert(crate::opcode_instructions::dispatch_err(
                            opcode_of(tr.last().program@[tr.last().pc as int]),
                            tr.last(),
                            e,
                        ));
                    }
                    return Err(e);
                },
            };
            let ghost mid = *self;
            if !redirected {
                self.step_next();
            }
            proof {
                assert(crate::opcode_instructions::dispatch_ok(
                    opcode_of(prev.program@[prev.pc as int]),
                    prev,
                    mid,
                    redirected,
                ));
                if redirected {
                    assert(*self == mid);
                } else {
                    assert(eq_except_pc(mid, *self) && self.pc == mid.pc + 1);
                }
                assert(step_rel(prev, *self));
                let old_tr = tr;
                tr = tr.push(*self);
                assert(tr.last() == *self);
                assert forall|i: int| 0 <= i < tr.len() - 1 implies step_rel(
                    tr[i],
                    #[trigger] tr[i + 1],
                ) by {
                    if i < old_tr.len() - 1 {
                        assert(tr[i] == old_tr[i] && tr[i + 1] == old_tr[i + 1]);
                        assert(step_rel(old_tr[i], old_tr[i + 1]));
                    } else {
                        assert(tr[i] == prev && tr[i + 1] == *self);
                    }
                }
            }
        }
        let ghost q = *self;
        if !self.stop_flag && !self.revert_flag {
            self.stop_flag = true;
            if self.pc > self.program.len() {
                self.pc = self.program.len();
            }
            proof {
                assert(wrap_halt(q, *self));
            }
        }
        proof {
            assert(steps_trace(tr));
            assert(tr.last() == q);
            if q.stop_flag || q.revert_flag {
                assert(*self == q);
            }
        }
        Ok(())
    }

    /// Advance the program counter past the instruction just executed.
    fn step_next(&mut self) -> (r: ())
        requires
            old(self).wf(),
            old(self).pc + 1 <= usize::MAX,
        ensures
            final(self).wf(),
            final(self).pc == old(self).pc + 1,
            eq_except_pc(*old(self), *final(self)),
    {
        self.pc = self.pc + 1;
    }

    /// Record one log entry.
    pub(crate) fn log(&mut self, topics: Vec<Word>, data: Vec<u8>) -> (r: ())
        ensures
            final(self).logs@.len() == old(self).logs@.len() + 1,
            final(self).logs@.last().topics == topics,
            final(self).logs@.last().data == data,
            forall|j: int|
                0 <= j < old(self).logs@.len() ==> final(self).logs@[j] == old(self).logs@[j],
            *final(self) == (EVM { logs: final(self).logs, ..*old(self) }),
    {
        let entry = LogEntry { topics, data };
        self.logs.push(entry);
    }

    /// Begin a fresh run over the same context: every mutable piece of
    /// state is reinitialized; the call context (sender, program, value,
    /// call data) is untouched, and remaining gas is kept, not refunded.
    pub fn reset(&mut self) -> (r: ())
        requires
            old(self).wf(),
        ensures
            final(self).wf(),
            final(self).pc == 0,
            final(self).stack@.len() == 0,
            final(self).memory@.len() == 0,
            forall|k: u64| final(self).storage.val(k) == 0 && !final(self).storage.warm(k),
            forall|k: u64| final(self).transient.val(k) == 0,
            final(self).gas == old(self).gas,
            final(self).sender == old(self).sender,
            final(self).program == old(self).program,
            final(self).gas_limit == old(self).gas_limit,
            final(self).value == old(self).value,
            final(self).call_data == old(self).call_data,
            !final(self).stop_flag && !final(self).revert_flag,
            final(self).return_data@.len() == 0,
            final(self).logs@.len() == 0,
    {
        self.pc = 0;
        self.stack = Stack::new();
        self.memory = Memory::new();
        self.storage = Storage::new();
        self.transient = Transient::new();
        self.stop_flag = false;
        self.revert_flag = false;
        self.return_data = Vec::new();
        self.logs = Vec::new();
    }
}

} // verus!
