//! The machine: state, error values, and the opcode dispatch loop.

use vstd::prelude::*;

use crate::memory::Memory;
use crate::opcodes;
use crate::stack::Stack;
use crate::storage::{Storage, TransientStorage};
use crate::word::Word;

verus! {

broadcast use crate::stack::lemma_stack_values;

/// The ways an execution can fail.  `REVERT` is not among them: it is a
/// clean halt.
#[derive(Debug, PartialEq, Eq)]
pub enum EvmError {
    OutOfGas,
    StackUnderflow,
    StackOverflow,
    MemoryOutOfBounds { offset: usize, size: usize, max: usize },
    ReturnDataOutOfBounds { offset: usize, size: usize, max: usize },
    BadJumpDestination { dest: usize, reason: String },
    UnknownOpcode { opcode: String },
}

/// One event record: up to four topic words and a byte payload.
pub struct Log {
    pub topics: Vec<Word>,
    pub data: Vec<u8>,
}

/// The mathematical shape of a log record.
#[verifier::ext_equal]
pub ghost struct LogView {
    pub topics: Seq<nat>,
    pub data: Seq<u8>,
}

impl View for Log {
    type V = LogView;

    open spec fn view(&self) -> LogView {
        LogView { topics: self.topics@.map_values(|w: Word| w@), data: self.data@ }
    }
}

impl Log {
    /// Pack a payload and its topics into a record.
    pub fn new(data: Vec<u8>, topics: Vec<Word>) -> (r: Log)
        ensures
            r@.topics =~= topics@.map_values(|w: Word| w@),
            r@.data =~= data@,
    {
        Log { topics, data }
    }
}

/// A 160-bit account identity.
#[derive(Clone, Copy, Debug)]
pub struct Address {
    pub bytes: [u8; 20],
}

impl View for Address {
    type V = Seq<u8>;

    open spec fn view(&self) -> Seq<u8> {
        self.bytes@
    }
}

impl Address {
    /// The all-zero address.
    pub fn zero() -> (r: Address)
        ensures
            r@ =~= Seq::new(20, |i: int| 0u8),
    {
        let a = Address { bytes: [0u8; 20] };
        proof {
            assert(a.bytes@ =~= Seq::new(20, |i: int| 0u8));
        }
        a
    }

    /// An address from its 20 bytes.
    pub fn from_bytes(bytes: [u8; 20]) -> (r: Address)
        ensures
            r@ == bytes@,
    {
        Address { bytes }
    }
}

/// The mathematical shape of the whole machine.
#[verifier::ext_equal]
pub ghost struct EvmV {
    pub pc: nat,
    pub value: nat,
    pub calldata: Seq<u8>,
    pub gas: nat,
    pub refund: nat,
    pub sender: Seq<u8>,
    pub program: Seq<u8>,
    pub stack: Seq<nat>,
    pub memory: Seq<u8>,
    pub storage: Map<nat, nat>,
    pub warm: Set<nat>,
    pub transient: Map<nat, nat>,
    pub stop_flag: bool,
    pub revert_flag: bool,
    pub return_data: Seq<u8>,
    pub logs: Seq<LogView>,
}

/// The machine: program, gas, environment, and the mutable components the
/// handlers drive.  Handlers receive the whole machine by mutable reference.
pub struct EVM {
    /// Byte offset into `program` of the next opcode.
    pub pc: usize,
    pub value: Word,
    pub calldata: Vec<u8>,
    pub gas: u64,
    /// Tracked but never consumed by this core.
    pub refund: u64,
    pub sender: Address,
    pub program: Vec<u8>,
    pub stack: Stack,
    pub memory: Memory,
    pub storage: Storage,
    pub transient_storage: TransientStorage,
    pub stop_flag: bool,
    pub revert_flag: bool,
    pub return_data: Vec<u8>,
    pub logs: Vec<Log>,
}

impl View for EVM {
    type V = EvmV;

    open spec fn view(&self) -> EvmV {
        EvmV {
            pc: self.pc as nat,
            value: self.value@,
            calldata: self.calldata@,
            gas: self.gas as nat,
            refund: self.refund as nat,
            sender: self.sender@,
            program: self.program@,
            stack: self.stack@,
            memory: self.memory@,
            storage: self.storage.as_map(),
            warm: self.storage.warm(),
            transient: self.transient_storage.as_map(),
            stop_flag: self.stop_flag,
            revert_flag: self.revert_flag,
            return_data: self.return_data@,
            logs: self.logs@.map_values(|l: Log| l@),
        }
    }
}

/// The machine invariants: the stack holds at most 1024 words, each a
/// value below 2^256, and the memory is a whole number of 32-byte words.
pub open spec fn wf(v: EvmV) -> bool {
    &&& v.stack.len() <= 1024
    &&& (forall|i: int| 0 <= i < v.stack.len() ==> v.stack[i] < crate::word::p256())
    &&& v.memory.len() % 32 == 0
    &&& v.gas <= u64::MAX
    &&& v.pc <= usize::MAX
    &&& v.program.len() <= usize::MAX
}

/// The dispatcher stops exactly here: past the end of the program, or after
/// a clean halt or a revert.
pub open spec fn halted(v: EvmV) -> bool {
    v.pc >= v.program.len() || v.stop_flag || v.revert_flag
}

/// The value on top of the stack (zero if there is none; the predicates
/// using it always require one).
pub open spec fn top0(v: EvmV) -> nat {
    if v.stack.len() >= 1 {
        v.stack[v.stack.len() - 1]
    } else {
        0
    }
}

/// The value one below the top.
pub open spec fn top1(v: EvmV) -> nat {
    if v.stack.len() >= 2 {
        v.stack[v.stack.len() - 2]
    } else {
        0
    }
}

/// The value two below the top.
pub open spec fn top2(v: EvmV) -> nat {
    if v.stack.len() >= 3 {
        v.stack[v.stack.len() - 3]
    } else {
        0
    }
}

/// The stack after popping `pops` words and pushing `out` if given.
pub open spec fn stack_result(pre: Seq<nat>, pops: nat, out: Option<nat>) -> Seq<nat> {
    let base = pre.take(pre.len() - pops);
    match out {
        Some(v) => base.push(v),
        None => base,
    }
}

/// The full transition of a handler that charges a fixed `g`, pops `pops`
/// words, computes, pushes `out`, and advances the program counter — and of
/// nothing else.  Success is owed exactly when the gas and the stack
/// suffice; each failure names its error and its machine state.
pub open spec fn simple_op(
    pre: EvmV,
    post: EvmV,
    r: Result<(), EvmError>,
    g: nat,
    pops: nat,
    out: Option<nat>,
) -> bool {
    if pre.gas < g {
        r == Err::<(), EvmError>(EvmError::OutOfGas) && post == pre
    } else if pre.stack.len() < pops {
        r == Err::<(), EvmError>(EvmError::StackUnderflow) && post.stack.len() == 0
            && post == EvmV {
            gas: (pre.gas - g) as nat,
            stack: post.stack,
            ..pre
        }
    } else if pops == 0 && out is Some && pre.stack.len() >= 1024 {
        r == Err::<(), EvmError>(EvmError::StackOverflow) && post == EvmV {
            gas: (pre.gas - g) as nat,
            ..pre
        }
    } else {
        r == Ok::<(), EvmError>(()) && post == EvmV {
            gas: (pre.gas - g) as nat,
            pc: (pre.pc + 1) as nat,
            stack: stack_result(pre.stack, pops, out),
            ..pre
        }
    }
}

/// The failure a recognized-but-unimplemented or unknown byte surfaces:
/// the machine untouched, and the byte named in the error.
pub open spec fn unknown_op(r: Result<(), EvmError>, op: u8) -> bool {
    r matches Err(e) && (e matches EvmError::UnknownOpcode { opcode } && opcode@
        == crate::helpers::hex_byte_seq(op))
}

impl EVM {
    /// The machine invariants, stated of the current state.
    pub open spec fn wf(&self) -> bool {
        wf(self@)
    }

    /// A fresh machine: program loaded, program counter at zero, flags
    /// clear, and every mutable component empty.
    pub fn new(sender: Address, program: Vec<u8>, gas: u64, value: Word, calldata: Vec<u8>) -> (
        r: EVM)
        ensures
            r.wf(),
            r@.pc == 0,
            r@.sender == sender@,
            r@.program == program@,
            r@.gas == gas,
            r@.value == value@,
            r@.calldata == calldata@,
            r@.refund == 0,
            r@.stack =~= Seq::<nat>::empty(),
            r@.memory =~= Seq::<u8>::empty(),
            r@.storage =~= Map::<nat, nat>::empty(),
            r@.warm =~= Set::<nat>::empty(),
            r@.transient =~= Map::<nat, nat>::empty(),
            !r@.stop_flag,
            !r@.revert_flag,
            r@.return_data =~= Seq::<u8>::empty(),
            r@.logs =~= Seq::<LogView>::empty(),
    {
        let r = EVM {
            pc: 0,
            value,
            sender,
            calldata,
            program,
            gas,
            refund: 0,
            stop_flag: false,
            revert_flag: false,
            stack: Stack::new(),
            memory: Memory::new(),
            storage: Storage::new(),
            transient_storage: TransientStorage::new(),
            return_data: Vec::new(),
            logs: Vec::new(),
        };
        let n = r.program.len();
        proof {
            assert(r@.logs =~= Seq::<LogView>::empty());
        }
        r
    }

    /// Take `amount` out of the gas meter, or refuse with `OutOfGas` and
    /// change nothing.
    pub fn gas_dec(&mut self, amount: u64) -> (r: Result<(), EvmError>)
        ensures
            amount > old(self).gas ==> r == Err::<(), EvmError>(EvmError::OutOfGas)
                && final(self)@ == old(self)@,
            amount <= old(self).gas ==> r == Ok::<(), EvmError>(()) && final(self)@ == (EvmV {
                gas: (old(self)@.gas - amount) as nat,
                ..old(self)@
            }),
    {
        if amount > self.gas {
            return Err(EvmError::OutOfGas);
        }
        self.gas = self.gas - amount;
        Ok(())
    }

    /// Take a wide amount out of the gas meter: dynamic costs are computed
    /// exactly, and anything beyond the meter's range is simply unpayable.
    pub(crate) fn charge(&mut self, amount: u128) -> (r: Result<(), EvmError>)
        ensures
            amount > old(self).gas ==> r == Err::<(), EvmError>(EvmError::OutOfGas)
                && final(self)@ == old(self)@,
            amount <= old(self).gas ==> r == Ok::<(), EvmError>(()) && final(self)@ == (EvmV {
                gas: (old(self)@.gas - amount) as nat,
                ..old(self)@
            }),
    {
        if amount > self.gas as u128 {
            return Err(EvmError::OutOfGas);
        }
        self.gas = self.gas - amount as u64;
        Ok(())
    }

    /// The opcode under the program counter.
    pub fn peek(&self) -> (r: u8)
        requires
            self@.pc < self@.program.len(),
        ensures
            r == self@.program[self@.pc as int],
    {
        self.program[self.pc]
    }

    /// Rewind for a fresh execution: program counter to zero, stack,
    /// memory, storage and transient storage emptied; program, gas and
    /// environment kept.
    pub fn reset(&mut self)
        ensures
            final(self)@ == (EvmV {
                pc: 0,
                stack: Seq::<nat>::empty(),
                memory: Seq::<u8>::empty(),
                storage: Map::<nat, nat>::empty(),
                warm: Set::<nat>::empty(),
                transient: Map::<nat, nat>::empty(),
                ..old(self)@
            }),
            final(self).wf(),
    {
        self.pc = 0;
        self.stack = Stack::new();
        self.memory = Memory::new();
        self.storage = Storage::new();
        self.transient_storage = TransientStorage::new();
        let n = self.program.len();
        proof {
            assert(self@ =~= (EvmV {
                pc: 0,
                stack: Seq::<nat>::empty(),
                memory: Seq::<u8>::empty(),
                storage: Map::<nat, nat>::empty(),
                warm: Set::<nat>::empty(),
                transient: Map::<nat, nat>::empty(),
                ..old(self)@
            }));
        }
    }

    /// Whether the dispatcher has another opcode to run: the program
    /// counter is in bounds and no halt flag is set.
    pub fn should_execute_next_opcode(&self) -> (r: bool)
        ensures
            r == !halted(self@),
    {
        if self.pc >= self.program.len() {
            return false;
        }
        if self.stop_flag || self.revert_flag {
            return false;
        }
        true
    }

    /// Read the opcode under the program counter and run its handler once.
    /// The whole per-opcode semantics is `dispatch_spec`; every successful
    /// step that does not halt pays at least one unit of gas.
    fn execute_opcode(&mut self) -> (r: Result<(), EvmError>)
        requires
            old(self).wf(),
            !halted(old(self)@),
        ensures
            final(self).wf(),
            dispatch_spec(old(self)@, final(self)@, r),
            final(self)@.gas <= old(self)@.gas,
            r matches Ok(()) ==> final(self)@.gas < old(self)@.gas || final(self)@.stop_flag
                || final(self)@.revert_flag,
    {
        let opcode = self.program[self.pc];
        match opcode {
            opcodes::STOP => opcodes::stop::stop(self),
            opcodes::ADD => opcodes::math::add(self),
            opcodes::MUL => opcodes::math::mul(self),
            opcodes::SUB => opcodes::math::sub(self),
            opcodes::DIV => opcodes::math::div(self),
            opcodes::SDIV => opcodes::math::sdiv(self),
            opcodes::MOD => opcodes::math::vm_mod(self),
            opcodes::SMOD => opcodes::math::smod(self),
            opcodes::ADDMOD => opcodes::math::add_mod(self),
            opcodes::MULMOD => opcodes::math::mul_mod(self),
            opcodes::EXP => opcodes::math::exp(self),
            opcodes::SIGNEXTEND => opcodes::math::signextend(self),
            opcodes::LT => opcodes::comparisons::lt(self),
            opcodes::GT => opcodes::comparisons::gt(self),
            opcodes::SLT => opcodes::comparisons::slt(self),
            opcodes::SGT => opcodes::comparisons::sgt(self),
            opcodes::EQ => opcodes::comparisons::eq(self),
            opcodes::ISZERO => opcodes::comparisons::is_zero(self),
            opcodes::AND => opcodes::logic::and(self),
            opcodes::OR => opcodes::logic::or(self),
            opcodes::XOR => opcodes::logic::xor(self),
            opcodes::NOT => opcodes::logic::not(self),
            opcodes::BYTE => opcodes::bit::byte(self),
            opcodes::SHL => opcodes::bit::shl(self),
            opcodes::SHR => opcodes::bit::shr(self),
            opcodes::SAR => opcodes::bit::sar(self),
            opcodes::SHA3 => opcodes::misc::sha3(self),
            opcodes::ADDRESS => opcodes::environment::address(self),
            opcodes::BALANCE => opcodes::environment::balance(self),
            opcodes::ORIGIN => opcodes::environment::origin(self),
            opcodes::CALLVALUE => opcodes::environment::call_value(self),
            opcodes::CALLDATALOAD => opcodes::environment::call_data_load(self),
            opcodes::CALLDATASIZE => opcodes::environment::call_data_size(self),
            opcodes::CALLDATACOPY => opcodes::environment::call_data_copy(self),
            opcodes::CODESIZE => opcodes::environment::code_size(self),
            opcodes::CODECOPY => opcodes::environment::code_copy(self),
            opcodes::GASPRICE => opcodes::environment::gas_price(self),
            opcodes::EXTCODECOPY => opcodes::environment::ext_code_copy(self),
            opcodes::RETURNDATASIZE => opcodes::environment::return_data_size(self),
            opcodes::RETURNDATACOPY => opcodes::environment::return_data_copy(self),
            opcodes::EXTCODEHASH => opcodes::environment::ext_code_hash(self),
            opcodes::POP => opcodes::pop::pop(self),
            opcodes::MLOAD => opcodes::memory::mload(self),
            opcodes::MSTORE => opcodes::memory::mstore(self),
            opcodes::MSTORE8 => opcodes::memory::mstore8(self),
            opcodes::SLOAD => opcodes::storage::sload(self),
            opcodes::SSTORE => opcodes::storage::s_store(self),
            opcodes::JUMP => opcodes::jump::jump(self),
            opcodes::JUMPI => opcodes::jump::jumpi(self),
            opcodes::PC => opcodes::jump::pc(self),
            opcodes::JUMPDEST => opcodes::jump::jump_dest(self),
            opcodes::TLOAD => opcodes::transient::tload(self),
            opcodes::TSTORE => opcodes::transient::tstore(self),
            opcodes::REVERT => opcodes::contract::revert(self),
            0x60..=0x7F => {
                let n = (opcode - opcodes::PUSH1 + 1) as usize;
                opcodes::push::push(self, n)
            },
            0x80..=0x8F => {
                let n = (opcode - opcodes::DUP1 + 1) as usize;
                opcodes::dup::dup(self, n)
            },
            0x90..=0x9F => {
                let n = (opcode - opcodes::SWAP1 + 1) as usize;
                opcodes::swap::swap(self, n)
            },
            0xA0..=0xA4 => {
                let n = (opcode - opcodes::LOG0) as usize;
                opcodes::log::log(self, n)
            },
            _ => Err(
                EvmError::UnknownOpcode { opcode: crate::helpers::hex_byte_string(opcode) },
            ),
        }
    }

    /// Drive the dispatcher until the machine halts or an error surfaces.
    /// Each pass runs one opcode; the loop provably terminates because
    /// every step pays gas or halts.  The result and the final state are
    /// tied to the per-opcode semantics through a witnessed trace, so a
    /// whole run is exactly an iteration of `dispatch_spec`.
    #[verifier::rlimit(100)]
    pub fn run(&mut self) -> (r: Result<(), EvmError>)
        requires
            old(self).wf(),
        ensures
            final(self).wf(),
            final(self)@.gas <= old(self)@.gas,
            r matches Ok(()) ==> halted(final(self)@),
            exists|trace: Seq<EvmV>| #[trigger] run_trace(old(self)@, final(self)@, r, trace),
    {
        let ghost mut trace: Seq<EvmV> = seq![old(self)@];
        while self.should_execute_next_opcode()
            invariant
                self.wf(),
                self@.gas <= old(self)@.gas,
                trace.len() >= 1,
                trace[0] == old(self)@,
                trace.last() == self@,
                forall|i: int| 0 <= i < trace.len() - 1 ==> #[trigger] ok_step(
                    trace[i], trace[i + 1]),
            decreases self@.gas, (if self@.stop_flag || self@.revert_flag {
                0int
            } else {
                1int
            }),
        {
            let ghost before = trace;
            let ghost pre = self@;
            let result = self.execute_opcode();
            if let Err(e) = result {
                proof {
                    assert(err_step(pre, self@, e)) by {
                        reveal(err_step);
                    }
                    assert(run_trace(old(self)@, self@, result, trace));
                }
                return Err(e);
            }
            proof {
                assert(ok_step(pre, self@)) by {
                    reveal(ok_step);
                }
                trace = trace.push(self@);
                assert forall|i: int| 0 <= i < trace.len() - 1 implies #[trigger] ok_step(
                    trace[i], trace[i + 1]) by {
                    if i < trace.len() - 2 {
                        assert(trace[i] == before[i]);
                        assert(trace[i + 1] == before[i + 1]);
                    } else {
                        assert(trace[i] == before.last());
                        assert(trace[i + 1] == self@);
                    }
                }
            }
        }
        proof {
            assert(run_trace(old(self)@, self@, Ok::<(), EvmError>(()), trace));
        }
        Ok(())
    }

    /// Run exactly one opcode.  On a machine that has already halted this
    /// does nothing and reports `false`; otherwise it dispatches once and
    /// reports that execution may continue.
    pub fn step(&mut self) -> (r: Result<bool, EvmError>)
        requires
            old(self).wf(),
        ensures
            final(self).wf(),
            final(self)@.gas <= old(self)@.gas,
            halted(old(self)@) ==> r == Ok::<bool, EvmError>(false) && final(self)@ == old(
                self)@,
            !halted(old(self)@) ==> dispatch_spec(old(self)@, final(self)@, strip_continue(r))
                && (r matches Ok(b) ==> b),
    {
        if !self.should_execute_next_opcode() {
            return Ok(false);
        }
        match self.execute_opcode() {
            Ok(()) => Ok(true),
            Err(e) => Err(e),
        }
    }
}

/// One successful dispatch: the machine had not halted, one opcode ran,
/// and the states relate as `dispatch_spec` says.  Opaque so that long
/// traces stay cheap to reason about; reveal it to look inside a step.
#[verifier::opaque]
pub open spec fn ok_step(a: EvmV, b: EvmV) -> bool {
    !halted(a) && dispatch_spec(a, b, Ok::<(), EvmError>(()))
}

/// One failing dispatch: the machine had not halted, one opcode ran and
/// surfaced `e`.  Opaque, as `ok_step` is.
#[verifier::opaque]
pub open spec fn err_step(a: EvmV, b: EvmV, e: EvmError) -> bool {
    !halted(a) && dispatch_spec(a, b, Err(e))
}

/// A whole run written out: `trace` lists the states the machine passed
/// through, every consecutive pair a successful dispatch of one opcode.  An
/// `Ok` run ends halted on the last state of the trace; an `Err` run ends
/// with the one dispatch that failed, from the last state of the trace.
pub open spec fn run_trace(
    pre: EvmV,
    post: EvmV,
    r: Result<(), EvmError>,
    trace: Seq<EvmV>,
) -> bool {
    &&& trace.len() >= 1
    &&& trace[0] == pre
    &&& forall|i: int| 0 <= i < trace.len() - 1 ==> #[trigger] ok_step(trace[i], trace[i + 1])
    &&& match r {
        Ok(_) => post == trace.last() && halted(post),
        Err(e) => err_step(trace.last(), post, e),
    }
}

/// A step result without its continue flag, for comparing one step against
/// the per-opcode semantics.
pub open spec fn strip_continue(r: Result<bool, EvmError>) -> Result<(), EvmError> {
    match r {
        Ok(_) => Ok(()),
        Err(e) => Err(e),
    }
}

/// What one dispatch does, opcode by opcode: the single shared semantics of
/// `run` and `step`.  An opcode outside the table fails as unknown and
/// changes nothing.
pub open spec fn dispatch_spec(pre: EvmV, post: EvmV, r: Result<(), EvmError>) -> bool
    recommends
        pre.pc < pre.program.len(),
{
    let op = pre.program[pre.pc as int];
    if op == opcodes::STOP {
        r == Ok::<(), EvmError>(()) && post == EvmV { stop_flag: true, ..pre }
    } else if op == opcodes::ADD {
        simple_op(pre, post, r, 3, 2, Some(crate::word::w_add(top0(pre), top1(pre))))
    } else if op == opcodes::MUL {
        simple_op(pre, post, r, 5, 2, Some(crate::word::w_mul(top0(pre), top1(pre))))
    } else if op == opcodes::SUB {
        simple_op(pre, post, r, 3, 2, Some(crate::word::w_sub(top0(pre), top1(pre))))
    } else if op == opcodes::DIV {
        simple_op(pre, post, r, 5, 2, Some(crate::word::w_div(top0(pre), top1(pre))))
    } else if op == opcodes::SDIV {
        simple_op(pre, post, r, 5, 2, Some(crate::word::w_sdiv(top0(pre), top1(pre))))
    } else if op == opcodes::MOD {
        simple_op(pre, post, r, 5, 2, Some(crate::word::w_mod(top0(pre), top1(pre))))
    } else if op == opcodes::SMOD {
        simple_op(pre, post, r, 5, 2, Some(crate::word::w_smod(top0(pre), top1(pre))))
    } else if op == opcodes::ADDMOD {
        simple_op(pre, post, r, 8, 3, Some(
            crate::word::w_addmod(top0(pre), top1(pre), top2(pre))))
    } else if op == opcodes::MULMOD {
        simple_op(pre, post, r, 8, 3, Some(
            crate::word::w_mulmod(top0(pre), top1(pre), top2(pre))))
    } else if op == opcodes::EXP {
        crate::opcodes::math::exp_op(pre, post, r)
    } else if op == opcodes::SIGNEXTEND {
        simple_op(pre, post, r, 5, 2, Some(crate::word::w_signext(top0(pre), top1(pre))))
    } else if op == opcodes::LT {
        simple_op(pre, post, r, 3, 2, Some(
            crate::opcodes::comparisons::flag(top0(pre) < top1(pre))))
    } else if op == opcodes::GT {
        simple_op(pre, post, r, 3, 2, Some(
            crate::opcodes::comparisons::flag(top0(pre) > top1(pre))))
    } else if op == opcodes::SLT {
        simple_op(pre, post, r, 3, 2, Some(crate::opcodes::comparisons::flag(
            crate::word::as_signed(top0(pre)) < crate::word::as_signed(top1(pre)))))
    } else if op == opcodes::SGT {
        simple_op(pre, post, r, 3, 2, Some(crate::opcodes::comparisons::flag(
            crate::word::as_signed(top0(pre)) > crate::word::as_signed(top1(pre)))))
    } else if op == opcodes::EQ {
        simple_op(pre, post, r, 3, 2, Some(
            crate::opcodes::comparisons::flag(top0(pre) == top1(pre))))
    } else if op == opcodes::ISZERO {
        simple_op(pre, post, r, 3, 1, Some(crate::word::w_iszero(top0(pre))))
    } else if op == opcodes::AND {
        simple_op(pre, post, r, 3, 2, Some(crate::word::w_and(top0(pre), top1(pre))))
    } else if op == opcodes::OR {
        simple_op(pre, post, r, 3, 2, Some(crate::word::w_or(top0(pre), top1(pre))))
    } else if op == opcodes::XOR {
        simple_op(pre, post, r, 3, 2, Some(crate::word::w_xor(top0(pre), top1(pre))))
    } else if op == opcodes::NOT {
        simple_op(pre, post, r, 3, 1, Some(crate::word::w_not(top0(pre))))
    } else if op == opcodes::BYTE {
        simple_op(pre, post, r, 3, 2, Some(crate::word::w_byte(top0(pre), top1(pre))))
    } else if op == opcodes::SHL {
        simple_op(pre, post, r, 3, 2, Some(crate::word::w_shl(top1(pre), top0(pre))))
    } else if op == opcodes::SHR {
        simple_op(pre, post, r, 3, 2, Some(crate::word::w_shr(top1(pre), top0(pre))))
    } else if op == opcodes::SAR {
        simple_op(pre, post, r, 3, 2, Some(crate::word::w_sar(top1(pre), top0(pre))))
    } else if op == opcodes::SHA3 {
        crate::opcodes::misc::sha3_op(pre, post, r)
    } else if op == opcodes::ADDRESS {
        simple_op(pre, post, r, 2, 0, Some(crate::word::be_val(pre.sender)))
    } else if op == opcodes::BALANCE {
        simple_op(pre, post, r, 2600, 1, Some(9999999))
    } else if op == opcodes::ORIGIN {
        simple_op(pre, post, r, 2, 0, Some(crate::word::be_val(pre.sender)))
    } else if op == opcodes::CALLVALUE {
        simple_op(pre, post, r, 2, 0, Some(pre.value))
    } else if op == opcodes::CALLDATALOAD {
        unknown_op(r, op) && post == pre
    } else if op == opcodes::CALLDATASIZE {
        simple_op(pre, post, r, 2, 0, Some(pre.calldata.len()))
    } else if op == opcodes::CALLDATACOPY {
        unknown_op(r, op) && post == pre
    } else if op == opcodes::CODESIZE {
        simple_op(pre, post, r, 2, 0, Some(pre.program.len()))
    } else if op == opcodes::CODECOPY {
        unknown_op(r, op) && post == pre
    } else if op == opcodes::GASPRICE {
        simple_op(pre, post, r, 2, 0, Some(0))
    } else if op == opcodes::EXTCODECOPY {
        unknown_op(r, op) && post == pre
    } else if op == opcodes::RETURNDATASIZE {
        simple_op(pre, post, r, 2, 0, Some(0))
    } else if op == opcodes::RETURNDATACOPY {
        unknown_op(r, op) && post == pre
    } else if op == opcodes::EXTCODEHASH {
        simple_op(pre, post, r, 2600, 1, Some(0))
    } else if op == opcodes::POP {
        simple_op(pre, post, r, 2, 1, None)
    } else if op == opcodes::MLOAD {
        crate::opcodes::memory::mload_op(pre, post, r)
    } else if op == opcodes::MSTORE {
        crate::opcodes::memory::mstore_op(pre, post, r)
    } else if op == opcodes::MSTORE8 {
        crate::opcodes::memory::mstore8_op(pre, post, r)
    } else if op == opcodes::SLOAD {
        crate::opcodes::storage::sload_op(pre, post, r)
    } else if op == opcodes::SSTORE {
        crate::opcodes::storage::sstore_op(pre, post, r)
    } else if op == opcodes::JUMP {
        crate::opcodes::jump::jump_op(pre, post, r)
    } else if op == opcodes::JUMPI {
        crate::opcodes::jump::jumpi_op(pre, post, r)
    } else if op == opcodes::PC {
        simple_op(pre, post, r, 2, 0, Some(pre.pc))
    } else if op == opcodes::JUMPDEST {
        simple_op(pre, post, r, 1, 0, None)
    } else if op == opcodes::TLOAD {
        crate::opcodes::transient::tload_op(pre, post, r)
    } else if op == opcodes::TSTORE {
        crate::opcodes::transient::tstore_op(pre, post, r)
    } else if op == opcodes::REVERT {
        crate::opcodes::contract::revert_op(pre, post, r)
    } else if opcodes::PUSH1 <= op && op <= opcodes::PUSH32 {
        crate::opcodes::push::push_op(pre, post, r, (op - opcodes::PUSH1 + 1) as nat)
    } else if opcodes::DUP1 <= op && op <= opcodes::DUP16 {
        crate::opcodes::dup::dup_op(pre, post, r, (op - opcodes::DUP1 + 1) as nat)
    } else if opcodes::SWAP1 <= op && op <= opcodes::SWAP16 {
        crate::opcodes::swap::swap_op(pre, post, r, (op - opcodes::SWAP1 + 1) as nat)
    } else if opcodes::LOG0 <= op && op <= opcodes::LOG4 {
        crate::opcodes::log::log_op(pre, post, r, (op - opcodes::LOG0) as nat)
    } else {
        unknown_op(r, op) && post == pre
    }
}

} // verus!
