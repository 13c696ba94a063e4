//! A plain snapshot of an execution context: the same shape as the
//! machine, without transient storage or a refund meter.

use vstd::prelude::*;

use crate::evm::{Address, Log, LogView};
use crate::memory::Memory;
use crate::stack::Stack;
use crate::storage::Storage;
use crate::word::Word;

verus! {

/// An execution context at rest.
pub struct State {
    pc: usize,
    value: Word,
    calldata: Vec<u8>,
    gas: u64,
    sender: Address,
    program: Vec<u8>,
    stack: Stack,
    memory: Memory,
    storage: Storage,
    stop_flag: bool,
    revert_flag: bool,
    return_data: Vec<u8>,
    logs: Vec<Log>,
}

impl State {
    /// A fresh context: counter at zero, flags clear, components empty,
    /// and the given program, gas budget and environment held as they
    /// were handed in.
    pub fn new(sender: Address, program: Vec<u8>, gas: u64, value: Word, calldata: Vec<u8>) -> (
        r: State)
        ensures
            r.pc_spec() == 0,
            !r.stop_spec(),
            !r.revert_spec(),
            r.gas_spec() == gas,
            r.value_spec() == value@,
            r.sender_spec() == sender@,
            r.program_spec() == program@,
            r.calldata_spec() == calldata@,
            r.stack_spec() =~= Seq::<nat>::empty(),
            r.memory_spec() =~= Seq::<u8>::empty(),
            r.storage_spec() =~= Map::<nat, nat>::empty(),
            r.return_data_spec() =~= Seq::<u8>::empty(),
            r.logs_spec() =~= Seq::<LogView>::empty(),
    {
        let r = State {
            pc: 0,
            value,
            sender,
            calldata,
            program,
            gas,
            stop_flag: false,
            revert_flag: false,
            stack: Stack::new(),
            memory: Memory::new(),
            storage: Storage::new(),
            return_data: Vec::new(),
            logs: Vec::new(),
        };
        proof {
            assert(r.logs_spec() =~= Seq::<LogView>::empty());
        }
        r
    }

    /// The program counter.
    pub closed spec fn pc_spec(&self) -> nat {
        self.pc as nat
    }

    /// The clean-halt flag.
    pub closed spec fn stop_spec(&self) -> bool {
        self.stop_flag
    }

    /// The rollback flag.
    pub closed spec fn revert_spec(&self) -> bool {
        self.revert_flag
    }

    /// The gas budget.
    pub closed spec fn gas_spec(&self) -> nat {
        self.gas as nat
    }

    /// The call value.
    pub closed spec fn value_spec(&self) -> nat {
        self.value@
    }

    /// The caller identity.
    pub closed spec fn sender_spec(&self) -> Seq<u8> {
        self.sender@
    }

    /// The loaded program.
    pub closed spec fn program_spec(&self) -> Seq<u8> {
        self.program@
    }

    /// The call data.
    pub closed spec fn calldata_spec(&self) -> Seq<u8> {
        self.calldata@
    }

    /// The operand stack values.
    pub closed spec fn stack_spec(&self) -> Seq<nat> {
        self.stack@
    }

    /// The memory bytes.
    pub closed spec fn memory_spec(&self) -> Seq<u8> {
        self.memory@
    }

    /// The stored map.
    pub closed spec fn storage_spec(&self) -> Map<nat, nat> {
        self.storage.as_map()
    }

    /// The returned bytes.
    pub closed spec fn return_data_spec(&self) -> Seq<u8> {
        self.return_data@
    }

    /// The event records.
    pub closed spec fn logs_spec(&self) -> Seq<LogView> {
        self.logs@.map_values(|l: Log| l@)
    }
}

} // verus!
