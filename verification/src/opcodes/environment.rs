//! Environment opcodes.  The machine is not wired to a real host, so most
//! of them push stub values; the data-copy family is not implemented and
//! surfaces the unknown-opcode failure instead of executing.

use vstd::prelude::*;

use crate::evm::{simple_op, stack_result, unknown_op, EvmError, EVM};
use crate::word::{be_val, word_from_be_slice, Word};

verus! {

broadcast use crate::stack::lemma_stack_values;

/// ADDRESS: push the executing account, here the sender, widened to a word.
pub fn address(vm: &mut EVM) -> (r: Result<(), EvmError>)
    requires
        old(vm).wf(),
        old(vm)@.pc < usize::MAX,
    ensures
        final(vm).wf(),
        simple_op(old(vm)@, final(vm)@, r, 2, 0, Some(be_val(old(vm)@.sender))),
{
    vm.gas_dec(2)?;
    let w = word_from_be_slice(vstd::array::array_as_slice(&vm.sender.bytes));
    vm.stack.push(w)?;
    vm.pc = vm.pc + 1;
    proof {
        assert(vm@.stack =~= stack_result(old(vm)@.stack, 0, Some(be_val(old(vm)@.sender))));
    }
    Ok(())
}

/// BALANCE: pop an address, push a stub balance.
pub fn balance(vm: &mut EVM) -> (r: Result<(), EvmError>)
    requires
        old(vm).wf(),
        old(vm)@.pc < usize::MAX,
    ensures
        final(vm).wf(),
        simple_op(old(vm)@, final(vm)@, r, 2600, 1, Some(9999999)),
{
    vm.gas_dec(2600)?;
    let _address = vm.stack.pop()?;
    vm.stack.push(Word::from_u64(9999999))?;
    vm.pc = vm.pc + 1;
    proof {
        assert(vm@.stack =~= stack_result(old(vm)@.stack, 1, Some(9999999)));
    }
    Ok(())
}

/// ORIGIN: push the transaction origin, stubbed to the sender.
pub fn origin(vm: &mut EVM) -> (r: Result<(), EvmError>)
    requires
        old(vm).wf(),
        old(vm)@.pc < usize::MAX,
    ensures
        final(vm).wf(),
        simple_op(old(vm)@, final(vm)@, r, 2, 0, Some(be_val(old(vm)@.sender))),
{
    vm.gas_dec(2)?;
    let w = word_from_be_slice(vstd::array::array_as_slice(&vm.sender.bytes));
    vm.stack.push(w)?;
    vm.pc = vm.pc + 1;
    proof {
        assert(vm@.stack =~= stack_result(old(vm)@.stack, 0, Some(be_val(old(vm)@.sender))));
    }
    Ok(())
}

/// CALLVALUE: push the value sent with the call.
pub fn call_value(vm: &mut EVM) -> (r: Result<(), EvmError>)
    requires
        old(vm).wf(),
        old(vm)@.pc < usize::MAX,
    ensures
        final(vm).wf(),
        simple_op(old(vm)@, final(vm)@, r, 2, 0, Some(old(vm)@.value)),
{
    vm.gas_dec(2)?;
    let w = vm.value;
    vm.stack.push(w)?;
    vm.pc = vm.pc + 1;
    proof {
        assert(vm@.stack =~= stack_result(old(vm)@.stack, 0, Some(old(vm)@.value)));
    }
    Ok(())
}

/// CALLDATALOAD is not wired up: it surfaces the unknown-opcode failure.
pub fn call_data_load(vm: &mut EVM) -> (r: Result<(), EvmError>)
    ensures
        final(vm)@ == old(vm)@,
        unknown_op(r, 0x35),
{
    Err(EvmError::UnknownOpcode { opcode: crate::helpers::hex_byte_string(0x35) })
}

/// CALLDATASIZE: push the byte length of the calldata.
pub fn call_data_size(vm: &mut EVM) -> (r: Result<(), EvmError>)
    requires
        old(vm).wf(),
        old(vm)@.pc < usize::MAX,
    ensures
        final(vm).wf(),
        simple_op(old(vm)@, final(vm)@, r, 2, 0, Some(old(vm)@.calldata.len())),
{
    vm.gas_dec(2)?;
    let w = Word::from_usize(vm.calldata.len());
    vm.stack.push(w)?;
    vm.pc = vm.pc + 1;
    proof {
        assert(vm@.stack =~= stack_result(old(vm)@.stack, 0, Some(old(vm)@.calldata.len())));
    }
    Ok(())
}

/// CALLDATACOPY is not wired up: it surfaces the unknown-opcode failure.
pub fn call_data_copy(vm: &mut EVM) -> (r: Result<(), EvmError>)
    ensures
        final(vm)@ == old(vm)@,
        unknown_op(r, 0x37),
{
    Err(EvmError::UnknownOpcode { opcode: crate::helpers::hex_byte_string(0x37) })
}

/// CODESIZE: push the byte length of the program.
pub fn code_size(vm: &mut EVM) -> (r: Result<(), EvmError>)
    requires
        old(vm).wf(),
        old(vm)@.pc < usize::MAX,
    ensures
        final(vm).wf(),
        simple_op(old(vm)@, final(vm)@, r, 2, 0, Some(old(vm)@.program.len())),
{
    vm.gas_dec(2)?;
    let w = Word::from_usize(vm.program.len());
    vm.stack.push(w)?;
    vm.pc = vm.pc + 1;
    proof {
        assert(vm@.stack =~= stack_result(old(vm)@.stack, 0, Some(old(vm)@.program.len())));
    }
    Ok(())
}

/// CODECOPY is not wired up: it surfaces the unknown-opcode failure.
pub fn code_copy(vm: &mut EVM) -> (r: Result<(), EvmError>)
    ensures
        final(vm)@ == old(vm)@,
        unknown_op(r, 0x39),
{
    Err(EvmError::UnknownOpcode { opcode: crate::helpers::hex_byte_string(0x39) })
}

/// GASPRICE: push the stub price of zero.
pub fn gas_price(vm: &mut EVM) -> (r: Result<(), EvmError>)
    requires
        old(vm).wf(),
        old(vm)@.pc < usize::MAX,
    ensures
        final(vm).wf(),
        simple_op(old(vm)@, final(vm)@, r, 2, 0, Some(0)),
{
    vm.gas_dec(2)?;
    vm.stack.push(Word::zero())?;
    vm.pc = vm.pc + 1;
    proof {
        assert(vm@.stack =~= stack_result(old(vm)@.stack, 0, Some(0)));
    }
    Ok(())
}

/// EXTCODECOPY is not wired up: it surfaces the unknown-opcode failure.
pub fn ext_code_copy(vm: &mut EVM) -> (r: Result<(), EvmError>)
    ensures
        final(vm)@ == old(vm)@,
        unknown_op(r, 0x3C),
{
    Err(EvmError::UnknownOpcode { opcode: crate::helpers::hex_byte_string(0x3C) })
}

/// RETURNDATASIZE: push the stub size of zero.
pub fn return_data_size(vm: &mut EVM) -> (r: Result<(), EvmError>)
    requires
        old(vm).wf(),
        old(vm)@.pc < usize::MAX,
    ensures
        final(vm).wf(),
        simple_op(old(vm)@, final(vm)@, r, 2, 0, Some(0)),
{
    vm.gas_dec(2)?;
    vm.stack.push(Word::zero())?;
    vm.pc = vm.pc + 1;
    proof {
        assert(vm@.stack =~= stack_result(old(vm)@.stack, 0, Some(0)));
    }
    Ok(())
}

/// RETURNDATACOPY is not wired up: it surfaces the unknown-opcode failure.
pub fn return_data_copy(vm: &mut EVM) -> (r: Result<(), EvmError>)
    ensures
        final(vm)@ == old(vm)@,
        unknown_op(r, 0x3E),
{
    Err(EvmError::UnknownOpcode { opcode: crate::helpers::hex_byte_string(0x3E) })
}

/// EXTCODEHASH: pop an address, push the stub hash of zero.
pub fn ext_code_hash(vm: &mut EVM) -> (r: Result<(), EvmError>)
    requires
        old(vm).wf(),
        old(vm)@.pc < usize::MAX,
    ensures
        final(vm).wf(),
        simple_op(old(vm)@, final(vm)@, r, 2600, 1, Some(0)),
{
    vm.gas_dec(2600)?;
    let _address = vm.stack.pop()?;
    vm.stack.push(Word::zero())?;
    vm.pc = vm.pc + 1;
    proof {
        assert(vm@.stack =~= stack_result(old(vm)@.stack, 1, Some(0)));
    }
    Ok(())
}

} // verus!
