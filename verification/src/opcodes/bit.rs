//! Bit manipulation opcodes: BYTE, SHL, SHR, SAR.

use vstd::prelude::*;

use crate::evm::{simple_op, stack_result, top0, top1, EvmError, EVM};
use crate::word::{
    w_byte, w_sar, w_shl, w_shr, word_byte, word_sar_word, word_shl_word, word_shr_word,
};

verus! {

broadcast use crate::stack::lemma_stack_values;

/// BYTE: push byte `i` of the second word, counted from the most
/// significant end; zero past the last byte.
pub fn byte(vm: &mut EVM) -> (r: Result<(), EvmError>)
    requires
        old(vm).wf(),
        old(vm)@.pc < usize::MAX,
    ensures
        final(vm).wf(),
        simple_op(old(vm)@, final(vm)@, r, 3, 2, Some(w_byte(top0(old(vm)@), top1(old(vm)@)))),
{
    vm.gas_dec(3)?;
    let i = vm.stack.pop()?;
    let x = vm.stack.pop()?;
    vm.stack.push(word_byte(&i, &x))?;
    vm.pc = vm.pc + 1;
    proof {
        assert(vm@.stack =~= stack_result(
            old(vm)@.stack, 2, Some(w_byte(top0(old(vm)@), top1(old(vm)@)))));
    }
    Ok(())
}

/// SHL: shift the second word left by the top word of bits; 256 or more
/// wipe it to zero.
pub fn shl(vm: &mut EVM) -> (r: Result<(), EvmError>)
    requires
        old(vm).wf(),
        old(vm)@.pc < usize::MAX,
    ensures
        final(vm).wf(),
        simple_op(old(vm)@, final(vm)@, r, 3, 2, Some(w_shl(top1(old(vm)@), top0(old(vm)@)))),
{
    vm.gas_dec(3)?;
    let shift = vm.stack.pop()?;
    let value = vm.stack.pop()?;
    vm.stack.push(word_shl_word(&value, &shift))?;
    vm.pc = vm.pc + 1;
    proof {
        assert(vm@.stack =~= stack_result(
            old(vm)@.stack, 2, Some(w_shl(top1(old(vm)@), top0(old(vm)@)))));
    }
    Ok(())
}

/// SHR: shift the second word right, logically.
pub fn shr(vm: &mut EVM) -> (r: Result<(), EvmError>)
    requires
        old(vm).wf(),
        old(vm)@.pc < usize::MAX,
    ensures
        final(vm).wf(),
        simple_op(old(vm)@, final(vm)@, r, 3, 2, Some(w_shr(top1(old(vm)@), top0(old(vm)@)))),
{
    vm.gas_dec(3)?;
    let shift = vm.stack.pop()?;
    let value = vm.stack.pop()?;
    vm.stack.push(word_shr_word(&value, &shift))?;
    vm.pc = vm.pc + 1;
    proof {
        assert(vm@.stack =~= stack_result(
            old(vm)@.stack, 2, Some(w_shr(top1(old(vm)@), top0(old(vm)@)))));
    }
    Ok(())
}

/// SAR: shift the second word right arithmetically: the sign bit is
/// replicated, and shifts of 256 or more leave zero or all ones.
pub fn sar(vm: &mut EVM) -> (r: Result<(), EvmError>)
    requires
        old(vm).wf(),
        old(vm)@.pc < usize::MAX,
    ensures
        final(vm).wf(),
        simple_op(old(vm)@, final(vm)@, r, 3, 2, Some(w_sar(top1(old(vm)@), top0(old(vm)@)))),
{
    vm.gas_dec(3)?;
    let shift = vm.stack.pop()?;
    let value = vm.stack.pop()?;
    vm.stack.push(word_sar_word(&value, &shift))?;
    vm.pc = vm.pc + 1;
    proof {
        assert(vm@.stack =~= stack_result(
            old(vm)@.stack, 2, Some(w_sar(top1(old(vm)@), top0(old(vm)@)))));
    }
    Ok(())
}

} // verus!
