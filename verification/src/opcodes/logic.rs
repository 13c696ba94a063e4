//! Bitwise logic opcodes: AND, OR, XOR, NOT.

use vstd::prelude::*;

use crate::evm::{simple_op, stack_result, top0, top1, EvmError, EVM};
use crate::word::{w_and, w_not, w_or, w_xor, word_and, word_not, word_or, word_xor};

verus! {

broadcast use crate::stack::lemma_stack_values;

/// AND: bitwise conjunction of the two top words.
pub fn and(vm: &mut EVM) -> (r: Result<(), EvmError>)
    requires
        old(vm).wf(),
        old(vm)@.pc < usize::MAX,
    ensures
        final(vm).wf(),
        simple_op(old(vm)@, final(vm)@, r, 3, 2, Some(w_and(top0(old(vm)@), top1(old(vm)@)))),
{
    vm.gas_dec(3)?;
    let a = vm.stack.pop()?;
    let b = vm.stack.pop()?;
    vm.stack.push(word_and(&a, &b))?;
    vm.pc = vm.pc + 1;
    proof {
        assert(vm@.stack =~= stack_result(
            old(vm)@.stack, 2, Some(w_and(top0(old(vm)@), top1(old(vm)@)))));
    }
    Ok(())
}

/// OR: bitwise disjunction of the two top words.
pub fn or(vm: &mut EVM) -> (r: Result<(), EvmError>)
    requires
        old(vm).wf(),
        old(vm)@.pc < usize::MAX,
    ensures
        final(vm).wf(),
        simple_op(old(vm)@, final(vm)@, r, 3, 2, Some(w_or(top0(old(vm)@), top1(old(vm)@)))),
{
    vm.gas_dec(3)?;
    let a = vm.stack.pop()?;
    let b = vm.stack.pop()?;
    vm.stack.push(word_or(&a, &b))?;
    vm.pc = vm.pc + 1;
    proof {
        assert(vm@.stack =~= stack_result(
            old(vm)@.stack, 2, Some(w_or(top0(old(vm)@), top1(old(vm)@)))));
    }
    Ok(())
}

/// XOR: bitwise difference of the two top words.
pub fn xor(vm: &mut EVM) -> (r: Result<(), EvmError>)
    requires
        old(vm).wf(),
        old(vm)@.pc < usize::MAX,
    ensures
        final(vm).wf(),
        simple_op(old(vm)@, final(vm)@, r, 3, 2, Some(w_xor(top0(old(vm)@), top1(old(vm)@)))),
{
    vm.gas_dec(3)?;
    let a = vm.stack.pop()?;
    let b = vm.stack.pop()?;
    vm.stack.push(word_xor(&a, &b))?;
    vm.pc = vm.pc + 1;
    proof {
        assert(vm@.stack =~= stack_result(
            old(vm)@.stack, 2, Some(w_xor(top0(old(vm)@), top1(old(vm)@)))));
    }
    Ok(())
}

/// NOT: bitwise complement of the top word, `2^256 - 1 - v`.
pub fn not(vm: &mut EVM) -> (r: Result<(), EvmError>)
    requires
        old(vm).wf(),
        old(vm)@.pc < usize::MAX,
    ensures
        final(vm).wf(),
        simple_op(old(vm)@, final(vm)@, r, 3, 1, Some(w_not(top0(old(vm)@)))),
{
    vm.gas_dec(3)?;
    let a = vm.stack.pop()?;
    vm.stack.push(word_not(&a))?;
    vm.pc = vm.pc + 1;
    proof {
        assert(vm@.stack =~= stack_result(old(vm)@.stack, 1, Some(w_not(top0(old(vm)@)))));
    }
    Ok(())
}

} // verus!
