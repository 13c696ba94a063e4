//! Comparison opcodes: LT, GT, SLT, SGT, EQ, ISZERO.  Each pushes one or
//! zero.

use vstd::prelude::*;

use crate::evm::{simple_op, stack_result, top0, top1, EvmError, EVM};
use crate::word::{as_signed, w_iszero, Word};

verus! {

broadcast use crate::stack::lemma_stack_values;

/// What a comparison pushes.
pub open spec fn flag(b: bool) -> nat {
    if b {
        1
    } else {
        0
    }
}

/// LT: unsigned less-than of the top against the second word.
pub fn lt(vm: &mut EVM) -> (r: Result<(), EvmError>)
    requires
        old(vm).wf(),
        old(vm)@.pc < usize::MAX,
    ensures
        final(vm).wf(),
        simple_op(old(vm)@, final(vm)@, r, 3, 2, Some(flag(top0(old(vm)@) < top1(old(vm)@)))),
{
    vm.gas_dec(3)?;
    let a = vm.stack.pop()?;
    let b = vm.stack.pop()?;
    let result = if a.lt(&b) { Word::one() } else { Word::zero() };
    vm.stack.push(result)?;
    vm.pc = vm.pc + 1;
    proof {
        assert(vm@.stack =~= stack_result(
            old(vm)@.stack, 2, Some(flag(top0(old(vm)@) < top1(old(vm)@)))));
    }
    Ok(())
}

/// GT: unsigned greater-than of the top against the second word.
pub fn gt(vm: &mut EVM) -> (r: Result<(), EvmError>)
    requires
        old(vm).wf(),
        old(vm)@.pc < usize::MAX,
    ensures
        final(vm).wf(),
        simple_op(old(vm)@, final(vm)@, r, 3, 2, Some(flag(top0(old(vm)@) > top1(old(vm)@)))),
{
    vm.gas_dec(3)?;
    let a = vm.stack.pop()?;
    let b = vm.stack.pop()?;
    let result = if b.lt(&a) { Word::one() } else { Word::zero() };
    vm.stack.push(result)?;
    vm.pc = vm.pc + 1;
    proof {
        assert(vm@.stack =~= stack_result(
            old(vm)@.stack, 2, Some(flag(top0(old(vm)@) > top1(old(vm)@)))));
    }
    Ok(())
}

/// SLT: signed less-than of the top against the second word.
pub fn slt(vm: &mut EVM) -> (r: Result<(), EvmError>)
    requires
        old(vm).wf(),
        old(vm)@.pc < usize::MAX,
    ensures
        final(vm).wf(),
        simple_op(old(vm)@, final(vm)@, r, 3, 2, Some(flag(
            as_signed(top0(old(vm)@)) < as_signed(top1(old(vm)@))))),
{
    vm.gas_dec(3)?;
    let a = vm.stack.pop()?;
    let b = vm.stack.pop()?;
    let result = if signed_lt(&a, &b) { Word::one() } else { Word::zero() };
    vm.stack.push(result)?;
    vm.pc = vm.pc + 1;
    proof {
        assert(vm@.stack =~= stack_result(
            old(vm)@.stack, 2, Some(flag(
                as_signed(top0(old(vm)@)) < as_signed(top1(old(vm)@))))));
    }
    Ok(())
}

/// SGT: signed greater-than of the top against the second word.
pub fn sgt(vm: &mut EVM) -> (r: Result<(), EvmError>)
    requires
        old(vm).wf(),
        old(vm)@.pc < usize::MAX,
    ensures
        final(vm).wf(),
        simple_op(old(vm)@, final(vm)@, r, 3, 2, Some(flag(
            as_signed(top0(old(vm)@)) > as_signed(top1(old(vm)@))))),
{
    vm.gas_dec(3)?;
    let a = vm.stack.pop()?;
    let b = vm.stack.pop()?;
    let result = if signed_lt(&b, &a) { Word::one() } else { Word::zero() };
    vm.stack.push(result)?;
    vm.pc = vm.pc + 1;
    proof {
        assert(vm@.stack =~= stack_result(
            old(vm)@.stack, 2, Some(flag(
                as_signed(top0(old(vm)@)) > as_signed(top1(old(vm)@))))));
    }
    Ok(())
}

/// The signed order on words: negative before non-negative, then by value.
fn signed_lt(a: &Word, b: &Word) -> (r: bool)
    ensures
        r == (as_signed(a@) < as_signed(b@)),
{
    let na = a.is_negative();
    let nb = b.is_negative();
    if na != nb {
        na
    } else {
        a.lt(b)
    }
}

/// EQ: equality of the two top words.
pub fn eq(vm: &mut EVM) -> (r: Result<(), EvmError>)
    requires
        old(vm).wf(),
        old(vm)@.pc < usize::MAX,
    ensures
        final(vm).wf(),
        simple_op(old(vm)@, final(vm)@, r, 3, 2, Some(flag(top0(old(vm)@) == top1(old(vm)@)))),
{
    vm.gas_dec(3)?;
    let a = vm.stack.pop()?;
    let b = vm.stack.pop()?;
    let result = if a.equals(&b) { Word::one() } else { Word::zero() };
    vm.stack.push(result)?;
    vm.pc = vm.pc + 1;
    proof {
        assert(vm@.stack =~= stack_result(
            old(vm)@.stack, 2, Some(flag(top0(old(vm)@) == top1(old(vm)@)))));
    }
    Ok(())
}

/// ISZERO: one if the top word is zero, else zero.
pub fn is_zero(vm: &mut EVM) -> (r: Result<(), EvmError>)
    requires
        old(vm).wf(),
        old(vm)@.pc < usize::MAX,
    ensures
        final(vm).wf(),
        simple_op(old(vm)@, final(vm)@, r, 3, 1, Some(w_iszero(top0(old(vm)@)))),
{
    vm.gas_dec(3)?;
    let value = vm.stack.pop()?;
    let result = if value.is_zero() { Word::one() } else { Word::zero() };
    vm.stack.push(result)?;
    vm.pc = vm.pc + 1;
    proof {
        assert(vm@.stack =~= stack_result(
            old(vm)@.stack, 1, Some(w_iszero(top0(old(vm)@)))));
    }
    Ok(())
}

} // verus!
