//! Transient storage opcodes: TLOAD, TSTORE.  Same shape as persistent
//! storage, but no warmth tracking and a flat cost.

use vstd::prelude::*;

use crate::evm::{top0, top1, EvmError, EvmV, EVM};
use crate::storage::lookup;

verus! {

broadcast use crate::stack::lemma_stack_values;

/// The full transition of TLOAD: charge 100, pop a key, push the transient
/// value (zero when absent).
pub open spec fn tload_op(pre: EvmV, post: EvmV, r: Result<(), EvmError>) -> bool {
    if pre.gas < 100 {
        r == Err::<(), EvmError>(EvmError::OutOfGas) && post == pre
    } else if pre.stack.len() < 1 {
        r == Err::<(), EvmError>(EvmError::StackUnderflow) && post.stack.len() == 0
            && post == EvmV { gas: (pre.gas - 100) as nat, stack: post.stack, ..pre }
    } else {
        r == Ok::<(), EvmError>(()) && post == EvmV {
            gas: (pre.gas - 100) as nat,
            pc: (pre.pc + 1) as nat,
            stack: pre.stack.drop_last().push(lookup(pre.transient, top0(pre))),
            ..pre
        }
    }
}

/// TLOAD: pop a key and push the transient word stored under it.
pub fn tload(vm: &mut EVM) -> (r: Result<(), EvmError>)
    requires
        old(vm).wf(),
        old(vm)@.pc < usize::MAX,
    ensures
        final(vm).wf(),
        tload_op(old(vm)@, final(vm)@, r),
{
    vm.gas_dec(100)?;
    let key = vm.stack.pop()?;
    let word = vm.transient_storage.load(&key);
    vm.stack.push(word)?;
    vm.pc = vm.pc + 1;
    Ok(())
}

/// The full transition of TSTORE: charge 100, pop key and value, write the
/// value (zero deletes).
pub open spec fn tstore_op(pre: EvmV, post: EvmV, r: Result<(), EvmError>) -> bool {
    if pre.gas < 100 {
        r == Err::<(), EvmError>(EvmError::OutOfGas) && post == pre
    } else if pre.stack.len() < 2 {
        r == Err::<(), EvmError>(EvmError::StackUnderflow) && post.stack.len() == 0
            && post == EvmV { gas: (pre.gas - 100) as nat, stack: post.stack, ..pre }
    } else {
        let k = top0(pre);
        let v = top1(pre);
        r == Ok::<(), EvmError>(()) && post == EvmV {
            gas: (pre.gas - 100) as nat,
            pc: (pre.pc + 1) as nat,
            stack: pre.stack.drop_last().drop_last(),
            transient: if v == 0 {
                pre.transient.remove(k)
            } else {
                pre.transient.insert(k, v)
            },
            ..pre
        }
    }
}

/// TSTORE: pop a key and a value and write the value into transient
/// storage; a zero value deletes the entry.
pub fn tstore(vm: &mut EVM) -> (r: Result<(), EvmError>)
    requires
        old(vm).wf(),
        old(vm)@.pc < usize::MAX,
    ensures
        final(vm).wf(),
        tstore_op(old(vm)@, final(vm)@, r),
{
    vm.gas_dec(100)?;
    let key = vm.stack.pop()?;
    let value = vm.stack.pop()?;
    vm.transient_storage.store(key, value);
    vm.pc = vm.pc + 1;
    Ok(())
}

} // verus!
