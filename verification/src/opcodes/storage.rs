//! Persistent storage opcodes: SLOAD, SSTORE.

use vstd::prelude::*;

use crate::evm::{simple_op, stack_result, top0, top1, EvmError, EvmV, EVM};
use crate::storage::lookup;

verus! {

broadcast use crate::stack::lemma_stack_values;

/// The full transition of SLOAD: charge 2100, pop a key, warm it, and push
/// the stored value (zero when absent).
pub open spec fn sload_op(pre: EvmV, post: EvmV, r: Result<(), EvmError>) -> bool {
    if pre.gas < 2100 {
        r == Err::<(), EvmError>(EvmError::OutOfGas) && post == pre
    } else if pre.stack.len() < 1 {
        r == Err::<(), EvmError>(EvmError::StackUnderflow) && post.stack.len() == 0
            && post == EvmV { gas: (pre.gas - 2100) as nat, stack: post.stack, ..pre }
    } else {
        let k = top0(pre);
        r == Ok::<(), EvmError>(()) && post == EvmV {
            gas: (pre.gas - 2100) as nat,
            pc: (pre.pc + 1) as nat,
            stack: pre.stack.drop_last().push(lookup(pre.storage, k)),
            warm: pre.warm.insert(k),
            ..pre
        }
    }
}

/// SLOAD: pop a key and push the word stored under it.
pub fn sload(vm: &mut EVM) -> (r: Result<(), EvmError>)
    requires
        old(vm).wf(),
        old(vm)@.pc < usize::MAX,
    ensures
        final(vm).wf(),
        sload_op(old(vm)@, final(vm)@, r),
{
    vm.gas_dec(2100)?;
    let key = vm.stack.pop()?;
    let (_is_warm, word) = vm.storage.load(key);
    vm.stack.push(word)?;
    vm.pc = vm.pc + 1;
    Ok(())
}

/// What one SSTORE costs beyond the cold surcharge: writing the value that
/// is already there is cheap, filling an empty slot is dearest, and any
/// other rewrite sits in between.
pub open spec fn sstore_base_cost(old_value: nat, new_value: nat) -> nat {
    if old_value == new_value {
        100
    } else if old_value == 0 {
        20000
    } else {
        2900
    }
}

/// The full transition of SSTORE: pop key and value; charge the cold
/// surcharge of 2100 if the key is cold, then the base cost, both before
/// any mutation; then write the value (zero deletes) and warm the key.
pub open spec fn sstore_op(pre: EvmV, post: EvmV, r: Result<(), EvmError>) -> bool {
    if pre.stack.len() < 2 {
        r == Err::<(), EvmError>(EvmError::StackUnderflow) && post.stack.len() == 0
            && post == EvmV { stack: post.stack, ..pre }
    } else {
        let k = top0(pre);
        let v = top1(pre);
        let base = pre.stack.drop_last().drop_last();
        let cold_cost: nat = if pre.warm.contains(k) {
            0
        } else {
            2100
        };
        if pre.gas < cold_cost {
            r == Err::<(), EvmError>(EvmError::OutOfGas) && post == EvmV {
                stack: base,
                ..pre
            }
        } else {
            let base_cost = sstore_base_cost(lookup(pre.storage, k), v);
            if pre.gas - cold_cost < base_cost {
                r == Err::<(), EvmError>(EvmError::OutOfGas) && post == EvmV {
                    gas: (pre.gas - cold_cost) as nat,
                    stack: base,
                    ..pre
                }
            } else {
                r == Ok::<(), EvmError>(()) && post == EvmV {
                    gas: (pre.gas - cold_cost - base_cost) as nat,
                    pc: (pre.pc + 1) as nat,
                    stack: base,
                    storage: if v == 0 {
                        pre.storage.remove(k)
                    } else {
                        pre.storage.insert(k, v)
                    },
                    warm: pre.warm.insert(k),
                    ..pre
                }
            }
        }
    }
}

/// SSTORE: pop a key and a value and write the value under the key; a zero
/// value deletes the entry.  The cold surcharge and the base cost are both
/// taken before storage is touched.
pub fn s_store(vm: &mut EVM) -> (r: Result<(), EvmError>)
    requires
        old(vm).wf(),
        old(vm)@.pc < usize::MAX,
    ensures
        final(vm).wf(),
        sstore_op(old(vm)@, final(vm)@, r),
{
    let key = vm.stack.pop()?;
    let value = vm.stack.pop()?;
    let (is_warm, old_value) = vm.storage.peek(&key);
    if !is_warm {
        if let Err(e) = vm.gas_dec(2100) {
            proof {
                assert(vm@.stack =~= old(vm)@.stack.drop_last().drop_last());
            }
            return Err(e);
        }
    }
    let base_cost: u64 = if old_value.equals(&value) {
        100
    } else if old_value.is_zero() {
        20000
    } else {
        2900
    };
    if let Err(e) = vm.gas_dec(base_cost) {
        proof {
            assert(vm@.stack =~= old(vm)@.stack.drop_last().drop_last());
        }
        return Err(e);
    }
    let (_was_warm, _previous) = vm.storage.store(key, value);
    vm.pc = vm.pc + 1;
    Ok(())
}

} // verus!
