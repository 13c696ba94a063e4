//! REVERT: a clean halt that rolls intent back and returns data.

use vstd::prelude::*;

use crate::evm::{top0, top1, EvmError, EvmV, EVM};
use crate::memory::{expansion_cost, grown, sat_add};
use crate::opcodes::jump::sat_usize;

verus! {

broadcast use crate::stack::lemma_stack_values;

/// The full transition of REVERT: pop offset and size, pay only for
/// expansion, copy the range into the return data, and set both halt
/// flags.  An empty range returns no data and leaves memory alone.
pub open spec fn revert_op(pre: EvmV, post: EvmV, r: Result<(), EvmError>) -> bool {
    if pre.stack.len() < 2 {
        r == Err::<(), EvmError>(EvmError::StackUnderflow) && post.stack.len() == 0
            && post == EvmV { stack: post.stack, ..pre }
    } else {
        let off = sat_usize(top0(pre));
        let size = sat_usize(top1(pre));
        let base = pre.stack.drop_last().drop_last();
        let c: nat = if size == 0 {
            0
        } else {
            expansion_cost(pre.memory.len(), sat_add(off, size))
        };
        if pre.gas < c {
            r == Err::<(), EvmError>(EvmError::OutOfGas) && post == EvmV {
                stack: base,
                ..pre
            }
        } else if size > 0 && (size > usize::MAX - 31 || off > usize::MAX - 31 - size) {
            (r matches Err(e) && e matches EvmError::MemoryOutOfBounds {
                offset,
                size: s,
                max,
            } && offset == off && s == size && max == pre.memory.len()) && post == EvmV {
                gas: (pre.gas - c) as nat,
                stack: base,
                ..pre
            }
        } else if size == 0 {
            r == Ok::<(), EvmError>(()) && post == EvmV {
                gas: (pre.gas - c) as nat,
                pc: (pre.pc + 1) as nat,
                stack: base,
                return_data: Seq::<u8>::empty(),
                stop_flag: true,
                revert_flag: true,
                ..pre
            }
        } else {
            let g = grown(pre.memory, (off + size) as nat);
            r == Ok::<(), EvmError>(()) && post == EvmV {
                gas: (pre.gas - c) as nat,
                pc: (pre.pc + 1) as nat,
                stack: base,
                memory: g,
                return_data: g.subrange(off as int, (off + size) as int),
                stop_flag: true,
                revert_flag: true,
                ..pre
            }
        }
    }
}

/// REVERT: halt cleanly, flag the rollback intent, and hand the popped
/// memory range back as return data.
pub fn revert(vm: &mut EVM) -> (r: Result<(), EvmError>)
    requires
        old(vm).wf(),
        old(vm)@.pc < usize::MAX,
    ensures
        final(vm).wf(),
        revert_op(old(vm)@, final(vm)@, r),
{
    let offset_raw = vm.stack.pop()?;
    let size_raw = vm.stack.pop()?;
    let offset = offset_raw.to_usize_saturating();
    let size = size_raw.to_usize_saturating();
    let expansion: u128 = if size == 0 {
        0
    } else {
        vm.memory.expansion_cost_of(offset, size)
    };
    vm.charge(expansion)?;
    if size > 0 && (size > usize::MAX - 31 || offset > usize::MAX - 31 - size) {
        return Err(EvmError::MemoryOutOfBounds { offset, size, max: vm.memory.memory.len() });
    }
    if size == 0 {
        vm.return_data = Vec::new();
    } else {
        let _expansion_paid = vm.memory.ensure_capacity(offset, size);
        let data = match vm.memory.access(offset, size) {
            Ok(d) => d,
            Err(e) => {
                proof {
                    assert(false);
                }
                return Err(e);
            },
        };
        vm.return_data = vstd::slice::slice_to_vec(data);
    }
    vm.revert_flag = true;
    vm.stop_flag = true;
    vm.pc = vm.pc + 1;
    Ok(())
}

} // verus!
