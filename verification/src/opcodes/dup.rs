//! DUP1..DUP16: duplicate a stack word onto the top.

use vstd::prelude::*;

use crate::evm::{EvmError, EvmV, EVM};

verus! {

broadcast use crate::stack::lemma_stack_values;

/// The full transition of DUPn: charge 3, then put a copy of the word
/// `n - 1` slots below the top on top of the stack.
pub open spec fn dup_op(pre: EvmV, post: EvmV, r: Result<(), EvmError>, n: nat) -> bool {
    if pre.gas < 3 {
        r == Err::<(), EvmError>(EvmError::OutOfGas) && post == pre
    } else if pre.stack.len() < n {
        r == Err::<(), EvmError>(EvmError::StackUnderflow) && post == EvmV {
            gas: (pre.gas - 3) as nat,
            ..pre
        }
    } else if pre.stack.len() >= 1024 {
        r == Err::<(), EvmError>(EvmError::StackOverflow) && post == EvmV {
            gas: (pre.gas - 3) as nat,
            ..pre
        }
    } else {
        r == Ok::<(), EvmError>(()) && post == EvmV {
            gas: (pre.gas - 3) as nat,
            pc: (pre.pc + 1) as nat,
            stack: pre.stack.push(pre.stack[pre.stack.len() - n]),
            ..pre
        }
    }
}

/// DUPn: duplicate the word `n - 1` slots below the top (DUP1 copies the
/// top itself).
pub fn dup(vm: &mut EVM, n: usize) -> (r: Result<(), EvmError>)
    requires
        old(vm).wf(),
        old(vm)@.pc < usize::MAX,
        1 <= n <= 16,
    ensures
        final(vm).wf(),
        dup_op(old(vm)@, final(vm)@, r, n as nat),
{
    vm.gas_dec(3)?;
    let value = vm.stack.peek(n - 1)?;
    vm.stack.push(value)?;
    vm.pc = vm.pc + 1;
    Ok(())
}

} // verus!
