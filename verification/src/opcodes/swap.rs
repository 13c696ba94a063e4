//! SWAP1..SWAP16: exchange the top word with one below it.

use vstd::prelude::*;

use crate::evm::{EvmError, EvmV, EVM};

verus! {

broadcast use crate::stack::lemma_stack_values;

/// The full transition of SWAPn: charge 3, then exchange the top with the
/// word `n` slots below it.
pub open spec fn swap_op(pre: EvmV, post: EvmV, r: Result<(), EvmError>, n: nat) -> bool {
    if pre.gas < 3 {
        r == Err::<(), EvmError>(EvmError::OutOfGas) && post == pre
    } else if pre.stack.len() <= n {
        r == Err::<(), EvmError>(EvmError::StackUnderflow) && post == EvmV {
            gas: (pre.gas - 3) as nat,
            ..pre
        }
    } else {
        let len = pre.stack.len();
        r == Ok::<(), EvmError>(()) && post == EvmV {
            gas: (pre.gas - 3) as nat,
            pc: (pre.pc + 1) as nat,
            stack: pre.stack.update(len - 1, pre.stack[len - 1 - n]).update(
                len - 1 - n, pre.stack[len - 1]),
            ..pre
        }
    }
}

/// SWAPn: exchange the top word with the one `n` slots below it.
pub fn swap(vm: &mut EVM, n: usize) -> (r: Result<(), EvmError>)
    requires
        old(vm).wf(),
        old(vm)@.pc < usize::MAX,
        1 <= n <= 16,
    ensures
        final(vm).wf(),
        swap_op(old(vm)@, final(vm)@, r, n as nat),
{
    vm.gas_dec(3)?;
    vm.stack.swap(n)?;
    vm.pc = vm.pc + 1;
    Ok(())
}

} // verus!
