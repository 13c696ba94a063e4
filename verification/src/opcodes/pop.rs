//! POP: discard the top word.

use vstd::prelude::*;

use crate::evm::{simple_op, stack_result, EvmError, EVM};

verus! {

broadcast use crate::stack::lemma_stack_values;

/// POP: remove the top word from the stack.
pub fn pop(vm: &mut EVM) -> (r: Result<(), EvmError>)
    requires
        old(vm).wf(),
        old(vm)@.pc < usize::MAX,
    ensures
        final(vm).wf(),
        simple_op(old(vm)@, final(vm)@, r, 2, 1, None),
{
    vm.gas_dec(2)?;
    vm.stack.pop()?;
    vm.pc = vm.pc + 1;
    proof {
        assert(vm@.stack =~= stack_result(old(vm)@.stack, 1, None));
    }
    Ok(())
}

} // verus!
