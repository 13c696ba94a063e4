//! STOP: halt cleanly.

use vstd::prelude::*;

use crate::evm::{EvmError, EvmV, EVM};

verus! {

broadcast use crate::stack::lemma_stack_values;

/// STOP: set the stop flag and nothing else; the program counter stays.
pub fn stop(vm: &mut EVM) -> (r: Result<(), EvmError>)
    requires
        old(vm).wf(),
    ensures
        final(vm).wf(),
        r == Ok::<(), EvmError>(()),
        final(vm)@ == (EvmV { stop_flag: true, ..old(vm)@ }),
{
    vm.stop_flag = true;
    Ok(())
}

} // verus!
