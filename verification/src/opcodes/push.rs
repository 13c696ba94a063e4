//! PUSH1..PUSH32: read immediate bytes and push them as one word.

use vstd::prelude::*;

use crate::evm::{EvmError, EvmV, EVM};
use crate::memory::{sat_add, usize_sat_add};
use crate::word::{be_val, word_from_be_slice};

verus! {

broadcast use crate::stack::lemma_stack_values;

/// The `n` immediate bytes after the opcode, zero-padded on the right when
/// the program ends early.
pub open spec fn push_bytes(prog: Seq<u8>, pc: nat, n: nat) -> Seq<u8> {
    Seq::new(n, |i: int| if pc + 1 + i < prog.len() {
        prog[pc + 1 + i]
    } else {
        0u8
    })
}

/// The full transition of PUSHn: charge 3, push the big-endian value of
/// the immediates, and skip over them.
pub open spec fn push_op(pre: EvmV, post: EvmV, r: Result<(), EvmError>, n: nat) -> bool {
    if pre.gas < 3 {
        r == Err::<(), EvmError>(EvmError::OutOfGas) && post == pre
    } else if pre.stack.len() >= 1024 {
        r == Err::<(), EvmError>(EvmError::StackOverflow) && post == EvmV {
            gas: (pre.gas - 3) as nat,
            ..pre
        }
    } else {
        r == Ok::<(), EvmError>(()) && post == EvmV {
            gas: (pre.gas - 3) as nat,
            pc: sat_add(pre.pc, n + 1),
            stack: pre.stack.push(be_val(push_bytes(pre.program, pre.pc, n))),
            ..pre
        }
    }
}

/// PUSHn: push the big-endian value of the next `n` program bytes (missing
/// bytes read as zero) and advance the program counter past them.
pub fn push(vm: &mut EVM, n: usize) -> (r: Result<(), EvmError>)
    requires
        old(vm).wf(),
        old(vm)@.pc < old(vm)@.program.len(),
        1 <= n <= 32,
    ensures
        final(vm).wf(),
        push_op(old(vm)@, final(vm)@, r, n as nat),
{
    vm.gas_dec(3)?;
    let ghost mid = vm@;
    let plen = vm.program.len();
    let rem = plen - 1 - vm.pc;
    let mut buf: Vec<u8> = Vec::new();
    let mut i: usize = 0;
    while i < n
        invariant
            i <= n,
            n <= 32,
            buf@.len() == i,
            vm@ == mid,
            mid.pc < mid.program.len(),
            plen == mid.program.len(),
            rem == plen - 1 - mid.pc,
            forall|j: int| 0 <= j < i ==> buf@[j] == push_bytes(mid.program, mid.pc, n as nat)[j],
        decreases n - i,
    {
        if i < rem {
            let b = vm.program[vm.pc + 1 + i];
            buf.push(b);
        } else {
            buf.push(0u8);
        }
        i += 1;
    }
    proof {
        assert(buf@ =~= push_bytes(mid.program, mid.pc, n as nat));
    }
    let w = word_from_be_slice(buf.as_slice());
    vm.stack.push(w)?;
    vm.pc = usize_sat_add(vm.pc, n + 1);
    proof {
        assert(vm@.stack =~= old(vm)@.stack.push(be_val(push_bytes(
            old(vm)@.program, old(vm)@.pc, n as nat))));
    }
    Ok(())
}

} // verus!
