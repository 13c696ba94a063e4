//! Control flow: JUMP, JUMPI, PC, JUMPDEST.
//!
//! A jump destination is valid when it lies inside the program and the byte
//! there is the JUMPDEST marker.  Only the byte value is checked: a 0x5B
//! inside a PUSH immediate passes too, by design of this core.

use vstd::prelude::*;

use crate::evm::{simple_op, stack_result, top0, top1, EvmError, EvmV, EVM};
use crate::opcodes::JUMPDEST;
use crate::word::Word;

verus! {

broadcast use crate::stack::lemma_stack_values;

/// A word clamped to the host range, as jump destinations are.
pub open spec fn sat_usize(v: nat) -> nat {
    if v > usize::MAX {
        usize::MAX as nat
    } else {
        v
    }
}

/// `r` is the bad-jump failure for destination `d`, with the out-of-bounds
/// wording or the not-a-marker wording.
pub open spec fn bad_jump(r: Result<(), EvmError>, d: nat, oob: bool) -> bool {
    r matches Err(e) && (e matches EvmError::BadJumpDestination { dest, reason } && dest == d
        && reason@ == (if oob {
        "Out of bound"@
    } else {
        "Not a JUMPDEST opcode"@
    }))
}

/// The full transition of JUMP: charge 8, pop the destination, check it,
/// and set the program counter on it.
pub open spec fn jump_op(pre: EvmV, post: EvmV, r: Result<(), EvmError>) -> bool {
    if pre.gas < 8 {
        r == Err::<(), EvmError>(EvmError::OutOfGas) && post == pre
    } else if pre.stack.len() < 1 {
        r == Err::<(), EvmError>(EvmError::StackUnderflow) && post.stack.len() == 0
            && post == EvmV { gas: (pre.gas - 8) as nat, stack: post.stack, ..pre }
    } else {
        let d = sat_usize(top0(pre));
        let base = pre.stack.drop_last();
        if d >= pre.program.len() {
            bad_jump(r, d, true) && post == EvmV {
                gas: (pre.gas - 8) as nat,
                stack: base,
                ..pre
            }
        } else if pre.program[d as int] != JUMPDEST {
            bad_jump(r, d, false) && post == EvmV {
                gas: (pre.gas - 8) as nat,
                stack: base,
                ..pre
            }
        } else {
            r == Ok::<(), EvmError>(()) && post == EvmV {
                gas: (pre.gas - 8) as nat,
                pc: d,
                stack: base,
                ..pre
            }
        }
    }
}

/// JUMP: pop a destination and move the program counter onto it, if it is
/// a JUMPDEST byte inside the program.
pub fn jump(vm: &mut EVM) -> (r: Result<(), EvmError>)
    requires
        old(vm).wf(),
    ensures
        final(vm).wf(),
        jump_op(old(vm)@, final(vm)@, r),
{
    vm.gas_dec(8)?;
    let dest_raw = vm.stack.pop()?;
    let dest = dest_raw.to_usize_saturating();
    if dest >= vm.program.len() {
        return Err(EvmError::BadJumpDestination { dest, reason: "Out of bound".to_owned() });
    }
    if vm.program[dest] != JUMPDEST {
        return Err(EvmError::BadJumpDestination {
            dest,
            reason: "Not a JUMPDEST opcode".to_owned(),
        });
    }
    vm.pc = dest;
    Ok(())
}

/// The full transition of JUMPI: charge 10, pop destination and condition;
/// a nonzero condition jumps as JUMP does, a zero one moves on by a byte.
pub open spec fn jumpi_op(pre: EvmV, post: EvmV, r: Result<(), EvmError>) -> bool {
    if pre.gas < 10 {
        r == Err::<(), EvmError>(EvmError::OutOfGas) && post == pre
    } else if pre.stack.len() < 2 {
        r == Err::<(), EvmError>(EvmError::StackUnderflow) && post.stack.len() == 0
            && post == EvmV { gas: (pre.gas - 10) as nat, stack: post.stack, ..pre }
    } else {
        let d = sat_usize(top0(pre));
        let cond = top1(pre);
        let base = pre.stack.drop_last().drop_last();
        if cond != 0 {
            if d >= pre.program.len() {
                bad_jump(r, d, true) && post == EvmV {
                    gas: (pre.gas - 10) as nat,
                    stack: base,
                    ..pre
                }
            } else if pre.program[d as int] != JUMPDEST {
                bad_jump(r, d, false) && post == EvmV {
                    gas: (pre.gas - 10) as nat,
                    stack: base,
                    ..pre
                }
            } else {
                r == Ok::<(), EvmError>(()) && post == EvmV {
                    gas: (pre.gas - 10) as nat,
                    pc: d,
                    stack: base,
                    ..pre
                }
            }
        } else {
            r == Ok::<(), EvmError>(()) && post == EvmV {
                gas: (pre.gas - 10) as nat,
                pc: (pre.pc + 1) as nat,
                stack: base,
                ..pre
            }
        }
    }
}

/// JUMPI: conditional jump; the branch is taken on a nonzero condition.
pub fn jumpi(vm: &mut EVM) -> (r: Result<(), EvmError>)
    requires
        old(vm).wf(),
        old(vm)@.pc < usize::MAX,
    ensures
        final(vm).wf(),
        jumpi_op(old(vm)@, final(vm)@, r),
{
    vm.gas_dec(10)?;
    let dest_raw = vm.stack.pop()?;
    let dest = dest_raw.to_usize_saturating();
    let condition = vm.stack.pop()?;
    if !condition.is_zero() {
        if dest >= vm.program.len() {
            return Err(EvmError::BadJumpDestination {
                dest,
                reason: "Out of bound".to_owned(),
            });
        }
        if vm.program[dest] != JUMPDEST {
            return Err(EvmError::BadJumpDestination {
                dest,
                reason: "Not a JUMPDEST opcode".to_owned(),
            });
        }
        vm.pc = dest;
    } else {
        vm.pc = vm.pc + 1;
    }
    Ok(())
}

/// PC: push the current program counter, before any advance.
pub fn pc(vm: &mut EVM) -> (r: Result<(), EvmError>)
    requires
        old(vm).wf(),
        old(vm)@.pc < usize::MAX,
    ensures
        final(vm).wf(),
        simple_op(old(vm)@, final(vm)@, r, 2, 0, Some(old(vm)@.pc)),
{
    vm.gas_dec(2)?;
    vm.stack.push(Word::from_usize(vm.pc))?;
    vm.pc = vm.pc + 1;
    proof {
        assert(vm@.stack =~= stack_result(old(vm)@.stack, 0, Some(old(vm)@.pc)));
    }
    Ok(())
}

/// JUMPDEST: the marker itself does nothing.
pub fn jump_dest(vm: &mut EVM) -> (r: Result<(), EvmError>)
    requires
        old(vm).wf(),
        old(vm)@.pc < usize::MAX,
    ensures
        final(vm).wf(),
        simple_op(old(vm)@, final(vm)@, r, 1, 0, None),
{
    vm.gas_dec(1)?;
    vm.pc = vm.pc + 1;
    proof {
        assert(vm@.stack =~= stack_result(old(vm)@.stack, 0, None));
    }
    Ok(())
}

} // verus!
