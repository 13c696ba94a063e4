//! Memory opcodes: MLOAD, MSTORE, MSTORE8.
//!
//! Each charges its static cost plus the expansion price before touching
//! memory.  An offset so large that the grown range could not even be
//! addressed is refused as out of bounds — in practice the gas charge
//! always fails first.

use vstd::prelude::*;

use crate::evm::{top0, top1, EvmError, EvmV, EVM};
use crate::memory::{expansion_cost, grown, sat_add};
use crate::opcodes::jump::sat_usize;
use crate::word::{be_bytes, be_val, word_from_be_slice, word_to_be_bytes};

verus! {

broadcast use crate::stack::lemma_stack_values;

/// Memory with `bytes` written at `off`, after growing to cover them.
pub open spec fn spliced(mem: Seq<u8>, off: nat, bytes: Seq<u8>) -> Seq<u8> {
    let g = grown(mem, off + bytes.len());
    g.take(off as int) + bytes + g.skip((off + bytes.len()) as int)
}

/// The full transition of MLOAD: pop an offset, charge 3 plus expansion,
/// grow, and push the 32-byte big-endian word there.
pub open spec fn mload_op(pre: EvmV, post: EvmV, r: Result<(), EvmError>) -> bool {
    if pre.stack.len() < 1 {
        r == Err::<(), EvmError>(EvmError::StackUnderflow) && post.stack.len() == 0
            && post == EvmV { stack: post.stack, ..pre }
    } else {
        let off = sat_usize(top0(pre));
        let c = 3 + expansion_cost(pre.memory.len(), sat_add(off, 32));
        if pre.gas < c {
            r == Err::<(), EvmError>(EvmError::OutOfGas) && post == EvmV {
                stack: pre.stack.drop_last(),
                ..pre
            }
        } else if off > usize::MAX - 63 {
            (r matches Err(e) && e matches EvmError::MemoryOutOfBounds {
                offset,
                size,
                max,
            } && offset == off && size == 32 && max == pre.memory.len()) && post == EvmV {
                gas: (pre.gas - c) as nat,
                stack: pre.stack.drop_last(),
                ..pre
            }
        } else {
            r == Ok::<(), EvmError>(()) && post == EvmV {
                gas: (pre.gas - c) as nat,
                pc: (pre.pc + 1) as nat,
                memory: grown(pre.memory, (off + 32) as nat),
                stack: pre.stack.drop_last().push(be_val(grown(pre.memory, (off + 32) as nat)
                    .subrange(off as int, (off + 32) as int))),
                ..pre
            }
        }
    }
}

/// MLOAD: pop an offset and push the 32-byte word there, growing memory to
/// cover it.
pub fn mload(vm: &mut EVM) -> (r: Result<(), EvmError>)
    requires
        old(vm).wf(),
        old(vm)@.pc < usize::MAX,
    ensures
        final(vm).wf(),
        mload_op(old(vm)@, final(vm)@, r),
{
    let offset_raw = vm.stack.pop()?;
    let offset = offset_raw.to_usize_saturating();
    let expansion = vm.memory.expansion_cost_of(offset, 32);
    vm.charge(3 + expansion)?;
    if offset > usize::MAX - 63 {
        return Err(EvmError::MemoryOutOfBounds { offset, size: 32, max: vm.memory.memory.len() });
    }
    let (word_bytes, _expansion_paid) = vm.memory.load(offset);
    let w = word_from_be_slice(vstd::array::array_as_slice(&word_bytes));
    vm.stack.push(w)?;
    vm.pc = vm.pc + 1;
    Ok(())
}

/// The full transition of MSTORE: pop offset and word, charge 3 plus
/// expansion, and write the word's 32 big-endian bytes.
pub open spec fn mstore_op(pre: EvmV, post: EvmV, r: Result<(), EvmError>) -> bool {
    if pre.stack.len() < 2 {
        r == Err::<(), EvmError>(EvmError::StackUnderflow) && post.stack.len() == 0
            && post == EvmV { stack: post.stack, ..pre }
    } else {
        let off = sat_usize(top0(pre));
        let w = top1(pre);
        let c = 3 + expansion_cost(pre.memory.len(), sat_add(off, 32));
        let base = pre.stack.drop_last().drop_last();
        if pre.gas < c {
            r == Err::<(), EvmError>(EvmError::OutOfGas) && post == EvmV {
                stack: base,
                ..pre
            }
        } else if off > usize::MAX - 63 {
            (r matches Err(e) && e matches EvmError::MemoryOutOfBounds {
                offset,
                size,
                max,
            } && offset == off && size == 32 && max == pre.memory.len()) && post == EvmV {
                gas: (pre.gas - c) as nat,
                stack: base,
                ..pre
            }
        } else {
            r == Ok::<(), EvmError>(()) && post == EvmV {
                gas: (pre.gas - c) as nat,
                pc: (pre.pc + 1) as nat,
                memory: spliced(pre.memory, off, be_bytes(w, 32)),
                stack: base,
                ..pre
            }
        }
    }
}

/// MSTORE: pop an offset and a word, and write the word big-endian at the
/// offset, growing memory to cover it.
pub fn mstore(vm: &mut EVM) -> (r: Result<(), EvmError>)
    requires
        old(vm).wf(),
        old(vm)@.pc < usize::MAX,
    ensures
        final(vm).wf(),
        mstore_op(old(vm)@, final(vm)@, r),
{
    let offset_raw = vm.stack.pop()?;
    let word = vm.stack.pop()?;
    let offset = offset_raw.to_usize_saturating();
    let expansion = vm.memory.expansion_cost_of(offset, 32);
    vm.charge(3 + expansion)?;
    if offset > usize::MAX - 63 {
        return Err(EvmError::MemoryOutOfBounds { offset, size: 32, max: vm.memory.memory.len() });
    }
    let word_in_bytes = word_to_be_bytes(&word);
    let _expansion_paid = vm.memory.store(offset, vstd::array::array_as_slice(&word_in_bytes));
    vm.pc = vm.pc + 1;
    Ok(())
}

/// The full transition of MSTORE8: as MSTORE, but writing the single least
/// significant byte of the word.
pub open spec fn mstore8_op(pre: EvmV, post: EvmV, r: Result<(), EvmError>) -> bool {
    if pre.stack.len() < 2 {
        r == Err::<(), EvmError>(EvmError::StackUnderflow) && post.stack.len() == 0
            && post == EvmV { stack: post.stack, ..pre }
    } else {
        let off = sat_usize(top0(pre));
        let w = top1(pre);
        let c = 3 + expansion_cost(pre.memory.len(), sat_add(off, 1));
        let base = pre.stack.drop_last().drop_last();
        if pre.gas < c {
            r == Err::<(), EvmError>(EvmError::OutOfGas) && post == EvmV {
                stack: base,
                ..pre
            }
        } else if off > usize::MAX - 32 {
            (r matches Err(e) && e matches EvmError::MemoryOutOfBounds {
                offset,
                size,
                max,
            } && offset == off && size == 1 && max == pre.memory.len()) && post == EvmV {
                gas: (pre.gas - c) as nat,
                stack: base,
                ..pre
            }
        } else {
            r == Ok::<(), EvmError>(()) && post == EvmV {
                gas: (pre.gas - c) as nat,
                pc: (pre.pc + 1) as nat,
                memory: spliced(pre.memory, off, seq![(w % 256) as u8]),
                stack: base,
                ..pre
            }
        }
    }
}

/// MSTORE8: pop an offset and a word, and write the word's least
/// significant byte at the offset.
pub fn mstore8(vm: &mut EVM) -> (r: Result<(), EvmError>)
    requires
        old(vm).wf(),
        old(vm)@.pc < usize::MAX,
    ensures
        final(vm).wf(),
        mstore8_op(old(vm)@, final(vm)@, r),
{
    let offset_raw = vm.stack.pop()?;
    let word = vm.stack.pop()?;
    let offset = offset_raw.to_usize_saturating();
    let expansion = vm.memory.expansion_cost_of(offset, 1);
    vm.charge(3 + expansion)?;
    if offset > usize::MAX - 32 {
        return Err(EvmError::MemoryOutOfBounds { offset, size: 1, max: vm.memory.memory.len() });
    }
    let word_in_bytes = word_to_be_bytes(&word);
    let single_byte_of_word = word_in_bytes[31];
    proof {
        vstd::arithmetic::power2::lemma2_to64();
        assert(be_bytes(word@, 32)[31] == (word@ / vstd::arithmetic::power2::pow2(0)) % 256);
        vstd::arithmetic::div_mod::lemma_div_basics(word@ as int);
        assert(single_byte_of_word == (top1(old(vm)@) % 256) as u8);
    }
    let buf = [single_byte_of_word];
    let _expansion_paid = vm.memory.store(offset, vstd::array::array_as_slice(&buf));
    proof {
        assert(buf@ =~= seq![(top1(old(vm)@) % 256) as u8]);
    }
    vm.pc = vm.pc + 1;
    Ok(())
}

} // verus!
