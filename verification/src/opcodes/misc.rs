//! SHA3: hash a memory range with Keccak-256.

use vstd::prelude::*;

use crate::evm::{top0, top1, EvmError, EvmV, EVM};
use crate::memory::{expansion_cost, grown, sat_add};
use crate::opcodes::jump::sat_usize;
use crate::word::{be_val, keccak_bytes, keccak_of, word_from_be_slice};

verus! {

broadcast use crate::stack::lemma_stack_values;

/// The full transition of SHA3: pop offset and size, charge
/// `30 + 6·⌈size/32⌉` plus expansion, grow, and push the digest of the
/// range as a big-endian word.  An empty range hashes the empty string and
/// leaves memory alone.
pub open spec fn sha3_op(pre: EvmV, post: EvmV, r: Result<(), EvmError>) -> bool {
    if pre.stack.len() < 2 {
        r == Err::<(), EvmError>(EvmError::StackUnderflow) && post.stack.len() == 0
            && post == EvmV { stack: post.stack, ..pre }
    } else {
        let off = sat_usize(top0(pre));
        let size = sat_usize(top1(pre));
        let base = pre.stack.drop_last().drop_last();
        let exp: nat = if size == 0 {
            0
        } else {
            expansion_cost(pre.memory.len(), sat_add(off, size))
        };
        let c = 30 + 6 * ((size + 31) / 32) + exp;
        if pre.gas < c {
            r == Err::<(), EvmError>(EvmError::OutOfGas) && post == EvmV {
                stack: base,
                ..pre
            }
        } else if size > 0 && (size > usize::MAX - 31 || off > usize::MAX - 31 - size) {
            (r matches Err(e) && e matches EvmError::MemoryOutOfBounds {
                offset,
                size: s,
                max,
            } && offset == off && s == size && max == pre.memory.len()) && post == EvmV {
                gas: (pre.gas - c) as nat,
                stack: base,
                ..pre
            }
        } else if size == 0 {
            r == Ok::<(), EvmError>(()) && post == EvmV {
                gas: (pre.gas - c) as nat,
                pc: (pre.pc + 1) as nat,
                stack: base.push(be_val(keccak_of(Seq::<u8>::empty()))),
                ..pre
            }
        } else {
            let g = grown(pre.memory, (off + size) as nat);
            r == Ok::<(), EvmError>(()) && post == EvmV {
                gas: (pre.gas - c) as nat,
                pc: (pre.pc + 1) as nat,
                memory: g,
                stack: base.push(be_val(keccak_of(g.subrange(off as int, (off + size) as int)))),
                ..pre
            }
        }
    }
}

/// SHA3: pop an offset and a size and push the Keccak-256 digest of that
/// memory range.
pub fn sha3(vm: &mut EVM) -> (r: Result<(), EvmError>)
    requires
        old(vm).wf(),
        old(vm)@.pc < usize::MAX,
    ensures
        final(vm).wf(),
        sha3_op(old(vm)@, final(vm)@, r),
{
    let offset_raw = vm.stack.pop()?;
    let size_raw = vm.stack.pop()?;
    let offset = offset_raw.to_usize_saturating();
    let size = size_raw.to_usize_saturating();
    let min_word_size: u128 = (size as u128 + 31) / 32;
    let expansion: u128 = if size == 0 {
        0
    } else {
        vm.memory.expansion_cost_of(offset, size)
    };
    vm.charge(30 + 6 * min_word_size + expansion)?;
    if size > 0 && (size > usize::MAX - 31 || offset > usize::MAX - 31 - size) {
        return Err(EvmError::MemoryOutOfBounds { offset, size, max: vm.memory.memory.len() });
    }
    if size == 0 {
        let empty: [u8; 0] = [];
        let hash = keccak_bytes(vstd::array::array_as_slice(&empty));
        proof {
            assert(empty@ =~= Seq::<u8>::empty());
        }
        let w = word_from_be_slice(vstd::array::array_as_slice(&hash));
        vm.stack.push(w)?;
    } else {
        let _expansion_paid = vm.memory.ensure_capacity(offset, size);
        let data = match vm.memory.access(offset, size) {
            Ok(d) => d,
            Err(e) => {
                proof {
                    assert(false);
                }
                return Err(e);
            },
        };
        let hash = keccak_bytes(data);
        let w = word_from_be_slice(vstd::array::array_as_slice(&hash));
        vm.stack.push(w)?;
    }
    vm.pc = vm.pc + 1;
    Ok(())
}

} // verus!
