//! LOG0..LOG4: record an event with topics and a memory payload.

use vstd::prelude::*;

use crate::evm::{top0, top1, EvmError, EvmV, Log, LogView, EVM};
use crate::memory::{expansion_cost, grown, sat_add};
use crate::opcodes::jump::sat_usize;
use crate::word::Word;

verus! {

broadcast use crate::stack::lemma_stack_values;

/// The topics of a LOGn: the words under offset and size, top first.
pub open spec fn log_topics(pre: EvmV, n: nat) -> Seq<nat> {
    Seq::new(n, |i: int| pre.stack[pre.stack.len() - 3 - i])
}

/// The full transition of LOGn: pop offset, size and `n` topics, charge
/// `375 + 375·n + 8·size` plus expansion, and append the record.  An empty
/// range logs no data and leaves memory alone.
pub open spec fn log_op(pre: EvmV, post: EvmV, r: Result<(), EvmError>, n: nat) -> bool {
    if pre.stack.len() < 2 + n {
        r == Err::<(), EvmError>(EvmError::StackUnderflow) && post.stack.len() == 0
            && post == EvmV { stack: post.stack, ..pre }
    } else {
        let off = sat_usize(top0(pre));
        let size = sat_usize(top1(pre));
        let base = pre.stack.take(pre.stack.len() - 2 - n);
        let exp: nat = if size == 0 {
            0
        } else {
            expansion_cost(pre.memory.len(), sat_add(off, size))
        };
        let c = 375 + 375 * n + 8 * size + exp;
        if pre.gas < c {
            r == Err::<(), EvmError>(EvmError::OutOfGas) && post == EvmV {
                stack: base,
                ..pre
            }
        } else if size > 0 && (size > usize::MAX - 31 || off > usize::MAX - 31 - size) {
            (r matches Err(e) && e matches EvmError::MemoryOutOfBounds {
                offset,
                size: s,
                max,
            } && offset == off && s == size && max == pre.memory.len()) && post == EvmV {
                gas: (pre.gas - c) as nat,
                stack: base,
                ..pre
            }
        } else if size == 0 {
            r == Ok::<(), EvmError>(()) && post == EvmV {
                gas: (pre.gas - c) as nat,
                pc: (pre.pc + 1) as nat,
                stack: base,
                logs: pre.logs.push(LogView { topics: log_topics(pre, n), data: Seq::empty() }),
                ..pre
            }
        } else {
            let g = grown(pre.memory, (off + size) as nat);
            r == Ok::<(), EvmError>(()) && post == EvmV {
                gas: (pre.gas - c) as nat,
                pc: (pre.pc + 1) as nat,
                stack: base,
                memory: g,
                logs: pre.logs.push(LogView {
                    topics: log_topics(pre, n),
                    data: g.subrange(off as int, (off + size) as int),
                }),
                ..pre
            }
        }
    }
}

/// LOGn: pop an offset, a size and `n` topic words, and append the event
/// record holding those topics and that memory range.
pub fn log(vm: &mut EVM, n: usize) -> (r: Result<(), EvmError>)
    requires
        old(vm).wf(),
        old(vm)@.pc < usize::MAX,
        n <= 4,
    ensures
        final(vm).wf(),
        log_op(old(vm)@, final(vm)@, r, n as nat),
{
    let offset_raw = vm.stack.pop()?;
    let size_raw = vm.stack.pop()?;
    let ghost mid = vm@;
    proof {
        assert(mid.stack.take(mid.stack.len() as int) =~= mid.stack);
        assert(vm@ == (EvmV { stack: mid.stack.take(mid.stack.len() - 0), ..mid }));
    }
    let mut topics: Vec<Word> = Vec::new();
    let mut i: usize = 0;
    while i < n
        invariant
            i <= n,
            n <= 4,
            i <= mid.stack.len(),
            topics@.len() == i,
            old(vm)@.stack.len() >= 2,
            mid == (EvmV {
                stack: old(vm)@.stack.drop_last().drop_last(),
                ..old(vm)@
            }),
            vm@ == (EvmV { stack: mid.stack.take(mid.stack.len() - i), ..mid }),
            vm.wf(),
            forall|j: int| 0 <= j < i ==> topics@[j]@ == mid.stack[mid.stack.len() - 1 - j],
        decreases n - i,
    {
        let t = match vm.stack.pop() {
            Ok(t) => t,
            Err(e) => {
                proof {
                    assert(vm@.stack.len() == 0);
                    assert(vm@ == (EvmV { stack: vm@.stack, ..old(vm)@ }));
                }
                return Err(e);
            },
        };
        topics.push(t);
        proof {
            let ghost prev = mid.stack.take(mid.stack.len() - i);
            assert(prev.len() > 0);
            assert(vm@.stack == prev.drop_last());
            assert(t@ == prev.last());
            assert(prev.last() == mid.stack[mid.stack.len() - 1 - i]);
            assert(prev.drop_last() =~= mid.stack.take(mid.stack.len() - (i + 1)));
            assert(vm@ == (EvmV { stack: mid.stack.take(mid.stack.len() - (i + 1)), ..mid }));
        }
        i += 1;
    }
    proof {
        assert(vm@.stack =~= old(vm)@.stack.take(old(vm)@.stack.len() - 2 - n));
        assert(forall|j: int| 0 <= j < n ==> topics@[j]@ == log_topics(old(vm)@, n as nat)[j]);
    }
    let offset = offset_raw.to_usize_saturating();
    let size = size_raw.to_usize_saturating();
    let expansion: u128 = if size == 0 {
        0
    } else {
        vm.memory.expansion_cost_of(offset, size)
    };
    vm.charge(375 + 375 * (n as u128) + 8 * (size as u128) + expansion)?;
    if size > 0 && (size > usize::MAX - 31 || offset > usize::MAX - 31 - size) {
        return Err(EvmError::MemoryOutOfBounds { offset, size, max: vm.memory.memory.len() });
    }
    let data: Vec<u8> = if size == 0 {
        Vec::new()
    } else {
        let _expansion_paid = vm.memory.ensure_capacity(offset, size);
        let slice = match vm.memory.access(offset, size) {
            Ok(d) => d,
            Err(e) => {
                proof {
                    assert(false);
                }
                return Err(e);
            },
        };
        vstd::slice::slice_to_vec(slice)
    };
    let ghost logs_before = vm@.logs;
    let record = Log::new(data, topics);
    let ghost record_view = record@;
    vm.logs.push(record);
    proof {
        assert(record_view.topics =~= log_topics(old(vm)@, n as nat));
        assert(vm@.logs =~= logs_before.push(record_view));
    }
    vm.pc = vm.pc + 1;
    Ok(())
}

} // verus!
