//! The machine-level laws: invariants every reachable state keeps, the
//! gas meter's monotonicity, and the round trips through the stack, the
//! memory and the storage.

use vstd::prelude::*;

use crate::evm::{dispatch_spec, err_step, halted, ok_step, run_trace, simple_op, top0, top1, wf, EvmError, EvmV};
use crate::memory::grown;
use crate::opcodes::memory::{mload_op, mstore_op, spliced};
use crate::opcodes::push::push_op;
use crate::opcodes::storage::{sload_op, sstore_op};
use crate::storage::lookup;
use crate::word::{be_bytes, be_val, p256, w_add, w_sub};

verus! {

/// Every state that satisfies the machine invariant keeps the stack within
/// its 1024-word capacity and the memory a whole number of 32-byte words.
/// The constructor establishes the invariant and every step preserves it,
/// so this holds of all reachable states.
pub proof fn lemma_machine_invariants(v: EvmV)
    requires
        wf(v),
    ensures
        0 <= v.stack.len() <= 1024,
        v.memory.len() % 32 == 0,
{
}

/// No opcode ever makes gas grow: whatever one dispatch does, successful
/// or not, the meter after is at most the meter before.
pub proof fn lemma_gas_monotone(pre: EvmV, post: EvmV, r: Result<(), EvmError>)
    requires
        wf(pre),
        pre.pc < pre.program.len(),
        dispatch_spec(pre, post, r),
    ensures
        post.gas <= pre.gas,
{
}

/// A run is an iteration of single steps: a one-state trace is a machine
/// that was already halted (or failed on its first opcode), and a longer
/// trace starts with one successful step and continues as a run from the
/// state it reached.  Consumers peel scenarios off a run with this.
pub proof fn lemma_run_trace_unfold(
    pre: EvmV,
    post: EvmV,
    r: Result<(), EvmError>,
    trace: Seq<EvmV>,
)
    requires
        run_trace(pre, post, r, trace),
    ensures
        trace.len() == 1 ==> (match r {
            Ok(_) => post == pre && halted(pre),
            Err(e) => err_step(pre, post, e),
        }),
        trace.len() > 1 ==> ok_step(pre, trace[1]) && run_trace(trace[1], post, r, trace.skip(
            1)),
{
    if trace.len() > 1 {
        let rest = trace.skip(1);
        let zero: int = 0;
        assert(0 <= zero < trace.len() - 1);
        assert(ok_step(trace[zero], trace[zero + 1]));
        assert(rest.last() == trace.last());
        assert forall|i: int| 0 <= i < rest.len() - 1 implies #[trigger] ok_step(
            rest[i], rest[i + 1]) by {
            assert(rest[i] == trace[i + 1]);
            assert(rest[i + 1] == trace[i + 2]);
            assert(ok_step(trace[i + 1], trace[i + 2]));
        }
    }
}

/// The PUSH32-then-POP scenario carried through a whole run: any `run`
/// result on the 34-byte program `PUSH32 x; POP` with gas for both opcodes
/// is obliged to be a success that leaves the stack as it was, charges
/// exactly five units of gas, and stops just past the end.  Everything
/// here comes from `run`'s trace clause alone.
pub proof fn lemma_run_of_push32_pop(
    pre: EvmV,
    post: EvmV,
    r: Result<(), EvmError>,
    trace: Seq<EvmV>,
)
    requires
        wf(pre),
        run_trace(pre, post, r, trace),
        pre.pc == 0,
        pre.program.len() == 34,
        pre.program[0] == 0x7F,
        pre.program[33] == 0x50,
        !pre.stop_flag,
        !pre.revert_flag,
        pre.stack.len() < 1024,
        pre.gas >= 5,
    ensures
        r == Ok::<(), EvmError>(()),
        post.stack =~= pre.stack,
        post.gas == pre.gas - 5,
        post.pc == 34,
{
    reveal(crate::evm::ok_step);
    reveal(crate::evm::err_step);
    let zero: int = 0;
    let one: int = 1;
    assert(!halted(pre));
    if trace.len() == 1 {
        match r {
            Ok(_) => {
                assert(halted(pre));
            },
            Err(e) => {
                assert(err_step(pre, post, e));
                assert(push_op(pre, post, Err(e), 32));
            },
        }
        assert(false);
    }
    assert(0 <= zero < trace.len() - 1);
    assert(ok_step(trace[zero], trace[zero + 1]));
    let s1 = trace[1];
    assert(push_op(pre, s1, Ok::<(), EvmError>(()), 32));
    assert(s1.pc == crate::memory::sat_add(0, 33));
    assert(s1.pc == 33 && s1.gas == pre.gas - 3 && s1.program == pre.program
        && !s1.stop_flag && !s1.revert_flag && s1.stack.len() == pre.stack.len() + 1);
    assert(!halted(s1));
    if trace.len() == 2 {
        match r {
            Ok(_) => {
                assert(halted(s1));
            },
            Err(e) => {
                assert(err_step(s1, post, e));
                assert(simple_op(s1, post, Err(e), 2, 1, None));
            },
        }
        assert(false);
    }
    assert(0 <= one < trace.len() - 1);
    assert(ok_step(trace[one], trace[one + 1]));
    let s2 = trace[2];
    assert(simple_op(s1, s2, Ok::<(), EvmError>(()), 2, 1, None));
    assert(s2.pc == 34 && s2.program == pre.program);
    assert(halted(s2));
    if trace.len() > 3 {
        let two: int = 2;
        assert(0 <= two < trace.len() - 1);
        assert(ok_step(trace[two], trace[two + 1]));
        assert(false);
    }
    assert(trace.len() == 3 && trace.last() == s2);
    match r {
        Ok(u) => {
            assert(u == ());
            assert(r == Ok::<(), EvmError>(()));
        },
        Err(e) => {
            assert(err_step(s2, post, e));
            assert(false);
        },
    }
    assert(post == s2);
    assert(s2.stack =~= pre.stack);
    assert(s2.gas == pre.gas - 5);
}

/// A PUSH32 followed by a POP leaves the stack as it was, costs exactly
/// five units of gas, and moves the program counter ahead by 34 bytes.
pub proof fn lemma_push_then_pop(
    s0: EvmV,
    s1: EvmV,
    s2: EvmV,
    r1: Result<(), EvmError>,
    r2: Result<(), EvmError>,
)
    requires
        wf(s0),
        s0.gas >= 5,
        s0.stack.len() < 1024,
        s0.pc + 33 <= usize::MAX,
        push_op(s0, s1, r1, 32),
        simple_op(s1, s2, r2, 2, 1, None),
    ensures
        r1 == Ok::<(), EvmError>(()),
        r2 == Ok::<(), EvmError>(()),
        s2.stack =~= s0.stack,
        s2.gas == s0.gas - 5,
        s2.pc == s0.pc + 34,
{
    assert(s1.stack.len() == s0.stack.len() + 1);
    assert(s2.stack =~= s0.stack);
}

/// What MSTORE writes at an offset, MLOAD reads back from it: the word
/// survives the trip through memory byte for byte.
pub proof fn lemma_memory_round_trip(mem: Seq<u8>, off: nat, w: nat)
    requires
        w < p256(),
        off + 32 <= usize::MAX - 31,
    ensures
        ({
            let written = spliced(mem, off, be_bytes(w, 32));
            be_val(grown(written, off + 32).subrange(off as int, (off + 32) as int)) == w
        }),
{
    let written = spliced(mem, off, be_bytes(w, 32));
    let g = grown(mem, off + 32);
    assert(g.len() >= off + 32) by {
        if off + 32 > mem.len() {
            vstd::arithmetic::div_mod::lemma_fundamental_div_mod(off as int + 32 + 31, 32);
            vstd::arithmetic::div_mod::lemma_div_is_ordered(
                off as int + 32 + 31, usize::MAX as int, 32);
        }
    }
    assert(written.len() == g.len());
    assert(grown(written, off + 32) == written);
    assert(written.subrange(off as int, (off + 32) as int) =~= be_bytes(w, 32));
    crate::word::lemma_pow2_consts();
    crate::word::lemma_be_round_trip(w, 32);
}

/// The machine form of the memory round trip: after a successful MSTORE of
/// `w` at `off`, a successful MLOAD at the same offset pushes `w` back.
pub proof fn lemma_mstore_then_mload(
    s0: EvmV,
    s1: EvmV,
    s1b: EvmV,
    s2: EvmV,
    r1: Result<(), EvmError>,
    r2: Result<(), EvmError>,
)
    requires
        wf(s0),
        s0.stack.len() >= 2,
        mstore_op(s0, s1, r1),
        r1 == Ok::<(), EvmError>(()),
        s1b.memory == s1.memory,
        s1b.gas == s1.gas,
        s1b.stack.len() >= 1,
        top0(s1b) == top0(s0),
        mload_op(s1b, s2, r2),
        r2 == Ok::<(), EvmError>(()),
    ensures
        top0(s2) == top1(s0),
{
    let off = crate::opcodes::jump::sat_usize(top0(s0));
    lemma_memory_round_trip(s0.memory, off, top1(s0));
}

/// The storage round trip: after a successful SSTORE of `v` under `k`, a
/// successful SLOAD of `k` pushes `v` back — warmth only changes the
/// price, never the value.
pub proof fn lemma_sstore_then_sload(
    s0: EvmV,
    s1: EvmV,
    s1b: EvmV,
    s2: EvmV,
    r1: Result<(), EvmError>,
    r2: Result<(), EvmError>,
)
    requires
        wf(s0),
        s0.stack.len() >= 2,
        sstore_op(s0, s1, r1),
        r1 == Ok::<(), EvmError>(()),
        s1b.storage == s1.storage,
        s1b.gas == s1.gas,
        s1b.stack.len() >= 1,
        top0(s1b) == top0(s0),
        sload_op(s1b, s2, r2),
        r2 == Ok::<(), EvmError>(()),
    ensures
        top0(s2) == top1(s0),
{
    let k = top0(s0);
    let v = top1(s0);
    if v == 0 {
        assert(!s1.storage.dom().contains(k));
        assert(lookup(s1.storage, k) == 0);
    } else {
        assert(lookup(s1.storage, k) == v);
    }
}

/// Pushing a value and subtracting it from zero cancel out under ADD; the
/// word-level laws carry to what the machine pushes.
pub proof fn lemma_add_inverse_on_stack(a: nat)
    requires
        a < p256(),
    ensures
        w_add(a, w_sub(0, a)) == 0,
        w_add(a, w_sub(0, a)) == w_add(w_sub(0, a), a),
{
    crate::word::lemma_add_laws(a, w_sub(0, a));
}

} // verus!
