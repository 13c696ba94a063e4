//! Arithmetic opcodes: ADD, MUL, SUB, DIV, SDIV, MOD, SMOD, ADDMOD,
//! MULMOD, EXP, SIGNEXTEND.  All arithmetic is modulo 2^256.

use vstd::prelude::*;

use crate::evm::{simple_op, stack_result, top0, top1, top2, EvmError, EvmV, EVM};
use crate::word::{
    bit_len_spec, w_add, w_addmod, w_div, w_exp, w_mod, w_mul, w_mulmod, w_sdiv, w_signext,
    w_smod, w_sub, word_add, word_bit_len, word_div, word_mul, word_pow, word_rem, word_sdiv,
    word_signextend, word_smod, word_sub, Word,
};

verus! {

broadcast use crate::stack::lemma_stack_values;

/// ADD: pop two words, push their wrapping sum.
pub fn add(vm: &mut EVM) -> (r: Result<(), EvmError>)
    requires
        old(vm).wf(),
        old(vm)@.pc < usize::MAX,
    ensures
        final(vm).wf(),
        simple_op(old(vm)@, final(vm)@, r, 3, 2, Some(w_add(top0(old(vm)@), top1(old(vm)@)))),
{
    vm.gas_dec(3)?;
    let a = vm.stack.pop()?;
    let b = vm.stack.pop()?;
    vm.stack.push(word_add(&a, &b))?;
    vm.pc = vm.pc + 1;
    proof {
        assert(vm@.stack =~= stack_result(
            old(vm)@.stack, 2, Some(w_add(top0(old(vm)@), top1(old(vm)@)))));
    }
    Ok(())
}

/// MUL: pop two words, push their wrapping product.
pub fn mul(vm: &mut EVM) -> (r: Result<(), EvmError>)
    requires
        old(vm).wf(),
        old(vm)@.pc < usize::MAX,
    ensures
        final(vm).wf(),
        simple_op(old(vm)@, final(vm)@, r, 5, 2, Some(w_mul(top0(old(vm)@), top1(old(vm)@)))),
{
    vm.gas_dec(5)?;
    let a = vm.stack.pop()?;
    let b = vm.stack.pop()?;
    vm.stack.push(word_mul(&a, &b))?;
    vm.pc = vm.pc + 1;
    proof {
        assert(vm@.stack =~= stack_result(
            old(vm)@.stack, 2, Some(w_mul(top0(old(vm)@), top1(old(vm)@)))));
    }
    Ok(())
}

/// SUB: pop two words, push top minus second, wrapping.
pub fn sub(vm: &mut EVM) -> (r: Result<(), EvmError>)
    requires
        old(vm).wf(),
        old(vm)@.pc < usize::MAX,
    ensures
        final(vm).wf(),
        simple_op(old(vm)@, final(vm)@, r, 3, 2, Some(w_sub(top0(old(vm)@), top1(old(vm)@)))),
{
    vm.gas_dec(3)?;
    let a = vm.stack.pop()?;
    let b = vm.stack.pop()?;
    vm.stack.push(word_sub(&a, &b))?;
    vm.pc = vm.pc + 1;
    proof {
        assert(vm@.stack =~= stack_result(
            old(vm)@.stack, 2, Some(w_sub(top0(old(vm)@), top1(old(vm)@)))));
    }
    Ok(())
}

/// DIV: pop two words, push top divided by second; zero divisor gives zero.
pub fn div(vm: &mut EVM) -> (r: Result<(), EvmError>)
    requires
        old(vm).wf(),
        old(vm)@.pc < usize::MAX,
    ensures
        final(vm).wf(),
        simple_op(old(vm)@, final(vm)@, r, 5, 2, Some(w_div(top0(old(vm)@), top1(old(vm)@)))),
{
    vm.gas_dec(5)?;
    let a = vm.stack.pop()?;
    let b = vm.stack.pop()?;
    let result = if b.is_zero() { Word::zero() } else { word_div(&a, &b) };
    vm.stack.push(result)?;
    vm.pc = vm.pc + 1;
    proof {
        assert(vm@.stack =~= stack_result(
            old(vm)@.stack, 2, Some(w_div(top0(old(vm)@), top1(old(vm)@)))));
    }
    Ok(())
}

/// SDIV: signed division truncated toward zero; zero divisor gives zero,
/// and the minimum value divided by minus one wraps back to itself.
pub fn sdiv(vm: &mut EVM) -> (r: Result<(), EvmError>)
    requires
        old(vm).wf(),
        old(vm)@.pc < usize::MAX,
    ensures
        final(vm).wf(),
        simple_op(old(vm)@, final(vm)@, r, 5, 2, Some(w_sdiv(top0(old(vm)@), top1(old(vm)@)))),
{
    vm.gas_dec(5)?;
    let a = vm.stack.pop()?;
    let b = vm.stack.pop()?;
    vm.stack.push(word_sdiv(&a, &b))?;
    vm.pc = vm.pc + 1;
    proof {
        assert(vm@.stack =~= stack_result(
            old(vm)@.stack, 2, Some(w_sdiv(top0(old(vm)@), top1(old(vm)@)))));
    }
    Ok(())
}

/// MOD: pop two words, push top modulo second; zero divisor gives zero.
pub fn vm_mod(vm: &mut EVM) -> (r: Result<(), EvmError>)
    requires
        old(vm).wf(),
        old(vm)@.pc < usize::MAX,
    ensures
        final(vm).wf(),
        simple_op(old(vm)@, final(vm)@, r, 5, 2, Some(w_mod(top0(old(vm)@), top1(old(vm)@)))),
{
    vm.gas_dec(5)?;
    let a = vm.stack.pop()?;
    let b = vm.stack.pop()?;
    let result = if b.is_zero() { Word::zero() } else { word_rem(&a, &b) };
    vm.stack.push(result)?;
    vm.pc = vm.pc + 1;
    proof {
        assert(vm@.stack =~= stack_result(
            old(vm)@.stack, 2, Some(w_mod(top0(old(vm)@), top1(old(vm)@)))));
    }
    Ok(())
}

/// SMOD: signed remainder, its sign following the dividend; zero divisor
/// gives zero.
pub fn smod(vm: &mut EVM) -> (r: Result<(), EvmError>)
    requires
        old(vm).wf(),
        old(vm)@.pc < usize::MAX,
    ensures
        final(vm).wf(),
        simple_op(old(vm)@, final(vm)@, r, 5, 2, Some(w_smod(top0(old(vm)@), top1(old(vm)@)))),
{
    vm.gas_dec(5)?;
    let a = vm.stack.pop()?;
    let b = vm.stack.pop()?;
    vm.stack.push(word_smod(&a, &b))?;
    vm.pc = vm.pc + 1;
    proof {
        assert(vm@.stack =~= stack_result(
            old(vm)@.stack, 2, Some(w_smod(top0(old(vm)@), top1(old(vm)@)))));
    }
    Ok(())
}

/// ADDMOD: pop three words, push `(a + b) mod 2^256 mod n`; a zero modulus
/// gives zero.
pub fn add_mod(vm: &mut EVM) -> (r: Result<(), EvmError>)
    requires
        old(vm).wf(),
        old(vm)@.pc < usize::MAX,
    ensures
        final(vm).wf(),
        simple_op(old(vm)@, final(vm)@, r, 8, 3, Some(
            w_addmod(top0(old(vm)@), top1(old(vm)@), top2(old(vm)@)))),
{
    vm.gas_dec(8)?;
    let a = vm.stack.pop()?;
    let b = vm.stack.pop()?;
    let n = vm.stack.pop()?;
    let s = word_add(&a, &b);
    let result = if n.is_zero() { Word::zero() } else { word_rem(&s, &n) };
    vm.stack.push(result)?;
    vm.pc = vm.pc + 1;
    proof {
        assert(vm@.stack =~= stack_result(
            old(vm)@.stack, 3, Some(
                w_addmod(top0(old(vm)@), top1(old(vm)@), top2(old(vm)@)))));
    }
    Ok(())
}

/// MULMOD: pop three words, push `(a * b) mod 2^256 mod n`; a zero modulus
/// gives zero.
pub fn mul_mod(vm: &mut EVM) -> (r: Result<(), EvmError>)
    requires
        old(vm).wf(),
        old(vm)@.pc < usize::MAX,
    ensures
        final(vm).wf(),
        simple_op(old(vm)@, final(vm)@, r, 8, 3, Some(
            w_mulmod(top0(old(vm)@), top1(old(vm)@), top2(old(vm)@)))),
{
    vm.gas_dec(8)?;
    let a = vm.stack.pop()?;
    let b = vm.stack.pop()?;
    let n = vm.stack.pop()?;
    let p = word_mul(&a, &b);
    let result = if n.is_zero() { Word::zero() } else { word_rem(&p, &n) };
    vm.stack.push(result)?;
    vm.pc = vm.pc + 1;
    proof {
        assert(vm@.stack =~= stack_result(
            old(vm)@.stack, 3, Some(
                w_mulmod(top0(old(vm)@), top1(old(vm)@), top2(old(vm)@)))));
    }
    Ok(())
}

/// The byte length of a word value: its bit length rounded up to bytes.
pub open spec fn byte_len_spec(v: nat) -> nat {
    (bit_len_spec(v) + 7) / 8
}

/// The number of bytes needed to write a word, ignoring leading zeros.
pub fn size_in_bytes(num: &Word) -> (r: u64)
    ensures
        r == byte_len_spec(num@),
{
    let bits = word_bit_len(num);
    proof {
        crate::word::lemma_pow2_consts();
        crate::word::lemma_limbs(*num);
        lemma_bit_len_le(num@, 256);
    }
    ((bits as u64) + 7) / 8
}

/// A value below `2^n` has at most `n` significant bits.
pub proof fn lemma_bit_len_le(v: nat, n: nat)
    requires
        v < vstd::arithmetic::power2::pow2(n),
    ensures
        bit_len_spec(v) <= n,
    decreases n,
{
    vstd::arithmetic::power2::lemma2_to64();
    if v > 0 {
        vstd::arithmetic::power2::lemma_pow2_unfold(n);
        lemma_bit_len_le(v / 2, (n - 1) as nat);
    }
}

/// The full transition of EXP: two pops, then a gas charge of
/// `10 + 50 * byte_len(exponent)`, then the power pushed.
pub open spec fn exp_op(pre: EvmV, post: EvmV, r: Result<(), EvmError>) -> bool {
    if pre.stack.len() < 2 {
        r == Err::<(), EvmError>(EvmError::StackUnderflow) && post.stack.len() == 0
            && post == EvmV { stack: post.stack, ..pre }
    } else {
        let g = 10 + 50 * byte_len_spec(top1(pre));
        if pre.gas < g {
            r == Err::<(), EvmError>(EvmError::OutOfGas) && post == EvmV {
                stack: pre.stack.take(pre.stack.len() - 2),
                ..pre
            }
        } else {
            r == Ok::<(), EvmError>(()) && post == EvmV {
                gas: (pre.gas - g) as nat,
                pc: (pre.pc + 1) as nat,
                stack: stack_result(pre.stack, 2, Some(w_exp(top0(pre), top1(pre)))),
                ..pre
            }
        }
    }
}

/// EXP: pop base and exponent, charge by the exponent's byte length, push
/// the wrapping power.
pub fn exp(vm: &mut EVM) -> (r: Result<(), EvmError>)
    requires
        old(vm).wf(),
        old(vm)@.pc < usize::MAX,
    ensures
        final(vm).wf(),
        exp_op(old(vm)@, final(vm)@, r),
{
    let base = vm.stack.pop()?;
    let exponent = vm.stack.pop()?;
    let exponent_byte_len = size_in_bytes(&exponent);
    proof {
        crate::word::lemma_pow2_consts();
        crate::word::lemma_limbs(exponent);
        lemma_bit_len_le(exponent@, 256);
    }
    let gas_cost = 10 + (50 * exponent_byte_len);
    if let Err(e) = vm.gas_dec(gas_cost) {
        proof {
            assert(vm@.stack =~= old(vm)@.stack.take(old(vm)@.stack.len() - 2));
        }
        return Err(e);
    }
    vm.stack.push(word_pow(&base, &exponent))?;
    vm.pc = vm.pc + 1;
    proof {
        assert(vm@.stack =~= stack_result(
            old(vm)@.stack, 2, Some(w_exp(top0(old(vm)@), top1(old(vm)@)))));
    }
    Ok(())
}

/// SIGNEXTEND: pop a byte position and a value, push the value with its
/// sign extended from that byte.
pub fn signextend(vm: &mut EVM) -> (r: Result<(), EvmError>)
    requires
        old(vm).wf(),
        old(vm)@.pc < usize::MAX,
    ensures
        final(vm).wf(),
        simple_op(old(vm)@, final(vm)@, r, 5, 2, Some(
            w_signext(top0(old(vm)@), top1(old(vm)@)))),
{
    vm.gas_dec(5)?;
    let b = vm.stack.pop()?;
    let x = vm.stack.pop()?;
    vm.stack.push(word_signextend(&b, &x))?;
    vm.pc = vm.pc + 1;
    proof {
        assert(vm@.stack =~= stack_result(
            old(vm)@.stack, 2, Some(w_signext(top0(old(vm)@), top1(old(vm)@)))));
    }
    Ok(())
}

} // verus!
