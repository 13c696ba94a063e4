//! Byte-addressable memory that grows in 32-byte words.
//!
//! Growth is paid for by the quadratic gas curve `3·w + w²/512` over the
//! size in words; an expansion costs the difference between the new and the
//! old curve value.  The byte length is always a multiple of 32.

use vstd::prelude::*;

use crate::evm::EvmError;

verus! {

/// The size in 32-byte words needed to cover `len` bytes.
pub open spec fn words_for(len: nat) -> nat {
    (len + 31) / 32
}

/// The gas curve over a size in words.
pub open spec fn mem_gas(w: nat) -> nat {
    (3 * w + (w * w) / 512) as nat
}

/// Growth never outruns the address space: the word count is capped there.
pub open spec fn clamped_words(req: nat) -> nat {
    if words_for(req) > usize::MAX as nat / 32 {
        usize::MAX as nat / 32
    } else {
        words_for(req)
    }
}

/// The byte length memory has after it has grown to cover `req` bytes.
pub open spec fn grow_target(len: nat, req: nat) -> nat {
    if req <= len {
        len
    } else {
        clamped_words(req) * 32
    }
}

/// What an expansion to cover `req` bytes costs, before any saturation.
/// The curve is taken at the uncapped word count, so an unpayable request
/// keeps its unpayable price.
pub open spec fn expansion_cost(len: nat, req: nat) -> nat {
    if req <= len {
        0
    } else {
        (mem_gas(words_for(req)) - mem_gas(len / 32)) as nat
    }
}

/// The byte sequence after growth: the old bytes, zero-extended.
pub open spec fn grown(mem: Seq<u8>, req: nat) -> Seq<u8> {
    if req <= mem.len() {
        mem
    } else {
        mem + Seq::new((grow_target(mem.len(), req) - mem.len()) as nat, |i: int| 0u8)
    }
}

/// Offsets and sizes coming from stack words saturate at the host range.
pub open spec fn sat_add(a: nat, b: nat) -> nat {
    if a + b > usize::MAX as nat {
        usize::MAX as nat
    } else {
        a + b
    }
}

/// Byte memory with its zero-extending, word-aligned growth.
pub struct Memory {
    pub memory: Vec<u8>,
}

impl View for Memory {
    type V = Seq<u8>;

    open spec fn view(&self) -> Seq<u8> {
        self.memory@
    }
}

/// Saturating addition on host-sized offsets.
pub(crate) fn usize_sat_add(a: usize, b: usize) -> (r: usize)
    ensures
        r == sat_add(a as nat, b as nat),
{
    if a > usize::MAX - b {
        usize::MAX
    } else {
        a + b
    }
}

impl Memory {
    /// The length is always a whole number of 32-byte words.
    pub open spec fn wf(&self) -> bool {
        self@.len() % 32 == 0
    }

    /// An empty memory.
    pub fn new() -> (r: Memory)
        ensures
            r@ =~= Seq::<u8>::empty(),
            r.wf(),
    {
        Memory { memory: Vec::new() }
    }

    /// The gas curve value of a size in words, the price of a whole memory.
    pub fn calculate_memory_gas(size_in_words: u64) -> (r: u64)
        requires
            size_in_words < 0x1_0000_0000,
        ensures
            r == mem_gas(size_in_words as nat),
    {
        proof {
            assert(size_in_words * size_in_words < 0x1_0000_0000_0000_0000) by (nonlinear_arith)
                requires
                    size_in_words < 0x1_0000_0000,
            ;
        }
        let linear_cost = size_in_words * 3;
        let quadratic_cost = (size_in_words * size_in_words) / 512;
        linear_cost + quadratic_cost
    }

    /// The price of growing to cover `offset + size` bytes, computed exactly.
    /// The caller charges this before calling `ensure_capacity`.
    pub(crate) fn expansion_cost_of(&self, offset: usize, size: usize) -> (r: u128)
        requires
            self.wf(),
        ensures
            r == expansion_cost(self@.len(), sat_add(offset as nat, size as nat)),
            r < 0x0200_0000_0000_0000_0000_0000_0000_0000u128,
    {
        let req = usize_sat_add(offset, size);
        if req <= self.memory.len() {
            return 0;
        }
        let len = self.memory.len();
        let cw: u128 = (len / 32) as u128;
        let rw: u128 = (req as u128 + 31) / 32;
        proof {
            assert(rw < 0x1000_0000_0000_0000u128) by {
                vstd::arithmetic::div_mod::lemma_multiply_divide_lt(
                    req as int + 31, 0x1000_0000_0000_0000, 32);
            }
            assert(cw <= rw) by {
                vstd::arithmetic::div_mod::lemma_div_is_ordered(
                    len as int, req as int + 31, 32);
                assert(len as int / 32 == (len as nat / 32) as int);
            }
            assert(cw * cw <= rw * rw) by (nonlinear_arith)
                requires
                    cw <= rw,
            ;
            assert(rw * rw < 0x0100_0000_0000_0000_0000_0000_0000_0000u128)
                by (nonlinear_arith)
                requires
                    rw < 0x1000_0000_0000_0000u128,
            ;
            vstd::arithmetic::div_mod::lemma_div_is_ordered(
                (cw * cw) as int, (rw * rw) as int, 512);
        }
        let old_cost: u128 = 3 * cw + (cw * cw) / 512;
        let new_cost: u128 = 3 * rw + (rw * rw) / 512;
        new_cost - old_cost
    }

    /// Grow (zero-filled, in whole words) so that `offset + size` bytes are
    /// covered, and return the price of the growth saturated to 64 bits.
    pub fn ensure_capacity(&mut self, offset: usize, size: usize) -> (r: u64)
        requires
            old(self).wf(),
        ensures
            final(self).wf(),
            final(self)@ =~= grown(old(self)@, sat_add(offset as nat, size as nat)),
            ({
                let c = expansion_cost(old(self)@.len(), sat_add(offset as nat, size as nat));
                r == if c > u64::MAX { u64::MAX as nat } else { c }
            }),
    {
        let cost = self.expansion_cost_of(offset, size);
        let req = usize_sat_add(offset, size);
        if req <= self.memory.len() {
            return 0;
        }
        let ghost old_mem = self@;
        let len = self.memory.len();
        let rw: u128 = (req as u128 + 31) / 32;
        let cap: u128 = (usize::MAX / 32) as u128;
        let tw: u128 = if rw > cap { cap } else { rw };
        proof {
            assert(tw * 32 <= cap * 32) by (nonlinear_arith)
                requires
                    tw <= cap,
            ;
            assert((usize::MAX as int / 32) * 32 <= usize::MAX) by {
                vstd::arithmetic::div_mod::lemma_fundamental_div_mod(usize::MAX as int, 32);
            }
            assert(tw * 32 == clamped_words(req as nat) * 32);
            assert((len as int / 32) * 32 == len) by {
                vstd::arithmetic::div_mod::lemma_fundamental_div_mod(len as int, 32);
            }
            assert(len as int / 32 <= usize::MAX as int / 32) by {
                vstd::arithmetic::div_mod::lemma_div_is_ordered(
                    len as int, usize::MAX as int, 32);
            }
            assert((len as int / 32) * 32 <= cap * 32) by (nonlinear_arith)
                requires
                    len as int / 32 <= cap,
            ;
            assert(rw * 32 >= req) by {
                vstd::arithmetic::div_mod::lemma_fundamental_div_mod(req as int + 31, 32);
            }
        }
        let target: usize = (tw * 32) as usize;
        if target > len {
            self.memory.resize(target, 0u8);
        }
        proof {
            let g = grown(old_mem, sat_add(offset as nat, size as nat));
            assert(g.len() == grow_target(old_mem.len(), req as nat));
            assert(self@.len() == g.len());
            assert forall|i: int| 0 <= i < self@.len() implies self@[i] == g[i] by {
                if i < old_mem.len() {
                    assert(self@.subrange(0, old_mem.len() as int) == old_mem);
                    assert(self@.subrange(0, old_mem.len() as int)[i] == old_mem[i]);
                }
            }
            assert(self@ =~= g);
            assert(self@.len() % 32 == 0) by {
                vstd::arithmetic::div_mod::lemma_mod_multiples_basic(tw as int, 32);
            }
        }
        if cost > u64::MAX as u128 {
            u64::MAX
        } else {
            cost as u64
        }
    }

    /// Read-only view of a byte range; never grows, refuses a range past the
    /// current length.
    pub fn access(&self, offset: usize, size: usize) -> (r: Result<&[u8], EvmError>)
        ensures
            sat_add(offset as nat, size as nat) > self@.len() ==> r == Err::<&[u8], EvmError>(
                EvmError::MemoryOutOfBounds {
                    offset,
                    size,
                    max: self@.len() as usize,
                }),
            sat_add(offset as nat, size as nat) <= self@.len() ==> (r matches Ok(s) && s@
                =~= self@.subrange(offset as int, sat_add(offset as nat, size as nat) as int)),
    {
        let end = usize_sat_add(offset, size);
        if end > self.memory.len() {
            return Err(EvmError::MemoryOutOfBounds { offset, size, max: self.memory.len() });
        }
        Ok(vstd::slice::slice_subrange(self.memory.as_slice(), offset, end))
    }

    /// Grow to cover a 32-byte word at `offset`, then read it.  The offset
    /// must leave the grown range addressable, which any offset a charge was
    /// ever paid for does.
    pub fn load(&mut self, offset: usize) -> (r: ([u8; 32], u64))
        requires
            old(self).wf(),
            offset <= usize::MAX - 63,
        ensures
            final(self).wf(),
            final(self)@ =~= grown(old(self)@, (offset + 32) as nat),
            r.0@ =~= final(self)@.subrange(offset as int, offset + 32),
            ({
                let c = expansion_cost(old(self)@.len(), (offset + 32) as nat);
                r.1 == if c > u64::MAX { u64::MAX as nat } else { c }
            }),
    {
        let cost = self.ensure_capacity(offset, 32);
        proof {
            let req = (offset + 32) as nat;
            assert(words_for(req) <= usize::MAX as nat / 32) by {
                vstd::arithmetic::div_mod::lemma_div_is_ordered(
                    req as int + 31, usize::MAX as int, 32);
            }
            assert(clamped_words(req) * 32 >= req) by {
                vstd::arithmetic::div_mod::lemma_fundamental_div_mod(req as int + 31, 32);
            }
        }
        let n = self.memory.len();
        let mut word = [0u8; 32];
        let mut i: usize = 0;
        while i < 32
            invariant
                i <= 32,
                word@.len() == 32,
                offset <= usize::MAX - 63,
                offset + 32 <= self@.len(),
                self@.len() <= usize::MAX,
                forall|j: int| 0 <= j < i ==> word@[j] == self@[offset + j],
            decreases 32 - i,
        {
            let b = self.memory[offset + i];
            word[i] = b;
            i += 1;
        }
        proof {
            assert(word@ =~= self@.subrange(offset as int, offset + 32));
        }
        (word, cost)
    }

    /// Grow to cover `value.len()` bytes at `offset`, then copy them in.
    /// An empty write is a no-op.  A non-empty write must leave the grown
    /// range addressable, which any write a charge was ever paid for does.
    pub fn store(&mut self, offset: usize, value: &[u8]) -> (r: u64)
        requires
            old(self).wf(),
            value@.len() == 0 || offset + value@.len() <= usize::MAX - 31,
        ensures
            final(self).wf(),
            value@.len() == 0 ==> r == 0 && final(self)@ =~= old(self)@,
            value@.len() > 0 ==> ({
                let req = (offset + value@.len()) as nat;
                let g = grown(old(self)@, req);
                final(self)@ =~= g.take(offset as int) + value@ + g.skip(offset + value@.len())
                    && ({
                    let c = expansion_cost(old(self)@.len(), req);
                    r == if c > u64::MAX { u64::MAX as nat } else { c }
                })
            }),
    {
        let size = value.len();
        if size == 0 {
            return 0;
        }
        let cost = self.ensure_capacity(offset, size);
        let ghost g = grown(old(self)@, (offset + size) as nat);
        proof {
            let req = (offset + size) as nat;
            assert(words_for(req) <= usize::MAX as nat / 32) by {
                vstd::arithmetic::div_mod::lemma_div_is_ordered(
                    req as int + 31, usize::MAX as int, 32);
            }
            assert(clamped_words(req) * 32 >= req) by {
                vstd::arithmetic::div_mod::lemma_fundamental_div_mod(req as int + 31, 32);
            }
        }
        let mut i: usize = 0;
        while i < size
            invariant
                i <= size,
                size == value@.len(),
                offset + size <= usize::MAX,
                offset + size <= self@.len(),
                self@.len() == g.len(),
                self.wf(),
                forall|j: int| 0 <= j < self@.len() && !(offset <= j < offset + i)
                    ==> self@[j] == g[j],
                forall|j: int| 0 <= j < i ==> self@[offset + j] == value@[j],
            decreases size - i,
        {
            let b = value[i];
            self.memory[offset + i] = b;
            i += 1;
        }
        proof {
            assert(self@ =~= g.take(offset as int) + value@ + g.skip(offset + size));
        }
        cost
    }
}

} // verus!
