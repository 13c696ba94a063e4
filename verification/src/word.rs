//! 256-bit machine words.
//!
//! A word is four 64-bit limbs, least significant first.  Its mathematical
//! value is the natural number below 2^256 that the limbs spell out; all
//! contracts in the crate speak of that value.  The heavy arithmetic
//! (multiplication, division, exponentiation, shifts, byte conversions) is
//! delegated to the `alloy_primitives` big-integer type behind trusted
//! wrappers; everything layered on top of those is verified here.

use vstd::prelude::*;

verus! {

use vstd::arithmetic::power2::pow2;
use vstd::arithmetic::power::pow;

/// 2^64.
pub open spec fn p64() -> nat {
    0x1_0000_0000_0000_0000nat
}

/// 2^128.
pub open spec fn p128() -> nat {
    0x1_0000_0000_0000_0000_0000_0000_0000_0000nat
}

/// 2^192.
pub open spec fn p192() -> nat {
    0x1_0000_0000_0000_0000_0000_0000_0000_0000_0000_0000_0000_0000nat
}

/// 2^256, the modulus of all word arithmetic.
pub open spec fn p256() -> nat {
    0x1_0000_0000_0000_0000_0000_0000_0000_0000_0000_0000_0000_0000_0000_0000_0000_0000nat
}

/// An unsigned 256-bit integer: four 64-bit limbs, least significant first.
#[derive(Clone, Copy, Debug, PartialEq, Eq, Structural)]
pub struct Word {
    pub l0: u64,
    pub l1: u64,
    pub l2: u64,
    pub l3: u64,
}

impl View for Word {
    type V = nat;

    open spec fn view(&self) -> nat {
        (self.l0 + self.l1 * p64() + self.l2 * p128() + self.l3 * p192()) as nat
    }
}

impl Word {
    /// The word of value zero.
    pub fn zero() -> (r: Word)
        ensures
            r@ == 0,
    {
        Word { l0: 0, l1: 0, l2: 0, l3: 0 }
    }

    /// The word of value one.
    pub fn one() -> (r: Word)
        ensures
            r@ == 1,
    {
        Word { l0: 1, l1: 0, l2: 0, l3: 0 }
    }

    /// The word holding a 64-bit value.
    pub fn from_u64(x: u64) -> (r: Word)
        ensures
            r@ == x,
    {
        Word { l0: x, l1: 0, l2: 0, l3: 0 }
    }

    /// The word holding a host-width value.
    pub fn from_usize(x: usize) -> (r: Word)
        ensures
            r@ == x,
    {
        Word { l0: x as u64, l1: 0, l2: 0, l3: 0 }
    }
}

/// The value of a word determines its limbs: they are its base-2^64 digits.
pub proof fn lemma_limbs(w: Word)
    ensures
        w@ < p256(),
        w.l0 == w@ % p64(),
        w.l1 == (w@ / p64()) % p64(),
        w.l2 == (w@ / p128()) % p64(),
        w.l3 == w@ / p192(),
{
    let v: int = w@ as int;
    let d64: int = p64() as int;
    let d128: int = p128() as int;
    let d192: int = p192() as int;
    let x1: int = w.l1 + w.l2 * p64() + w.l3 * p128();
    let x3: int = w.l3 as int;
    assert(v == x1 * d64 + w.l0) by (nonlinear_arith)
        requires
            v == w.l0 + w.l1 * p64() + w.l2 * p128() + w.l3 * p192(),
            x1 == w.l1 + w.l2 * p64() + w.l3 * p128(),
            d64 == p64(),
    ;
    vstd::arithmetic::div_mod::lemma_fundamental_div_mod_converse(v, d64, x1, w.l0 as int);
    assert(x1 == (w.l2 + w.l3 * p64()) * d64 + w.l1) by (nonlinear_arith)
        requires
            x1 == w.l1 + w.l2 * p64() + w.l3 * p128(),
            d64 == p64(),
            p128() == p64() * p64(),
    ;
    vstd::arithmetic::div_mod::lemma_fundamental_div_mod_converse(
        x1, d64, w.l2 + w.l3 * p64(), w.l1 as int);
    assert(v == (w.l2 + w.l3 * p64()) * d128 + (w.l0 + w.l1 * p64())) by (nonlinear_arith)
        requires
            v == w.l0 + w.l1 * p64() + w.l2 * p128() + w.l3 * p192(),
            d128 == p128(),
    ;
    vstd::arithmetic::div_mod::lemma_fundamental_div_mod_converse(
        v, d128, w.l2 + w.l3 * p64(), w.l0 + w.l1 * p64());
    vstd::arithmetic::div_mod::lemma_fundamental_div_mod_converse(
        w.l2 + w.l3 * p64(), d64, x3, w.l2 as int);
    assert(v == x3 * d192 + (w.l0 + w.l1 * p64() + w.l2 * p128())) by (nonlinear_arith)
        requires
            v == w.l0 + w.l1 * p64() + w.l2 * p128() + w.l3 * p192(),
            x3 == w.l3,
            d192 == p192(),
    ;
    vstd::arithmetic::div_mod::lemma_fundamental_div_mod_converse(
        v, d192, x3, w.l0 + w.l1 * p64() + w.l2 * p128());
}

/// Two words of the same value are the same word.
pub proof fn lemma_val_injective(a: Word, b: Word)
    requires
        a@ == b@,
    ensures
        a == b,
{
    lemma_limbs(a);
    lemma_limbs(b);
}

/// 2^255, the first value whose sign bit is set.
pub open spec fn p255() -> nat {
    0x8000_0000_0000_0000_0000_0000_0000_0000_0000_0000_0000_0000_0000_0000_0000_0000nat
}

/// The signed reading of a word: two's complement over the same bits.
pub open spec fn as_signed(v: nat) -> int {
    if v < p255() {
        v as int
    } else {
        v - p256()
    }
}

/// The word whose signed reading is `i` (reduction modulo 2^256).
pub open spec fn word_of_int(i: int) -> nat {
    (i % (p256() as int)) as nat
}

/// Addition modulo 2^256.
pub open spec fn w_add(a: nat, b: nat) -> nat {
    ((a + b) % p256()) as nat
}

/// Subtraction modulo 2^256.
pub open spec fn w_sub(a: nat, b: nat) -> nat {
    word_of_int(a - b)
}

/// Multiplication modulo 2^256.
pub open spec fn w_mul(a: nat, b: nat) -> nat {
    ((a * b) % p256()) as nat
}

/// Unsigned division; a zero divisor yields zero.
pub open spec fn w_div(a: nat, b: nat) -> nat {
    if b == 0 {
        0
    } else {
        a / b
    }
}

/// Unsigned remainder; a zero divisor yields zero.
pub open spec fn w_mod(a: nat, b: nat) -> nat {
    if b == 0 {
        0
    } else {
        a % b
    }
}

/// `((a + b) mod 2^256) mod n`, with a zero modulus yielding zero.
pub open spec fn w_addmod(a: nat, b: nat, n: nat) -> nat {
    if n == 0 {
        0
    } else {
        (w_add(a, b) % n) as nat
    }
}

/// `((a * b) mod 2^256) mod n`, with a zero modulus yielding zero.
pub open spec fn w_mulmod(a: nat, b: nat, n: nat) -> nat {
    if n == 0 {
        0
    } else {
        (w_mul(a, b) % n) as nat
    }
}

/// Exponentiation modulo 2^256.
pub open spec fn w_exp(b: nat, e: nat) -> nat {
    (pow(b as int, e) % (p256() as int)) as nat
}

/// Signed division truncated toward zero; `SMIN / -1` wraps back to `SMIN`.
pub open spec fn w_sdiv(a: nat, b: nat) -> nat {
    if b == 0 {
        0
    } else {
        let x = as_signed(a);
        let y = as_signed(b);
        let q = abs_int(x) / abs_int(y);
        if (x < 0) != (y < 0) {
            word_of_int(-q)
        } else {
            word_of_int(q)
        }
    }
}

/// Signed remainder; the sign follows the dividend.
pub open spec fn w_smod(a: nat, b: nat) -> nat {
    if b == 0 {
        0
    } else {
        let x = as_signed(a);
        let y = as_signed(b);
        let r = abs_int(x) % abs_int(y);
        if x < 0 {
            word_of_int(-r)
        } else {
            word_of_int(r)
        }
    }
}

/// The absolute value of an integer.
pub open spec fn abs_int(x: int) -> int {
    if x < 0 {
        -x
    } else {
        x
    }
}

/// Bitwise complement: the value of NOT is `2^256 - 1 - v`.
pub open spec fn w_not(v: nat) -> nat {
    (p256() - 1 - v) as nat
}

/// Limb `i` of a value, as its base-2^64 digits.
pub open spec fn limb0(v: nat) -> u64 {
    (v % p64()) as u64
}

pub open spec fn limb1(v: nat) -> u64 {
    ((v / p64()) % p64()) as u64
}

pub open spec fn limb2(v: nat) -> u64 {
    ((v / p128()) % p64()) as u64
}

pub open spec fn limb3(v: nat) -> u64 {
    ((v / p192()) % p64()) as u64
}

/// Rebuild a value from four limbs.
pub open spec fn from_limbs(l0: u64, l1: u64, l2: u64, l3: u64) -> nat {
    (l0 + l1 * p64() + l2 * p128() + l3 * p192()) as nat
}

/// Bitwise AND, limb by limb.
pub open spec fn w_and(a: nat, b: nat) -> nat {
    from_limbs(limb0(a) & limb0(b), limb1(a) & limb1(b), limb2(a) & limb2(b), limb3(a) & limb3(b))
}

/// Bitwise OR, limb by limb.
pub open spec fn w_or(a: nat, b: nat) -> nat {
    from_limbs(limb0(a) | limb0(b), limb1(a) | limb1(b), limb2(a) | limb2(b), limb3(a) | limb3(b))
}

/// Bitwise XOR, limb by limb.
pub open spec fn w_xor(a: nat, b: nat) -> nat {
    from_limbs(limb0(a) ^ limb0(b), limb1(a) ^ limb1(b), limb2(a) ^ limb2(b), limb3(a) ^ limb3(b))
}

/// Logical left shift: `(v * 2^sh) mod 2^256`, zero once the shift reaches 256.
pub open spec fn w_shl(v: nat, sh: nat) -> nat {
    if sh >= 256 {
        0
    } else {
        ((v * pow2(sh)) % p256()) as nat
    }
}

/// Logical right shift: `v / 2^sh`, zero once the shift reaches 256.
pub open spec fn w_shr(v: nat, sh: nat) -> nat {
    if sh >= 256 {
        0
    } else {
        v / pow2(sh)
    }
}

/// Arithmetic right shift: floor division of the signed reading by `2^sh`;
/// shifts of 256 or more leave only the sign (zero or all ones).
pub open spec fn w_sar(v: nat, sh: nat) -> nat {
    if sh >= 256 {
        if as_signed(v) < 0 {
            (p256() - 1) as nat
        } else {
            0
        }
    } else {
        word_of_int(as_signed(v) / (pow2(sh) as int))
    }
}

/// Byte `i` of a value, counted from the most significant end; zero past 32.
pub open spec fn w_byte(i: nat, v: nat) -> nat {
    if i >= 32 {
        0
    } else {
        (v / pow2((8 * (31 - i)) as nat)) % 256
    }
}

/// The number of significant bits of a value.
pub open spec fn bit_len_spec(v: nat) -> nat
    decreases v,
{
    if v == 0 {
        0
    } else {
        bit_len_spec(v / 2) + 1
    }
}

/// The big-endian bytes of a value, `n` of them.
pub open spec fn be_bytes(v: nat, n: nat) -> Seq<u8> {
    Seq::new(n, |i: int| ((v / pow2((8 * (n - 1 - i)) as nat)) % 256) as u8)
}

/// The value spelled by a big-endian byte string.
pub open spec fn be_val(s: Seq<u8>) -> nat
    decreases s.len(),
{
    if s.len() == 0 {
        0
    } else {
        (be_val(s.drop_last()) * 256 + s.last()) as nat
    }
}

/// The Keccak-256 digest, named but not defined: the crate only relies on it
/// being a function of the input bytes.
pub uninterp spec fn keccak_of(s: Seq<u8>) -> Seq<u8>;

/// The powers of two named by the limb constants.
pub proof fn lemma_pow2_consts()
    ensures
        pow2(64) == p64(),
        pow2(128) == p128(),
        pow2(192) == p192(),
        pow2(256) == p256(),
        pow2(255) == p255(),
{
    vstd::arithmetic::power2::lemma2_to64();
    vstd::arithmetic::power2::lemma2_to64_rest();
    vstd::arithmetic::power2::lemma_pow2_adds(64, 64);
    vstd::arithmetic::power2::lemma_pow2_adds(128, 64);
    vstd::arithmetic::power2::lemma_pow2_adds(192, 64);
    vstd::arithmetic::power2::lemma_pow2_adds(192, 63);
}

/// The limbs of a word are the limb functions of its value.
pub proof fn lemma_limb_fns(w: Word)
    ensures
        w@ < p256(),
        w.l0 == limb0(w@),
        w.l1 == limb1(w@),
        w.l2 == limb2(w@),
        w.l3 == limb3(w@),
{
    lemma_limbs(w);
    assert(w@ / p192() < p64()) by {
        vstd::arithmetic::div_mod::lemma_multiply_divide_lt(
            w@ as int, p64() as int, p192() as int);
    }
    vstd::arithmetic::div_mod::lemma_small_mod(w@ / p192(), p64());
}

/// Reduction modulo 2^256 of a small negative integer wraps once.
pub proof fn lemma_word_of_small(v: nat)
    requires
        v < p256(),
    ensures
        word_of_int(v as int) == v,
        v != 0 ==> word_of_int(-(v as int)) == p256() - v,
{
    vstd::arithmetic::div_mod::lemma_small_mod(v, p256());
    if v != 0 {
        vstd::arithmetic::div_mod::lemma_fundamental_div_mod_converse(
            -(v as int), p256() as int, -1, p256() - v);
    }
}

impl Word {
    /// Whether two words are the same value.
    pub fn equals(&self, other: &Word) -> (r: bool)
        ensures
            r == (self@ == other@),
    {
        proof {
            if self@ == other@ {
                lemma_val_injective(*self, *other);
            }
        }
        self.l0 == other.l0 && self.l1 == other.l1 && self.l2 == other.l2 && self.l3 == other.l3
    }

    /// Whether the word is zero.
    pub fn is_zero(&self) -> (r: bool)
        ensures
            r == (self@ == 0),
    {
        self.l0 == 0 && self.l1 == 0 && self.l2 == 0 && self.l3 == 0
    }

    /// Unsigned order on the values.
    pub fn lt(&self, other: &Word) -> (r: bool)
        ensures
            r == (self@ < other@),
    {
        proof {
            lemma_limbs(*self);
            lemma_limbs(*other);
        }
        if self.l3 != other.l3 {
            self.l3 < other.l3
        } else if self.l2 != other.l2 {
            self.l2 < other.l2
        } else if self.l1 != other.l1 {
            self.l1 < other.l1
        } else {
            self.l0 < other.l0
        }
    }

    /// Whether the sign bit is set, that is the signed reading is negative.
    pub fn is_negative(&self) -> (r: bool)
        ensures
            r == (as_signed(self@) < 0),
    {
        proof {
            lemma_limbs(*self);
        }
        self.l3 >= 0x8000_0000_0000_0000
    }

    /// The value clamped to the host word range.
    pub fn to_usize_saturating(&self) -> (r: usize)
        ensures
            self@ > usize::MAX ==> r == usize::MAX,
            self@ <= usize::MAX ==> r == self@,
    {
        proof {
            lemma_limbs(*self);
        }
        if self.l1 != 0 || self.l2 != 0 || self.l3 != 0 {
            usize::MAX
        } else if self.l0 > usize::MAX as u64 {
            usize::MAX
        } else {
            self.l0 as usize
        }
    }

    /// The value as a shift count, clamped to 256 once it is that large.
    pub fn to_shift_amount(&self) -> (r: usize)
        ensures
            self@ >= 256 ==> r == 256,
            self@ < 256 ==> r == self@,
    {
        proof {
            lemma_limbs(*self);
        }
        if self.l1 != 0 || self.l2 != 0 || self.l3 != 0 || self.l0 >= 256 {
            256
        } else {
            self.l0 as usize
        }
    }
}

/// Bitwise AND, one limb at a time.
pub(crate) fn word_and(a: &Word, b: &Word) -> (r: Word)
    ensures
        r@ == w_and(a@, b@),
{
    proof {
        lemma_limb_fns(*a);
        lemma_limb_fns(*b);
    }
    Word { l0: a.l0 & b.l0, l1: a.l1 & b.l1, l2: a.l2 & b.l2, l3: a.l3 & b.l3 }
}

/// Bitwise OR, one limb at a time.
pub(crate) fn word_or(a: &Word, b: &Word) -> (r: Word)
    ensures
        r@ == w_or(a@, b@),
{
    proof {
        lemma_limb_fns(*a);
        lemma_limb_fns(*b);
    }
    Word { l0: a.l0 | b.l0, l1: a.l1 | b.l1, l2: a.l2 | b.l2, l3: a.l3 | b.l3 }
}

/// Bitwise XOR, one limb at a time.
pub(crate) fn word_xor(a: &Word, b: &Word) -> (r: Word)
    ensures
        r@ == w_xor(a@, b@),
{
    proof {
        lemma_limb_fns(*a);
        lemma_limb_fns(*b);
    }
    Word { l0: a.l0 ^ b.l0, l1: a.l1 ^ b.l1, l2: a.l2 ^ b.l2, l3: a.l3 ^ b.l3 }
}

/// Bitwise complement: each limb flipped, so the value is `2^256 - 1 - v`.
pub(crate) fn word_not(a: &Word) -> (r: Word)
    ensures
        r@ == w_not(a@),
{
    let n0 = !a.l0;
    let n1 = !a.l1;
    let n2 = !a.l2;
    let n3 = !a.l3;
    proof {
        let x0 = a.l0;
        let x1 = a.l1;
        let x2 = a.l2;
        let x3 = a.l3;
        assert(!x0 == u64::MAX - x0) by (bit_vector);
        assert(!x1 == u64::MAX - x1) by (bit_vector);
        assert(!x2 == u64::MAX - x2) by (bit_vector);
        assert(!x3 == u64::MAX - x3) by (bit_vector);
    }
    Word { l0: n0, l1: n1, l2: n2, l3: n3 }
}

/// The additive inverse modulo 2^256.
pub(crate) fn word_neg(a: &Word) -> (r: Word)
    ensures
        r@ == word_of_int(-(a@ as int)),
{
    let z = Word::zero();
    let r = word_sub(&z, a);
    proof {
        lemma_limbs(*a);
        if a@ == 0 {
            vstd::arithmetic::div_mod::lemma_small_mod(0, p256());
        }
    }
    r
}

/// Signed division built from unsigned division on the magnitudes.
pub(crate) fn word_sdiv(a: &Word, b: &Word) -> (r: Word)
    ensures
        r@ == w_sdiv(a@, b@),
{
    if b.is_zero() {
        return Word::zero();
    }
    let neg_a = a.is_negative();
    let neg_b = b.is_negative();
    let abs_a = if neg_a { word_neg(a) } else { *a };
    let abs_b = if neg_b { word_neg(b) } else { *b };
    proof {
        lemma_limbs(*a);
        lemma_limbs(*b);
        if neg_a {
            lemma_word_of_small(a@);
        }
        if neg_b {
            lemma_word_of_small(b@);
        }
    }
    let q = word_div(&abs_a, &abs_b);
    proof {
        lemma_limbs(q);
        lemma_word_of_small(q@);
    }
    if neg_a != neg_b {
        word_neg(&q)
    } else {
        q
    }
}

/// Signed remainder built from the unsigned remainder on the magnitudes; the
/// sign follows the dividend.
pub(crate) fn word_smod(a: &Word, b: &Word) -> (r: Word)
    ensures
        r@ == w_smod(a@, b@),
{
    if b.is_zero() {
        return Word::zero();
    }
    let neg_a = a.is_negative();
    let neg_b = b.is_negative();
    let abs_a = if neg_a { word_neg(a) } else { *a };
    let abs_b = if neg_b { word_neg(b) } else { *b };
    proof {
        lemma_limbs(*a);
        lemma_limbs(*b);
        if neg_a {
            lemma_word_of_small(a@);
        }
        if neg_b {
            lemma_word_of_small(b@);
        }
    }
    let m = word_rem(&abs_a, &abs_b);
    proof {
        lemma_limbs(m);
        lemma_word_of_small(m@);
    }
    if neg_a {
        word_neg(&m)
    } else {
        m
    }
}

/// Logical left shift by a full word of shift amount.
pub(crate) fn word_shl_word(a: &Word, sh: &Word) -> (r: Word)
    ensures
        r@ == w_shl(a@, sh@),
{
    let n = sh.to_shift_amount();
    if n >= 256 {
        Word::zero()
    } else {
        word_shl(a, n)
    }
}

/// Logical right shift by a full word of shift amount.
pub(crate) fn word_shr_word(a: &Word, sh: &Word) -> (r: Word)
    ensures
        r@ == w_shr(a@, sh@),
{
    let n = sh.to_shift_amount();
    if n >= 256 {
        Word::zero()
    } else {
        word_shr(a, n)
    }
}

/// Arithmetic right shift for a shift below 256: the sign is replicated by
/// complementing, shifting logically, and complementing again.
pub(crate) fn word_sar_small(a: &Word, sh: usize) -> (r: Word)
    requires
        sh < 256,
    ensures
        r@ == w_sar(a@, sh as nat),
{
    proof {
        lemma_limbs(*a);
        vstd::arithmetic::power2::lemma_pow2_pos(sh as nat);
    }
    if !a.is_negative() {
        let r = word_shr(a, sh);
        proof {
            lemma_limbs(r);
            lemma_word_of_small(r@);
        }
        r
    } else {
        let na = word_not(a);
        let t = word_shr(&na, sh);
        let r = word_not(&t);
        proof {
            let s: int = pow2(sh as nat) as int;
            let m: int = p256() as int - 1;
            let y: int = a@ - p256();
            let q: int = y / s;
            let r0: int = y % s;
            vstd::arithmetic::div_mod::lemma_fundamental_div_mod(y, s);
            assert(m - a@ == (-1 - q) * s + (s - 1 - r0)) by (nonlinear_arith)
                requires
                    y == s * q + r0,
                    y == a@ - p256(),
                    m == p256() - 1,
            ;
            vstd::arithmetic::div_mod::lemma_fundamental_div_mod_converse(
                m - a@, s, -1 - q, s - 1 - r0);
            lemma_limbs(r);
            vstd::arithmetic::div_mod::lemma_fundamental_div_mod_converse(
                q, p256() as int, -1, r@ as int);
        }
        r
    }
}

/// Arithmetic right shift by a full word of shift amount.
pub(crate) fn word_sar_word(a: &Word, sh: &Word) -> (r: Word)
    ensures
        r@ == w_sar(a@, sh@),
{
    let n = sh.to_shift_amount();
    if n >= 256 {
        if a.is_negative() {
            Word { l0: u64::MAX, l1: u64::MAX, l2: u64::MAX, l3: u64::MAX }
        } else {
            Word::zero()
        }
    } else {
        word_sar_small(a, n)
    }
}

/// The byte of `x` indexed from the most significant end, zero past 32.
pub(crate) fn word_byte(iw: &Word, x: &Word) -> (r: Word)
    ensures
        r@ == w_byte(iw@, x@),
{
    let i = iw.to_usize_saturating();
    if i >= 32 {
        Word::zero()
    } else {
        let bytes = word_to_be_bytes(x);
        Word::from_u64(bytes[i] as u64)
    }
}

/// Sign extension from the byte at position `b` (0 = least significant):
/// the value with all bytes above that position replaced by the sign fill.
pub open spec fn w_signext(b: nat, v: nat) -> nat {
    if b >= 31 {
        v
    } else {
        let bytes = be_bytes(v, 32);
        let cut: int = 31 - b;
        let fill: u8 = if bytes[cut] >= 0x80 {
            0xFFu8
        } else {
            0u8
        };
        be_val(Seq::new(32, |i: int| if i < cut { fill } else { bytes[i] }))
    }
}

/// Sign extension, done on the big-endian bytes.
pub(crate) fn word_signextend(bw: &Word, x: &Word) -> (r: Word)
    ensures
        r@ == w_signext(bw@, x@),
{
    let b = bw.to_usize_saturating();
    if b >= 31 {
        return *x;
    }
    let bytes = word_to_be_bytes(x);
    let cut: usize = 31 - b;
    let fill: u8 = if bytes[cut] >= 0x80 { 0xFF } else { 0 };
    let ghost target = Seq::new(32, |i: int| if i < cut { fill } else { bytes@[i] });
    let mut v: Vec<u8> = Vec::new();
    let mut i: usize = 0;
    while i < 32
        invariant
            i <= 32,
            v@.len() == i,
            cut < 32,
            forall|j: int| 0 <= j < i ==> v@[j] == target[j],
            target == Seq::new(32, |k: int| if k < cut { fill } else { bytes@[k] }),
            bytes@.len() == 32,
        decreases 32 - i,
    {
        if i < cut {
            v.push(fill);
        } else {
            v.push(bytes[i]);
        }
        i += 1;
    }
    let r = word_from_be_slice(v.as_slice());
    proof {
        assert(v@ =~= target);
    }
    r
}

/// Reading back the big-endian bytes of a value returns the value.
pub proof fn lemma_be_round_trip(v: nat, n: nat)
    requires
        v < pow2(8 * n),
    ensures
        be_val(be_bytes(v, n)) == v,
    decreases n,
{
    vstd::arithmetic::power2::lemma2_to64();
    if n == 0 {
        assert(be_bytes(v, 0).len() == 0);
    } else {
        let s = be_bytes(v, n);
        assert(s.last() == (v / pow2(0)) % 256);
        assert(v / pow2(0) == v);
        assert(s.drop_last() =~= be_bytes(v / 256, (n - 1) as nat)) by {
            assert forall|i: int| 0 <= i < n - 1 implies s.drop_last()[i] == be_bytes(
                v / 256, (n - 1) as nat)[i] by {
                let k = (8 * (n - 2 - i)) as nat;
                vstd::arithmetic::power2::lemma_pow2_adds(8, k);
                vstd::arithmetic::power2::lemma_pow2_pos(k);
                vstd::arithmetic::div_mod::lemma_div_denominator(
                    v as int, 256, pow2(k) as int);
            }
        }
        assert(v / 256 < pow2(8 * (n - 1) as nat)) by {
            let k = (8 * (n - 1)) as nat;
            vstd::arithmetic::power2::lemma_pow2_adds(8, k);
            vstd::arithmetic::power2::lemma_pow2_pos(k);
            vstd::arithmetic::div_mod::lemma_multiply_divide_lt(
                v as int, pow2(k) as int, 256);
        }
        lemma_be_round_trip(v / 256, (n - 1) as nat);
        assert(be_val(s) == (v / 256) * 256 + v % 256);
        vstd::arithmetic::div_mod::lemma_fundamental_div_mod(v as int, 256);
    }
}

/// What ISZERO pushes: one for zero, zero for anything else.
pub open spec fn w_iszero(v: nat) -> nat {
    if v == 0 {
        1
    } else {
        0
    }
}

/// Addition is commutative, and adding the additive inverse of a value
/// (`SUB(0, a)`) gives zero.
pub proof fn lemma_add_laws(a: nat, b: nat)
    requires
        a < p256(),
    ensures
        w_add(a, b) == w_add(b, a),
        w_add(a, w_sub(0, a)) == 0,
{
    if a == 0 {
        vstd::arithmetic::div_mod::lemma_small_mod(0, p256());
    } else {
        lemma_word_of_small(a);
        vstd::arithmetic::div_mod::lemma_fundamental_div_mod_converse(
            p256() as int, p256() as int, 1, 0);
    }
}

/// Two ISZEROs give one exactly on the nonzero values.
pub proof fn lemma_iszero_involution(x: nat)
    ensures
        (w_iszero(w_iszero(x)) == 1) <==> x != 0,
{
}

/// NOT is an involution.
pub proof fn lemma_not_involution(x: nat)
    requires
        x < p256(),
    ensures
        w_not(w_not(x)) == x,
{
}

/// Division and remainder by zero give zero, in every form.
pub proof fn lemma_div_by_zero(x: nat, y: nat)
    ensures
        w_div(x, 0) == 0,
        w_sdiv(x, 0) == 0,
        w_mod(x, 0) == 0,
        w_smod(x, 0) == 0,
        w_addmod(x, y, 0) == 0,
        w_mulmod(x, y, 0) == 0,
{
}

/// The one signed overflow case: the smallest value divided by minus one
/// wraps back to itself.
pub proof fn lemma_sdiv_overflow()
    ensures
        w_sdiv(p255(), (p256() - 1) as nat) == p255(),
{
    assert(as_signed((p256() - 1) as nat) == -1);
    assert(abs_int(as_signed(p255())) == p255());
    vstd::arithmetic::div_mod::lemma_div_basics(p255() as int);
    vstd::arithmetic::div_mod::lemma_small_mod(p255(), p256());
}

/// Shifts by 256 or more wipe the value: SHL gives zero, and SAR of a
/// negative value gives all ones.
pub proof fn lemma_shift_saturation(x: nat, sh: nat)
    requires
        sh >= 256,
    ensures
        w_shl(x, sh) == 0,
        w_shr(x, sh) == 0,
        as_signed(x) < 0 ==> w_sar(x, sh) == p256() - 1,
{
}

/// One limb of an addition: the sum of two limbs and a carry, split into
/// the low 64 bits and the carry out.
fn add_carry(x: u64, y: u64, c: bool) -> (r: (u64, bool))
    ensures
        r.0 + (if r.1 { p64() } else { 0nat }) == x + y + (if c { 1nat } else { 0nat }),
{
    let s: u128 = x as u128 + y as u128 + (if c { 1u128 } else { 0u128 });
    if s > u64::MAX as u128 {
        ((s - 0x1_0000_0000_0000_0000u128) as u64, true)
    } else {
        (s as u64, false)
    }
}

/// Addition modulo 2^256, limb by limb with carries.
pub(crate) fn word_add(a: &Word, b: &Word) -> (r: Word)
    ensures
        r@ == w_add(a@, b@),
{
    let (s0, c0) = add_carry(a.l0, b.l0, false);
    let (s1, c1) = add_carry(a.l1, b.l1, c0);
    let (s2, c2) = add_carry(a.l2, b.l2, c1);
    let (s3, c3) = add_carry(a.l3, b.l3, c2);
    let r = Word { l0: s0, l1: s1, l2: s2, l3: s3 };
    proof {
        lemma_limbs(*a);
        lemma_limbs(*b);
        lemma_limbs(r);
        let sum: int = a@ as int + b@ as int;
        assert(r@ == sum - (if c3 { p256() as int } else { 0int }));
        if c3 {
            vstd::arithmetic::div_mod::lemma_fundamental_div_mod_converse(
                sum, p256() as int, 1, r@ as int);
        } else {
            vstd::arithmetic::div_mod::lemma_small_mod(sum as nat, p256());
        }
    }
    r
}

/// One limb of a subtraction: the difference of two limbs and a borrow,
/// split into the low 64 bits and the borrow out.
fn sub_borrow(x: u64, y: u64, b: bool) -> (r: (u64, bool))
    ensures
        r.0 == x - y - (if b { 1int } else { 0int }) + (if r.1 { p64() as int } else { 0int }),
{
    let bi: u128 = if b { 1 } else { 0 };
    if x as u128 >= y as u128 + bi {
        ((x as u128 - y as u128 - bi) as u64, false)
    } else {
        ((x as u128 + 0x1_0000_0000_0000_0000u128 - y as u128 - bi) as u64, true)
    }
}

/// Subtraction modulo 2^256, limb by limb with borrows.
pub(crate) fn word_sub(a: &Word, b: &Word) -> (r: Word)
    ensures
        r@ == w_sub(a@, b@),
{
    let (s0, c0) = sub_borrow(a.l0, b.l0, false);
    let (s1, c1) = sub_borrow(a.l1, b.l1, c0);
    let (s2, c2) = sub_borrow(a.l2, b.l2, c1);
    let (s3, c3) = sub_borrow(a.l3, b.l3, c2);
    let r = Word { l0: s0, l1: s1, l2: s2, l3: s3 };
    proof {
        lemma_limbs(*a);
        lemma_limbs(*b);
        lemma_limbs(r);
        let diff: int = a@ as int - b@ as int;
        assert(r@ == diff + (if c3 { p256() as int } else { 0int }));
        if c3 {
            vstd::arithmetic::div_mod::lemma_fundamental_div_mod_converse(
                diff, p256() as int, -1, r@ as int);
        } else {
            vstd::arithmetic::div_mod::lemma_small_mod(diff as nat, p256());
        }
    }
    r
}

/// Relies on `alloy_primitives::U256::wrapping_mul`: multiplication modulo 2^256.
#[verifier::external_body]
pub(crate) fn word_mul(a: &Word, b: &Word) -> (r: Word)
    ensures
        r@ == w_mul(a@, b@),
{
    let x = alloy_primitives::U256::from_limbs([a.l0, a.l1, a.l2, a.l3]);
    let y = alloy_primitives::U256::from_limbs([b.l0, b.l1, b.l2, b.l3]);
    let l = x.wrapping_mul(y).into_limbs();
    Word { l0: l[0], l1: l[1], l2: l[2], l3: l[3] }
}

/// Relies on `alloy_primitives::U256::wrapping_div`: floor division, which
/// panics on a zero divisor, so that divisor is excluded here.
#[verifier::external_body]
pub(crate) fn word_div(a: &Word, b: &Word) -> (r: Word)
    requires
        b@ != 0,
    ensures
        r@ == a@ / b@,
{
    let x = alloy_primitives::U256::from_limbs([a.l0, a.l1, a.l2, a.l3]);
    let y = alloy_primitives::U256::from_limbs([b.l0, b.l1, b.l2, b.l3]);
    let l = x.wrapping_div(y).into_limbs();
    Word { l0: l[0], l1: l[1], l2: l[2], l3: l[3] }
}

/// Relies on `alloy_primitives::U256::wrapping_rem`: remainder, which panics
/// on a zero divisor, so that divisor is excluded here.
#[verifier::external_body]
pub(crate) fn word_rem(a: &Word, b: &Word) -> (r: Word)
    requires
        b@ != 0,
    ensures
        r@ == a@ % b@,
{
    let x = alloy_primitives::U256::from_limbs([a.l0, a.l1, a.l2, a.l3]);
    let y = alloy_primitives::U256::from_limbs([b.l0, b.l1, b.l2, b.l3]);
    let l = x.wrapping_rem(y).into_limbs();
    Word { l0: l[0], l1: l[1], l2: l[2], l3: l[3] }
}

/// Relies on `alloy_primitives::U256::pow`: exponentiation modulo 2^256
/// (exponentiation by squaring over the wrapping product).
#[verifier::external_body]
pub(crate) fn word_pow(a: &Word, e: &Word) -> (r: Word)
    ensures
        r@ == w_exp(a@, e@),
{
    let x = alloy_primitives::U256::from_limbs([a.l0, a.l1, a.l2, a.l3]);
    let y = alloy_primitives::U256::from_limbs([e.l0, e.l1, e.l2, e.l3]);
    let l = x.pow(y).into_limbs();
    Word { l0: l[0], l1: l[1], l2: l[2], l3: l[3] }
}

/// Relies on `alloy_primitives::U256::wrapping_shl`: `(v * 2^sh) mod 2^256`.
#[verifier::external_body]
pub(crate) fn word_shl(a: &Word, sh: usize) -> (r: Word)
    requires
        sh < 256,
    ensures
        r@ == (a@ * pow2(sh as nat)) % p256(),
{
    let x = alloy_primitives::U256::from_limbs([a.l0, a.l1, a.l2, a.l3]);
    let l = x.wrapping_shl(sh).into_limbs();
    Word { l0: l[0], l1: l[1], l2: l[2], l3: l[3] }
}

/// Relies on `alloy_primitives::U256::wrapping_shr`: `v / 2^sh`.
#[verifier::external_body]
pub(crate) fn word_shr(a: &Word, sh: usize) -> (r: Word)
    requires
        sh < 256,
    ensures
        r@ == a@ / pow2(sh as nat),
{
    let x = alloy_primitives::U256::from_limbs([a.l0, a.l1, a.l2, a.l3]);
    let l = x.wrapping_shr(sh).into_limbs();
    Word { l0: l[0], l1: l[1], l2: l[2], l3: l[3] }
}

/// Relies on `alloy_primitives::U256::to_be_bytes`: the 32 big-endian bytes
/// of the value.
#[verifier::external_body]
pub(crate) fn word_to_be_bytes(a: &Word) -> (r: [u8; 32])
    ensures
        r@ == be_bytes(a@, 32),
{
    let x = alloy_primitives::U256::from_limbs([a.l0, a.l1, a.l2, a.l3]);
    x.to_be_bytes::<32>()
}

/// Relies on `alloy_primitives::U256::from_be_slice`: the value spelled by at
/// most 32 big-endian bytes (more would panic).
#[verifier::external_body]
pub(crate) fn word_from_be_slice(s: &[u8]) -> (r: Word)
    requires
        s@.len() <= 32,
    ensures
        r@ == be_val(s@),
{
    let l = alloy_primitives::U256::from_be_slice(s).into_limbs();
    Word { l0: l[0], l1: l[1], l2: l[2], l3: l[3] }
}

/// Relies on `alloy_primitives::U256::bit_len`: the number of significant
/// bits, ignoring leading zeros.
#[verifier::external_body]
pub(crate) fn word_bit_len(a: &Word) -> (r: usize)
    ensures
        r == bit_len_spec(a@),
{
    let x = alloy_primitives::U256::from_limbs([a.l0, a.l1, a.l2, a.l3]);
    x.bit_len()
}

/// Relies on `alloy_primitives::keccak256`: the 32-byte Keccak-256 digest of
/// the input, a function of those bytes alone.
#[verifier::external_body]
pub(crate) fn keccak_bytes(data: &[u8]) -> (r: [u8; 32])
    ensures
        r@ == keccak_of(data@),
        r@.len() == 32,
{
    alloy_primitives::keccak256(data).0
}

} // verus!
