//! The random source: uniform doubles in the unit interval.
//!
//! Entropy comes from outside, either as single draws of a native generator
//! with a narrow range or as blocks of bytes of the system's cryptographic
//! generator. `RandState` queues such bytes and hands them out again; the
//! conversions turn a draw or eight bytes into the pattern of a double that is
//! at least zero and less than one. Each conversion yields a number that
//! binary64 holds exactly, so the patterns are computed here, on integers.

use vstd::prelude::*;
use vstd::arithmetic::power2::{pow2, lemma2_to64, lemma2_to64_rest, lemma_pow2_adds, lemma_pow2_pos};
use crate::ieee;

verus! {

/// The number of bytes to ask of the system's generator at a time.
pub const RAND_BUF_SIZE: usize = 0x10_0000;

/// The largest draw of the native generator.
pub const NATIVE_RAND_MAX: i32 = 32767;

/// The pattern of the largest double below one, which is one minus two to
/// the minus 53.
pub const ALMOST_ONE: u64 = 0x3fef_ffff_ffff_ffff;

/// A queue of random bytes. Its view is the bytes that have not been handed
/// out yet, the next one first.
pub struct RandState {
    buf: Vec<u8>,
    pos: usize,
}

impl View for RandState {
    type V = Seq<u8>;

    closed spec fn view(&self) -> Seq<u8> {
        self.buf@.skip(self.pos as int)
    }
}

/// The 64-bit word that eight bytes spell, the lowest byte first.
pub open spec fn word_of(bytes: Seq<u8>) -> int
    recommends
        bytes.len() == 8,
{
    bytes[0] + 0x100 * bytes[1] + 0x1_0000 * bytes[2] + 0x100_0000 * bytes[3] + 0x1_0000_0000
        * bytes[4] + 0x100_0000_0000 * bytes[5] + 0x1_0000_0000_0000 * bytes[6]
        + 0x100_0000_0000_0000 * bytes[7]
}

/// The low 52 bits of `word`.
pub open spec fn low_bits(word: u64) -> int {
    (word % 0x10_0000_0000_0000) as int
}

/// The odd numerator, out of two to the 53rd, of the double made from `word`:
/// its low 52 bits, doubled, plus one.
pub open spec fn numerator(word: u64) -> int {
    2 * low_bits(word) + 1
}

/// Whether `r` is the double that `word` stands for: the number
/// `numerator(word) / 2^53`.
pub open spec fn is_uniform(r: u64, word: u64) -> bool {
    &&& !ieee::is_negative(r)
    &&& !ieee::is_nan(r)
    &&& ieee::scaled(r) == numerator(word) * pow2(1021)
}

/// Whether `r` is the double `raw / 2^15`.
pub open spec fn is_rescaled(r: u64, raw: i32) -> bool {
    &&& !ieee::is_nan(r)
    &&& ieee::is_negative(r) == (raw < 0)
    &&& ieee::scaled(r) == raw * pow2(1059)
}

/// The pattern whose fraction field is the low 52 bits of `word` and whose
/// exponent is that of one: a double in the interval from one to two.
pub open spec fn above_one(word: u64) -> u64 {
    (ieee::ONE + low_bits(word)) as u64
}

/// The double made from `word` is the exact difference between the double
/// `above_one(word)` and `ALMOST_ONE`: this difference is a number of
/// binary64, so a correctly rounded subtraction returns it.
pub proof fn lemma_uniform_is_difference(r: u64, word: u64)
    requires
        is_uniform(r, word),
    ensures
        ieee::scaled(r) == ieee::scaled(above_one(word)) - ieee::scaled(ALMOST_ONE),
        ieee::scaled(ieee::ZERO) < ieee::scaled(r) < ieee::scaled(ieee::ONE),
{
    let f = low_bits(word);
    let a = above_one(word);
    lemma2_to64();
    lemma2_to64_rest();
    assert(ieee::exponent(a) == 1023);
    assert(ieee::fraction(a) == f);
    assert(ieee::exponent(ALMOST_ONE) == 1022);
    assert(ieee::fraction(ALMOST_ONE) == 0xf_ffff_ffff_ffff);
    assert(ieee::exponent(ieee::ONE) == 1023);
    assert(ieee::fraction(ieee::ONE) == 0);
    lemma_pow2_adds(1, 1021);
    lemma_pow2_pos(1021);
    let p = pow2(1021) as int;
    assert(pow2(1022) == 2 * p);
    assert((0x10_0000_0000_0000 + f) * (2 * p) - 0x1f_ffff_ffff_ffff * p == (2 * f + 1) * p)
        by (nonlinear_arith);
    assert(ieee::scaled(ieee::ONE) == 0x10_0000_0000_0000 * (2 * p));
    assert((2 * f + 1) * p < 0x10_0000_0000_0000 * (2 * p)) by (nonlinear_arith)
        requires
            0 <= f < 0x10_0000_0000_0000,
            p > 0,
    ;
    assert(0 < (2 * f + 1) * p) by (nonlinear_arith)
        requires
            0 <= f,
            p > 0,
    ;
    ieee::lemma_zero_magnitude(ieee::ZERO);
}

/// The doubles lie evenly in the unit interval: words whose low bits differ by
/// `d` give doubles that differ by `d / 2^52`, so that no two of the 2^52
/// values of the low bits give the same double.
pub proof fn lemma_uniform_is_even(r: u64, word: u64, s: u64, other: u64)
    requires
        is_uniform(r, word),
        is_uniform(s, other),
    ensures
        ieee::scaled(r) - ieee::scaled(s) == (low_bits(word) - low_bits(other)) * pow2(1022),
        r == s <==> low_bits(word) == low_bits(other),
{
    lemma_pow2_adds(1, 1021);
    lemma2_to64();
    lemma_pow2_pos(1021);
    let p = pow2(1021) as int;
    let a = low_bits(word);
    let b = low_bits(other);
    assert((2 * a + 1) * p - (2 * b + 1) * p == (a - b) * (2 * p)) by (nonlinear_arith);
    if a != b {
        assert((a - b) * (2 * p) != 0) by (nonlinear_arith)
            requires
                a != b,
                p > 0,
        ;
    } else {
        ieee::lemma_scaled_injective(r, s);
    }
}

/// The double that the eight random bytes spelling `word` stand for: the low
/// 52 bits of the word, taken as the fraction of a double between one and
/// two, less `ALMOST_ONE`. It is above zero and below one.
pub fn uniform_from_word(word: u64) -> (r: u64)
    ensures
        is_uniform(r, word),
        ieee::lt(r, ieee::ONE),
{
    let n: u64 = 2 * (word % 0x10_0000_0000_0000) + 1;
    proof {
        lemma2_to64_rest();
    }
    ieee::dyadic(n, 53)
}

/// The double that a draw of the native generator stands for: the draw
/// divided by `NATIVE_RAND_MAX + 1`. It is at least zero and below one for
/// every draw from zero to `NATIVE_RAND_MAX`.
pub fn rescale_native(raw: i32) -> (r: u64)
    ensures
        is_rescaled(r, raw),
        0 <= raw <= NATIVE_RAND_MAX ==> ieee::lt(r, ieee::ONE),
{
    proof {
        lemma2_to64();
    }
    if raw >= 0 {
        ieee::dyadic(raw as u64, 15)
    } else {
        let n: u64 = (-(raw as i64)) as u64;
        let m: u64 = ieee::dyadic(n, 15);
        proof {
            let unit = pow2(1059) as int;
            assert(-(n * unit) == raw * unit) by (nonlinear_arith)
                requires
                    n == -raw,
            ;
        }
        ieee::neg(m)
    }
}

impl RandState {
    #[verifier::type_invariant]
    spec fn inv(&self) -> bool {
        self.pos <= self.buf@.len()
    }

    /// An empty queue.
    pub fn new() -> (r: Self)
        ensures
            r@ == Seq::<u8>::empty(),
    {
        RandState { buf: Vec::new(), pos: 0 }
    }

    /// The number of bytes in the queue.
    pub fn available(&self) -> (n: usize)
        ensures
            n == self@.len(),
    {
        proof {
            use_type_invariant(self);
        }
        self.buf.len() - self.pos
    }

    /// Puts the bytes of `fresh` behind those that the queue still holds.
    pub fn reload_buf(&mut self, fresh: Vec<u8>)
        ensures
            final(self)@ == old(self)@ + fresh@,
    {
        proof {
            use_type_invariant(&*self);
        }
        let mut fresh = fresh;
        let ghost added = fresh@;
        let mut rest: Vec<u8> = Vec::new();
        let mut t: usize = self.pos;
        while t < self.buf.len()
            invariant
                self.pos <= t <= self.buf@.len(),
                rest@ == self.buf@.subrange(self.pos as int, t as int),
            decreases self.buf@.len() - t,
        {
            rest.push(self.buf[t]);
            assert(rest@ =~= self.buf@.subrange(self.pos as int, t + 1));
            t += 1;
        }
        rest.append(&mut fresh);
        self.pos = 0;
        self.buf = rest;
        assert(self@ =~= old(self)@ + added);
    }

    /// Moves `want` bytes from the queue to the end of `buf`, or all that the
    /// queue holds if those are fewer, and returns their number.
    pub fn gen_random_bytes(&mut self, buf: &mut Vec<u8>, want: usize) -> (got: usize)
        ensures
            got == if want <= old(self)@.len() { want as int } else { old(self)@.len() as int },
            final(buf)@ == old(buf)@ + old(self)@.take(got as int),
            final(self)@ == old(self)@.skip(got as int),
    {
        proof {
            use_type_invariant(&*self);
        }
        let left: usize = self.buf.len() - self.pos;
        let got: usize = if want <= left { want } else { left };
        let start: usize = self.pos;
        let mut t: usize = 0;
        while t < got
            invariant
                t <= got,
                start + got <= self.buf.len(),
                self.buf@ == old(self).buf@,
                self.pos == start,
                start == old(self).pos,
                buf@ == old(buf)@ + old(self)@.take(t as int),
            decreases got - t,
        {
            buf.push(self.buf[start + t]);
            assert(buf@ =~= old(buf)@ + old(self)@.take(t + 1));
            t += 1;
        }
        self.pos = start + got;
        assert(self@ =~= old(self)@.skip(got as int));
        got
    }

    /// The next uniform double, made from the next eight bytes of the queue.
    /// With fewer than eight bytes the queue stays as it is and asks to be
    /// reloaded.
    pub fn random_double(&mut self) -> (r: Option<u64>)
        ensures
            old(self)@.len() < 8 ==> r is None && final(self)@ == old(self)@,
            old(self)@.len() >= 8 ==> r is Some && final(self)@ == old(self)@.skip(8) && word_of(
                old(self)@.take(8),
            ) <= u64::MAX && is_uniform(r->0, word_of(old(self)@.take(8)) as u64),
            r is Some ==> ieee::lt(r->0, ieee::ONE),
    {
        proof {
            use_type_invariant(&*self);
        }
        if self.buf.len() - self.pos < 8 {
            return None;
        }
        let at: usize = self.pos;
        let word: u64 = self.buf[at] as u64 + 0x100 * (self.buf[at + 1] as u64) + 0x1_0000 * (
        self.buf[at + 2] as u64) + 0x100_0000 * (self.buf[at + 3] as u64) + 0x1_0000_0000 * (
        self.buf[at + 4] as u64) + 0x100_0000_0000 * (self.buf[at + 5] as u64)
            + 0x1_0000_0000_0000 * (self.buf[at + 6] as u64) + 0x100_0000_0000_0000 * (
        self.buf[at + 7] as u64);
        self.pos = at + 8;
        assert(self@ =~= old(self)@.skip(8));
        assert(word == word_of(old(self)@.take(8)));
        Some(uniform_from_word(word))
    }
}

} // verus!
