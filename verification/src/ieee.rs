//! Binary64 numbers as bit patterns.
//!
//! Every real quantity of the renderer reaches this library as the 64-bit
//! pattern of an IEEE 754 double: one sign bit, eleven exponent bits and
//! fifty-two fraction bits. Rounded arithmetic is the caller's business; what
//! can be decided or computed exactly on the pattern itself is done here, and
//! stated over the number that the pattern encodes.

use vstd::prelude::*;
use vstd::arithmetic::div_mod::{lemma_basic_div, lemma_div_multiples_vanish_quotient};
use vstd::arithmetic::power2::{
    pow2, lemma2_to64, lemma2_to64_rest, lemma_pow2_adds, lemma_pow2_pos,
    lemma_pow2_strictly_increases, lemma_pow2_unfold,
};
use vstd::bits::{lemma_u64_shl_is_mul, lemma_u64_shr_is_div};

verus! {

/// The sign bit of a pattern.
pub const SIGN_BIT: u64 = 0x8000_0000_0000_0000;

/// Positive infinity: every exponent bit set, no fraction bit.
pub const INFINITY: u64 = 0x7ff0_0000_0000_0000;

/// Two to the fifty-second: the weight of the implicit leading bit of a
/// normal number's significand.
pub const HIDDEN_BIT: u64 = 0x0010_0000_0000_0000;

/// Positive zero.
pub const ZERO: u64 = 0;

/// The number one half.
pub const HALF: u64 = 0x3fe0_0000_0000_0000;

/// The number one.
pub const ONE: u64 = 0x3ff0_0000_0000_0000;

/// The pattern with its sign bit cleared.
pub open spec fn magnitude(b: u64) -> u64 {
    if b >= SIGN_BIT {
        (b - SIGN_BIT) as u64
    } else {
        b
    }
}

/// Whether the sign bit is set (true of negative zero too).
pub open spec fn is_negative(b: u64) -> bool {
    b >= SIGN_BIT
}

/// Whether the pattern encodes no number at all.
pub open spec fn spec_is_nan(b: u64) -> bool {
    magnitude(b) > INFINITY
}

/// The biased exponent field.
pub open spec fn exponent(b: u64) -> nat {
    (magnitude(b) / HIDDEN_BIT) as nat
}

/// The fraction field.
pub open spec fn fraction(b: u64) -> nat {
    (magnitude(b) % HIDDEN_BIT) as nat
}

/// The significand as an integer: the fraction, with the implicit leading bit
/// unless the number is subnormal.
pub open spec fn significand(b: u64) -> nat {
    if exponent(b) == 0 {
        fraction(b)
    } else {
        (HIDDEN_BIT + fraction(b)) as nat
    }
}

/// The power of two by which the significand is multiplied in `scaled_magnitude`.
pub open spec fn binade(b: u64) -> nat {
    if exponent(b) == 0 {
        0
    } else {
        (exponent(b) - 1) as nat
    }
}

/// The absolute value of the encoded number, multiplied by two to the 1074th
/// so that it is an integer. Infinity stands as the power of two that follows
/// the largest finite number.
pub open spec fn scaled_magnitude(b: u64) -> nat {
    significand(b) * pow2(binade(b))
}

/// The encoded number, multiplied by two to the 1074th.
pub open spec fn scaled(b: u64) -> int {
    if is_negative(b) {
        -(scaled_magnitude(b) as int)
    } else {
        scaled_magnitude(b) as int
    }
}

/// The order of the encoded numbers: false as soon as either side is no number.
pub open spec fn spec_lt(a: u64, b: u64) -> bool {
    !spec_is_nan(a) && !spec_is_nan(b) && scaled(a) < scaled(b)
}

/// A larger magnitude encodes a number that is larger in absolute value.
pub proof fn lemma_magnitude_orders(a: u64, b: u64)
    requires
        magnitude(a) < magnitude(b),
    ensures
        scaled_magnitude(a) < scaled_magnitude(b),
{
    let ea = exponent(a);
    let eb = exponent(b);
    let h = HIDDEN_BIT as nat;
    lemma_pow2_pos(binade(a));
    lemma_pow2_pos(binade(b));
    if ea == eb {
        let p = pow2(binade(a));
        assert(significand(a) * p < significand(b) * p) by (nonlinear_arith)
            requires
                significand(a) < significand(b),
                p > 0,
        ;
    } else {
        assert(ea < eb);
        let pb = pow2(binade(b));
        assert(h * pb <= significand(b) * pb) by (nonlinear_arith)
            requires
                h <= significand(b),
                pb > 0,
        ;
        if ea == 0 {
            assert(pow2(0) == 1) by {
                lemma2_to64();
            }
            assert(h * 1 <= h * pb) by (nonlinear_arith)
                requires
                    pb >= 1,
            ;
        } else {
            let pa = pow2(binade(a));
            assert(significand(a) * pa < (2 * h) * pa) by (nonlinear_arith)
                requires
                    significand(a) < 2 * h,
                    pa > 0,
            ;
            lemma_pow2_unfold(ea);
            assert(pow2(ea) <= pb) by {
                if ea < binade(b) {
                    lemma_pow2_strictly_increases(ea, binade(b));
                }
            }
            assert((2 * h) * pa == h * pow2(ea)) by (nonlinear_arith)
                requires
                    pow2(ea) == 2 * pa,
            ;
            assert(h * pow2(ea) <= h * pb) by (nonlinear_arith)
                requires
                    pow2(ea) <= pb,
            ;
        }
    }
}

/// Only the two zeros encode the number zero.
pub proof fn lemma_zero_magnitude(b: u64)
    ensures
        scaled_magnitude(b) == 0 <==> magnitude(b) == 0,
{
    lemma_pow2_pos(binade(b));
    let p = pow2(binade(b));
    let s = significand(b);
    if magnitude(b) == 0 {
        assert(s * p == 0) by (nonlinear_arith)
            requires
                s == 0,
        ;
    } else {
        assert(s * p > 0) by (nonlinear_arith)
            requires
                s > 0,
                p > 0,
        ;
    }
}

/// Two patterns with the same sign that encode the same number are the same
/// pattern.
pub proof fn lemma_scaled_injective(a: u64, b: u64)
    requires
        is_negative(a) == is_negative(b),
        scaled(a) == scaled(b),
    ensures
        a == b,
{
    if magnitude(a) < magnitude(b) {
        lemma_magnitude_orders(a, b);
    }
    if magnitude(b) < magnitude(a) {
        lemma_magnitude_orders(b, a);
    }
}

/// Whether the pattern encodes no number.
#[verifier::when_used_as_spec(spec_is_nan)]
pub fn is_nan(b: u64) -> (r: bool)
    ensures
        r == spec_is_nan(b),
{
    abs(b) > INFINITY
}

/// The pattern of the absolute value.
#[verifier::when_used_as_spec(magnitude)]
pub fn abs(b: u64) -> (r: u64)
    ensures
        r == magnitude(b),
{
    if b >= SIGN_BIT {
        b - SIGN_BIT
    } else {
        b
    }
}

/// The pattern with its sign bit flipped.
pub open spec fn spec_neg(b: u64) -> u64 {
    if b >= SIGN_BIT {
        (b - SIGN_BIT) as u64
    } else {
        (b + SIGN_BIT) as u64
    }
}

/// The pattern of the negated number: the sign bit flipped, nothing else.
#[verifier::when_used_as_spec(spec_neg)]
pub fn neg(b: u64) -> (r: u64)
    ensures
        r == spec_neg(b),
{
    if b >= SIGN_BIT {
        b - SIGN_BIT
    } else {
        b + SIGN_BIT
    }
}

/// Whether the number encoded by `a` is less than the one encoded by `b`.
#[verifier::when_used_as_spec(spec_lt)]
pub fn lt(a: u64, b: u64) -> (r: bool)
    ensures
        r == spec_lt(a, b),
{
    let ma: u64 = abs(a);
    let mb: u64 = abs(b);
    if ma > INFINITY || mb > INFINITY {
        return false;
    }
    proof {
        lemma_zero_magnitude(a);
        lemma_zero_magnitude(b);
        if ma < mb {
            lemma_magnitude_orders(a, b);
        }
        if mb < ma {
            lemma_magnitude_orders(b, a);
        }
    }
    if a >= SIGN_BIT {
        if b >= SIGN_BIT {
            mb < ma
        } else {
            ma != 0 || mb != 0
        }
    } else {
        if b >= SIGN_BIT {
            false
        } else {
            ma < mb
        }
    }
}

/// Whether the number encoded by `a` is greater than the one encoded by `b`.
pub open spec fn spec_gt(a: u64, b: u64) -> bool {
    spec_lt(b, a)
}

/// Whether the number encoded by `a` is greater than the one encoded by `b`.
#[verifier::when_used_as_spec(spec_gt)]
pub fn gt(a: u64, b: u64) -> (r: bool)
    ensures
        r == spec_gt(a, b),
{
    lt(b, a)
}

/// Whether both patterns encode numbers and the first is at most the second.
pub open spec fn spec_le(a: u64, b: u64) -> bool {
    !spec_is_nan(a) && !spec_is_nan(b) && scaled(a) <= scaled(b)
}

/// Whether the number encoded by `a` is at most the one encoded by `b`.
#[verifier::when_used_as_spec(spec_le)]
pub fn le(a: u64, b: u64) -> (r: bool)
    ensures
        r == spec_le(a, b),
{
    !is_nan(a) && !is_nan(b) && !lt(b, a)
}

/// `x` held between `lo` and `hi`. A pattern that encodes no number compares
/// with neither bound and passes unchanged.
pub open spec fn spec_clamp(x: u64, lo: u64, hi: u64) -> u64 {
    if spec_lt(x, lo) {
        lo
    } else if spec_lt(hi, x) {
        hi
    } else {
        x
    }
}

/// `x` held between `lo` and `hi`.
#[verifier::when_used_as_spec(spec_clamp)]
pub fn clamp(x: u64, lo: u64, hi: u64) -> (r: u64)
    requires
        spec_le(lo, hi),
    ensures
        r == spec_clamp(x, lo, hi),
{
    if lt(x, lo) {
        lo
    } else if lt(hi, x) {
        hi
    } else {
        x
    }
}

/// The integer part of the absolute value multiplied by two to the `k`.
pub open spec fn spec_floor_shifted(b: u64, k: u32) -> nat {
    scaled_magnitude(b) * pow2(k as nat) / pow2(1074)
}

/// The integer part of `|v| * 2^k`, for a `v` less than one in absolute
/// value.
pub fn floor_shifted(b: u64, k: u32) -> (r: u64)
    requires
        magnitude(b) < ONE,
        k <= 52,
    ensures
        r == spec_floor_shifted(b, k),
        r < pow2(k as nat),
{
    let m: u64 = abs(b);
    let e: u64 = m / HIDDEN_BIT;
    let f: u64 = m % HIDDEN_BIT;
    let sig: u64 = if e == 0 { f } else { HIDDEN_BIT + f };
    let up: u64 = if e == 0 { k as u64 } else { e - 1 + k as u64 };
    let shift: u64 = 1074 - up;
    proof {
        let s = sig as int;
        let pu = pow2(up as nat) as int;
        let ps = pow2(shift as nat) as int;
        lemma_pow2_pos(up as nat);
        lemma_pow2_pos(shift as nat);
        lemma_pow2_adds(binade(b), k as nat);
        lemma_pow2_adds(up as nat, shift as nat);
        assert(scaled_magnitude(b) * pow2(k as nat) == pu * s) by (nonlinear_arith)
            requires
                scaled_magnitude(b) == s * pow2(binade(b)),
                pu == pow2(binade(b)) * pow2(k as nat),
        ;
        assert(pow2(1074) == pu * ps);
        lemma_div_multiples_vanish_quotient(pu, s, ps);
        assert(spec_floor_shifted(b, k) == s / ps);
        lemma2_to64_rest();
        if shift >= 53 {
            if shift > 53 {
                lemma_pow2_strictly_increases(53, shift as nat);
            }
            lemma_basic_div(s, ps);
        } else {
            lemma_u64_shr_is_div(sig, shift);
            lemma_pow2_adds(shift as nat, (53 - shift) as nat);
            lemma_pow2_pos(k as nat);
            let pk = pow2(k as nat) as int;
            let pd = pow2((53 - shift) as nat) as int;
            assert(pd <= pk) by {
                if 53 - shift < k {
                    lemma_pow2_strictly_increases((53 - shift) as nat, k as nat);
                }
            }
            assert(s / ps < pk) by (nonlinear_arith)
                requires
                    0 <= s < ps * pd,
                    pd <= pk,
                    ps > 0,
            ;
        }
        lemma_pow2_pos(k as nat);
    }
    if shift >= 53 {
        0
    } else {
        sig >> shift
    }
}

/// The index of the highest bit that is set in `n`.
fn top_bit(n: u64) -> (p: u32)
    requires
        0 < n < 0x20_0000_0000_0000,
    ensures
        p <= 52,
        pow2(p as nat) <= n < pow2((p + 1) as nat),
{
    let mut p: u32 = 0;
    let mut low: u64 = 1;
    proof {
        lemma2_to64();
        lemma2_to64_rest();
    }
    while low <= n / 2
        invariant
            0 < n < 0x20_0000_0000_0000,
            low == pow2(p as nat),
            1 <= low <= n,
            p <= 52,
            pow2(53) == 0x20_0000_0000_0000,
        decreases n - low,
    {
        proof {
            lemma_pow2_unfold((p + 1) as nat);
        }
        low = 2 * low;
        p = p + 1;
    }
    proof {
        lemma_pow2_unfold((p + 1) as nat);
    }
    p
}

/// The pattern of `n / 2^k`, a number that binary64 holds exactly since `n`
/// has at most 53 bits.
pub fn dyadic(n: u64, k: u32) -> (r: u64)
    requires
        n < 0x20_0000_0000_0000,
        k <= 1022,
    ensures
        !is_negative(r),
        !spec_is_nan(r),
        scaled(r) == n * pow2((1074 - k) as nat),
        n < pow2(k as nat) ==> spec_lt(r, ONE),
{
    proof {
        lemma2_to64();
        lemma2_to64_rest();
        lemma_pow2_adds(52, 1022);
        lemma_pow2_adds(k as nat, (1074 - k) as nat);
        lemma_pow2_pos((1074 - k) as nat);
        assert(scaled(ONE) == pow2(1074)) by {
            assert(exponent(ONE) == 1023);
            assert(fraction(ONE) == 0);
        }
        let unit = pow2((1074 - k) as nat);
        if n < pow2(k as nat) {
            assert(n * unit < pow2(k as nat) * unit) by (nonlinear_arith)
                requires
                    n < pow2(k as nat),
                    unit > 0,
            ;
        }
    }
    if n == 0 {
        proof {
            assert(significand(ZERO) == 0);
            assert(scaled_magnitude(ZERO) == 0) by (nonlinear_arith)
                requires
                    significand(ZERO) == 0,
                    scaled_magnitude(ZERO) == significand(ZERO) * pow2(binade(ZERO)),
            ;
        }
        return ZERO;
    }
    let p: u32 = top_bit(n);
    let up: u32 = 52 - p;
    let field: u64 = (1023 + p - k) as u64;
    proof {
        lemma_pow2_adds((p + 1) as nat, up as nat);
        lemma_pow2_adds(p as nat, up as nat);
        lemma_pow2_pos(up as nat);
        let pu = pow2(up as nat);
        assert(n * pu < pow2((p + 1) as nat) * pu) by (nonlinear_arith)
            requires
                n < pow2((p + 1) as nat),
                pu > 0,
        ;
        assert(pow2(p as nat) * pu <= n * pu) by (nonlinear_arith)
            requires
                pow2(p as nat) <= n,
                pu > 0,
        ;
        assert(1 * pu <= u64::MAX) by {
            if up < 52 {
                lemma_pow2_strictly_increases(up as nat, 52);
            }
        }
        lemma_u64_shl_is_mul(1, up as u64);
    }
    let widened: u64 = n * (1u64 << up);
    let r: u64 = field * HIDDEN_BIT + (widened - HIDDEN_BIT);
    proof {
        assert(magnitude(r) == r);
        assert(exponent(r) == field);
        assert(fraction(r) == widened - HIDDEN_BIT);
        assert(significand(r) == widened);
        assert(binade(r) == 1022 + p - k);
        lemma_pow2_adds(up as nat, (1022 + p - k) as nat);
        assert(widened * pow2(binade(r)) == n * pow2((1074 - k) as nat)) by (nonlinear_arith)
            requires
                widened == n * pow2(up as nat),
                pow2((1074 - k) as nat) == pow2(up as nat) * pow2(binade(r)),
        ;
    }
    r
}

} // verus!
