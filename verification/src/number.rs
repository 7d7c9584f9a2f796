//! Binary64 values carried as their bit patterns.
//!
//! Numeric configuration and attribute values arrive as IEEE-754 doubles. The
//! library holds each as its exact bit pattern and decides the comparisons
//! its rules need (sign tests, `|x| <= c`, equality) with integer arithmetic
//! proved against the value the bits encode.
use vstd::prelude::*;
use vstd::arithmetic::power2::pow2;

verus! {

/// An IEEE-754 binary64 value, held as its bit pattern.
#[derive(Debug, Clone, Copy, Default)]
pub struct F64Bits {
    pub bits: u64,
}

pub open spec fn sign_bit(b: u64) -> bool {
    b >= 0x8000_0000_0000_0000
}

pub open spec fn exponent_field(b: u64) -> int {
    ((b / 0x10_0000_0000_0000) % 2048) as int
}

pub open spec fn fraction_field(b: u64) -> int {
    (b % 0x10_0000_0000_0000) as int
}

pub open spec fn is_nan(b: u64) -> bool {
    exponent_field(b) == 2047 && fraction_field(b) != 0
}

pub open spec fn is_infinite(b: u64) -> bool {
    exponent_field(b) == 2047 && fraction_field(b) == 0
}

pub open spec fn is_zero(b: u64) -> bool {
    exponent_field(b) == 0 && fraction_field(b) == 0
}

/// The integer significand of a finite value.
pub open spec fn significand(b: u64) -> int {
    if exponent_field(b) == 0 {
        fraction_field(b)
    } else {
        fraction_field(b) + 0x10_0000_0000_0000
    }
}

/// The power of two the significand is scaled by.
pub open spec fn scale(b: u64) -> int {
    if exponent_field(b) == 0 {
        -1074
    } else {
        exponent_field(b) - 1075
    }
}

/// `|x| <= c` for a finite value `x = ±significand * 2^scale`.
pub open spec fn magnitude_at_most(b: u64, c: nat) -> bool {
    if scale(b) >= 0 {
        significand(b) * pow2(scale(b) as nat) <= c
    } else {
        significand(b) <= c * pow2((-scale(b)) as nat)
    }
}

/// `x <= 0.0` as IEEE comparison decides it.
pub open spec fn at_most_zero(b: u64) -> bool {
    !is_nan(b) && (sign_bit(b) || is_zero(b))
}

/// `x > 0.0` as IEEE comparison decides it.
pub open spec fn above_zero(b: u64) -> bool {
    !is_nan(b) && !sign_bit(b) && !is_zero(b)
}

/// `-c <= x <= c` as IEEE comparison decides it.
pub open spec fn within(b: u64, c: nat) -> bool {
    !is_nan(b) && !is_infinite(b) && magnitude_at_most(b, c)
}

/// `x == y` as IEEE comparison decides it: NaN equals nothing, the two zeros
/// are equal, every other value equals only its own bit pattern.
pub open spec fn float_equal(a: u64, b: u64) -> bool {
    !is_nan(a) && !is_nan(b) && (a == b || (is_zero(a) && is_zero(b)))
}

fn fields(b: u64) -> (r: (bool, u64, u64))
    ensures
        r.0 == sign_bit(b),
        r.1 as int == exponent_field(b),
        r.2 as int == fraction_field(b),
        r.1 < 2048,
        r.2 < 0x10_0000_0000_0000,
{
    (b >= 0x8000_0000_0000_0000, (b / 0x10_0000_0000_0000) % 2048, b % 0x10_0000_0000_0000)
}

impl F64Bits {
    /// `self <= 0.0`.
    pub fn at_most_zero(&self) -> (r: bool)
        ensures
            r == at_most_zero(self.bits),
    {
        let (s, e, f) = fields(self.bits);
        let nan = e == 2047 && f != 0;
        !nan && (s || (e == 0 && f == 0))
    }

    /// `self > 0.0`.
    pub fn above_zero(&self) -> (r: bool)
        ensures
            r == above_zero(self.bits),
    {
        let (s, e, f) = fields(self.bits);
        let nan = e == 2047 && f != 0;
        !nan && !s && !(e == 0 && f == 0)
    }

    /// `-c <= self <= c`.
    pub(crate) fn within(&self, c: u32) -> (r: bool)
        requires
            1 <= c <= 0x10000,
        ensures
            r == within(self.bits, c as nat),
    {
        let (s, e, f) = fields(self.bits);
        if e == 2047 {
            return false;
        }
        let m: u64 = if e == 0 { f } else { f + 0x10_0000_0000_0000 };
        if e >= 1075 {
            proof {
                let k = (exponent_field(self.bits) - 1075) as nat;
                vstd::arithmetic::power2::lemma_pow2_pos(k);
                assert(significand(self.bits) * pow2(k) >= significand(self.bits)) by (
                nonlinear_arith)
                    requires
                        pow2(k) >= 1,
                        significand(self.bits) >= 0,
                ;
            }
            return false;
        }
        let k: u64 = if e == 0 { 1074 } else { 1075 - e };
        assert(-scale(self.bits) == k);
        if k >= 60 {
            proof {
                vstd::arithmetic::power2::lemma_pow2_strictly_increases(53, k as nat);
                vstd::arithmetic::power2::lemma2_to64();
                vstd::arithmetic::power2::lemma2_to64_rest();
                assert(significand(self.bits) < pow2(53));
                assert(c * pow2(k as nat) >= pow2(k as nat)) by (nonlinear_arith)
                    requires
                        c >= 1,
                        pow2(k as nat) >= 0,
                ;
            }
            return true;
        }
        let mut q: u128 = c as u128;
        let mut i: u64 = 0;
        proof {
            vstd::arithmetic::power2::lemma2_to64();
                vstd::arithmetic::power2::lemma2_to64_rest();
        }
        while i < k
            invariant
                i <= k < 60,
                1 <= c <= 0x10000,
                q == c * pow2(i as nat),
                q <= 0x10000 * 0x1000_0000_0000_0000,
            decreases k - i,
        {
            proof {
                vstd::arithmetic::power2::lemma_pow2_unfold((i + 1) as nat);
                vstd::arithmetic::power2::lemma_pow2_strictly_increases((i + 1) as nat, 60);
                vstd::arithmetic::power2::lemma2_to64();
                vstd::arithmetic::power2::lemma2_to64_rest();
            }
            assert(q * 2 == c * pow2((i + 1) as nat)) by (nonlinear_arith)
                requires
                    q == c * pow2(i as nat),
                    pow2((i + 1) as nat) == 2 * pow2(i as nat),
            ;
            assert(c * pow2((i + 1) as nat) <= 0x10000 * 0x1000_0000_0000_0000) by (
            nonlinear_arith)
                requires
                    1 <= c <= 0x10000,
                    pow2((i + 1) as nat) < 0x1000_0000_0000_0000,
            ;
            q = q * 2;
            i = i + 1;
        }
        (m as u128) <= q
    }
}

/// `a == b` as IEEE comparison decides it.
pub fn float_eq(a: F64Bits, b: F64Bits) -> (r: bool)
    ensures
        r == float_equal(a.bits, b.bits),
{
    let (_, ea, fa) = fields(a.bits);
    let (_, eb, fb) = fields(b.bits);
    let nan_a = ea == 2047 && fa != 0;
    let nan_b = eb == 2047 && fb != 0;
    !nan_a && !nan_b && (a.bits == b.bits || (ea == 0 && fa == 0 && eb == 0 && fb == 0))
}

} // verus!
