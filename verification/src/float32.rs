//! Single-precision values carried by their IEEE 754 bit patterns.
//!
//! Gauge levels, stun values and similar quantities arrive as binary32 numbers.
//! They are stored, compared and rounded here through their bits alone, so that
//! every operation is exact and has an integer meaning: a non-NaN pattern stands
//! for a whole number of units, one unit being 2^-149 (the smallest positive
//! binary32 value).

use vstd::arithmetic::div_mod::{
    lemma_div_multiples_vanish_quotient, lemma_fundamental_div_mod_converse,
};
use vstd::arithmetic::mul::lemma_mul_strict_inequality;
use vstd::arithmetic::power2::{
    lemma2_to64, lemma_pow2_adds, lemma_pow2_pos, lemma_pow2_strictly_increases, lemma_pow2_unfold,
    pow2,
};
use vstd::prelude::*;

verus! {

/// A binary32 value, held as its bit pattern.
#[derive(Clone, Copy, Debug, PartialEq, Eq, Structural)]
pub struct Float32 {
    pub bits: u32,
}

/// The number of units (2^-149 each) in the non-negative pattern `m`.
///
/// The exponent field is `m / 2^23`; patterns with exponent field zero are
/// subnormal and lack the implicit leading bit. Infinity comes out larger than
/// every finite value, which is what comparisons need.
pub open spec fn magnitude_units(m: nat) -> nat {
    let exponent = m / 0x80_0000;
    let fraction = m % 0x80_0000;
    if exponent == 0 {
        fraction
    } else {
        (fraction + 0x80_0000) * pow2((exponent - 1) as nat)
    }
}

/// The number of units in the whole number `n`.
pub open spec fn whole_units(n: int) -> int {
    n * pow2(149)
}

/// The positive zero pattern.
pub const ZERO_BITS: u32 = 0;

/// The pattern of 100.0.
pub const ONE_HUNDRED_BITS: u32 = 0x42C8_0000;

/// The pattern of 900.0.
pub const NINE_HUNDRED_BITS: u32 = 0x4461_0000;

/// The pattern of 1000.0.
pub const ONE_THOUSAND_BITS: u32 = 0x447A_0000;

/// The pattern of 10000.0.
pub const TEN_THOUSAND_BITS: u32 = 0x461C_4000;

/// The pattern of 1000000.0.
pub const ONE_MILLION_BITS: u32 = 0x4974_2400;

impl Float32 {
    /// Whether the sign bit is set.
    pub open spec fn is_negative(self) -> bool {
        self.bits >= 0x8000_0000
    }

    /// The pattern without its sign bit.
    pub open spec fn magnitude(self) -> nat {
        (self.bits % 0x8000_0000) as nat
    }

    /// Whether the pattern stands for a number (an infinity included), not a NaN.
    pub open spec fn is_number(self) -> bool {
        self.magnitude() <= 0x7F80_0000
    }

    /// Whether the pattern stands for a finite number.
    pub open spec fn finite(self) -> bool {
        self.magnitude() < 0x7F80_0000
    }

    /// The signed number of units the pattern stands for.
    pub open spec fn units(self) -> int {
        if self.is_negative() {
            -(magnitude_units(self.magnitude()) as int)
        } else {
            magnitude_units(self.magnitude()) as int
        }
    }

    /// IEEE `<`: false as soon as a NaN is involved.
    pub open spec fn below(self, other: Float32) -> bool {
        self.is_number() && other.is_number() && self.units() < other.units()
    }

    /// IEEE `<=`: false as soon as a NaN is involved.
    pub open spec fn at_most(self, other: Float32) -> bool {
        self.is_number() && other.is_number() && self.units() <= other.units()
    }

    /// The value rounded to the nearest whole number, halves away from zero, and
    /// held to the `i32` range; meant for finite non-negative values.
    pub open spec fn rounded(self) -> int {
        let whole = (2 * self.units() + pow2(149)) / (2 * pow2(149) as int);
        if whole > i32::MAX {
            i32::MAX as int
        } else {
            whole
        }
    }

    /// The value with the given bit pattern.
    pub fn from_bits(bits: u32) -> (value: Float32)
        ensures
            value.bits == bits,
    {
        Float32 { bits }
    }

    /// Positive zero.
    pub fn zero() -> (value: Float32)
        ensures
            value.bits == ZERO_BITS,
            value.units() == 0,
    {
        Float32 { bits: ZERO_BITS }
    }

    /// Whether the value is neither infinite nor a NaN.
    pub fn is_finite(self) -> (answer: bool)
        ensures
            answer == self.finite(),
    {
        self.bits % 0x8000_0000 < 0x7F80_0000
    }

    /// Whether the value is a NaN.
    pub fn is_nan(self) -> (answer: bool)
        ensures
            answer == !self.is_number(),
    {
        self.bits % 0x8000_0000 > 0x7F80_0000
    }

    /// The signed magnitude, whose integer order is the order of the values.
    fn order_key(self) -> (key: i64)
        ensures
            key == (if self.is_negative() {
                -(self.magnitude() as int)
            } else {
                self.magnitude() as int
            }),
    {
        let magnitude: i64 = (self.bits % 0x8000_0000) as i64;
        if self.bits >= 0x8000_0000 {
            0 - magnitude
        } else {
            magnitude
        }
    }

    /// IEEE `self < other`.
    pub fn lt(self, other: Float32) -> (answer: bool)
        ensures
            answer == self.below(other),
    {
        proof {
            lemma_units_order(self.magnitude(), other.magnitude());
            lemma_units_zero(self.magnitude());
            lemma_units_zero(other.magnitude());
        }
        !self.is_nan() && !other.is_nan() && self.order_key() < other.order_key()
    }

    /// IEEE `self <= other`.
    pub fn le(self, other: Float32) -> (answer: bool)
        ensures
            answer == self.at_most(other),
    {
        proof {
            lemma_units_order(self.magnitude(), other.magnitude());
            lemma_units_zero(self.magnitude());
            lemma_units_zero(other.magnitude());
        }
        !self.is_nan() && !other.is_nan() && self.order_key() <= other.order_key()
    }
}

/// The unit count grows strictly with the pattern.
pub proof fn lemma_units_order(a: nat, b: nat)
    ensures
        a < b ==> magnitude_units(a) < magnitude_units(b),
        b < a ==> magnitude_units(b) < magnitude_units(a),
{
    if a < b {
        lemma_units_increase(a, b);
    } else if b < a {
        lemma_units_increase(b, a);
    }
}

proof fn lemma_units_zero(m: nat)
    ensures
        magnitude_units(m) == 0 <==> m == 0,
{
    lemma_units_order(0, m);
}

proof fn lemma_units_increase(a: nat, b: nat)
    requires
        a < b,
    ensures
        magnitude_units(a) < magnitude_units(b),
    decreases b - a,
{
    if a + 1 < b {
        lemma_units_increase(a + 1, b);
    }
    lemma_units_step(a);
}

proof fn lemma_units_step(a: nat)
    ensures
        magnitude_units(a) < magnitude_units(a + 1),
{
    let e = a / 0x80_0000;
    let f = a % 0x80_0000;
    lemma2_to64();
    if f + 1 < 0x80_0000 {
        assert((a + 1) / 0x80_0000 == e && (a + 1) % 0x80_0000 == f + 1);
        if e > 0 {
            lemma_pow2_pos((e - 1) as nat);
            lemma_mul_strict_inequality(
                (f + 0x80_0000) as int,
                (f + 1 + 0x80_0000) as int,
                pow2((e - 1) as nat) as int,
            );
        }
    } else {
        assert((a + 1) / 0x80_0000 == e + 1 && (a + 1) % 0x80_0000 == 0);
        assert(f == 0x7F_FFFF);
        if e > 0 {
            let p = pow2((e - 1) as nat);
            lemma_pow2_pos((e - 1) as nat);
            lemma_pow2_unfold(e);
            assert(pow2(e) == 2 * p);
            assert((f + 0x80_0000) * p < 0x80_0000 * (2 * p)) by (nonlinear_arith)
                requires
                    p > 0,
                    f == 0x7F_FFFF,
            ;
            assert(magnitude_units(a + 1) == 0x80_0000 * pow2(e));
        } else {
            assert(magnitude_units(a + 1) == 0x80_0000 * pow2(0));
        }
    }
}

/// Two to the power `k`.
fn power_of_two(k: u32) -> (power: u64)
    requires
        k <= 32,
    ensures
        power == pow2(k as nat),
{
    let mut power: u64 = 1;
    let mut i: u32 = 0;
    proof {
        lemma2_to64();
    }
    while i < k
        invariant
            i <= k <= 32,
            power == pow2(i as nat),
            power <= 0x1_0000_0000,
        decreases k - i,
    {
        proof {
            lemma2_to64();
            lemma_pow2_unfold((i + 1) as nat);
            if i + 1 < 32 {
                lemma_pow2_strictly_increases((i + 1) as nat, 32);
            }
        }
        power = power * 2;
        i = i + 1;
    }
    power
}

/// What rounding comes to for a value with a leading bit, when the last bit of its
/// significand weighs less than one.
proof fn lemma_rounded_below(significand: nat, exponent: nat, s: nat)
    requires
        1 <= exponent < 150,
        s == 150 - exponent,
    ensures
        (2 * (significand * pow2((exponent - 1) as nat)) + pow2(149)) / (2 * pow2(149)) == (
        significand + pow2((s - 1) as nat)) / pow2(s),
{
    let p = pow2((exponent - 1) as nat);
    lemma_pow2_pos((exponent - 1) as nat);
    lemma_pow2_pos(s);
    lemma_pow2_unfold(exponent);
    lemma_pow2_adds(exponent, (s - 1) as nat);
    lemma_pow2_adds(exponent, s);
    lemma_pow2_unfold(150);
    let a = significand;
    let h = pow2((s - 1) as nat);
    let d = pow2(s);
    assert(pow2(exponent) == 2 * p);
    assert(2 * (a * p) + pow2(149) == (2 * p) * (a + h)) by (nonlinear_arith)
        requires
            pow2(149) == (2 * p) * h,
    ;
    assert(2 * pow2(149) == (2 * p) * d);
    lemma_div_multiples_vanish_quotient((2 * p) as int, (a + h) as int, d as int);
}

/// What rounding comes to for a value that is a whole number.
proof fn lemma_rounded_whole(significand: nat, exponent: nat)
    requires
        exponent >= 150,
    ensures
        (2 * (significand * pow2((exponent - 1) as nat)) + pow2(149)) / (2 * pow2(149))
            == significand * pow2((exponent - 150) as nat),
{
    let q = pow2(149);
    let m = pow2((exponent - 150) as nat);
    lemma_pow2_pos(149);
    lemma_pow2_adds(149, (exponent - 150) as nat);
    let a = significand * m;
    assert(2 * (significand * (q * m)) == (2 * q) * a) by (nonlinear_arith)
        requires
            a == significand * m,
    ;
    assert(2 * (significand * pow2((exponent - 1) as nat)) + q == a * (2 * q) + q) by {
        assert((2 * q) * a == a * (2 * q)) by (nonlinear_arith);
    }
    lemma_fundamental_div_mod_converse(
        (a * (2 * q) + q) as int,
        (2 * q) as int,
        a as int,
        q as int,
    );
}

impl Float32 {
    /// The value rounded to the nearest whole number, halves away from zero, and held to
    /// the `i32` range.
    pub fn round_to_i32(self) -> (whole: i32)
        requires
            self.finite(),
            !self.is_negative(),
        ensures
            whole == self.rounded(),
    {
        let exponent: u32 = self.bits / 0x80_0000;
        let fraction: u32 = self.bits % 0x80_0000;
        let ghost m = self.magnitude();
        assert(m == self.bits);
        proof {
            lemma2_to64();
            lemma_pow2_pos(149);
        }
        if exponent == 0 {
            proof {
                assert(self.units() == fraction);
                lemma_pow2_strictly_increases(24, 149);
                lemma_div_basics_small((2 * fraction + pow2(149)) as int, (2 * pow2(149)) as int);
            }
            return 0;
        }
        let significand: u32 = fraction + 0x80_0000;
        assert(self.units() == significand * pow2((exponent - 1) as nat));
        if exponent >= 158 {
            proof {
                lemma_rounded_whole(significand as nat, exponent as nat);
                let k = (exponent - 150) as nat;
                if k > 8 {
                    lemma_pow2_strictly_increases(8, k);
                }
                assert(significand * pow2(k) >= 0x80_0000 * 256) by (nonlinear_arith)
                    requires
                        significand >= 0x80_0000,
                        pow2(k) >= 256,
                ;
            }
            return i32::MAX;
        }
        if exponent >= 150 {
            let power: u64 = power_of_two(exponent - 150);
            proof {
                lemma_rounded_whole(significand as nat, exponent as nat);
                let k = (exponent - 150) as nat;
                if k < 7 {
                    lemma_pow2_strictly_increases(k, 7);
                }
                assert(significand * power < 0x100_0000 * 128) by (nonlinear_arith)
                    requires
                        significand < 0x100_0000,
                        0 <= power <= 128,
                ;
            }
            let whole: u64 = significand as u64 * power;
            return whole as i32;
        }
        let s: u32 = 150 - exponent;
        proof {
            lemma_rounded_below(significand as nat, exponent as nat, s as nat);
            lemma_pow2_unfold(s as nat);
        }
        if s >= 25 {
            proof {
                if s > 25 {
                    lemma_pow2_strictly_increases(24, (s - 1) as nat);
                }
                lemma_div_basics_small(
                    (significand + pow2((s - 1) as nat)) as int,
                    pow2(s as nat) as int,
                );
            }
            return 0;
        }
        let half: u64 = power_of_two(s - 1);
        proof {
            if s - 1 < 24 {
                lemma_pow2_strictly_increases((s - 1) as nat, 24);
            }
            lemma_pow2_pos((s - 1) as nat);
        }
        let whole: u64 = (significand as u64 + half) / (2 * half);
        proof {
            lemma_div_is_smaller(significand as nat + half as nat, 2 * half as nat);
        }
        whole as i32
    }
}

proof fn lemma_div_basics_small(n: int, d: int)
    requires
        0 <= n < d,
    ensures
        n / d == 0,
{
    vstd::arithmetic::div_mod::lemma_basic_div(n, d);
}

proof fn lemma_div_is_smaller(n: nat, d: nat)
    requires
        d > 0,
    ensures
        n / d <= n,
{
    vstd::arithmetic::div_mod::lemma_div_nonincreasing(n as int, d as int);
}

/// The constants are the numbers they are named after.
pub proof fn law_constants()
    ensures
        (Float32 { bits: ZERO_BITS }).units() == whole_units(0),
        (Float32 { bits: ONE_HUNDRED_BITS }).units() == whole_units(100),
        (Float32 { bits: NINE_HUNDRED_BITS }).units() == whole_units(900),
        (Float32 { bits: ONE_THOUSAND_BITS }).units() == whole_units(1_000),
        (Float32 { bits: TEN_THOUSAND_BITS }).units() == whole_units(10_000),
        (Float32 { bits: ONE_MILLION_BITS }).units() == whole_units(1_000_000),
{
    lemma2_to64();
    lemma_pow2_adds(132, 17);
    lemma_pow2_adds(135, 14);
    lemma_pow2_adds(139, 10);
    lemma_pow2_adds(145, 4);
    assert(0xC8_0000 * pow2(132) == 100 * (pow2(132) * 0x2_0000)) by (nonlinear_arith);
    assert(0xE1_0000 * pow2(135) == 900 * (pow2(135) * 0x4000)) by (nonlinear_arith);
    assert(0xFA_0000 * pow2(135) == 1_000 * (pow2(135) * 0x4000)) by (nonlinear_arith);
    assert(0x9C_4000 * pow2(139) == 10_000 * (pow2(139) * 0x400)) by (nonlinear_arith);
    assert(0xF4_2400 * pow2(145) == 1_000_000 * (pow2(145) * 0x10)) by (nonlinear_arith);
}

/// Two numbers that are not NaN can always be put in order, and patterns without a sign
/// bit are in the order of their values.
pub proof fn law_order(a: Float32, b: Float32)
    requires
        a.is_number(),
        b.is_number(),
    ensures
        a.at_most(b) || b.at_most(a),
        a.below(b) <==> !b.at_most(a),
        !a.is_negative() && !b.is_negative() ==> (a.below(b) <==> a.bits < b.bits),
{
    lemma_units_order(a.magnitude(), b.magnitude());
}

} // verus!
