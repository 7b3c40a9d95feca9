//! Numbers of a telemetry tree.
//!
//! A number is an unsigned integer, a negative integer, or a binary64 value
//! held by its bit pattern. The functions here read such a number exactly:
//! as an integer, against zero and against a bound, or scaled and rounded to
//! the nearest integer.

use vstd::prelude::*;
use vstd::arithmetic::power2::{pow2, lemma_pow2_pos, lemma_pow2_unfold, lemma_pow2_strictly_increases, lemma2_to64};
use vstd::arithmetic::div_mod::{lemma_basic_div, lemma_small_mod};

verus! {

/// A number of a telemetry tree.
#[derive(Clone, Copy, Debug, PartialEq, Eq, Structural)]
pub enum Number {
    /// An integer from zero up.
    PosInt(u64),
    /// An integer below zero.
    NegInt(i64),
    /// A binary64 value, given by its 64 bits.
    Float(u64),
}

/// Two to the 52nd: the span of a binary64 fraction field.
pub const FRACTION_SPAN: u64 = 0x10_0000_0000_0000;

/// Two to the 63rd: the sign bit of a binary64 value.
pub const SIGN_BIT: u64 = 0x8000_0000_0000_0000;

/// Two to the 64th: where `Number::magnitude` stops counting.
pub const MAGNITUDE_LIMIT: u128 = 0x1_0000_0000_0000_0000;

/// The fraction field of a binary64 bit pattern.
pub open spec fn float_fraction(bits: u64) -> nat {
    (bits % FRACTION_SPAN) as nat
}

/// The biased exponent field of a binary64 bit pattern.
pub open spec fn float_exponent(bits: u64) -> nat {
    ((bits / FRACTION_SPAN) % 2048) as nat
}

/// Whether the sign bit of a binary64 bit pattern is set.
pub open spec fn float_sign(bits: u64) -> bool {
    bits >= SIGN_BIT
}

/// The significand `m` of a binary64 bit pattern: its magnitude is `m * 2^float_shift`.
pub open spec fn float_significand(bits: u64) -> nat {
    if float_exponent(bits) == 0 {
        float_fraction(bits)
    } else {
        float_fraction(bits) + FRACTION_SPAN as nat
    }
}

/// The power of two by which the significand of a binary64 bit pattern is scaled.
pub open spec fn float_shift(bits: u64) -> int {
    if float_exponent(bits) == 0 {
        -1074
    } else {
        float_exponent(bits) - 1075
    }
}

/// Whether a binary64 bit pattern stands for a finite value.
pub open spec fn float_is_finite(bits: u64) -> bool {
    float_exponent(bits) != 2047
}

/// The integer part of `magnitude * scale` for a binary64 bit pattern.
pub open spec fn float_scaled(bits: u64, scale: nat) -> nat {
    let product = float_significand(bits) * scale;
    let shift = float_shift(bits);
    if shift >= 0 {
        product * pow2(shift as nat)
    } else {
        product / pow2((-shift) as nat)
    }
}

/// Whether a binary64 bit pattern stands for a whole number: its significand
/// is not shifted down, or the bits that the shift cuts off are all zero.
pub open spec fn float_is_whole(bits: u64) -> bool {
    let shift = float_shift(bits);
    shift >= 0 || float_significand(bits) % pow2((-shift) as nat) == 0
}

/// `x` held within `lo ..= hi`.
pub open spec fn clip(x: int, lo: int, hi: int) -> int {
    if x < lo {
        lo
    } else if x > hi {
        hi
    } else {
        x
    }
}

impl Number {
    /// A number as the tree's source writes it: negative integers are below
    /// zero, and binary64 values are finite.
    pub open spec fn wf(self) -> bool {
        match self {
            Number::PosInt(_) => true,
            Number::NegInt(i) => i < 0,
            Number::Float(bits) => float_is_finite(bits),
        }
    }

    /// Whether the number is below zero.
    pub open spec fn is_negative(self) -> bool {
        match self {
            Number::PosInt(_) => false,
            Number::NegInt(i) => i < 0,
            Number::Float(bits) => float_sign(bits) && float_significand(bits) > 0,
        }
    }

    /// Whether the number is zero.
    pub open spec fn is_zero(self) -> bool {
        match self {
            Number::PosInt(u) => u == 0,
            Number::NegInt(i) => i == 0,
            Number::Float(bits) => float_significand(bits) == 0,
        }
    }

    /// Whether the number is above zero.
    pub open spec fn is_positive(self) -> bool {
        !self.is_negative() && !self.is_zero()
    }

    /// Whether the number is a whole number.
    pub open spec fn is_whole(self) -> bool {
        match self {
            Number::Float(bits) => float_is_whole(bits),
            _ => true,
        }
    }

    /// Whether the number is below the natural number `bound`: it is
    /// negative, or its integer part is below `bound`.
    pub open spec fn is_below(self, bound: nat) -> bool {
        self.is_negative() || self.scaled(1) < bound
    }

    /// Whether the number is at most the natural number `bound`: it is below
    /// `bound`, or it is `bound` itself.
    pub open spec fn is_at_most(self, bound: nat) -> bool {
        self.is_below(bound) || (self.scaled(1) == bound && self.is_whole())
    }

    /// The integer part of `|self| * scale`.
    pub open spec fn scaled(self, scale: nat) -> nat {
        match self {
            Number::PosInt(u) => u as nat * scale,
            Number::NegInt(i) => (if i < 0 { -(i as int) } else { i as int }) as nat * scale,
            Number::Float(bits) => float_scaled(bits, scale),
        }
    }

    /// `self * scale` rounded to the nearest integer; a half goes away from zero.
    pub open spec fn nearest(self, scale: nat) -> int {
        let half_up = (self.scaled(2 * scale) + 1) / 2;
        if self.is_negative() {
            -(half_up as int)
        } else {
            half_up as int
        }
    }

    /// `self` in thousandths, rounded to the nearest one and held within the
    /// range of `i64`.
    pub open spec fn spec_thousandths(self) -> int {
        clip(self.nearest(1000), i64::MIN as int, i64::MAX as int)
    }

    /// The integer nearest to `self`, held within the range of `i32`.
    pub open spec fn spec_nearest_i32(self) -> int {
        clip(self.nearest(1), i32::MIN as int, i32::MAX as int)
    }

    /// The number as a 64-bit signed integer, if it is an integer in that range.
    pub open spec fn spec_as_i64(self) -> Option<i64> {
        match self {
            Number::PosInt(u) => if u <= i64::MAX as u64 {
                Some(u as i64)
            } else {
                None
            },
            Number::NegInt(i) => Some(i),
            Number::Float(_) => None,
        }
    }

    /// The number as a 64-bit signed integer, if it is an integer in that range.
    /// A binary64 value is never one, whatever it holds.
    pub fn as_i64(&self) -> (r: Option<i64>)
        ensures
            r == self.spec_as_i64(),
    {
        match self {
            Number::PosInt(u) => if *u <= 0x7fff_ffff_ffff_ffff {
                Some(*u as i64)
            } else {
                None
            },
            Number::NegInt(i) => Some(*i),
            Number::Float(_) => None,
        }
    }

    /// Whether the number is below zero.
    pub fn negative(&self) -> (r: bool)
        ensures
            r == self.is_negative(),
    {
        match self {
            Number::PosInt(_) => false,
            Number::NegInt(i) => *i < 0,
            Number::Float(bits) => *bits >= SIGN_BIT && significand(*bits) > 0,
        }
    }

    /// Whether the number is zero.
    pub fn zero(&self) -> (r: bool)
        ensures
            r == self.is_zero(),
    {
        match self {
            Number::PosInt(u) => *u == 0,
            Number::NegInt(i) => *i == 0,
            Number::Float(bits) => significand(*bits) == 0,
        }
    }

    /// Whether the number is above zero.
    pub fn positive(&self) -> (r: bool)
        ensures
            r == self.is_positive(),
    {
        !self.negative() && !self.zero()
    }

    /// Whether the number is a whole number.
    pub fn whole(&self) -> (r: bool)
        ensures
            r == self.is_whole(),
    {
        match self {
            Number::Float(bits) => float_whole(*bits),
            _ => true,
        }
    }

    /// Whether the number is below `bound`.
    pub fn below(&self, bound: u32) -> (r: bool)
        ensures
            r == self.is_below(bound as nat),
    {
        self.negative() || self.magnitude(1) < bound as u128
    }

    /// Whether the number is at most `bound`.
    pub fn at_most(&self, bound: u32) -> (r: bool)
        ensures
            r == self.is_at_most(bound as nat),
    {
        if self.negative() {
            true
        } else {
            let whole_part: u128 = self.magnitude(1);
            whole_part < bound as u128 || (whole_part == bound as u128 && self.whole())
        }
    }

    /// The integer part of `|self| * scale`, counted up to `MAGNITUDE_LIMIT`.
    pub fn magnitude(&self, scale: u16) -> (r: u128)
        ensures
            r == clip(self.scaled(scale as nat) as int, 0, MAGNITUDE_LIMIT as int),
    {
        match self {
            Number::PosInt(u) => {
                proof {
                    lemma_product_bound(*u as int, scale as int, u64::MAX as int, u16::MAX as int);
                }
                let product: u128 = (*u as u128) * (scale as u128);
                if product > MAGNITUDE_LIMIT {
                    MAGNITUDE_LIMIT
                } else {
                    product
                }
            },
            Number::NegInt(i) => {
                let size: u128 = if *i < 0 {
                    ((-(*i as i128)) as u128)
                } else {
                    *i as u128
                };
                proof {
                    lemma_product_bound(size as int, scale as int, SIGN_BIT as int, u16::MAX as int);
                }
                let product: u128 = size * (scale as u128);
                if product > MAGNITUDE_LIMIT {
                    MAGNITUDE_LIMIT
                } else {
                    product
                }
            },
            Number::Float(bits) => float_magnitude(*bits, scale),
        }
    }

    /// `self` in thousandths, rounded to the nearest one, a half going away
    /// from zero, and held within the range of `i64`.
    pub fn thousandths(&self) -> (r: i64)
        ensures
            r == self.spec_thousandths(),
    {
        let doubled: u128 = self.magnitude(2000);
        let half_up: u128 = (doubled + 1) / 2;
        if self.negative() {
            if half_up >= 0x8000_0000_0000_0000 {
                i64::MIN
            } else {
                -(half_up as i64)
            }
        } else {
            if half_up > 0x7fff_ffff_ffff_ffff {
                i64::MAX
            } else {
                half_up as i64
            }
        }
    }

    /// The integer nearest to `self`, a half going away from zero, held within
    /// the range of `i32`.
    pub fn nearest_i32(&self) -> (r: i32)
        ensures
            r == self.spec_nearest_i32(),
    {
        let doubled: u128 = self.magnitude(2);
        let half_up: u128 = (doubled + 1) / 2;
        if self.negative() {
            if half_up >= 0x8000_0000 {
                i32::MIN
            } else {
                -(half_up as i32)
            }
        } else {
            if half_up > 0x7fff_ffff {
                i32::MAX
            } else {
                half_up as i32
            }
        }
    }
}

/// The significand of a binary64 bit pattern.
fn significand(bits: u64) -> (m: u64)
    ensures
        m == float_significand(bits),
        m < 2 * FRACTION_SPAN,
{
    let exponent: u64 = (bits / FRACTION_SPAN) % 2048;
    let fraction: u64 = bits % FRACTION_SPAN;
    if exponent == 0 {
        fraction
    } else {
        fraction + FRACTION_SPAN
    }
}

/// Whether a binary64 bit pattern stands for a whole number.
fn float_whole(bits: u64) -> (r: bool)
    ensures
        r == float_is_whole(bits),
{
    let exponent: u64 = (bits / FRACTION_SPAN) % 2048;
    let m: u64 = significand(bits);
    if exponent >= 1075 {
        true
    } else {
        let down: u64 = if exponent == 0 {
            1074
        } else {
            1075 - exponent
        };
        if down >= 64 {
            proof {
                lemma_pow2_100();
                if down > 64 {
                    lemma_pow2_strictly_increases(64, down as nat);
                }
                lemma_small_mod(m as nat, pow2(down as nat));
            }
            m == 0
        } else {
            let divisor: u128 = power_of_two(down as u32);
            proof {
                lemma_pow2_pos(down as nat);
            }
            (m as u128) % divisor == 0
        }
    }
}

/// A product of bounded factors is bounded by the product of the bounds.
proof fn lemma_product_bound(a: int, b: int, a_max: int, b_max: int)
    by (nonlinear_arith)
    requires
        0 <= a <= a_max,
        0 <= b <= b_max,
    ensures
        0 <= a * b <= a_max * b_max,
{
}

/// Two to the power `k`.
fn power_of_two(k: u32) -> (r: u128)
    requires
        k <= 100,
    ensures
        r == pow2(k as nat),
        r <= pow2(100),
{
    let mut r: u128 = 1;
    let mut i: u32 = 0;
    proof {
        lemma2_to64();
    }
    while i < k
        invariant
            i <= k <= 100,
            r == pow2(i as nat),
        decreases k - i,
    {
        proof {
            lemma_pow2_unfold((i + 1) as nat);
            lemma_pow2_bound((i + 1) as nat);
        }
        r = r * 2;
        i = i + 1;
    }
    proof {
        lemma_pow2_bound(k as nat);
    }
    r
}

/// Powers of two up to the 100th stay below two to the 101st.
proof fn lemma_pow2_bound(e: nat)
    requires
        e <= 100,
    ensures
        pow2(e) <= pow2(100) < 0x20_0000_0000_0000_0000_0000_0000,
{
    lemma_pow2_100();
    if e < 100 {
        lemma_pow2_strictly_increases(e, 100);
    }
}

/// The value of two to the 100th.
proof fn lemma_pow2_100()
    ensures
        pow2(100) == 0x10_0000_0000_0000_0000_0000_0000,
        pow2(64) == 0x1_0000_0000_0000_0000,
        pow2(36) == 0x10_0000_0000,
{
    lemma2_to64();
    vstd::arithmetic::power2::lemma_pow2_adds(32, 4);
    vstd::arithmetic::power2::lemma_pow2_adds(64, 36);
}

/// Scaled by zero, every binary64 value is zero.
proof fn lemma_zero_scaled(bits: u64)
    ensures
        float_scaled(bits, 0) == 0,
{
    let shift = float_shift(bits);
    assert(float_significand(bits) * 0 == 0);
    if shift >= 0 {
        assert(0 * pow2(shift as nat) == 0);
    } else {
        lemma_pow2_pos((-shift) as nat);
        lemma_basic_div(0, pow2((-shift) as nat) as int);
    }
}

/// The integer part of `magnitude * scale` for a binary64 bit pattern,
/// counted up to `MAGNITUDE_LIMIT`.
fn float_magnitude(bits: u64, scale: u16) -> (r: u128)
    ensures
        r == clip(float_scaled(bits, scale as nat) as int, 0, MAGNITUDE_LIMIT as int),
{
    if scale == 0 {
        proof {
            lemma_zero_scaled(bits);
        }
        return 0;
    }
    let exponent: u64 = (bits / FRACTION_SPAN) % 2048;
    let fraction: u64 = bits % FRACTION_SPAN;
    let significand: u64 = if exponent == 0 {
        fraction
    } else {
        fraction + FRACTION_SPAN
    };
    proof {
        lemma_product_bound(significand as int, scale as int, 0x1f_ffff_ffff_ffff, u16::MAX as int);
    }
    let product: u128 = (significand as u128) * (scale as u128);
    assert(product == float_significand(bits) * (scale as nat));
    assert(product < 0x20_0000_0000_0000 * 0x1_0000);
    if exponent >= 1075 {
        let up: u64 = exponent - 1075;
        if up >= 12 {
            proof {
                lemma_pow2_100();
                lemma2_to64();
                if up > 12 {
                    lemma_pow2_strictly_increases(12, up as nat);
                }
                assert(product >= 0x10_0000_0000_0000) by (nonlinear_arith)
                    requires
                        product == (significand as u128) * (scale as u128),
                        significand >= 0x10_0000_0000_0000,
                        scale >= 1,
                ;
                assert(product * pow2(up as nat) >= 0x10_0000_0000_0000 * 0x1000) by (nonlinear_arith)
                    requires
                        product >= 0x10_0000_0000_0000,
                        pow2(up as nat) >= 0x1000,
                ;
            }
            MAGNITUDE_LIMIT
        } else {
            let factor: u128 = power_of_two(up as u32);
            proof {
                lemma2_to64();
                if up < 11 {
                    lemma_pow2_strictly_increases(up as nat, 11);
                }
                assert(product * factor < 0x20_0000_0000_0000 * 0x1_0000 * 0x1000) by (nonlinear_arith)
                    requires
                        product < 0x20_0000_0000_0000 * 0x1_0000,
                        factor <= 0x800,
                ;
            }
            let whole: u128 = product * factor;
            if whole > MAGNITUDE_LIMIT {
                MAGNITUDE_LIMIT
            } else {
                whole
            }
        }
    } else {
        let down: u64 = if exponent == 0 {
            1074
        } else {
            1075 - exponent
        };
        if down >= 100 {
            proof {
                lemma_pow2_100();
                if down > 100 {
                    lemma_pow2_strictly_increases(100, down as nat);
                }
                lemma_basic_div(product as int, pow2(down as nat) as int);
            }
            0
        } else {
            let divisor: u128 = power_of_two(down as u32);
            proof {
                lemma_pow2_pos(down as nat);
            }
            let whole: u128 = product / divisor;
            if whole > MAGNITUDE_LIMIT {
                MAGNITUDE_LIMIT
            } else {
                whole
            }
        }
    }
}

} // verus!
