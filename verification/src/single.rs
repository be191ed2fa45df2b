//! Single-precision numbers as bit patterns.
//!
//! A pattern has a sign bit, eight exponent bits and twenty-three fraction
//! bits. Every finite number of this format is a whole multiple of
//! 2^-149, so its size is modelled exactly by a natural number, the
//! magnitude, counted in that unit. Comparing and cutting to a whole number
//! are then statements about integers.

use vstd::prelude::*;
use vstd::arithmetic::div_mod::{
    lemma_basic_div,
    lemma_div_by_multiple,
    lemma_div_multiples_vanish_quotient,
};
use vstd::arithmetic::mul::{
    lemma_mul_basics,
    lemma_mul_is_associative,
    lemma_mul_is_commutative,
    lemma_mul_nonnegative,
};
use vstd::arithmetic::power2::{
    lemma2_to64,
    lemma_pow2_adds,
    lemma_pow2_pos,
    lemma_pow2_strictly_increases,
    lemma_pow2_unfold,
    pow2,
};
use vstd::bits::{
    lemma_u64_mul_pow2_le_max_iff_max_shr,
    lemma_u64_shl_is_mul,
    lemma_u64_shr_is_div,
};

verus! {

/// A single-precision number, held as its 32-bit pattern.
///
/// Two patterns can stand for equal numbers (the two zeros), and a pattern
/// that is not a number equals nothing, itself included; so the type has no
/// `==` of its own. Compare the `bits` for identity and use `is_above` for
/// order.
#[derive(Clone, Copy, Debug)]
pub struct Single {
    pub bits: u32,
}

/// The zero whose bits are all clear.
pub open spec fn zero() -> Single {
    Single { bits: 0 }
}

impl Single {
    /// The sign bit is set.
    pub open spec fn negative(self) -> bool {
        self.bits >= 0x8000_0000
    }

    /// The eight exponent bits, as a number below 256.
    pub open spec fn exponent(self) -> nat {
        ((self.bits as nat) / 0x80_0000) % 256
    }

    /// The twenty-three fraction bits, as a number below 2^23.
    pub open spec fn fraction(self) -> nat {
        (self.bits as nat) % 0x80_0000
    }

    /// The pattern without its sign bit: exponent and fraction read as one
    /// number.
    pub open spec fn rank(self) -> nat {
        (self.bits as nat) % 0x8000_0000
    }

    /// The pattern is not a number.
    pub open spec fn nan(self) -> bool {
        self.exponent() == 255 && self.fraction() != 0
    }

    /// The pattern is an infinity.
    pub open spec fn infinite(self) -> bool {
        self.exponent() == 255 && self.fraction() == 0
    }

    /// The digits of the number: the fraction bits, with the hidden leading
    /// one in front of them unless the exponent bits are all zero.
    pub open spec fn digits(self) -> nat {
        if self.exponent() == 0 {
            self.fraction()
        } else {
            0x80_0000 + self.fraction()
        }
    }

    /// How many binary places the digits stand above the unit 2^-149.
    pub open spec fn weight(self) -> nat {
        if self.exponent() == 0 {
            0
        } else {
            (self.exponent() - 1) as nat
        }
    }

    /// The absolute value in units of 2^-149.
    ///
    /// Exact for every finite pattern. For an infinity the same formula gives
    /// 2^277, which lies above every finite magnitude, so that comparing
    /// magnitudes puts the infinities where they belong.
    pub open spec fn magnitude(self) -> nat {
        self.digits() * pow2(self.weight())
    }

    /// The value in units of 2^-149, with its sign.
    pub open spec fn scaled(self) -> int {
        if self.negative() {
            -(self.magnitude() as int)
        } else {
            self.magnitude() as int
        }
    }

    /// Strictly above zero: a number, not negative and not a zero.
    pub open spec fn positive(self) -> bool {
        !self.nan() && self.scaled() > 0
    }

    /// The format's comparison `self > other`: false as soon as either side is
    /// not a number, the order of the values otherwise. The two zeros are
    /// equal.
    pub open spec fn above(self, other: Single) -> bool {
        !self.nan() && !other.nan() && self.scaled() > other.scaled()
    }

    /// The whole part of the value times 2^shift; 0 for what is negative or
    /// not a number.
    pub open spec fn floor_scaled(self, shift: nat) -> nat {
        if self.nan() || self.negative() {
            0
        } else {
            self.magnitude() * pow2(shift) / pow2(149)
        }
    }

    /// Whether the pattern is not a number.
    pub fn is_nan(&self) -> (r: bool)
        ensures
            r == self.nan(),
    {
        self.bits % 0x8000_0000 > 0x7f80_0000
    }

    /// Whether the value is strictly above zero.
    pub fn is_positive(&self) -> (r: bool)
        ensures
            r == self.positive(),
    {
        proof {
            lemma_positive_by_pattern(*self);
        }
        0 < self.bits && self.bits <= 0x7f80_0000
    }

    /// Whether the value is greater than that of `other`, as the format
    /// compares.
    pub fn is_above(&self, other: &Single) -> (r: bool)
        ensures
            r == self.above(*other),
    {
        if self.is_nan() || other.is_nan() {
            return false;
        }
        let mine: u32 = self.bits % 0x8000_0000;
        let theirs: u32 = other.bits % 0x8000_0000;
        proof {
            lemma_magnitude_follows_rank(*self, *other);
            lemma_magnitude_follows_rank(*other, *self);
            lemma_positive_by_pattern(*self);
            lemma_positive_by_pattern(*other);
        }
        if self.bits >= 0x8000_0000 {
            other.bits >= 0x8000_0000 && mine < theirs
        } else if other.bits >= 0x8000_0000 {
            mine > 0 || theirs > 0
        } else {
            mine > theirs
        }
    }

    /// The whole part of the value times 2^shift, but no more than `cap`.
    ///
    /// What is negative or not a number gives 0, and an infinity gives
    /// `cap`: a cast that saturates, followed by a minimum.
    pub fn capped_floor(&self, shift: u32, cap: u64) -> (r: u64)
        ensures
            r as nat == if self.floor_scaled(shift as nat) <= cap {
                self.floor_scaled(shift as nat)
            } else {
                cap as nat
            },
            self.infinite() && !self.negative() ==> r == cap,
    {
        if self.is_nan() || self.bits >= 0x8000_0000 {
            return 0;
        }
        let field: u32 = self.bits / 0x80_0000;
        let fraction: u32 = self.bits % 0x80_0000;
        let digits: u64 = if field == 0 {
            fraction as u64
        } else {
            fraction as u64 + 0x80_0000
        };
        let weight: u64 = if field == 0 {
            0
        } else {
            (field - 1) as u64
        };
        let lift: u64 = weight + shift as u64;
        proof {
            assert(self.digits() == digits);
            assert(self.weight() == weight);
        }
        if lift >= 149 {
            let up: u64 = lift - 149;
            proof {
                lemma_floor_by_pattern(*self, shift as nat, up as nat);
            }
            if digits == 0 {
                proof {
                    lemma_mul_basics(pow2(up as nat) as int);
                }
                0
            } else if up >= 64 {
                proof {
                    lemma_large_power(digits as nat, up as nat);
                }
                cap
            } else {
                proof {
                    lemma_u64_mul_pow2_le_max_iff_max_shr(digits, up, cap);
                }
                if digits > (cap >> up) {
                    cap
                } else {
                    proof {
                        lemma_u64_shl_is_mul(digits, up);
                    }
                    digits << up
                }
            }
        } else {
            let down: u64 = 149 - lift;
            proof {
                lemma_floor_by_pattern(*self, shift as nat, down as nat);
            }
            if down >= 24 {
                proof {
                    lemma_small_digits(digits as nat, down as nat);
                }
                0
            } else {
                proof {
                    lemma_u64_shr_is_div(digits, down);
                }
                let whole: u64 = digits >> down;
                if whole > cap {
                    cap
                } else {
                    whole
                }
            }
        }
    }
}

/// Patterns order their magnitudes: of two patterns, sign bits aside, the
/// one that is the larger number as a pattern has the larger magnitude.
pub proof fn lemma_magnitude_follows_rank(a: Single, b: Single)
    ensures
        a.rank() < b.rank() ==> a.magnitude() < b.magnitude(),
        a.rank() == b.rank() ==> a.magnitude() == b.magnitude(),
{
    let ea = a.exponent();
    let eb = b.exponent();
    let da = a.digits();
    let db = b.digits();
    let p = pow2(a.weight());
    let q = pow2(b.weight());
    assert(a.rank() == ea * 0x80_0000 + a.fraction());
    assert(b.rank() == eb * 0x80_0000 + b.fraction());
    lemma_pow2_pos(a.weight());
    lemma_pow2_pos(b.weight());
    if a.rank() < b.rank() {
        if a.weight() == b.weight() {
            assert(da < db);
            assert(da * p < db * p) by (nonlinear_arith)
                requires
                    da < db,
                    p > 0,
            ;
        } else {
            assert(a.weight() < b.weight());
            lemma_pow2_unfold(a.weight() + 1);
            if a.weight() + 1 < b.weight() {
                lemma_pow2_strictly_increases(a.weight() + 1, b.weight());
            }
            assert(2 * p <= q);
            assert(da * p < db * q) by (nonlinear_arith)
                requires
                    da < 0x100_0000,
                    db >= 0x80_0000,
                    p > 0,
                    2 * p <= q,
            ;
        }
    }
}

/// A value is above zero exactly when its pattern lies above that of zero
/// and no higher than that of the positive infinity.
pub proof fn lemma_positive_by_pattern(x: Single)
    ensures
        x.positive() <==> 0 < x.bits <= 0x7f80_0000,
{
    lemma_magnitude_follows_rank(zero(), x);
    lemma_mul_basics(pow2(0) as int);
}

/// To be above the zero whose bits are all clear is to be above zero.
pub proof fn lemma_above_zero(x: Single)
    ensures
        x.above(zero()) <==> x.positive(),
{
    lemma_mul_basics(pow2(0) as int);
}

/// Numbers that are not negative compare as their patterns do.
pub proof fn lemma_above_by_pattern(a: Single, b: Single)
    requires
        !a.nan(),
        !b.nan(),
        !a.negative(),
        !b.negative(),
    ensures
        a.above(b) <==> a.bits > b.bits,
{
    lemma_magnitude_follows_rank(a, b);
    lemma_magnitude_follows_rank(b, a);
}

/// The whole part of a value times a power of two, from its digits: they
/// move up by as many places as weight and shift together exceed 149, or
/// down by as many as they fall short of it.
pub proof fn lemma_floor_by_pattern(x: Single, shift: nat, places: nat)
    requires
        !x.nan(),
        !x.negative(),
    ensures
        x.weight() + shift == 149 + places ==> x.floor_scaled(shift) == x.digits() * pow2(places),
        x.weight() + shift + places == 149 ==> x.floor_scaled(shift) == x.digits() / pow2(places),
{
    let digits = x.digits();
    let lift = x.weight() + shift;
    lemma_pow2_adds(x.weight(), shift);
    lemma_mul_is_associative(digits as int, pow2(x.weight()) as int, pow2(shift) as int);
    assert(x.floor_scaled(shift) == digits * pow2(lift) / pow2(149));
    lemma_pow2_pos(149);
    lemma_pow2_pos(lift);
    lemma_pow2_pos(places);
    if lift == 149 + places {
        lemma_pow2_adds(places, 149);
        lemma_mul_is_associative(digits as int, pow2(places) as int, pow2(149) as int);
        lemma_mul_nonnegative(digits as int, pow2(places) as int);
        lemma_div_by_multiple((digits * pow2(places)) as int, pow2(149) as int);
    }
    if lift + places == 149 {
        lemma_pow2_adds(lift, places);
        lemma_mul_is_commutative(digits as int, pow2(lift) as int);
        lemma_div_multiples_vanish_quotient(pow2(lift) as int, digits as int, pow2(places) as int);
    }
}

/// A positive number times 2^64 or more is beyond 64 bits.
proof fn lemma_large_power(digits: nat, up: nat)
    requires
        digits > 0,
        up >= 64,
    ensures
        digits * pow2(up) > u64::MAX,
{
    lemma2_to64();
    if up > 64 {
        lemma_pow2_strictly_increases(64, up);
    }
    let p = pow2(up);
    assert(digits * p >= p) by (nonlinear_arith)
        requires
            digits > 0,
            p >= 0,
    ;
}

/// Twenty-four digits divided by 2^24 or more leave nothing.
proof fn lemma_small_digits(digits: nat, down: nat)
    requires
        digits < 0x100_0000,
        down >= 24,
    ensures
        digits / pow2(down) == 0,
{
    lemma2_to64();
    if down > 24 {
        lemma_pow2_strictly_increases(24, down);
    }
    lemma_basic_div(digits as int, pow2(down) as int);
}

} // verus!
