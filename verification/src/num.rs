//! IEEE 754 binary64 numbers, computed on their bit patterns.
//!
//! A [`Num`] holds the 64 bits of a number. Its operations round to nearest with
//! ties to even; their meaning is given over exact integers, in units of 2^-1074
//! (see [`crate::rounding`]). All NaNs that an operation produces are the same
//! quiet NaN.
use vstd::prelude::*;
use vstd::arithmetic::power2::*;
use vstd::arithmetic::mul::*;
use vstd::arithmetic::div_mod::*;
use crate::rounding;
use crate::rounding::{BINADE, INFINITY};

verus! {

/// The sign bit: patterns from here on are negative.
pub const SIGN: u64 = 0x8000_0000_0000_0000;

/// The quiet NaN that operations return.
pub const QUIET_NAN: u64 = 0x7FF8_0000_0000_0000;

/// A binary64 number.
#[derive(Clone, Copy, Debug)]
pub struct Num {
    pub bits: u64,
}

impl View for Num {
    type V = Num;

    open spec fn view(&self) -> Num {
        *self
    }
}

/// The number with this bit pattern.
pub open spec fn spec_num(bits: u64) -> Num {
    Num { bits }
}

/// The number with this bit pattern.
#[verifier::when_used_as_spec(spec_num)]
pub fn num(bits: u64) -> (n: Num)
    ensures
        n == spec_num(bits),
{
    Num { bits }
}

impl Num {
    pub open spec fn spec_negative(self) -> bool {
        self.bits >= SIGN
    }

    pub open spec fn spec_magnitude(self) -> u64 {
        if self.bits >= SIGN {
            (self.bits - SIGN) as u64
        } else {
            self.bits
        }
    }

    pub open spec fn spec_nan(self) -> bool {
        self.spec_magnitude() > INFINITY
    }

    pub open spec fn spec_infinite(self) -> bool {
        self.spec_magnitude() == INFINITY
    }

    pub open spec fn finite(self) -> bool {
        self.spec_magnitude() < INFINITY
    }

    /// The distance from zero in units, for a finite number.
    pub open spec fn size(self) -> nat {
        rounding::units(self.spec_magnitude() as nat)
    }

    /// The value in units, for a finite number.
    pub open spec fn value(self) -> int {
        if self.spec_negative() {
            -(self.size() as int)
        } else {
            self.size() as int
        }
    }

    /// The place of a number in the order of all numbers; both zeros share one.
    pub open spec fn rank(self) -> int {
        if self.spec_negative() {
            -(self.spec_magnitude() as int)
        } else {
            self.spec_magnitude() as int
        }
    }

    /// The number with this sign and magnitude.
    pub open spec fn spec_signed(negative: bool, magnitude: u64) -> Num {
        if negative {
            Num { bits: (SIGN + magnitude) as u64 }
        } else {
            Num { bits: magnitude }
        }
    }

    #[verifier::opaque]
    pub open spec fn spec_plus(self, other: Num) -> Num {
        if self.spec_nan() || other.spec_nan() {
            Num { bits: QUIET_NAN }
        } else if self.spec_infinite() {
            if other.spec_infinite() && other.spec_negative() != self.spec_negative() {
                Num { bits: QUIET_NAN }
            } else {
                self
            }
        } else if other.spec_infinite() {
            other
        } else {
            let s = self.value() + other.value();
            if s == 0 {
                Num::spec_signed(self.spec_negative() && other.spec_negative(), 0)
            } else if s > 0 {
                Num::spec_signed(false, rounding::encode(s as nat, 1) as u64)
            } else {
                Num::spec_signed(true, rounding::encode((-s) as nat, 1) as u64)
            }
        }
    }

    pub open spec fn spec_negated(self) -> Num {
        Num::spec_signed(!self.spec_negative(), self.spec_magnitude())
    }

    pub open spec fn spec_minus(self, other: Num) -> Num {
        self.spec_plus(other.spec_negated())
    }

    #[verifier::opaque]
    pub open spec fn spec_times(self, other: Num) -> Num {
        let negative = self.spec_negative() != other.spec_negative();
        if self.spec_nan() || other.spec_nan() {
            Num { bits: QUIET_NAN }
        } else if self.spec_infinite() || other.spec_infinite() {
            if self.spec_magnitude() == 0 || other.spec_magnitude() == 0 {
                Num { bits: QUIET_NAN }
            } else {
                Num::spec_signed(negative, INFINITY)
            }
        } else {
            Num::spec_signed(
                negative,
                rounding::encode(self.size() * other.size(), pow2(1074)) as u64,
            )
        }
    }

    #[verifier::opaque]
    pub open spec fn spec_over(self, other: Num) -> Num {
        let negative = self.spec_negative() != other.spec_negative();
        if self.spec_nan() || other.spec_nan() {
            Num { bits: QUIET_NAN }
        } else if self.spec_infinite() {
            if other.spec_infinite() {
                Num { bits: QUIET_NAN }
            } else {
                Num::spec_signed(negative, INFINITY)
            }
        } else if other.spec_infinite() {
            Num::spec_signed(negative, 0)
        } else if other.spec_magnitude() == 0 {
            if self.spec_magnitude() == 0 {
                Num { bits: QUIET_NAN }
            } else {
                Num::spec_signed(negative, INFINITY)
            }
        } else {
            Num::spec_signed(
                negative,
                rounding::encode(self.size() * pow2(1074), other.size()) as u64,
            )
        }
    }

    /// Whether `self < other`; false where either is NaN.
    pub open spec fn spec_below(self, other: Num) -> bool {
        !self.spec_nan() && !other.spec_nan() && self.rank() < other.rank()
    }

    /// Whether `self <= other`; false where either is NaN.
    pub open spec fn spec_at_most(self, other: Num) -> bool {
        !self.spec_nan() && !other.spec_nan() && self.rank() <= other.rank()
    }

    pub open spec fn spec_magnitude_only(self) -> Num {
        Num { bits: self.spec_magnitude() }
    }

    pub open spec fn spec_larger(self, other: Num) -> Num {
        if self.spec_nan() {
            other
        } else if other.spec_nan() {
            self
        } else if self.rank() < other.rank() {
            other
        } else {
            self
        }
    }

    pub open spec fn spec_smaller(self, other: Num) -> Num {
        if self.spec_nan() {
            other
        } else if other.spec_nan() {
            self
        } else if other.rank() < self.rank() {
            other
        } else {
            self
        }
    }

    pub open spec fn spec_within(self, low: Num, high: Num) -> Num {
        if self.spec_below(low) {
            low
        } else if high.spec_below(self) {
            high
        } else {
            self
        }
    }

    #[verifier::opaque]
    pub open spec fn spec_from_u64(n: u64) -> Num {
        Num { bits: rounding::encode(n as nat * pow2(1074), 1) as u64 }
    }

    #[verifier::opaque]
    pub open spec fn spec_from_i32(n: i32) -> Num {
        if n < 0 {
            Num::spec_signed(true, rounding::encode((-n) as nat * pow2(1074), 1) as u64)
        } else {
            Num::spec_signed(false, rounding::encode(n as nat * pow2(1074), 1) as u64)
        }
    }

    /// The nearest integer, halves away from zero; infinities and NaNs stay.
    #[verifier::opaque]
    pub open spec fn spec_rounded(self) -> Num {
        if !self.finite() {
            self
        } else {
            let one = pow2(1074);
            let q = (2 * self.size() + one) / (2 * one);
            Num::spec_signed(self.spec_negative(), rounding::encode(q * one, 1) as u64)
        }
    }

    /// The integer part, brought into `low..=high`; zero for NaN.
    pub open spec fn truncated(self, low: int, high: int) -> int {
        let whole = self.size() / pow2(1074);
        if self.spec_nan() {
            0
        } else if self.spec_negative() {
            if self.spec_infinite() || -whole < low {
                low
            } else {
                -whole
            }
        } else {
            if self.spec_infinite() || whole > high {
                high
            } else {
                whole as int
            }
        }
    }

    #[verifier::opaque]
    pub open spec fn spec_to_i32(self) -> i32 {
        self.truncated(i32::MIN as int, i32::MAX as int) as i32
    }

    #[verifier::opaque]
    pub open spec fn spec_to_i64(self) -> i64 {
        self.truncated(i64::MIN as int, i64::MAX as int) as i64
    }

    /// The number with this sign and magnitude.
    #[verifier::when_used_as_spec(spec_signed)]
    pub fn signed(negative: bool, magnitude: u64) -> (n: Num)
        requires
            magnitude < SIGN,
        ensures
            n == Num::spec_signed(negative, magnitude),
    {
        if negative {
            Num { bits: SIGN + magnitude }
        } else {
            Num { bits: magnitude }
        }
    }

    /// Whether the sign bit is set.
    #[verifier::when_used_as_spec(spec_negative)]
    pub fn negative(self) -> (b: bool)
        ensures
            b == self.spec_negative(),
    {
        self.bits >= SIGN
    }

    /// The bit pattern without its sign.
    #[verifier::when_used_as_spec(spec_magnitude)]
    pub fn magnitude(self) -> (m: u64)
        ensures
            m == self.spec_magnitude(),
            m < SIGN,
    {
        if self.bits >= SIGN {
            self.bits - SIGN
        } else {
            self.bits
        }
    }

    /// Whether this is not a number.
    #[verifier::when_used_as_spec(spec_nan)]
    pub fn nan(self) -> (b: bool)
        ensures
            b == self.spec_nan(),
    {
        self.magnitude() > INFINITY
    }

    /// Whether this is one of the two infinities.
    #[verifier::when_used_as_spec(spec_infinite)]
    pub fn infinite(self) -> (b: bool)
        ensures
            b == self.spec_infinite(),
    {
        self.magnitude() == INFINITY
    }

    /// `self < other`.
    #[verifier::when_used_as_spec(spec_below)]
    pub fn below(self, other: Num) -> (b: bool)
        ensures
            b == self.spec_below(other),
    {
        if self.nan() || other.nan() {
            false
        } else if self.negative() {
            if other.negative() {
                other.magnitude() < self.magnitude()
            } else {
                self.magnitude() != 0 || other.magnitude() != 0
            }
        } else {
            !other.negative() && self.magnitude() < other.magnitude()
        }
    }

    /// `self <= other`.
    #[verifier::when_used_as_spec(spec_at_most)]
    pub fn at_most(self, other: Num) -> (b: bool)
        ensures
            b == self.spec_at_most(other),
    {
        if self.nan() || other.nan() {
            false
        } else {
            !other.below(self)
        }
    }

    /// `-self`.
    #[verifier::when_used_as_spec(spec_negated)]
    pub fn negated(self) -> (n: Num)
        ensures
            n == self.spec_negated(),
    {
        Num::signed(!self.negative(), self.magnitude())
    }

    /// The absolute value.
    #[verifier::when_used_as_spec(spec_magnitude_only)]
    pub fn absolute(self) -> (n: Num)
        ensures
            n == self.spec_magnitude_only(),
    {
        Num { bits: self.magnitude() }
    }

    /// The larger of two numbers, or the one that is a number.
    #[verifier::when_used_as_spec(spec_larger)]
    pub fn larger(self, other: Num) -> (n: Num)
        ensures
            n == self.spec_larger(other),
    {
        if self.nan() {
            other
        } else if other.nan() {
            self
        } else if self.below(other) {
            other
        } else {
            self
        }
    }

    /// The smaller of two numbers, or the one that is a number.
    #[verifier::when_used_as_spec(spec_smaller)]
    pub fn smaller(self, other: Num) -> (n: Num)
        ensures
            n == self.spec_smaller(other),
    {
        if self.nan() {
            other
        } else if other.nan() {
            self
        } else if other.below(self) {
            other
        } else {
            self
        }
    }

    /// The number brought into `low..=high`; NaN stays.
    #[verifier::when_used_as_spec(spec_within)]
    pub fn within(self, low: Num, high: Num) -> (n: Num)
        ensures
            n == self.spec_within(low, high),
    {
        if self.below(low) {
            low
        } else if high.below(self) {
            high
        } else {
            self
        }
    }

    /// The significand and exponent of a finite magnitude.
    pub fn split(magnitude: u64) -> (parts: (u64, u32))
        requires
            magnitude < INFINITY,
        ensures
            rounding::units(magnitude as nat) == parts.0 as nat * pow2(parts.1 as nat),
            parts.0 < 2 * BINADE,
            parts.1 <= 2045,
            magnitude > 0 <==> parts.0 > 0,
            parts.1 > 0 ==> parts.0 >= BINADE,
            magnitude == parts.1 * BINADE + parts.0,
    {
        proof {
            lemma2_to64();
        }
        if magnitude < BINADE {
            assert(magnitude as nat * pow2(0) == magnitude);
            (magnitude, 0)
        } else {
            (BINADE + magnitude % BINADE, (magnitude / BINADE - 1) as u32)
        }
    }

    /// `self * other`.
    #[verifier::when_used_as_spec(spec_times)]
    pub fn times(self, other: Num) -> (n: Num)
        ensures
            n == self.spec_times(other),
    {
        proof {
            reveal(Num::spec_times);
        }
        let negative: bool = self.negative() != other.negative();
        if self.nan() || other.nan() {
            return Num { bits: QUIET_NAN };
        }
        if self.infinite() || other.infinite() {
            if self.magnitude() == 0 || other.magnitude() == 0 {
                return Num { bits: QUIET_NAN };
            }
            return Num::signed(negative, INFINITY);
        }
        let (a, ae): (u64, u32) = Num::split(self.magnitude());
        let (b, be): (u64, u32) = Num::split(other.magnitude());
        assert(a * b < 0x20_0000_0000_0000 * 0x20_0000_0000_0000) by (nonlinear_arith)
            requires
                a < 0x20_0000_0000_0000,
                b < 0x20_0000_0000_0000,
        ;
        let p: u128 = a as u128 * b as u128;
        let e: i32 = ae as i32 + be as i32 - 1074;
        let m: u64 = rounding::round_scaled(p, e);
        proof {
            lemma_product(a as nat, ae as nat, b as nat, be as nat);
        }
        Num::signed(negative, m)
    }

    /// `self / other`.
    #[verifier::when_used_as_spec(spec_over)]
    pub fn over(self, other: Num) -> (n: Num)
        ensures
            n == self.spec_over(other),
    {
        proof {
            reveal(Num::spec_over);
        }
        let negative: bool = self.negative() != other.negative();
        if self.nan() || other.nan() {
            return Num { bits: QUIET_NAN };
        }
        if self.infinite() {
            if other.infinite() {
                return Num { bits: QUIET_NAN };
            }
            return Num::signed(negative, INFINITY);
        }
        if other.infinite() {
            return Num::signed(negative, 0);
        }
        if other.magnitude() == 0 {
            if self.magnitude() == 0 {
                return Num { bits: QUIET_NAN };
            }
            return Num::signed(negative, INFINITY);
        }
        proof {
            lemma_units_positive(other.magnitude() as nat);
        }
        if self.magnitude() == 0 {
            proof {
                rounding::lemma_encode_zero(other.size());
                assert(self.size() == 0);
                assert(0 * pow2(1074) == 0);
            }
            return Num::signed(negative, 0);
        }
        let (a, ae): (u64, u32) = Num::split(self.magnitude());
        let (b, be): (u64, u32) = Num::split(other.magnitude());
        let m: u64 = Num::quotient(a, ae, b, be);
        Num::signed(negative, m)
    }

    /// The magnitude nearest to `(a * 2^ae) / (b * 2^be)`.
    fn quotient(a: u64, ae: u32, b: u64, be: u32) -> (m: u64)
        requires
            0 < a < 2 * BINADE,
            0 < b < 2 * BINADE,
            ae <= 2045,
            be <= 2045,
        ensures
            m == rounding::encode(
                a as nat * pow2(ae as nat) * pow2(1074),
                b as nat * pow2(be as nat),
            ),
            m <= INFINITY,
    {
        let len: u32 = rounding::count_bits(a as u128);
        proof {
            lemma2_to64_rest();
            rounding::lemma_bit_length_bounds(a as nat);
            if len > 53 {
                if len > 54 {
                    lemma_pow2_strictly_increases(53, (len - 1) as nat);
                }
                assert(false);
            }
        }
        let s: u32 = 126 - len;
        let f: u128 = rounding::power_of_two(s);
        proof {
            rounding::lemma_bit_length_shift(a as nat, s as nat);
            rounding::lemma_bit_length_bounds(a as nat * pow2(s as nat));
            rounding::lemma_pow2_below_128(126);
            lemma_pow2_unfold(127);
        }
        let n: u128 = a as u128 * f;
        let q: u128 = n / (b as u128);
        let r: u128 = n % (b as u128);
        proof {
            lemma_fundamental_div_mod(n as int, b as int);
            lemma_quotient_length(n as nat, b as nat);
            assert(q <= n) by (nonlinear_arith)
                requires
                    n == b * q + r,
                    b > 0,
                    r >= 0,
                    q >= 0,
            ;
        }
        let sticky: u128 = if r != 0 {
            1
        } else {
            0
        };
        let top: u128 = q * 2 + sticky;
        let e: i32 = ae as i32 + 1074 - be as i32 - s as i32;
        let m: u64 = rounding::round_scaled(top, e - 1);
        proof {
            lemma_sticky(n as nat, b as nat, e as int);
            lemma_quotient(a as nat, ae as nat, b as nat, be as nat, s as nat);
        }
        m
    }

    /// `self + other`.
    #[verifier::when_used_as_spec(spec_plus)]
    pub fn plus(self, other: Num) -> (n: Num)
        ensures
            n == self.spec_plus(other),
    {
        proof {
            reveal(Num::spec_plus);
        }
        if self.nan() || other.nan() {
            return Num { bits: QUIET_NAN };
        }
        if self.infinite() {
            if other.infinite() && other.negative() != self.negative() {
                return Num { bits: QUIET_NAN };
            }
            return self;
        }
        if other.infinite() {
            return other;
        }
        if self.magnitude() < other.magnitude() {
            Num::total(other, self)
        } else {
            Num::total(self, other)
        }
    }

    /// The sum of two finite numbers, the larger magnitude first.
    fn total(big: Num, small: Num) -> (n: Num)
        requires
            big.finite(),
            small.finite(),
            big.spec_magnitude() >= small.spec_magnitude(),
        ensures
            n == big.spec_plus(small),
            n == small.spec_plus(big),
    {
        proof {
            reveal(Num::spec_plus);
        }
        let (a, ae): (u64, u32) = Num::split(big.magnitude());
        let (b, be): (u64, u32) = Num::split(small.magnitude());
        if small.magnitude() == 0 {
            if big.magnitude() == 0 {
                return Num::signed(big.negative() && small.negative(), 0);
            }
            proof {
                lemma_units_positive(big.magnitude() as nat);
                lemma_encode_units(big.magnitude() as nat);
            }
            return big;
        }
        proof {
            lemma_units_positive(big.magnitude() as nat);
            lemma_units_positive(small.magnitude() as nat);
            assert(ae >= be) by (nonlinear_arith)
                requires
                    ae * BINADE + a >= be * BINADE + b,
                    a < 2 * BINADE,
                    b < 2 * BINADE,
                    ae > 0 ==> a >= BINADE,
                    be > 0 ==> b >= BINADE,
                    BINADE == 0x10_0000_0000_0000,
            ;
        }
        let same: bool = big.negative() == small.negative();
        let gap: u32 = ae - be;
        if gap > 70 {
            proof {
                lemma_far_apart(a as nat, ae as nat, b as nat, be as nat);
            }
            return big;
        }
        let f: u128 = rounding::power_of_two(gap);
        proof {
            lemma2_to64();
            lemma_pow2_adds(6, 64);
            if gap < 70 {
                lemma_pow2_strictly_increases(gap as nat, 70);
            }
            assert(a * f <= 0x20_0000_0000_0000 * 0x40_0000_0000_0000_0000) by (nonlinear_arith)
                requires
                    a <= 0x20_0000_0000_0000,
                    f <= 0x40_0000_0000_0000_0000,
            ;
            lemma_aligned(a as nat, ae as nat, b as nat, be as nat);
        }
        let wide: u128 = a as u128 * f;
        if same {
            let m: u64 = rounding::round_scaled(wide + b as u128, be as i32);
            assert(m == rounding::encode(big.size() + small.size(), 1));
            Num::signed(big.negative(), m)
        } else {
            if wide == b as u128 {
                return Num::signed(false, 0);
            }
            proof {
                assert(wide >= b) by {
                    lemma_units_monotone(small.magnitude() as nat, big.magnitude() as nat);
                    lemma_pow2_pos(be as nat);
                    assert(wide >= b) by (nonlinear_arith)
                        requires
                            wide * pow2(be as nat) >= b * pow2(be as nat),
                            pow2(be as nat) > 0,
                    ;
                }
            }
            let rest: u128 = wide - b as u128;
            let m: u64 = rounding::round_scaled(rest, be as i32);
            proof {
                lemma_pow2_pos(be as nat);
                assert(rest * pow2(be as nat) > 0) by (nonlinear_arith)
                    requires
                        rest > 0,
                        pow2(be as nat) > 0,
                ;
                assert(m == rounding::encode((big.size() - small.size()) as nat, 1));
            }
            Num::signed(big.negative(), m)
        }
    }

    /// `self - other`.
    #[verifier::when_used_as_spec(spec_minus)]
    pub fn minus(self, other: Num) -> (n: Num)
        ensures
            n == self.spec_minus(other),
    {
        self.plus(other.negated())
    }

    /// The number nearest to an unsigned integer.
    #[verifier::when_used_as_spec(spec_from_u64)]
    pub fn from_u64(n: u64) -> (r: Num)
        ensures
            r == Num::spec_from_u64(n),
    {
        proof {
            reveal(Num::spec_from_u64);
        }
        Num { bits: rounding::round_scaled(n as u128, 1074) }
    }

    /// The number nearest to a signed integer, which is the integer itself.
    #[verifier::when_used_as_spec(spec_from_i32)]
    pub fn from_i32(n: i32) -> (r: Num)
        ensures
            r == Num::spec_from_i32(n),
    {
        proof {
            reveal(Num::spec_from_i32);
        }
        if n < 0 {
            Num::signed(true, rounding::round_scaled((-(n as i64)) as u128, 1074))
        } else {
            Num::signed(false, rounding::round_scaled(n as u128, 1074))
        }
    }

    /// The nearest integer, halves away from zero.
    #[verifier::when_used_as_spec(spec_rounded)]
    pub fn rounded(self) -> (r: Num)
        ensures
            r == self.spec_rounded(),
    {
        proof {
            reveal(Num::spec_rounded);
        }
        if self.magnitude() >= INFINITY {
            return self;
        }
        let (a, ae): (u64, u32) = Num::split(self.magnitude());
        if ae >= 1074 {
            proof {
                lemma_round_whole(a as nat, ae as nat);
                lemma_encode_units(self.magnitude() as nat);
            }
            return self;
        }
        let s: u32 = 1074 - ae;
        proof {
            lemma_round_part(a as nat, ae as nat);
        }
        if s > 55 {
            proof {
                lemma2_to64_rest();
                lemma_pow2_strictly_increases(55, s as nat);
                rounding::lemma_division(
                    2 * a as nat + pow2(s as nat),
                    2 * pow2(s as nat),
                    0,
                    2 * a as nat + pow2(s as nat),
                );
                rounding::lemma_encode_zero(1);
                assert(0 * pow2(1074) == 0);
            }
            return Num::signed(self.negative(), 0);
        }
        let f: u128 = rounding::power_of_two(s);
        proof {
            lemma2_to64_rest();
            if s < 55 {
                lemma_pow2_strictly_increases(s as nat, 55);
            }
            lemma_pow2_pos(s as nat);
        }
        let q: u128 = (2 * a as u128 + f) / (2 * f);
        proof {
            lemma_div_nonincreasing((2 * a + f) as int, (2 * f) as int);
        }
        Num::signed(self.negative(), rounding::round_scaled(q, 1074))
    }

    /// The integer part of the size of a finite number, with everything from 2^64
    /// on counted as 2^64.
    fn whole_part(magnitude: u64) -> (w: u128)
        requires
            magnitude < INFINITY,
        ensures
            ({
                let whole = rounding::units(magnitude as nat) / pow2(1074);
                w == if whole < 0x1_0000_0000_0000_0000 {
                    whole
                } else {
                    0x1_0000_0000_0000_0000
                }
            }),
    {
        let (a, ae): (u64, u32) = Num::split(magnitude);
        proof {
            lemma2_to64();
            lemma2_to64_rest();
            lemma_pow2_pos(1074);
        }
        if ae >= 1074 {
            let s: u32 = ae - 1074;
            proof {
                lemma_pow2_adds(s as nat, 1074);
                assert(a as nat * (pow2(s as nat) * pow2(1074)) == (a as nat * pow2(s as nat)) * pow2(
                    1074,
                )) by (nonlinear_arith);
                rounding::lemma_division(
                    a as nat * pow2(ae as nat),
                    pow2(1074),
                    a as nat * pow2(s as nat),
                    0,
                );
            }
            if s >= 12 {
                proof {
                    if s > 12 {
                        lemma_pow2_strictly_increases(12, s as nat);
                    }
                    assert(a * pow2(s as nat) >= 0x10_0000_0000_0000 * 0x1000) by (nonlinear_arith)
                        requires
                            a >= 0x10_0000_0000_0000,
                            pow2(s as nat) >= 0x1000,
                    ;
                }
                return 0x1_0000_0000_0000_0000;
            }
            let f: u128 = rounding::power_of_two(s);
            proof {
                lemma_pow2_strictly_increases(s as nat, 12);
                assert(a * f < 0x20_0000_0000_0000 * 0x1000) by (nonlinear_arith)
                    requires
                        a < 0x20_0000_0000_0000,
                        0 < f < 0x1000,
                ;
            }
            let w: u128 = a as u128 * f;
            if w < 0x1_0000_0000_0000_0000 {
                w
            } else {
                0x1_0000_0000_0000_0000
            }
        } else {
            let s: u32 = 1074 - ae;
            proof {
                lemma_pow2_adds(s as nat, ae as nat);
                lemma_pow2_pos(ae as nat);
                lemma_pow2_pos(s as nat);
                rounding::lemma_nearest_scale(a as nat, pow2(s as nat), pow2(ae as nat));
            }
            if s >= 53 {
                proof {
                    if s > 53 {
                        lemma_pow2_strictly_increases(53, s as nat);
                    }
                    rounding::lemma_division(a as nat, pow2(s as nat), 0, a as nat);
                }
                return 0;
            }
            let f: u128 = rounding::power_of_two(s);
            proof {
                lemma_div_nonincreasing(a as int, f as int);
            }
            a as u128 / f
        }
    }

    /// The integer part as a 32-bit integer, saturating; zero for NaN.
    #[verifier::when_used_as_spec(spec_to_i32)]
    pub fn to_i32(self) -> (r: i32)
        ensures
            r == self.spec_to_i32(),
    {
        proof {
            reveal(Num::spec_to_i32);
        }
        if self.nan() {
            return 0;
        }
        if self.infinite() {
            return if self.negative() {
                i32::MIN
            } else {
                i32::MAX
            };
        }
        let w: u128 = Num::whole_part(self.magnitude());
        if self.negative() {
            if w > 0x8000_0000 {
                i32::MIN
            } else {
                (-(w as i64)) as i32
            }
        } else {
            if w > 0x7FFF_FFFF {
                i32::MAX
            } else {
                w as i32
            }
        }
    }

    /// The integer part as a 64-bit integer, saturating; zero for NaN.
    #[verifier::when_used_as_spec(spec_to_i64)]
    pub fn to_i64(self) -> (r: i64)
        ensures
            r == self.spec_to_i64(),
    {
        proof {
            reveal(Num::spec_to_i64);
        }
        if self.nan() {
            return 0;
        }
        if self.infinite() {
            return if self.negative() {
                i64::MIN
            } else {
                i64::MAX
            };
        }
        let w: u128 = Num::whole_part(self.magnitude());
        if self.negative() {
            if w > 0x8000_0000_0000_0000 {
                i64::MIN
            } else {
                (-(w as i128)) as i64
            }
        } else {
            if w > 0x7FFF_FFFF_FFFF_FFFF {
                i64::MAX
            } else {
                w as i64
            }
        }
    }
}

/// Rounding a number that is an integer already.
proof fn lemma_round_whole(a: nat, ae: nat)
    requires
        ae >= 1074,
    ensures
        (2 * (a * pow2(ae)) + pow2(1074)) / (2 * pow2(1074)) * pow2(1074) == a * pow2(ae),
{
    let one = pow2(1074);
    let s = (ae - 1074) as nat;
    lemma_pow2_pos(1074);
    lemma_pow2_adds(s, 1074);
    assert(a * (pow2(s) * one) == (a * pow2(s)) * one) by (nonlinear_arith);
    let w = a * pow2(s);
    assert(2 * (w * one) + one == w * (2 * one) + one) by (nonlinear_arith);
    rounding::lemma_division(2 * (w * one) + one, 2 * one, w, one);
}

/// Rounding a number with digits behind the point.
proof fn lemma_round_part(a: nat, ae: nat)
    requires
        ae < 1074,
    ensures
        ({
            let s = (1074 - ae) as nat;
            (2 * (a * pow2(ae)) + pow2(1074)) / (2 * pow2(1074)) == (2 * a + pow2(s)) / (2 * pow2(s))
        }),
{
    let s = (1074 - ae) as nat;
    let c = pow2(ae);
    lemma_pow2_pos(ae);
    lemma_pow2_pos(s);
    lemma_pow2_adds(s, ae);
    let p = pow2(s);
    assert(2 * (a * c) + p * c == (2 * a + p) * c) by (nonlinear_arith);
    assert(2 * (p * c) == (2 * p) * c) by (nonlinear_arith);
    rounding::lemma_nearest_scale(2 * a + p, 2 * p, c);
}

/// Sizes grow with magnitudes.
pub proof fn lemma_units_monotone(x: nat, y: nat)
    requires
        x <= y,
    ensures
        rounding::units(x) <= rounding::units(y),
{
    let h = BINADE as nat;
    if x < h && y >= h {
        let e = (y / h - 1) as nat;
        lemma_pow2_pos(e);
        assert(h + y % h <= (h + y % h) * pow2(e)) by (nonlinear_arith)
            requires
                pow2(e) >= 1,
        ;
    } else if x >= h {
        let ex = (x / h - 1) as nat;
        let ey = (y / h - 1) as nat;
        let sx = h + x % h;
        let sy = h + y % h;
        lemma_pow2_pos(ex);
        if ex == ey {
            assert(sx * pow2(ex) <= sy * pow2(ex)) by (nonlinear_arith)
                requires
                    sx <= sy,
            ;
        } else {
            lemma_pow2_unfold((ex + 1) as nat);
            if ex + 1 < ey {
                lemma_pow2_strictly_increases((ex + 1) as nat, ey);
            }
            assert(sx * pow2(ex) <= sy * pow2(ey)) by (nonlinear_arith)
                requires
                    sx <= 2 * h,
                    sy >= h,
                    pow2(ey) >= 2 * pow2(ex),
                    pow2(ex) >= 0,
            ;
        }
    }
}

/// The product of two split numbers, as `round_scaled` sees it.
proof fn lemma_product(a: nat, ae: nat, b: nat, be: nat)
    ensures
        rounding::encode((a * pow2(ae)) * (b * pow2(be)), pow2(1074)) == rounding::encode(
            rounding::scaled_numerator(a * b, ae + be - 1074),
            rounding::scaled_denominator(ae + be - 1074),
        ),
{
    let e = ae + be - 1074;
    lemma_pow2_adds(ae, be);
    assert((a * pow2(ae)) * (b * pow2(be)) == (a * b) * (pow2(ae) * pow2(be))) by (nonlinear_arith);
    if e >= 0 {
        lemma_pow2_adds(e as nat, 1074);
        lemma_pow2_pos(1074);
        assert((a * b) * (pow2(e as nat) * pow2(1074)) == ((a * b) * pow2(e as nat)) * pow2(1074))
            by (nonlinear_arith);
        rounding::lemma_encode_scale((a * b) * pow2(e as nat), 1, pow2(1074));
        assert(1 * pow2(1074) == pow2(1074));
    } else {
        lemma_pow2_adds((-e) as nat, ae + be);
        lemma_pow2_pos(ae + be);
        lemma_pow2_pos((-e) as nat);
        rounding::lemma_encode_scale(a * b, pow2((-e) as nat), pow2(ae + be));
    }
}

/// The sum or difference of two split numbers, as `round_scaled` sees it.
proof fn lemma_aligned(a: nat, ae: nat, b: nat, be: nat)
    requires
        ae >= be,
    ensures
        a * pow2(ae) == (a * pow2((ae - be) as nat)) * pow2(be),
        a * pow2(ae) + b * pow2(be) == (a * pow2((ae - be) as nat) + b) * pow2(be),
        a * pow2(ae) - b * pow2(be) == (a * pow2((ae - be) as nat) - b) * pow2(be),
{
    lemma_pow2_adds((ae - be) as nat, be);
    let f = pow2((ae - be) as nat);
    let g = pow2(be);
    assert(a * (f * g) == (a * f) * g) by (nonlinear_arith);
    assert((a * f) * g + b * g == (a * f + b) * g) by (nonlinear_arith);
    assert((a * f) * g - b * g == (a * f - b) * g) by (nonlinear_arith);
}

/// Adding or subtracting something far below the last digit changes nothing.
proof fn lemma_far_apart(a: nat, ae: nat, b: nat, be: nat)
    requires
        BINADE <= a < 2 * BINADE,
        0 < b < 2 * BINADE,
        ae > be + 70,
        ae <= 2045,
    ensures
        rounding::encode(a * pow2(ae) + b * pow2(be), 1) == ae * BINADE + a,
        a * pow2(ae) > b * pow2(be),
        rounding::encode((a * pow2(ae) - b * pow2(be)) as nat, 1) == ae * BINADE + a,
{
    let big = pow2(ae);
    let delta = b * pow2(be);
    lemma2_to64_rest();
    lemma_pow2_pos(be);
    lemma_pow2_adds(53, be);
    lemma_pow2_unfold(ae);
    let half = pow2((ae - 1) as nat);
    lemma_pow2_unfold((ae - 1) as nat);
    let quarter = pow2((ae - 2) as nat);
    lemma_pow2_strictly_increases(53 + be, (ae - 2) as nat);
    assert(0 < delta < 0x20_0000_0000_0000 * pow2(be)) by (nonlinear_arith)
        requires
            delta == b * pow2(be),
            0 < b < 0x20_0000_0000_0000,
            pow2(be) > 0,
    ;
    assert(0 < delta < quarter);
    assert(big == 2 * half && half == 2 * quarter);
    let whole = a * big;
    assert(whole >= big) by (nonlinear_arith)
        requires
            whole == a * big,
            a >= 1,
    ;
    lemma_pow2_adds(52, ae);
    lemma_pow2_adds(53, ae);
    // Upwards.
    let up = whole + delta;
    assert(up / 1 == up);
    assert(0x10_0000_0000_0000 * big <= up < 0x20_0000_0000_0000 * big) by (nonlinear_arith)
        requires
            up == a * big + delta,
            0x10_0000_0000_0000 <= a < 0x20_0000_0000_0000,
            0 <= delta < big,
    ;
    rounding::lemma_bit_length_unique(up, (53 + ae) as nat);
    rounding::lemma_division(up, big, a, delta);
    assert(1 * big == big);
    assert(rounding::encode(up, 1) == ae * BINADE + a);
    // Downwards.
    let down = (whole - delta) as nat;
    assert(down / 1 == down);
    if a > BINADE {
        assert(down == (a - 1) as nat * big + (big - delta)) by (nonlinear_arith)
            requires
                down == a * big - delta,
                a >= 1,
        ;
        assert(0x10_0000_0000_0000 * big <= down < 0x20_0000_0000_0000 * big) by (nonlinear_arith)
            requires
                down == (a - 1) * big + (big - delta),
                0x10_0000_0000_0001 <= a < 0x20_0000_0000_0000,
                0 < delta < big,
        ;
        rounding::lemma_bit_length_unique(down, (53 + ae) as nat);
        rounding::lemma_division(down, big, (a - 1) as nat, (big - delta) as nat);
    } else {
        lemma_pow2_adds(52, (ae - 1) as nat);
        lemma_pow2_adds(51, ae);
        assert(pow2((51 + ae) as nat) == 0x8_0000_0000_0000 * big);
        assert(down == 0x1F_FFFF_FFFF_FFFF * half + (half - delta));
        rounding::lemma_bit_length_unique(down, (52 + ae) as nat);
        rounding::lemma_division(down, half, 0x1F_FFFF_FFFF_FFFF, (half - delta) as nat);
        assert(1 * half == half);
        assert((ae - 1) * BINADE + 0x20_0000_0000_0000 == ae * BINADE + a);
    }
}

/// A 126-digit number divided by a significand keeps at least 73 digits.
proof fn lemma_quotient_length(n: nat, b: nat)
    requires
        rounding::bit_length(n) == 126,
        0 < b < 2 * BINADE,
    ensures
        rounding::bit_length(n / b) >= 73,
{
    rounding::lemma_bit_length_bounds(n);
    lemma2_to64_rest();
    lemma_pow2_adds(53, 72);
    let q = n / b;
    lemma_fundamental_div_mod(n as int, b as int);
    rounding::lemma_bit_length_bounds(q);
    let l = rounding::bit_length(q);
    if l < 73 {
        if l < 72 {
            lemma_pow2_strictly_increases(l, 72);
        }
        assert(q + 1 <= pow2(72));
        let r = n % b;
        assert(n < b * (q + 1)) by (nonlinear_arith)
            requires
                n == b * q + r,
                r < b,
        ;
        assert(b * (q + 1) <= 0x20_0000_0000_0000 * pow2(72)) by (nonlinear_arith)
            requires
                b <= 0x20_0000_0000_0000,
                q + 1 <= pow2(72),
        ;
        assert(false);
    }
}

/// Rounding a quotient is rounding its floor with one more digit that says
/// whether anything was left over.
proof fn lemma_sticky(n: nat, b: nat, e: int)
    requires
        b > 0,
        rounding::bit_length(n / b) >= 73,
    ensures
        ({
            let top = (n / b) * 2 + if n % b != 0 {
                1nat
            } else {
                0nat
            };
            rounding::encode(
                rounding::scaled_numerator(top, e - 1),
                rounding::scaled_denominator(e - 1),
            ) == rounding::encode(
                rounding::scaled_numerator(n, e),
                b * rounding::scaled_denominator(e),
            )
        }),
{
    let q = n / b;
    let r = n % b;
    let s: nat = if r != 0 {
        1
    } else {
        0
    };
    let top = q * 2 + s;
    let l = rounding::bit_length(q);
    assert(top / 2 == q);
    assert(rounding::bit_length(top) == l + 1);
    lemma_fundamental_div_mod(n as int, b as int);
    // Both integer parts have the same number of digits.
    lemma_integer_parts(n, b, e);
    let k: nat = if l + e <= 53 {
        0
    } else {
        (l + e - 53) as nat
    };
    lemma_top_parts(top, e);
    let left_q = rounding::scaled_numerator(top, e - 1) / rounding::scaled_denominator(e - 1);
    let right_q = rounding::scaled_numerator(n, e) / (b * rounding::scaled_denominator(e));
    assert(rounding::excess(left_q) == k);
    assert(rounding::excess(right_q) == k);
    let t = (k - e) as nat;
    assert(t >= 20);
    lemma_top_nearest(top, e, k);
    lemma_quotient_nearest(n, b, e, k);
    lemma_sticky_nearest(n, b, t);
}

/// The digits of the integer part of `n / b * 2^e`.
proof fn lemma_integer_parts(n: nat, b: nat, e: int)
    requires
        b > 0,
        n / b > 0,
    ensures
        rounding::bit_length(
            rounding::scaled_numerator(n, e) / (b * rounding::scaled_denominator(e)),
        ) == if rounding::bit_length(n / b) + e <= 0 {
            0
        } else {
            (rounding::bit_length(n / b) + e) as nat
        },
{
    let q = n / b;
    let r = n % b;
    lemma_fundamental_div_mod(n as int, b as int);
    if e >= 0 {
        let f = pow2(e as nat);
        lemma_pow2_pos(e as nat);
        let x = (n * f) / b;
        assert(b * 1 == b);
        lemma_fundamental_div_mod((n * f) as int, b as int);
        assert(q * f <= x < (q + 1) * f) by (nonlinear_arith)
            requires
                n == b * q + r,
                0 <= r < b,
                n * f == b * x + (n * f) % b,
                0 <= (n * f) % b < b,
                f > 0,
                b > 0,
        ;
        rounding::lemma_bit_length_bounds(q);
        let l = rounding::bit_length(q);
        lemma_pow2_adds((l - 1) as nat, e as nat);
        lemma_pow2_adds(l, e as nat);
        assert(pow2((l - 1) as nat) * f <= x < pow2(l) * f) by (nonlinear_arith)
            requires
                pow2((l - 1) as nat) <= q,
                q + 1 <= pow2(l),
                q * f <= x < (q + 1) * f,
                f > 0,
        ;
        assert((l - 1) as nat + e as nat == (l + e - 1) as nat);
        rounding::lemma_bit_length_unique(x, (l + e) as nat);
    } else {
        let d = pow2((-e) as nat);
        lemma_pow2_pos((-e) as nat);
        lemma_div_denominator(n as int, b as int, d as int);
        rounding::lemma_bit_length_divide(q, (-e) as nat);
    }
}

/// The digits of the integer part of `top * 2^(e - 1)`.
proof fn lemma_top_parts(top: nat, e: int)
    requires
        top > 0,
    ensures
        rounding::bit_length(
            rounding::scaled_numerator(top, e - 1) / rounding::scaled_denominator(e - 1),
        ) == if rounding::bit_length(top) - 1 + e <= 0 {
            0
        } else {
            (rounding::bit_length(top) - 1 + e) as nat
        },
{
    rounding::lemma_scaled_length(top, e - 1);
}

/// Rounding `top * 2^(e - 1)` to a multiple of `2^k`.
proof fn lemma_top_nearest(top: nat, e: int, k: nat)
    requires
        k > e,
    ensures
        rounding::nearest(
            rounding::scaled_numerator(top, e - 1),
            rounding::scaled_denominator(e - 1) * pow2(k),
        ) == rounding::nearest(top, pow2((k - e + 1) as nat)),
{
    rounding::lemma_scaled_nearest(top, e - 1, k);
}

/// Rounding `n / b * 2^e` to a multiple of `2^k`.
proof fn lemma_quotient_nearest(n: nat, b: nat, e: int, k: nat)
    requires
        b > 0,
        k > e,
    ensures
        rounding::nearest(
            rounding::scaled_numerator(n, e),
            (b * rounding::scaled_denominator(e)) * pow2(k),
        ) == rounding::nearest(n, b * pow2((k - e) as nat)),
{
    let t = (k - e) as nat;
    lemma_pow2_pos(t);
    if e >= 0 {
        lemma_pow2_adds(t, e as nat);
        lemma_pow2_pos(e as nat);
        assert(b * pow2(t) > 0) by (nonlinear_arith)
            requires
                b > 0,
                pow2(t) > 0,
        ;
        rounding::lemma_nearest_scale(n, b * pow2(t), pow2(e as nat));
        assert((b * 1) * (pow2(t) * pow2(e as nat)) == (b * pow2(t)) * pow2(e as nat))
            by (nonlinear_arith);
    } else {
        lemma_pow2_adds((-e) as nat, k);
        assert((b * pow2((-e) as nat)) * pow2(k) == b * (pow2((-e) as nat) * pow2(k)))
            by (nonlinear_arith);
    }
}

/// The sticky digit decides halfway cases correctly.
proof fn lemma_sticky_nearest(n: nat, b: nat, t: nat)
    requires
        b > 0,
        t >= 1,
    ensures
        ({
            let top = (n / b) * 2 + if n % b != 0 {
                1nat
            } else {
                0nat
            };
            rounding::nearest(top, pow2(t + 1)) == rounding::nearest(n, b * pow2(t))
        }),
{
    let q = n / b;
    let r = n % b;
    let s: nat = if r != 0 {
        1
    } else {
        0
    };
    let top = q * 2 + s;
    lemma_fundamental_div_mod(n as int, b as int);
    lemma_pow2_unfold(t);
    lemma_pow2_unfold(t + 1);
    let h = pow2((t - 1) as nat);
    lemma_pow2_pos((t - 1) as nat);
    let d = 2 * h;
    assert(pow2(t) == d);
    assert(pow2(t + 1) == 2 * d);
    let hi = q / d;
    let lo = q % d;
    lemma_fundamental_div_mod(q as int, d as int);
    assert(top == hi * (2 * d) + (2 * lo + s)) by (nonlinear_arith)
        requires
            q == d * hi + lo,
            top == q * 2 + s,
    ;
    rounding::lemma_division(top, 2 * d, hi, 2 * lo + s);
    assert(n == hi * (b * d) + (b * lo + r)) by (nonlinear_arith)
        requires
            q == d * hi + lo,
            n == b * q + r,
    ;
    assert(b * lo + r < b * d) by (nonlinear_arith)
        requires
            lo + 1 <= d,
            r < b,
    ;
    rounding::lemma_division(n, b * d, hi, b * lo + r);
    if lo < h {
        assert(2 * (b * lo + r) < b * d) by (nonlinear_arith)
            requires
                lo + 1 <= h,
                r < b,
                d == 2 * h,
        ;
    } else {
        assert(2 * (b * lo + r) >= b * d && (2 * (b * lo + r) == b * d <==> lo == h && r == 0))
            by (nonlinear_arith)
            requires
                lo >= h,
                r >= 0,
                b > 0,
                d == 2 * h,
        ;
    }
}

/// The quotient of two split numbers, with the dividend lengthened by `s` digits.
proof fn lemma_quotient(a: nat, ae: nat, b: nat, be: nat, s: nat)
    requires
        b > 0,
    ensures
        ({
            let e = ae + 1074 - be - s;
            rounding::encode((a * pow2(ae)) * pow2(1074), b * pow2(be)) == rounding::encode(
                rounding::scaled_numerator(a * pow2(s), e),
                b * rounding::scaled_denominator(e),
            )
        }),
{
    let e = ae + 1074 - be - s;
    let n = a * pow2(s);
    lemma_pow2_pos(s);
    lemma_pow2_pos(be);
    lemma_pow2_adds(ae, 1074);
    lemma_pow2_pos((ae + 1074) as nat);
    assert((a * pow2(ae)) * pow2(1074) == a * (pow2(ae) * pow2(1074))) by (nonlinear_arith);
    if e >= 0 {
        lemma_pow2_adds(s, e as nat);
        lemma_pow2_adds(s + e as nat, be);
        assert(a * ((pow2(s) * pow2(e as nat)) * pow2(be)) == ((a * pow2(s)) * pow2(e as nat)) * pow2(
            be,
        )) by (nonlinear_arith);
        assert(b * 1 == b);
        rounding::lemma_encode_scale(n * pow2(e as nat), b, pow2(be));
    } else {
        // be + s == ae + 1074 + (-e)
        lemma_pow2_adds((ae + 1074) as nat, (-e) as nat);
        lemma_pow2_adds(be, s);
        lemma_pow2_pos((-e) as nat);
        let x = pow2((ae + 1074) as nat);
        let y = pow2((-e) as nat);
        assert(b * y > 0) by (nonlinear_arith)
            requires
                b > 0,
                y > 0,
        ;
        assert(b * pow2(be) > 0) by (nonlinear_arith)
            requires
                b > 0,
                pow2(be) > 0,
        ;
        // a * x / (b * 2^be) scaled by 2^s is (a * 2^s) * x / (b * y * x)
        rounding::lemma_encode_scale(a * x, b * pow2(be), pow2(s));
        rounding::lemma_encode_scale(n, b * y, x);
        assert((a * x) * pow2(s) == (a * pow2(s)) * x) by (nonlinear_arith);
        assert((b * pow2(be)) * pow2(s) == (b * y) * x) by (nonlinear_arith)
            requires
                pow2(be) * pow2(s) == x * y,
        ;
    }
}


/// Zero has no size, and everything else has some.
proof fn lemma_units_positive(m: nat)
    requires
        m > 0,
    ensures
        rounding::units(m) > 0,
{
    if m >= BINADE {
        let e = (m / (BINADE as nat) - 1) as nat;
        lemma_pow2_pos(e);
        assert((BINADE as nat + m % (BINADE as nat)) * pow2(e) > 0) by (nonlinear_arith)
            requires
                BINADE as nat + m % (BINADE as nat) > 0,
                pow2(e) > 0,
        ;
    }
}

/// A finite magnitude is its own nearest one.
pub proof fn lemma_encode_units(m: nat)
    requires
        m < INFINITY,
    ensures
        rounding::encode(rounding::units(m), 1) == m,
{
    let n = rounding::units(m);
    assert(n / 1 == n);
    lemma2_to64();
    lemma2_to64_rest();
    if m < 2 * BINADE {
        if m >= BINADE {
            assert(m / (BINADE as nat) == 1 && m % (BINADE as nat) == m - BINADE);
            assert(n == (BINADE as nat + m % (BINADE as nat)) * 1);
        }
        rounding::lemma_bit_length_bounds(n);
        let l = rounding::bit_length(n);
        if l > 53 {
            if l > 54 {
                lemma_pow2_strictly_increases(53, (l - 1) as nat);
            }
        }
        assert(rounding::nearest(n, 1 * pow2(0)) == n) by {
            assert(n % 1 == 0);
        }
    } else {
        let sig = BINADE as nat + m % (BINADE as nat);
        let e = (m / (BINADE as nat) - 1) as nat;
        rounding::lemma_bit_length_unique(sig, 53);
        rounding::lemma_bit_length_shift(sig, e);
        lemma_pow2_pos(e);
        rounding::lemma_division(sig * pow2(e), pow2(e), sig, 0);
        assert(1 * pow2(e) == pow2(e));
        assert(e * BINADE as nat + sig == m);
    }
}

} // verus!
