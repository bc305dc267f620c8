//! Rounding of exact ratios to the binary64 grid.
//!
//! Every finite binary64 number is an integer multiple of 2^-1074, which is
//! called a *unit* here. The magnitude of a number (its bit pattern without the
//! sign) is the position of the number among all non-negative ones, and
//! [`encode`] says which magnitude is nearest to a given ratio of units.
use vstd::prelude::*;
use vstd::arithmetic::power2::*;
use vstd::arithmetic::mul::*;
use vstd::arithmetic::div_mod::*;

verus! {

/// The bit pattern of positive infinity; the magnitudes above it are NaNs.
pub const INFINITY: u64 = 0x7FF0_0000_0000_0000;

/// The number of magnitudes that share one exponent: 2^52.
pub const BINADE: u64 = 0x10_0000_0000_0000;

/// The exponent of one in units: 1.0 is 2^1074 units.
pub const ONE_EXPONENT: u32 = 1074;

/// The nearest integer to `n / d`; halfway cases go to the even neighbour.
pub open spec fn nearest(n: nat, d: nat) -> nat {
    let q = n / d;
    let r = n % d;
    if 2 * r < d || (2 * r == d && q % 2 == 0) {
        q
    } else {
        q + 1
    }
}

/// How many binary digits `n` has; zero has none.
pub open spec fn bit_length(n: nat) -> nat
    decreases n,
{
    if n == 0 {
        0
    } else {
        1 + bit_length(n / 2)
    }
}

/// How many of the low digits of a number with integer part `q` do not fit in
/// the 53 digits of a significand.
pub open spec fn excess(q: nat) -> nat {
    if bit_length(q) <= 53 {
        0
    } else {
        (bit_length(q) - 53) as nat
    }
}

/// The magnitude of the binary64 number nearest to `n / d` units.
pub open spec fn encode(n: nat, d: nat) -> nat {
    let k = excess(n / d);
    let b = k * BINADE as nat + nearest(n, d * pow2(k));
    if b >= INFINITY {
        INFINITY as nat
    } else {
        b
    }
}

/// The value of a finite magnitude, in units.
pub open spec fn units(m: nat) -> nat {
    if m < BINADE {
        m
    } else {
        (BINADE as nat + m % (BINADE as nat)) * pow2((m / (BINADE as nat) - 1) as nat)
    }
}

/// A bit length bounds its number from both sides.
pub proof fn lemma_bit_length_bounds(n: nat)
    ensures
        n < pow2(bit_length(n)),
        n > 0 ==> bit_length(n) >= 1 && pow2((bit_length(n) - 1) as nat) <= n,
    decreases n,
{
    if n == 0 {
        lemma2_to64();
    } else {
        lemma_bit_length_bounds(n / 2);
        lemma_pow2_unfold(bit_length(n));
        if n / 2 == 0 {
            lemma2_to64();
        } else {
            lemma_pow2_unfold((bit_length(n) - 1) as nat);
        }
    }
}

/// A number between two consecutive powers of two has a known bit length.
pub proof fn lemma_bit_length_unique(n: nat, len: nat)
    requires
        len >= 1,
        pow2((len - 1) as nat) <= n < pow2(len),
    ensures
        bit_length(n) == len,
{
    lemma_bit_length_bounds(n);
    lemma_pow2_pos((len - 1) as nat);
    let b = bit_length(n);
    if b < len {
        if b < len - 1 {
            lemma_pow2_strictly_increases(b, (len - 1) as nat);
        }
    }
    if b > len {
        if len < b - 1 {
            lemma_pow2_strictly_increases(len, (b - 1) as nat);
        }
    }
}

/// Multiplying by a power of two adds digits.
pub proof fn lemma_bit_length_shift(n: nat, e: nat)
    requires
        n > 0,
    ensures
        n * pow2(e) > 0,
        bit_length(n * pow2(e)) == bit_length(n) + e,
{
    lemma_bit_length_bounds(n);
    let len = bit_length(n);
    lemma_pow2_pos(e);
    lemma_pow2_adds((len - 1) as nat, e);
    lemma_pow2_adds(len, e);
    assert(pow2((len - 1) as nat) * pow2(e) <= n * pow2(e) < pow2(len) * pow2(e)) by (nonlinear_arith)
        requires
            pow2((len - 1) as nat) <= n < pow2(len),
            pow2(e) > 0,
    ;
    lemma_pow2_pos((len - 1) as nat + e);
    assert((len - 1) as nat + e == (len + e - 1) as nat);
    lemma_bit_length_unique(n * pow2(e), len + e);
}

/// Dividing by a power of two removes digits.
pub proof fn lemma_bit_length_divide(n: nat, e: nat)
    ensures
        bit_length(n / pow2(e)) == if bit_length(n) <= e { 0 } else { (bit_length(n) - e) as nat },
    decreases e,
{
    lemma_pow2_pos(e);
    if e == 0 {
        lemma2_to64();
        assert(n / 1 == n);
    } else {
        lemma_bit_length_divide(n / 2, (e - 1) as nat);
        lemma_pow2_unfold(e);
        lemma_pow2_pos((e - 1) as nat);
        lemma_div_denominator(n as int, 2, pow2((e - 1) as nat) as int);
        assert(n / pow2(e) == (n / 2) / pow2((e - 1) as nat));
        if n == 0 {
            assert(bit_length(0nat / 2) == 0);
        }
    }
}

/// Euclidean division is determined by its quotient and remainder.
pub proof fn lemma_division(n: nat, d: nat, q: nat, r: nat)
    requires
        n == q * d + r,
        r < d,
    ensures
        n / d == q,
        n % d == r,
{
    lemma_mul_is_commutative(q as int, d as int);
    lemma_fundamental_div_mod_converse(n as int, d as int, q as int, r as int);
}

/// A common factor does not change the nearest integer.
pub proof fn lemma_nearest_scale(n: nat, d: nat, c: nat)
    requires
        d > 0,
        c > 0,
    ensures
        d * c > 0,
        (n * c) / (d * c) == n / d,
        nearest(n * c, d * c) == nearest(n, d),
{
    let q = n / d;
    let r = n % d;
    lemma_fundamental_div_mod(n as int, d as int);
    assert(n == d * q + r);
    assert(n * c == q * (d * c) + r * c) by (nonlinear_arith)
        requires
            n == d * q + r,
    ;
    assert(r * c < d * c && d * c > 0) by (nonlinear_arith)
        requires
            r < d,
            c > 0,
    ;
    lemma_division(n * c, d * c, q, r * c);
    assert((2 * r < d) == (2 * (r * c) < d * c)) by (nonlinear_arith)
        requires
            c > 0,
    ;
    assert((2 * r == d) == (2 * (r * c) == d * c)) by (nonlinear_arith)
        requires
            c > 0,
    ;
}

/// A common factor does not change the encoding of a ratio.
pub proof fn lemma_encode_scale(n: nat, d: nat, c: nat)
    requires
        d > 0,
        c > 0,
    ensures
        encode(n * c, d * c) == encode(n, d),
{
    lemma_nearest_scale(n, d, c);
    let k = excess(n / d);
    lemma_pow2_pos(k);
    assert(d * pow2(k) > 0) by (nonlinear_arith)
        requires
            d > 0,
            pow2(k) > 0,
    ;
    lemma_nearest_scale(n, d * pow2(k), c);
    assert((d * c) * pow2(k) == (d * pow2(k)) * c) by (nonlinear_arith);
}


/// Half of a power of two is a power of two, so a remainder that is too small
/// rounds away.
proof fn lemma_nearest_vanishes(n: nat, d: nat)
    requires
        2 * n < d,
    ensures
        nearest(n, d) == 0,
{
    lemma_division(n, d, 0, n);
}

/// What a whole number of steps rounds to.
proof fn lemma_nearest_exact(q: nat, d: nat)
    requires
        d > 0,
    ensures
        nearest(q * d, d) == q,
{
    lemma_division(q * d, d, q, 0);
}

/// The number of digits of `p`.
pub fn count_bits(p: u128) -> (len: u32)
    ensures
        len == bit_length(p as nat),
        len <= 128,
{
    let mut rest: u128 = p;
    let mut len: u32 = 0;
    proof {
        lemma_bit_length_bounds(p as nat);
        lemma_u128_bit_length(p);
    }
    while rest != 0
        invariant
            len + bit_length(rest as nat) == bit_length(p as nat),
            bit_length(p as nat) <= 128,
        decreases rest,
    {
        rest = rest / 2;
        len = len + 1;
    }
    len
}

/// A 128-bit number has at most 128 digits.
proof fn lemma_u128_bit_length(p: u128)
    ensures
        bit_length(p as nat) <= 128,
{
    let n = p as nat;
    lemma_bit_length_bounds(n);
    if bit_length(n) > 128 {
        lemma2_to64();
        lemma_pow2_adds(64, 64);
        assert(0x1_0000_0000_0000_0000 * 0x1_0000_0000_0000_0000
            == 0x1_0000_0000_0000_0000_0000_0000_0000_0000) by (nonlinear_arith);
        assert(pow2(64) == 0x1_0000_0000_0000_0000) by {
            lemma2_to64_rest();
        }
        if bit_length(n) - 1 > 128 {
            lemma_pow2_strictly_increases(128, (bit_length(n) - 1) as nat);
        }
    }
}

/// Two to the power `e`.
pub fn power_of_two(e: u32) -> (p: u128)
    requires
        e < 128,
    ensures
        p == pow2(e as nat),
{
    proof {
        lemma2_to64();
        lemma_pow2_below_128(e as nat);
    }
    let mut p: u128 = 1;
    let mut i: u32 = 0;
    while i < e
        invariant
            i <= e < 128,
            p == pow2(i as nat),
        decreases e - i,
    {
        proof {
            lemma_pow2_unfold((i + 1) as nat);
            lemma_pow2_below_128((i + 1) as nat);
        }
        p = p * 2;
        i = i + 1;
    }
    p
}

/// The powers of two that fit in 128 bits.
pub proof fn lemma_pow2_below_128(e: nat)
    requires
        e < 128,
    ensures
        0 < pow2(e) <= 0x8000_0000_0000_0000_0000_0000_0000_0000,
        pow2(127) == 0x8000_0000_0000_0000_0000_0000_0000_0000,
{
    lemma_pow2_pos(e);
    lemma2_to64();
    lemma2_to64_rest();
    lemma_pow2_adds(63, 64);
    assert(0x8000_0000_0000_0000 * 0x1_0000_0000_0000_0000
        == 0x8000_0000_0000_0000_0000_0000_0000_0000) by (nonlinear_arith);
    if e < 127 {
        lemma_pow2_strictly_increases(e, 127);
    }
}

/// The ratio `p * 2^e`, written without negative exponents.
pub open spec fn scaled_numerator(p: nat, e: int) -> nat {
    if e >= 0 {
        p * pow2(e as nat)
    } else {
        p
    }
}

/// See [`scaled_numerator`].
pub open spec fn scaled_denominator(e: int) -> nat {
    if e >= 0 {
        1
    } else {
        pow2((-e) as nat)
    }
}

/// The digits of the integer part of `p * 2^e`.
pub proof fn lemma_scaled_length(p: nat, e: int)
    requires
        p > 0,
    ensures
        bit_length(scaled_numerator(p, e) / scaled_denominator(e)) == if bit_length(p) + e <= 0 {
            0
        } else {
            (bit_length(p) + e) as nat
        },
{
    if e >= 0 {
        lemma_bit_length_shift(p, e as nat);
        assert(scaled_numerator(p, e) / 1 == scaled_numerator(p, e));
    } else {
        lemma_bit_length_divide(p, (-e) as nat);
    }
}

/// Rounding `p * 2^e` to a multiple of `2^k` is rounding `p` to a multiple of
/// `2^(k - e)`.
pub proof fn lemma_scaled_nearest(p: nat, e: int, k: nat)
    ensures
        k >= e ==> nearest(scaled_numerator(p, e), scaled_denominator(e) * pow2(k)) == nearest(
            p,
            pow2((k - e) as nat),
        ),
        k <= e ==> nearest(scaled_numerator(p, e), scaled_denominator(e) * pow2(k)) == p * pow2(
            (e - k) as nat,
        ),
{
    lemma_pow2_pos(k);
    if k >= e {
        lemma_pow2_pos((k - e) as nat);
        if e >= 0 {
            lemma_pow2_pos(e as nat);
            lemma_pow2_adds((k - e) as nat, e as nat);
            lemma_nearest_scale(p, pow2((k - e) as nat), pow2(e as nat));
        } else {
            lemma_pow2_adds((-e) as nat, k);
        }
    }
    if k <= e {
        lemma_pow2_adds((e - k) as nat, k);
        assert(p * (pow2((e - k) as nat) * pow2(k)) == (p * pow2((e - k) as nat)) * pow2(k))
            by (nonlinear_arith);
        lemma_nearest_exact(p * pow2((e - k) as nat), pow2(k));
        assert(scaled_denominator(e) * pow2(k) == pow2(k));
    }
}

/// The magnitude of the binary64 number nearest to `p * 2^e` units.
pub fn round_scaled(p: u128, e: i32) -> (m: u64)
    requires
        p < 0x8000_0000_0000_0000_0000_0000_0000_0000,
        -5000 <= e <= 5000,
    ensures
        m == encode(scaled_numerator(p as nat, e as int), scaled_denominator(e as int)),
        m <= INFINITY,
{
    if p == 0 {
        proof {
            lemma_pow2_pos((-e) as nat);
            lemma_encode_zero(scaled_denominator(e as int));
            assert(scaled_numerator(0, e as int) == 0);
        }
        return 0;
    }
    let len: u32 = count_bits(p);
    let ghost n = scaled_numerator(p as nat, e as int);
    let ghost d = scaled_denominator(e as int);
    proof {
        lemma_scaled_length(p as nat, e as int);
        lemma_bit_length_bounds(p as nat);
    }
    let top: i32 = len as i32 + e;
    let k: i32 = if top > 53 {
        top - 53
    } else {
        0
    };
    assert(k == excess(n / d));
    proof {
        lemma_scaled_nearest(p as nat, e as int, k as nat);
    }
    if k >= 2047 {
        assert(k * BINADE as nat >= INFINITY) by (nonlinear_arith)
            requires
                k >= 2047,
                BINADE == 0x10_0000_0000_0000,
                INFINITY == 0x7FF0_0000_0000_0000,
        ;
        return INFINITY;
    }
    let t: i32 = k - e;
    let mantissa: u128 = if t <= 0 {
        proof {
            lemma2_to64_rest();
            let s = (-t) as nat;
            lemma_bit_length_shift(p as nat, s);
            lemma_bit_length_bounds(p as nat * pow2(s));
            let l = bit_length(p as nat * pow2(s));
            if l < 53 {
                lemma_pow2_strictly_increases(l, 53);
            }
            lemma_bit_length_bounds(p as nat);
            if s > 53 {
                assert(false);
            }
        }
        let f: u128 = power_of_two((-t) as u32);
        assert(p * f < 0x20_0000_0000_0000) by {
            lemma2_to64_rest();
        }
        p * f
    } else if t >= 128 {
        proof {
            lemma_pow2_below_128(127);
            lemma_pow2_unfold(128);
            if t > 128 {
                lemma_pow2_strictly_increases(128, t as nat);
            }
            lemma_nearest_vanishes(p as nat, pow2(t as nat));
        }
        0
    } else {
        let f: u128 = power_of_two(t as u32);
        proof {
            lemma_pow2_below_128(t as nat);
            lemma_short_quotient(p as nat, t as nat, len as nat);
        }
        let q: u128 = p / f;
        let r: u128 = p % f;
        let rest: u128 = f - r;
        if r < rest || (r == rest && q % 2 == 0) {
            q
        } else {
            q + 1
        }
    };
    assert(mantissa == nearest(n, d * pow2(k as nat)));
    assert(mantissa <= 0x20_0000_0000_0000);
    let b: u64 = k as u64 * BINADE + mantissa as u64;
    if b >= INFINITY {
        INFINITY
    } else {
        b
    }
}

/// Nothing rounds to nothing.
pub proof fn lemma_encode_zero(d: nat)
    requires
        d > 0,
    ensures
        encode(0, d) == 0,
{
    assert(0nat / d == 0 && 0nat % d == 0) by {
        lemma_division(0, d, 0, 0);
    }
    lemma2_to64();
    assert(d * pow2(0) == d);
    lemma_nearest_vanishes(0, d);
}

/// Removing all but 53 digits leaves at most 53 digits.
proof fn lemma_short_quotient(p: nat, t: nat, len: nat)
    requires
        bit_length(p) == len,
        len <= t + 53,
    ensures
        p / pow2(t) < 0x20_0000_0000_0000,
{
    lemma2_to64_rest();
    lemma_bit_length_divide(p, t);
    lemma_bit_length_bounds(p / pow2(t));
    let l = bit_length(p / pow2(t));
    if l < 53 {
        lemma_pow2_strictly_increases(l, 53);
    }
}

} // verus!
