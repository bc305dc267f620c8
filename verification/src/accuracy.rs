//! How far the results of the arithmetic are from the exact ones.
//!
//! Every operation is off by at most one part in 2^53, or by half a unit where the
//! numbers are too small for that.
use vstd::prelude::*;
use vstd::arithmetic::div_mod::*;
use vstd::arithmetic::power2::*;
use crate::arithmetic;
use crate::num::Num;
use crate::rounding;
use crate::rounding::{BINADE, INFINITY};

verus! {

/// How many parts an error is one of: 2^53.
pub const PARTS: u64 = 0x20_0000_0000_0000;

/// How far two numbers of units lie apart.
pub open spec fn distance(a: int, b: int) -> int {
    if a >= b {
        a - b
    } else {
        b - a
    }
}

/// The size of a number of units.
pub open spec fn extent(a: int) -> int {
    distance(a, 0)
}

/// Going by way of another number is no shorter.
pub proof fn lemma_detour(a: int, b: int, c: int)
    ensures
        distance(a, c) <= distance(a, b) + distance(b, c),
        extent(a) <= extent(b) + distance(a, b),
{
}

/// A common factor stretches a distance.
pub proof fn lemma_stretched(a: int, b: int, c: int)
    requires
        c >= 0,
    ensures
        distance(a * c, b * c) == distance(a, b) * c,
{
    if a >= b {
        assert(a * c >= b * c && a * c - b * c == (a - b) * c) by (nonlinear_arith)
            requires
                a >= b,
                c >= 0,
        ;
    } else {
        assert(a * c <= b * c && b * c - a * c == (b - a) * c) by (nonlinear_arith)
            requires
                a <= b,
                c >= 0,
        ;
    }
}

/// The value of a magnitude by its exponent and significand, also where the significand
/// has just reached the next power of two.
pub proof fn lemma_units_of(k: nat, m: nat)
    requires
        m <= 2 * BINADE,
        k > 0 ==> m >= BINADE,
    ensures
        rounding::units(k * BINADE as nat + m) == m * pow2(k),
{
    let h = BINADE as nat;
    let b = k * h + m;
    if m < h {
        lemma2_to64();
        assert(m * 1 == m);
    } else if m < 2 * h {
        assert(b == (k + 1) * h + (m - h)) by (nonlinear_arith)
            requires
                b == k * h + m,
        ;
        rounding::lemma_division(b, h, k + 1, (m - h) as nat);
        assert(b >= h) by (nonlinear_arith)
            requires
                b == k * h + m,
                m >= h,
        ;
    } else {
        assert(b == (k + 2) * h + 0) by (nonlinear_arith)
            requires
                b == k * h + m,
                m == 2 * h,
        ;
        rounding::lemma_division(b, h, k + 2, 0);
        assert(b >= h) by (nonlinear_arith)
            requires
                b == k * h + m,
                m >= h,
        ;
        lemma_pow2_unfold(k + 1);
        assert(h * (2 * pow2(k)) == (2 * h) * pow2(k)) by (nonlinear_arith);
    }
}

/// The nearest integer is at most half away.
proof fn lemma_nearest_error(n: nat, d: nat)
    requires
        d > 0,
    ensures
        2 * distance((rounding::nearest(n, d) * d) as int, n as int) <= d,
{
    let q = n / d;
    let r = n % d;
    lemma_fundamental_div_mod(n as int, d as int);
    assert(q * d == d * q) by (nonlinear_arith);
    assert((q + 1) * d == d * q + d) by (nonlinear_arith);
}

/// A finite encoding is off by at most one part in 2^53, or half a unit.
pub proof fn lemma_encode_error(n: nat, d: nat)
    requires
        d > 0,
        rounding::encode(n, d) < INFINITY,
    ensures
        PARTS * distance(
            (rounding::units(rounding::encode(n, d)) * d) as int,
            n as int,
        ) <= n + BINADE * d,
{
    let q = n / d;
    let k = rounding::excess(q);
    let p = pow2(k);
    lemma_pow2_pos(k);
    arithmetic::lemma_significand(n, d);
    let m = rounding::nearest(n, d * p);
    lemma_nearest_error(n, d * p);
    lemma_units_of(k, m);
    assert((m * p) * d == m * (d * p)) by (nonlinear_arith);
    let off = distance((m * (d * p)) as int, n as int);
    assert(2 * off <= d * p);
    if k == 0 {
        lemma2_to64();
        assert(d * 1 == d);
        assert(PARTS * off <= BINADE * d) by (nonlinear_arith)
            requires
                2 * off <= d,
                PARTS == 2 * BINADE,
        ;
    } else {
        rounding::lemma_bit_length_bounds(q);
        lemma2_to64_rest();
        lemma_pow2_adds(52, k);
        lemma_fundamental_div_mod(n as int, d as int);
        let r = n % d;
        assert(BINADE * (d * p) <= n) by (nonlinear_arith)
            requires
                BINADE * p <= q,
                n == d * q + r,
                r >= 0,
                d > 0,
        ;
        assert(PARTS * off <= n) by (nonlinear_arith)
            requires
                2 * off <= d * p,
                PARTS == 2 * BINADE,
                BINADE * (d * p) <= n,
        ;
        assert(BINADE * d >= 0) by (nonlinear_arith)
            requires
                d > 0,
                BINADE > 0,
        ;
    }
}

/// A ratio that is not too large has a finite encoding.
pub proof fn lemma_encode_finite(n: nat, d: nat)
    requires
        d > 0,
        n < d * pow2(1200),
    ensures
        rounding::encode(n, d) < INFINITY,
{
    let q = n / d;
    let k = rounding::excess(q);
    arithmetic::lemma_significand(n, d);
    lemma_fundamental_div_mod(n as int, d as int);
    let r = n % d;
    assert(q < pow2(1200)) by (nonlinear_arith)
        requires
            n == d * q + r,
            r >= 0,
            n < d * pow2(1200),
            d > 0,
    ;
    rounding::lemma_bit_length_bounds(q);
    if rounding::bit_length(q) > 1200 {
        if rounding::bit_length(q) > 1201 {
            lemma_pow2_strictly_increases(1200, (rounding::bit_length(q) - 1) as nat);
        }
        assert(false);
    }
    assert(k <= 1147);
    assert(k * BINADE <= 1147 * BINADE);
}

/// The value of a finite number, by its sign and size.
proof fn lemma_signed_value(negative: bool, n: nat)
    requires
        n < INFINITY,
    ensures
        Num::signed(negative, n as u64).size() == rounding::units(n),
        Num::signed(negative, n as u64).finite(),
        Num::signed(negative, n as u64).value() == if negative {
            -(rounding::units(n) as int)
        } else {
            rounding::units(n) as int
        },
{
}

/// A finite sum is off by at most one part in 2^53, or half a unit.
pub proof fn lemma_plus_error(a: Num, b: Num)
    requires
        a.finite(),
        b.finite(),
        a.plus(b).finite(),
    ensures
        PARTS * distance(a.plus(b).value(), a.value() + b.value()) <= extent(a.value() + b.value())
            + BINADE,
{
    reveal(Num::spec_plus);
    let s = a.value() + b.value();
    if s == 0 {
        assert(rounding::units(0) == 0);
    } else {
        let n = extent(s) as nat;
        lemma_encode_error(n, 1);
        let u = rounding::units(rounding::encode(n, 1));
        assert(u * 1 == u);
        lemma_signed_value(s < 0, rounding::encode(n, 1));
    }
}

/// A sum of numbers that are not too large is finite.
pub proof fn lemma_plus_finite(a: Num, b: Num)
    requires
        a.finite(),
        b.finite(),
        extent(a.value() + b.value()) < pow2(1200),
    ensures
        a.plus(b).finite(),
{
    reveal(Num::spec_plus);
    let s = a.value() + b.value();
    if s != 0 {
        let n = extent(s) as nat;
        assert(1 * pow2(1200) == pow2(1200));
        lemma_encode_finite(n, 1);
        lemma_signed_value(s < 0, rounding::encode(n, 1));
    }
}

/// The product of two values is that of their sizes, with the sign of the two.
proof fn lemma_product_of_values(a: Num, b: Num)
    ensures
        a.value() * b.value() == if a.negative() != b.negative() {
            -(a.size() * b.size())
        } else {
            (a.size() * b.size()) as int
        },
        a.size() * b.size() >= 0,
{
    let x = a.size() as int;
    let y = b.size() as int;
    assert((-x) * y == -(x * y) && x * (-y) == -(x * y) && (-x) * (-y) == x * y && x * y >= 0)
        by (nonlinear_arith)
        requires
            x >= 0,
            y >= 0,
    ;
}

/// A finite product is off by at most one part in 2^53, or half a unit.
pub proof fn lemma_times_error(a: Num, b: Num)
    requires
        a.finite(),
        b.finite(),
        a.times(b).finite(),
    ensures
        PARTS * distance(a.times(b).value() * pow2(1074), a.value() * b.value()) <= extent(
            a.value() * b.value(),
        ) + BINADE * pow2(1074),
{
    reveal(Num::spec_times);
    let one = pow2(1074);
    lemma_pow2_pos(1074);
    let n = a.size() * b.size();
    let e = rounding::encode(n, one);
    let negative = a.negative() != b.negative();
    lemma_signed_value(negative, if e < INFINITY { e } else { 0 });
    lemma_encode_error(n, one);
    lemma_product_of_values(a, b);
    let u = rounding::units(e);
    assert((-(u as int)) * one == -(u * one)) by (nonlinear_arith);
}

/// A product of numbers that are not too large is finite.
pub proof fn lemma_times_finite(a: Num, b: Num)
    requires
        a.finite(),
        b.finite(),
        extent(a.value() * b.value()) < pow2(1074) * pow2(1200),
    ensures
        a.times(b).finite(),
{
    reveal(Num::spec_times);
    lemma_pow2_pos(1074);
    lemma_product_of_values(a, b);
    lemma_encode_finite(a.size() * b.size(), pow2(1074));
    lemma_signed_value(a.negative() != b.negative(), rounding::encode(a.size() * b.size(), pow2(1074)));
}

/// A finite quotient by a positive number is off by at most one part in 2^53, or half a
/// unit.
pub proof fn lemma_over_error(a: Num, b: Num)
    requires
        a.finite(),
        arithmetic::positive(b),
        a.over(b).finite(),
    ensures
        PARTS * distance(a.over(b).value() * b.value(), a.value() * pow2(1074)) <= extent(
            a.value(),
        ) * pow2(1074) + BINADE * b.value(),
{
    reveal(Num::spec_over);
    let one = pow2(1074);
    lemma_pow2_pos(1074);
    arithmetic::lemma_positive_size(b);
    let n = a.size() * one;
    let d = b.size();
    let e = rounding::encode(n, d);
    lemma_signed_value(a.negative(), if e < INFINITY { e } else { 0 });
    lemma_encode_error(n, d);
    let u = rounding::units(e) as int;
    let x = a.size() as int;
    assert((-u) * d == -(u * d) && (-x) * one == -(x * one)) by (nonlinear_arith);
}

/// A quotient that is not too large is finite.
pub proof fn lemma_over_finite(a: Num, b: Num)
    requires
        a.finite(),
        arithmetic::positive(b),
        extent(a.value()) * pow2(1074) < b.value() * pow2(1200),
    ensures
        a.over(b).finite(),
{
    reveal(Num::spec_over);
    arithmetic::lemma_positive_size(b);
    lemma_encode_finite(a.size() * pow2(1074), b.size());
    lemma_signed_value(a.negative(), rounding::encode(a.size() * pow2(1074), b.size()));
}

/// A whole number of up to 53 digits has an exact encoding.
pub proof fn lemma_whole_encoding(a: nat)
    requires
        a < PARTS,
    ensures
        rounding::encode(a * pow2(1074), 1) < INFINITY,
        rounding::units(rounding::encode(a * pow2(1074), 1)) == a * pow2(1074),
{
    let one = pow2(1074);
    let n = a * one;
    lemma_pow2_pos(1074);
    lemma2_to64_rest();
    assert(1 * pow2(1200) == pow2(1200));
    lemma_pow2_adds(53, 1074);
    lemma_pow2_strictly_increases(1127, 1200);
    assert(n < pow2(53) * one) by (nonlinear_arith)
        requires
            n == a * one,
            a < pow2(53),
            one > 0,
    ;
    lemma_encode_finite(n, 1);
    if a == 0 {
        assert(n == 0) by (nonlinear_arith)
            requires
                n == a * one,
                a == 0,
        ;
        rounding::lemma_encode_zero(1);
    } else {
        rounding::lemma_bit_length_bounds(a);
        let len = rounding::bit_length(a);
        if len > 53 {
            if len > 54 {
                lemma_pow2_strictly_increases(53, (len - 1) as nat);
            }
            assert(false);
        }
        rounding::lemma_bit_length_shift(a, 1074);
        assert(n / 1 == n);
        let k = rounding::excess(n);
        assert(k == len + 1021);
        rounding::lemma_scaled_nearest(a, 1074, k);
        let s = (1074 - k) as nat;
        assert(1 * pow2(k) == pow2(k));
        let m = a * pow2(s);
        assert(rounding::nearest(n, 1 * pow2(k)) == m);
        arithmetic::lemma_significand(n, 1);
        lemma_units_of(k, m);
        lemma_pow2_adds(s, k);
        assert((a * pow2(s)) * pow2(k) == a * (pow2(s) * pow2(k))) by (nonlinear_arith);
    }
}

/// A 32-bit integer is kept exactly.
pub proof fn lemma_from_i32(l: i32)
    ensures
        Num::from_i32(l).finite(),
        Num::from_i32(l).value() == l * pow2(1074),
{
    reveal(Num::spec_from_i32);
    let one = pow2(1074);
    let a = extent(l as int) as nat;
    lemma_whole_encoding(a);
    lemma_signed_value(l < 0, rounding::encode(a * one, 1));
    assert((-(a as int)) * one == -(a * one)) by (nonlinear_arith);
}

/// A number that is less than half away from a 32-bit integer rounds to it.
pub proof fn lemma_rounds_to(z: Num, l: i32)
    requires
        z.finite(),
        2 * distance(z.value(), l * pow2(1074)) < pow2(1074),
    ensures
        z.rounded().to_i32() == l,
{
    reveal(Num::spec_rounded);
    reveal(Num::spec_to_i32);
    let one = pow2(1074);
    lemma_pow2_pos(1074);
    let a = extent(l as int) as nat;
    let x = z.size();
    assert((-(a as int)) * one == -(a * one)) by (nonlinear_arith);
    if a > 0 {
        assert(a * one >= one) by (nonlinear_arith)
            requires
                a >= 1,
                one > 0,
        ;
    } else {
        assert(0 * one == 0);
    }
    assert(2 * distance(x as int, (a * one) as int) < one);
    let rest = (2 * x + one - 2 * (a * one)) as nat;
    assert(2 * x + one == a * (2 * one) + rest) by (nonlinear_arith)
        requires
            rest == 2 * x + one - 2 * (a * one),
    ;
    rounding::lemma_division(2 * x + one, 2 * one, a, rest);
    lemma_whole_encoding(a);
    let e = rounding::encode(a * one, 1);
    lemma_signed_value(z.negative(), e);
    let y = z.rounded();
    assert(y.size() == a * one);
    rounding::lemma_division(a * one, one, a, 0);
    assert(a > 0 ==> y.negative() == (l < 0));
}

} // verus!
