//! Levels and prices undo each other.
use vstd::prelude::*;
use vstd::arithmetic::power2::*;
use crate::accuracy;
use crate::accuracy::{distance, extent, PARTS};
use crate::arithmetic;
use crate::figures;
use crate::grid::tracker;
use crate::num;
use crate::num::Num;
use crate::rounding;
use crate::rounding::BINADE;

verus! {

/// The greatest distance of a level from the base.
pub const REACH: u64 = 0x8000_0000;

/// One and as many steps as a level has, in units; the errors are measured in it.
pub open spec fn scope(a: int, one: int, step: int) -> int {
    one + a * step
}

/// The steps of a level come out within one part of the scope.
proof fn lemma_steps(l: int, one: int, step: int, t: int)
    requires
        one >= PARTS,
        step > 0,
        PARTS * distance(t * one, (l * one) * step) <= extent((l * one) * step) + BINADE * one,
    ensures
        PARTS * distance(t, l * step) <= scope(extent(l), one, step),
{
    let d = distance(t, l * step);
    let a = extent(l);
    assert((l * one) * step == (l * step) * one) by (nonlinear_arith);
    accuracy::lemma_stretched(t, l * step, one);
    assert(extent((l * step) * one) == (a * step) * one) by (nonlinear_arith)
        requires
            step > 0,
            one > 0,
            a == extent(l),
    ;
    assert(PARTS * d <= a * step + BINADE) by (nonlinear_arith)
        requires
            PARTS * (d * one) <= (a * step) * one + BINADE * one,
            one > 0,
    ;
}

/// One more than the steps comes out within four parts.
proof fn lemma_factor(l: int, one: int, step: int, t: int, u: int)
    requires
        one >= PARTS,
        step > 0,
        PARTS * distance(t, l * step) <= scope(extent(l), one, step),
        PARTS * distance(u, one + t) <= extent(one + t) + BINADE,
    ensures
        PARTS * distance(u, one + l * step) <= 4 * scope(extent(l), one, step),
        extent(u) <= 2 * scope(extent(l), one, step),
{
    let a = extent(l);
    let m = scope(a, one, step);
    assert(extent(l * step) == a * step && a * step >= 0) by (nonlinear_arith)
        requires
            step > 0,
            a == extent(l),
    ;
    accuracy::lemma_detour(one + t, one + l * step, 0);
    accuracy::lemma_detour(u, one + t, one + l * step);
    accuracy::lemma_detour(u, one + l * step, 0);
}

/// The part of a price in the base comes out within ten parts of the factor.
proof fn lemma_share(m: int, one: int, base: int, u: int, p: int, r: int)
    requires
        one >= PARTS,
        base >= BINADE,
        m >= one,
        extent(u) <= 2 * m,
        PARTS * distance(p * one, base * u) <= extent(base * u) + BINADE * one,
        PARTS * distance(r * base, p * one) <= extent(p) * one + BINADE * base,
    ensures
        PARTS * distance(r, u) <= 10 * m,
{
    let bm = base * m;
    assert(extent(base * u) <= 2 * bm) by (nonlinear_arith)
        requires
            extent(u) <= 2 * m,
            base > 0,
            bm == base * m,
    ;
    assert(BINADE * one <= bm && BINADE * base <= bm) by (nonlinear_arith)
        requires
            bm == base * m,
            base >= BINADE,
            m >= one,
            one >= BINADE,
    ;
    assert(extent(p * one) == extent(p) * one) by (nonlinear_arith)
        requires
            one > 0,
    ;
    accuracy::lemma_detour(p * one, base * u, 0);
    assert(extent(p) * one <= 3 * bm);
    accuracy::lemma_detour(r * base, p * one, base * u);
    assert(PARTS * distance(r * base, base * u) <= 7 * bm);
    assert(base * u == u * base) by (nonlinear_arith);
    accuracy::lemma_stretched(r, u, base);
    let d = distance(r, u);
    assert(PARTS * d <= 7 * m) by (nonlinear_arith)
        requires
            PARTS * (d * base) <= 7 * bm,
            bm == base * m,
            base > 0,
    ;
}

/// What is above one comes out within seventeen parts of the steps.
proof fn lemma_rest(l: int, one: int, step: int, u: int, r: int, w: int)
    requires
        one >= PARTS,
        step > 0,
        PARTS * distance(u, one + l * step) <= 4 * scope(extent(l), one, step),
        PARTS * distance(r, u) <= 10 * scope(extent(l), one, step),
        PARTS * distance(w, r - one) <= extent(r - one) + BINADE,
    ensures
        PARTS * distance(w, l * step) <= 17 * scope(extent(l), one, step),
        extent(w) <= 2 * scope(extent(l), one, step),
{
    let a = extent(l);
    let m = scope(a, one, step);
    assert(extent(l * step) == a * step && a * step >= 0) by (nonlinear_arith)
        requires
            step > 0,
            a == extent(l),
    ;
    accuracy::lemma_detour(r, u, one + l * step);
    accuracy::lemma_detour(r - one, l * step, 0);
    accuracy::lemma_detour(w, r - one, l * step);
    accuracy::lemma_detour(w, l * step, 0);
}

/// The number of steps comes out less than half away from the level.
proof fn lemma_level(l: int, one: int, step: int, w: int, z: int)
    requires
        one >= PARTS,
        0 < step <= one,
        one <= 201 * step,
        extent(l) <= REACH,
        PARTS * distance(w, l * step) <= 17 * scope(extent(l), one, step),
        extent(w) <= 2 * scope(extent(l), one, step),
        PARTS * distance(z * step, w * one) <= extent(w) * one + BINADE * step,
    ensures
        2 * distance(z, l * one) < one,
{
    let a = extent(l);
    let m = scope(a, one, step);
    let mo = m * one;
    assert(extent(w) * one <= 2 * mo) by (nonlinear_arith)
        requires
            extent(w) <= 2 * m,
            one > 0,
            mo == m * one,
    ;
    assert(a * step >= 0) by (nonlinear_arith)
        requires
            a >= 0,
            step > 0,
    ;
    assert(BINADE * step <= mo) by (nonlinear_arith)
        requires
            mo == m * one,
            m >= one,
            one >= BINADE,
            step <= one,
    ;
    let d = distance(w, l * step);
    accuracy::lemma_stretched(w, l * step, one);
    assert(PARTS * (d * one) <= 17 * mo) by (nonlinear_arith)
        requires
            PARTS * d <= 17 * m,
            mo == m * one,
            one > 0,
    ;
    accuracy::lemma_detour(z * step, w * one, (l * step) * one);
    assert((l * step) * one == (l * one) * step) by (nonlinear_arith);
    accuracy::lemma_stretched(z, l * one, step);
    let e = distance(z, l * one);
    assert(PARTS * (e * step) <= 20 * mo);
    assert(m <= (a + 201) * step) by (nonlinear_arith)
        requires
            m == one + a * step,
            one <= 201 * step,
    ;
    assert(PARTS * e <= 20 * (a + 201) * one) by (nonlinear_arith)
        requires
            PARTS * (e * step) <= 20 * mo,
            mo == m * one,
            m <= (a + 201) * step,
            step > 0,
            one > 0,
            a >= 0,
    ;
    assert(20 * (a + 201) * one <= 20 * (REACH + 201) * one) by (nonlinear_arith)
        requires
            a <= REACH,
            one > 0,
    ;
    assert(2 * e < one) by (nonlinear_arith)
        requires
            PARTS * e <= 42949676980 * one,
            PARTS == 0x20_0000_0000_0000,
            one > 0,
    ;
}

/// The sizes of one and of a step.
proof fn lemma_sizes()
    ensures
        ({
            let one = pow2(1074) as int;
            let step = num::num(figures::HALF_PERCENT).value();
            &&& num::num(figures::ONE).value() == one
            &&& arithmetic::positive(num::num(figures::HALF_PERCENT))
            &&& one >= PARTS
            &&& 0 < step <= one
            &&& one <= 201 * step
        }),
{
    arithmetic::lemma_one();
    lemma2_to64();
    lemma2_to64_rest();
    lemma_pow2_adds(60, 1014);
    lemma_pow2_pos(1014);
    lemma_pow2_strictly_increases(53, 1074);
    assert(0x3F74_7AE1_47AE_147Bnat / 0x10_0000_0000_0000nat == 1015) by (nonlinear_arith);
    assert(0x3F74_7AE1_47AE_147Bnat % 0x10_0000_0000_0000nat == 0x4_7AE1_47AE_147B)
        by (nonlinear_arith);
    let p = pow2(1014);
    let step = 0x14_7AE1_47AE_147Bnat * p;
    assert(num::num(figures::HALF_PERCENT).size() == step);
    assert(pow2(60) == 0x1000_0000_0000_0000);
    assert(0x1000_0000_0000_0000 * p <= 201 * step && step <= 0x1000_0000_0000_0000 * p && step > 0)
        by (nonlinear_arith)
        requires
            p > 0,
            step == 0x14_7AE1_47AE_147B * p,
    ;
}

/// The price of a level has that level, whatever the base: every 32-bit level and every
/// positive base that is not too small to be kept with all its digits, as long as the
/// price is not too large to be a number.
pub proof fn lemma_level_of_its_price(level: i32, base: Num)
    requires
        arithmetic::positive(base),
        base.magnitude() >= BINADE,
        tracker::price_for_level(level, base).finite(),
    ensures
        tracker::level_of(tracker::price_for_level(level, base), base) == level,
{
    let one_num = num::num(figures::ONE);
    let step_num = num::num(figures::HALF_PERCENT);
    let one = pow2(1074) as int;
    let step = step_num.value();
    let l = level as int;
    let a = extent(l);
    let m = scope(a, one, step);
    lemma_sizes();
    let wide = pow2(1200) as int;
    assert(0x100_0000_0000 * one < wide) by {
        lemma2_to64_rest();
        lemma_pow2_adds(40, 1074);
        lemma_pow2_strictly_increases(1114, 1200);
    }
    assert(a * step >= 0 && m <= 0x1_0000_0000 * one) by (nonlinear_arith)
        requires
            m == one + a * step,
            0 <= a <= 0x8000_0000,
            0 < step <= one,
    ;
    let x = Num::from_i32(level);
    accuracy::lemma_from_i32(level);
    let t = x.times(step_num);
    assert(extent((l * one) * step) < one * wide) by (nonlinear_arith)
        requires
            extent(l) <= 0x8000_0000,
            0 < step <= one,
            0x100_0000_0000 * one < wide,
    ;
    accuracy::lemma_times_finite(x, step_num);
    accuracy::lemma_times_error(x, step_num);
    lemma_steps(l, one, step, t.value());
    assert(extent(one + t.value()) <= 2 * m) by {
        accuracy::lemma_detour(one + t.value(), one + l * step, 0);
        assert(extent(l * step) == a * step) by (nonlinear_arith)
            requires
                step > 0,
                a == extent(l),
        ;
    }
    accuracy::lemma_plus_finite(one_num, t);
    accuracy::lemma_plus_error(one_num, t);
    let u = one_num.plus(t);
    lemma_factor(l, one, step, t.value(), u.value());
    let p = base.times(u);
    assert(p == tracker::price_for_level(level, base));
    accuracy::lemma_times_error(base, u);
    let b = base.value();
    assert(b >= BINADE) by {
        lemma2_to64();
        num::lemma_units_monotone(BINADE as nat, base.magnitude() as nat);
        assert(0x10_0000_0000_0000nat / 0x10_0000_0000_0000nat == 1) by (nonlinear_arith);
        assert(0x10_0000_0000_0000nat % 0x10_0000_0000_0000nat == 0) by (nonlinear_arith);
        assert(rounding::units(BINADE as nat) == 0x10_0000_0000_0000nat * pow2(0));
    }
    assert(extent(p.value()) * one < b * wide) by {
        let bm = b * m;
        assert(extent(b * u.value()) <= 2 * bm) by (nonlinear_arith)
            requires
                extent(u.value()) <= 2 * m,
                b > 0,
                bm == b * m,
        ;
        assert(BINADE * one <= bm) by (nonlinear_arith)
            requires
                bm == b * m,
                b >= BINADE,
                m >= one,
                one > 0,
        ;
        let q = p.value();
        assert(extent(q * one) == extent(q) * one) by (nonlinear_arith)
            requires
                one > 0,
        ;
        accuracy::lemma_detour(q * one, b * u.value(), 0);
        assert(3 * bm < b * wide) by (nonlinear_arith)
            requires
                bm == b * m,
                m <= 0x1_0000_0000 * one,
                0x100_0000_0000 * one < wide,
                b > 0,
                one > 0,
        ;
    }
    accuracy::lemma_over_finite(p, base);
    accuracy::lemma_over_error(p, base);
    let r = p.over(base);
    lemma_share(m, one, b, u.value(), p.value(), r.value());
    arithmetic::lemma_negated(one_num);
    let minus_one = one_num.negated();
    assert(extent(r.value() - one) <= 2 * m) by {
        accuracy::lemma_detour(r.value(), u.value(), one + l * step);
        accuracy::lemma_detour(r.value() - one, l * step, 0);
        assert(extent(l * step) == a * step) by (nonlinear_arith)
            requires
                step > 0,
                a == extent(l),
        ;
    }
    accuracy::lemma_plus_finite(r, minus_one);
    accuracy::lemma_plus_error(r, minus_one);
    let w = r.minus(one_num);
    lemma_rest(l, one, step, u.value(), r.value(), w.value());
    assert(extent(w.value()) * one < step * wide) by (nonlinear_arith)
        requires
            extent(w.value()) <= 2 * m,
            m == one + a * step,
            one <= 201 * step,
            0 <= a <= 0x8000_0000,
            step > 0,
            0x100_0000_0000 * one < wide,
            one > 0,
    ;
    accuracy::lemma_over_finite(w, step_num);
    accuracy::lemma_over_error(w, step_num);
    let z = w.over(step_num);
    lemma_level(l, one, step, w.value(), z.value());
    accuracy::lemma_rounds_to(z, level);
}

} // verus!
