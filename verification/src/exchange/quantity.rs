//! Quantities of orders, in the steps that the exchange allows.
use vstd::prelude::*;
use vstd::arithmetic::power2::*;
use crate::figures;
use crate::num::{num, Num};
use crate::page;
use crate::page::{Glyph, NumStyle, Page};
use crate::rounding;
use crate::rounding::INFINITY;

verus! {

/// Ten to the tenth power.
pub const TEN_PLACES: u64 = 10_000_000_000;

/// The size of a finite number in steps of 10^-10, rounded to the nearest.
pub open spec fn ten_places(n: Num) -> nat {
    rounding::nearest(n.size() * TEN_PLACES as nat, pow2(1074))
}

/// How many of `n` decimals are left of `k` steps when the zeros at the end are taken
/// away.
pub open spec fn places(k: nat, n: nat) -> nat
    decreases n,
{
    if n == 0 {
        0
    } else if k % 10 != 0 {
        n
    } else {
        places(k / 10, (n - 1) as nat)
    }
}

/// How many decimals a step has: none from one on, else as many as its first ten need.
pub open spec fn step_places(step: Num) -> nat {
    if num(figures::ONE).at_most(step) || !step.finite() {
        0
    } else {
        places(ten_places(step), 10)
    }
}

/// A whole number needs no decimals.
proof fn lemma_places_whole(c: nat, n: nat, k: nat)
    requires
        n <= 10,
        k == c * vstd::arithmetic::power::pow(10, n) as nat,
    ensures
        places(k, n) == 0,
    decreases n,
{
    vstd::arithmetic::power::lemma_pow_positive(10, n);
    if n > 0 {
        let m = (n - 1) as nat;
        vstd::arithmetic::power::lemma_pow_positive(10, m);
        let p = vstd::arithmetic::power::pow(10, m) as nat;
        assert(vstd::arithmetic::power::pow(10, n) == 10 * p) by {
            reveal(vstd::arithmetic::power::pow);
        }
        assert(c * (10 * p) == (c * p) * 10) by (nonlinear_arith);
        assert(k == (c * p) * 10);
        lemma_places_whole(c, m, c * p);
    }
}

/// See [`places`].
fn count_places(k: u128) -> (r: usize)
    ensures
        r == places(k as nat, 10),
        r <= 10,
{
    let mut rest: u128 = k;
    let mut n: usize = 10;
    while n > 0 && rest % 10 == 0
        invariant
            n <= 10,
            places(k as nat, 10) == places(rest as nat, n as nat),
        decreases n,
    {
        rest = rest / 10;
        n = n - 1;
    }
    n
}

/// How many decimals a step has.
pub fn step_decimals(step: Num) -> (r: usize)
    ensures
        r == step_places(step),
        r <= 10,
{
    if num(figures::ONE).at_most(step) || step.magnitude() >= INFINITY {
        return 0;
    }
    let (a, ae): (u64, u32) = Num::split(step.magnitude());
    proof {
        lemma_pow2_pos(ae as nat);
        lemma_pow2_pos(1074);
    }
    if ae >= 1074 {
        let ghost s = (ae - 1074) as nat;
        proof {
            lemma_pow2_adds(s, 1074);
            let c = a as nat * pow2(s);
            assert(a as nat * (pow2(s) * pow2(1074)) * TEN_PLACES as nat == (c * TEN_PLACES as nat)
                * pow2(1074)) by (nonlinear_arith)
                requires
                    c == a as nat * pow2(s),
            ;
            rounding::lemma_division(
                (c * TEN_PLACES as nat) * pow2(1074),
                pow2(1074),
                c * TEN_PLACES as nat,
                0,
            );
            assert(ten_places(step) == c * TEN_PLACES as nat);
            assert(vstd::arithmetic::power::pow(10, 10) == TEN_PLACES) by {
                reveal(vstd::arithmetic::power::pow);
                reveal_with_fuel(vstd::arithmetic::power::pow, 11);
            }
            lemma_places_whole(c, 10, ten_places(step));
        }
        return 0;
    }
    let s: u32 = 1074 - ae;
    let n: u128 = a as u128 * TEN_PLACES as u128;
    proof {
        lemma_pow2_adds(s as nat, ae as nat);
        lemma_pow2_pos(s as nat);
        assert((a as nat * pow2(ae as nat)) * TEN_PLACES as nat == (a as nat * TEN_PLACES as nat)
            * pow2(ae as nat)) by (nonlinear_arith);
        rounding::lemma_nearest_scale(n as nat, pow2(s as nat), pow2(ae as nat));
        assert(ten_places(step) == rounding::nearest(n as nat, pow2(s as nat)));
    }
    if s > 100 {
        proof {
            lemma2_to64_rest();
            lemma_pow2_adds(50, 50);
            lemma_pow2_strictly_increases(100, s as nat);
            assert(0x4_0000_0000_0000 * 0x4_0000_0000_0000 == 0x10_0000_0000_0000_0000_0000_0000)
                by (nonlinear_arith);
            rounding::lemma_division(n as nat, pow2(s as nat), 0, n as nat);
        }
        return count_places(0);
    }
    let d: u128 = rounding::power_of_two(s);
    proof {
        lemma2_to64_rest();
        lemma_pow2_adds(50, 50);
        if s < 100 {
            lemma_pow2_strictly_increases(s as nat, 100);
        }
        assert(0x4_0000_0000_0000 * 0x4_0000_0000_0000 == 0x10_0000_0000_0000_0000_0000_0000) by (
        nonlinear_arith);
    }
    let q: u128 = n / d;
    let rest: u128 = n % d;
    let k: u128 = if 2 * rest < d || (2 * rest == d && q % 2 == 0) {
        q
    } else {
        q + 1
    };
    count_places(k)
}

/// A quantity brought to whole steps, with as many decimals as the step; without a step,
/// the whole part of the quantity.
pub open spec fn rounded_glyphs(qty: Num, step: Num) -> Seq<Glyph> {
    if step.at_most(num(figures::ZERO)) {
        page::whole(qty.to_i64() as int)
    } else {
        page::figure(
            NumStyle::Fixed(step_places(step) as usize),
            qty.over(step).rounded().times(step),
        )
    }
}

/// See [`rounded_glyphs`].
pub fn round_qty(qty: Num, step: Num) -> (p: Page)
    ensures
        p@ == rounded_glyphs(qty, step),
{
    if step.at_most(num(figures::ZERO)) {
        return Page::integer(qty.to_i64());
    }
    Page::fixed(step_decimals(step), qty.over(step).rounded().times(step))
}

} // verus!
