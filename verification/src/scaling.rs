//! What doubling numbers does to the results of the arithmetic.
//!
//! Doubling moves a number to the next exponent and keeps its digits, so that sums double,
//! quotients and comparisons stay, and products double with one factor.
use vstd::prelude::*;
use vstd::arithmetic::power2::*;
use crate::accuracy;
use crate::arithmetic;
use crate::figures;
use crate::market;
use crate::market::KlineData;
use crate::num;
use crate::num::Num;
use crate::rounding;
use crate::rounding::{BINADE, INFINITY};

verus! {

/// Twice a number.
pub open spec fn twice(x: Num) -> Num {
    x.times(num::num(figures::TWO))
}

/// Whether a number stays finite when it is doubled so many times.
pub open spec fn roomy(x: Num, times: nat) -> bool {
    x.magnitude() + times * BINADE < INFINITY
}

/// The magnitude of twice a number.
pub open spec fn raised(m: nat) -> nat {
    if m < BINADE {
        2 * m
    } else {
        m + BINADE as nat
    }
}

/// A raised magnitude has twice the value.
proof fn lemma_raised_units(m: nat)
    ensures
        rounding::units(raised(m)) == 2 * rounding::units(m),
{
    let h = BINADE as nat;
    lemma2_to64();
    if m < h {
        if 2 * m >= h {
            rounding::lemma_division(2 * m, h, 1, (2 * m - h) as nat);
            assert((h + (2 * m - h)) * 1 == 2 * m);
        }
    } else {
        let q = m / h;
        let r = m % h;
        vstd::arithmetic::div_mod::lemma_fundamental_div_mod(m as int, h as int);
        assert(m + h == (q + 1) * h + r) by (nonlinear_arith)
            requires
                m == h * q + r,
        ;
        rounding::lemma_division(m + h, h, q + 1, r);
        assert(q >= 1) by (nonlinear_arith)
            requires
                m == h * q + r,
                m >= h,
                r < h,
        ;
        lemma_pow2_unfold(q);
        let p = pow2((q - 1) as nat);
        assert((h + r) * (2 * p) == 2 * ((h + r) * p)) by (nonlinear_arith);
    }
}

/// Twice a number has the same sign and digits, and twice the value.
pub proof fn lemma_twice(x: Num)
    requires
        roomy(x, 1),
    ensures
        twice(x) == Num::signed(x.negative(), raised(x.magnitude() as nat) as u64),
        twice(x).negative() == x.negative(),
        twice(x).magnitude() == raised(x.magnitude() as nat),
        twice(x).finite(),
        twice(x).size() == 2 * x.size(),
        twice(x).value() == 2 * x.value(),
{
    reveal(Num::spec_times);
    let two = num::num(figures::TWO);
    let one = pow2(1074);
    let m = x.magnitude() as nat;
    lemma_pow2_pos(1074);
    lemma2_to64_rest();
    lemma_pow2_adds(52, 1023);
    lemma_pow2_unfold(1075);
    accuracy::lemma_units_of(1023, 0x10_0000_0000_0000);
    assert(two.magnitude() == 1023 * 0x10_0000_0000_0000 + 0x10_0000_0000_0000);
    assert(two.size() == 2 * one);
    let s = x.size();
    assert(s * (2 * one) == (2 * s) * one) by (nonlinear_arith);
    assert(1 * one == one);
    rounding::lemma_encode_scale(2 * s, 1, one);
    lemma_raised_units(m);
    num::lemma_encode_units(raised(m));
}

/// The encoding of twice a ratio, where the ratio is large enough to have all its digits,
/// or a whole number of units.
pub proof fn lemma_encode_twice(n: nat, d: nat)
    requires
        d > 0,
        n / d >= BINADE || d == 1,
        rounding::encode(2 * n, d) < INFINITY,
    ensures
        rounding::encode(2 * n, d) == raised(rounding::encode(n, d)),
        rounding::encode(n, d) + BINADE < INFINITY || rounding::encode(n, d) < BINADE,
{
    let q = n / d;
    if q >= BINADE {
        let k = rounding::excess(q);
        let p = pow2(k);
        lemma_pow2_pos(k);
        let q2 = (2 * n) / d;
        rounding::lemma_nearest_scale(n, d, 2);
        vstd::arithmetic::div_mod::lemma_div_denominator((2 * n) as int, d as int, 2);
        assert(n * 2 == 2 * n && q2 / 2 == q);
        assert(rounding::bit_length(q2) == 1 + rounding::bit_length(q));
        rounding::lemma_bit_length_bounds(q);
        lemma2_to64_rest();
        if rounding::bit_length(q) < 53 {
            if rounding::bit_length(q) < 52 {
                lemma_pow2_strictly_increases(rounding::bit_length(q), 52);
            }
            assert(false);
        }
        assert(rounding::excess(q2) == k + 1);
        arithmetic::lemma_significand(n, d);
        let dp = d * p;
        rounding::lemma_nearest_scale(n, dp, 2);
        lemma_pow2_unfold(k + 1);
        assert(d * (2 * p) == dp * 2) by (nonlinear_arith)
            requires
                dp == d * p,
        ;
        assert(rounding::nearest(2 * n, d * pow2(k + 1)) == rounding::nearest(n, dp));
        if k == 0 {
            lemma2_to64();
            assert(d * 1 == d);
        }
        assert((k + 1) * BINADE == k * BINADE + BINADE);
    } else {
        assert(n / 1 == n);
        lemma2_to64();
        if n > 0 {
            assert(rounding::units(n) == n);
        }
        num::lemma_encode_units(n);
        if 2 * n >= BINADE {
            rounding::lemma_division(2 * n, BINADE as nat, 1, (2 * n - BINADE) as nat);
            assert((BINADE as nat + (2 * n - BINADE)) * 1 == 2 * n);
        }
        assert(rounding::units(2 * n) == 2 * n);
        num::lemma_encode_units(2 * n);
    }
}

/// Comparisons of doubled numbers are those of the numbers.
pub proof fn lemma_order_twice(a: Num, b: Num)
    requires
        roomy(a, 1),
        roomy(b, 1),
    ensures
        twice(a).at_most(twice(b)) == a.at_most(b),
        twice(a).below(twice(b)) == a.below(b),
        twice(a).larger(twice(b)) == twice(a.larger(b)),
        twice(a).smaller(twice(b)) == twice(a.smaller(b)),
{
    lemma_twice(a);
    lemma_twice(b);
}

/// Twice the opposite is the opposite of twice a number.
proof fn lemma_twice_negated(a: Num)
    requires
        roomy(a, 1),
    ensures
        twice(a.negated()) == twice(a).negated(),
        roomy(a.negated(), 1),
{
    lemma_twice(a);
    lemma_twice(a.negated());
}

/// A sum of units that is at most twice as large as a number with room for two doublings.
proof fn lemma_sum_room(n: nat, x: Num)
    requires
        roomy(x, 2),
        n <= 2 * x.size(),
    ensures
        rounding::encode(2 * n, 1) < INFINITY,
{
    let m = x.magnitude() as nat;
    let top = raised(raised(m));
    lemma_raised_units(m);
    lemma_raised_units(raised(m));
    num::lemma_encode_units(top);
    arithmetic::lemma_encode_monotone(2 * n, 1, rounding::units(top), 1);
}

/// The sum of doubled numbers is twice the sum.
pub proof fn lemma_plus_twice(a: Num, b: Num)
    requires
        roomy(a, 2),
        roomy(b, 2),
    ensures
        twice(a).plus(twice(b)) == twice(a.plus(b)),
        roomy(a.plus(b), 1),
{
    reveal(Num::spec_plus);
    lemma_twice(a);
    lemma_twice(b);
    let s = a.value() + b.value();
    if s == 0 {
        lemma_twice(a.plus(b));
    } else {
        let n: nat = if s > 0 {
            s as nat
        } else {
            (-s) as nat
        };
        if a.size() >= b.size() {
            lemma_sum_room(n, a);
        } else {
            lemma_sum_room(n, b);
        }
        assert(n / 1 == n);
        lemma_encode_twice(n, 1);
        lemma_twice(a.plus(b));
    }
}

/// The difference of doubled numbers is twice the difference.
pub proof fn lemma_minus_twice(a: Num, b: Num)
    requires
        roomy(a, 2),
        roomy(b, 2),
    ensures
        twice(a).minus(twice(b)) == twice(a.minus(b)),
        roomy(a.minus(b), 1),
{
    lemma_twice_negated(b);
    lemma_plus_twice(a, b.negated());
}

/// The quotient of doubled numbers is that of the numbers.
pub proof fn lemma_over_twice(a: Num, b: Num)
    requires
        roomy(a, 1),
        roomy(b, 1),
        b.magnitude() > 0,
    ensures
        twice(a).over(twice(b)) == a.over(b),
{
    reveal(Num::spec_over);
    lemma_twice(a);
    lemma_twice(b);
    let one = pow2(1074);
    let x = a.size();
    let y = b.size();
    arithmetic::lemma_positive_size(Num::signed(false, b.magnitude()));
    assert((2 * x) * one == (x * one) * 2) by (nonlinear_arith);
    rounding::lemma_encode_scale(x * one, y, 2);
}

/// A doubled factor doubles a product that has all its digits, or is none.
pub proof fn lemma_times_twice(a: Num, c: Num)
    requires
        roomy(a, 1),
        c.finite(),
        a.size() * c.size() == 0 || (a.size() * c.size()) / pow2(1074) >= BINADE,
        rounding::encode(2 * (a.size() * c.size()), pow2(1074)) < INFINITY,
    ensures
        twice(a).times(c) == twice(a.times(c)),
        roomy(a.times(c), 1),
{
    reveal(Num::spec_times);
    lemma_twice(a);
    let one = pow2(1074);
    lemma_pow2_pos(1074);
    let (x, y) = (a.size(), c.size());
    let n = x * y;
    assert((2 * x) * y == 2 * n) by (nonlinear_arith)
        requires
            n == x * y,
    ;
    if n == 0 {
        rounding::lemma_encode_zero(one);
    } else {
        lemma_encode_twice(n, one);
    }
    lemma_twice(a.times(c));
}

/// A factor between a half and two.
pub proof fn lemma_about_one(c: Num)
    requires
        num::num(figures::HALF).magnitude() <= c.magnitude() <= num::num(figures::TWO).magnitude(),
    ensures
        pow2(1074) <= 2 * c.size(),
        c.size() <= 2 * pow2(1074),
{
    let (half, two) = (num::num(figures::HALF), num::num(figures::TWO));
    lemma2_to64_rest();
    num::lemma_units_monotone(half.magnitude() as nat, c.magnitude() as nat);
    num::lemma_units_monotone(c.magnitude() as nat, two.magnitude() as nat);
    accuracy::lemma_units_of(1021, 0x10_0000_0000_0000);
    accuracy::lemma_units_of(1023, 0x10_0000_0000_0000);
    assert(half.magnitude() == 1021 * 0x10_0000_0000_0000 + 0x10_0000_0000_0000);
    assert(two.magnitude() == 1023 * 0x10_0000_0000_0000 + 0x10_0000_0000_0000);
    lemma_pow2_adds(52, 1021);
    lemma_pow2_adds(52, 1023);
    lemma_pow2_unfold(1074);
    lemma_pow2_unfold(1075);
}

/// A number by a factor between a half and two.
pub proof fn lemma_times_about_one(a: Num, c: Num)
    requires
        a.magnitude() >= 2 * BINADE,
        roomy(a, 2),
        c.finite(),
        pow2(1074) <= 2 * c.size(),
        c.size() <= 2 * pow2(1074),
    ensures
        twice(a).times(c) == twice(a.times(c)),
        a.times(c).magnitude() <= a.magnitude() + BINADE,
{
    let one = pow2(1074);
    lemma_pow2_pos(1074);
    let (x, y) = (a.size(), c.size());
    let n = x * y;
    let m = a.magnitude() as nat;
    num::lemma_units_monotone(2 * BINADE as nat, m);
    accuracy::lemma_units_of(0, 2 * BINADE as nat);
    lemma2_to64();
    assert(x >= 2 * BINADE);
    assert(n >= BINADE * one && n <= (2 * x) * one) by (nonlinear_arith)
        requires
            n == x * y,
            x >= 2 * BINADE,
            one <= 2 * y,
            y <= 2 * one,
            one > 0,
    ;
    assert((BINADE * one) / (one as int) == BINADE) by {
        rounding::lemma_division(BINADE as nat * one, one, BINADE as nat, 0);
    }
    vstd::arithmetic::div_mod::lemma_div_is_ordered(BINADE * one, n as int, one as int);
    lemma_raised_units(m);
    lemma_raised_units(raised(m));
    let top = raised(raised(m));
    num::lemma_encode_units(top);
    assert((2 * n) * 1 <= (2 * (2 * x)) * one) by (nonlinear_arith)
        requires
            n <= (2 * x) * one,
    ;
    arithmetic::lemma_encode_monotone(2 * n, one, rounding::units(top), 1);
    lemma_times_twice(a, c);
    num::lemma_encode_units(raised(m));
    assert(n * 1 <= (2 * x) * one);
    arithmetic::lemma_encode_monotone(n, one, rounding::units(raised(m)), 1);
    reveal(Num::spec_times);
}

/// The gain of a trade does not change when its prices are doubled.
pub proof fn lemma_gain_twice(long: bool, entry: Num, price: Num)
    requires
        roomy(entry, 2),
        roomy(price, 2),
        entry.magnitude() > 0,
    ensures
        market::gain(long, twice(entry), twice(price)) == market::gain(long, entry, price),
{
    if long {
        lemma_minus_twice(price, entry);
        lemma_over_twice(price.minus(entry), entry);
    } else {
        lemma_minus_twice(entry, price);
        lemma_over_twice(entry.minus(price), entry);
    }
}

/// Where a trade leaves doubles with the prices.
pub proof fn lemma_exit_twice(long: bool, sl: Num, tp: Num, low: Num, high: Num)
    requires
        roomy(sl, 1),
        roomy(tp, 1),
        roomy(low, 1),
        roomy(high, 1),
    ensures
        market::exit_price(long, twice(sl), twice(tp), twice(low), twice(high)) == match market::exit_price(
            long,
            sl,
            tp,
            low,
            high,
        ) {
            Some(p) => Some(twice(p)),
            None => None,
        },
        market::reaches_target(long, twice(tp), twice(low), twice(high)) == market::reaches_target(
            long,
            tp,
            low,
            high,
        ),
{
    lemma_order_twice(low, sl);
    lemma_order_twice(tp, high);
    lemma_order_twice(sl, high);
    lemma_order_twice(low, tp);
}

/// A bar with all its prices doubled.
pub open spec fn doubled_bar(k: KlineData) -> KlineData {
    KlineData {
        open: twice(k.open),
        high: twice(k.high),
        low: twice(k.low),
        close: twice(k.close),
        ..k
    }
}

/// Bars with all their prices doubled.
pub open spec fn doubled_bars(klines: Seq<KlineData>) -> Seq<KlineData> {
    Seq::new(klines.len(), |i: int| doubled_bar(klines[i]))
}

} // verus!
