//! Numbers between zero and a hundred, and sums of them by weights.
use vstd::prelude::*;
use vstd::arithmetic::div_mod::*;
use vstd::arithmetic::power2::*;
use crate::accuracy;
use crate::accuracy::distance;
use crate::arithmetic;
use crate::arithmetic::positive;
use crate::figures;
use crate::num::{num, Num};
use crate::rounding;
use crate::rounding::{BINADE, INFINITY};

verus! {

/// Whether a number is not below zero and not above another.
pub open spec fn up_to(x: Num, top: Num) -> bool {
    !x.nan() && x.rank() >= 0 && x.at_most(top)
}

/// Whether a number is a percentage.
pub open spec fn percentage(x: Num) -> bool {
    up_to(x, num(figures::HUNDRED))
}

/// A ratio that is less than half a step away from a number is rounded to it.
proof fn lemma_encode_near(n: nat, d: nat, m: nat, k: nat)
    requires
        d > 0,
        BINADE <= m < 2 * BINADE,
        m == BINADE ==> n >= (m * pow2(k)) * d,
        2 * distance(((m * pow2(k)) * d) as int, n as int) < d * pow2(k),
        k * BINADE + m < INFINITY,
    ensures
        rounding::encode(n, d) == k * BINADE + m,
{
    let p = pow2(k);
    let dp = d * p;
    lemma_pow2_pos(k);
    assert(dp > 0) by (nonlinear_arith)
        requires
            dp == d * p,
            d > 0,
            p > 0,
    ;
    assert((m * p) * d == m * dp) by (nonlinear_arith)
        requires
            dp == d * p,
    ;
    let q = n / d;
    let r = n % d;
    lemma_fundamental_div_mod(n as int, d as int);
    assert(BINADE * dp <= n) by (nonlinear_arith)
        requires
            BINADE <= m,
            m == BINADE ==> n >= m * dp,
            2 * (m * dp) - 2 * n < dp,
            dp > 0,
    ;
    assert(n < (2 * BINADE) * dp) by (nonlinear_arith)
        requires
            m + 1 <= 2 * BINADE,
            2 * n - 2 * (m * dp) < dp,
            dp > 0,
    ;
    assert(BINADE * p <= q && q < (2 * BINADE) * p) by (nonlinear_arith)
        requires
            n == d * q + r,
            0 <= r < d,
            BINADE * dp <= n,
            n < (2 * BINADE) * dp,
            dp == d * p,
            d > 0,
    ;
    lemma2_to64_rest();
    lemma_pow2_adds(52, k);
    lemma_pow2_adds(53, k);
    rounding::lemma_bit_length_unique(q, 53 + k);
    if n >= m * dp {
        rounding::lemma_division(n, dp, m, (n - m * dp) as nat);
    } else {
        let low = (m - 1) as nat;
        assert(low * dp == m * dp - dp) by (nonlinear_arith)
            requires
                low == m - 1,
        ;
        rounding::lemma_division(n, dp, low, (n - low * dp) as nat);
    }
}

/// A product of two numbers, by exponents and significands.
proof fn lemma_product_near(a: Num, b: Num, c: Num, ea: nat, ma: nat, eb: nat, mb: nat, ec: nat, mc: nat, s: nat)
    requires
        positive(a),
        positive(b),
        positive(c),
        a.magnitude() == ea * BINADE + ma,
        b.magnitude() == eb * BINADE + mb,
        c.magnitude() == ec * BINADE + mc,
        BINADE <= ma < 2 * BINADE,
        BINADE <= mb < 2 * BINADE,
        BINADE < mc < 2 * BINADE,
        s == ec + 1074 - ea - eb,
        2 * distance((mc * pow2(s)) as int, (ma * mb) as int) < pow2(s),
    ensures
        a.times(b) == c,
{
    reveal(Num::spec_times);
    accuracy::lemma_units_of(ea, ma);
    accuracy::lemma_units_of(eb, mb);
    let one = pow2(1074);
    let wide = pow2(ea + eb);
    lemma_pow2_pos(1074);
    lemma_pow2_pos(ea + eb);
    lemma_pow2_adds(ea, eb);
    lemma_pow2_adds(ec, 1074);
    lemma_pow2_adds(s, ea + eb);
    let (pa, pb, pc, ps) = (pow2(ea), pow2(eb), pow2(ec), pow2(s));
    let n = a.size() * b.size();
    assert(n == (ma * mb) * wide) by (nonlinear_arith)
        requires
            n == (ma * pa) * (mb * pb),
            pa * pb == wide,
    ;
    assert(pc * one == ps * wide);
    assert((mc * pc) * one == (mc * ps) * wide) by (nonlinear_arith)
        requires
            pc * one == ps * wide,
    ;
    assert(one * pc == ps * wide) by (nonlinear_arith)
        requires
            pc * one == ps * wide,
    ;
    let near = distance((mc * ps) as int, (ma * mb) as int);
    accuracy::lemma_stretched((mc * ps) as int, (ma * mb) as int, wide as int);
    assert(2 * (near * wide) < ps * wide) by (nonlinear_arith)
        requires
            2 * near < ps,
            wide > 0,
    ;
    lemma_encode_near(n, one, mc, ec);
}

/// A hundred by each of the weights.
proof fn lemma_weights()
    ensures
        num(figures::HUNDRED).times(num(figures::QUARTER)) == num(figures::TWENTY_FIVE),
        num(figures::HUNDRED).times(num(figures::THREE_TENTHS)) == num(figures::THIRTY),
        num(figures::HUNDRED).times(num(figures::FIFTH)) == num(figures::TWENTY),
        num(figures::HUNDRED).times(num(figures::TWO_FIFTHS)) == num(figures::FORTY),
{
    lemma2_to64_rest();
    let hundred = num(figures::HUNDRED);
    let (e, m) = (1028nat, 0x19_0000_0000_0000nat);
    lemma_product_near(
        hundred,
        num(figures::QUARTER),
        num(figures::TWENTY_FIVE),
        e,
        m,
        1020,
        0x10_0000_0000_0000,
        1026,
        0x19_0000_0000_0000,
        52,
    );
    lemma_product_near(
        hundred,
        num(figures::THREE_TENTHS),
        num(figures::THIRTY),
        e,
        m,
        1020,
        0x13_3333_3333_3333,
        1026,
        0x1E_0000_0000_0000,
        52,
    );
    lemma_product_near(
        hundred,
        num(figures::FIFTH),
        num(figures::TWENTY),
        e,
        m,
        1019,
        0x19_9999_9999_999A,
        1026,
        0x14_0000_0000_0000,
        53,
    );
    lemma_product_near(
        hundred,
        num(figures::TWO_FIFTHS),
        num(figures::FORTY),
        e,
        m,
        1020,
        0x19_9999_9999_999A,
        1027,
        0x14_0000_0000_0000,
        53,
    );
}

/// The size of a number, by its exponent and significand.
proof fn lemma_size_of(x: Num, e: nat, m: nat)
    requires
        x.magnitude() == e * BINADE + m,
        BINADE <= m < 2 * BINADE,
    ensures
        x.size() == m * pow2(e),
{
    accuracy::lemma_units_of(e, m);
}

/// The sizes of the sums of weights.
proof fn lemma_sizes()
    ensures
        ({
            let q = pow2(1026);
            &&& num(figures::TWENTY).size() == 0x14_0000_0000_0000 * q
            &&& num(figures::TWENTY_FIVE).size() == 0x19_0000_0000_0000 * q
            &&& num(figures::THIRTY).size() == 0x1E_0000_0000_0000 * q
            &&& num(figures::FORTY).size() == 0x28_0000_0000_0000 * q
            &&& num(figures::FIFTY_FIVE).size() == 0x37_0000_0000_0000 * q
            &&& num(figures::SIXTY).size() == 0x3C_0000_0000_0000 * q
            &&& num(figures::EIGHTY).size() == 0x50_0000_0000_0000 * q
            &&& num(figures::HUNDRED).size() == 0x64_0000_0000_0000 * q
        }),
{
    let q = pow2(1026);
    lemma_pow2_unfold(1027);
    lemma_pow2_unfold(1028);
    lemma_size_of(num(figures::TWENTY), 1026, 0x14_0000_0000_0000);
    lemma_size_of(num(figures::TWENTY_FIVE), 1026, 0x19_0000_0000_0000);
    lemma_size_of(num(figures::THIRTY), 1026, 0x1E_0000_0000_0000);
    lemma_size_of(num(figures::FORTY), 1027, 0x14_0000_0000_0000);
    lemma_size_of(num(figures::FIFTY_FIVE), 1027, 0x1B_8000_0000_0000);
    lemma_size_of(num(figures::SIXTY), 1027, 0x1E_0000_0000_0000);
    lemma_size_of(num(figures::EIGHTY), 1028, 0x14_0000_0000_0000);
    lemma_size_of(num(figures::HUNDRED), 1028, 0x19_0000_0000_0000);
    assert(0x14_0000_0000_0000 * (2 * q) == 0x28_0000_0000_0000 * q);
    assert(0x1B_8000_0000_0000 * (2 * q) == 0x37_0000_0000_0000 * q);
    assert(0x1E_0000_0000_0000 * (2 * q) == 0x3C_0000_0000_0000 * q);
    assert(0x14_0000_0000_0000 * (2 * (2 * q)) == 0x50_0000_0000_0000 * q);
    assert(0x19_0000_0000_0000 * (2 * (2 * q)) == 0x64_0000_0000_0000 * q);
}

/// A sum of positive numbers that is itself a number is exact.
proof fn lemma_exact_sum(a: Num, b: Num, c: Num)
    requires
        positive(a),
        positive(b),
        positive(c),
        c.size() == a.size() + b.size(),
    ensures
        a.plus(b) == c,
{
    reveal(Num::spec_plus);
    arithmetic::lemma_positive_size(c);
    arithmetic::lemma_encode_of(c);
}

/// The sums of a hundred by the weights.
proof fn lemma_totals()
    ensures
        num(figures::TWENTY_FIVE).plus(num(figures::THIRTY)) == num(figures::FIFTY_FIVE),
        num(figures::FIFTY_FIVE).plus(num(figures::TWENTY_FIVE)) == num(figures::EIGHTY),
        num(figures::FORTY).plus(num(figures::TWENTY)) == num(figures::SIXTY),
        num(figures::SIXTY).plus(num(figures::TWENTY)) == num(figures::EIGHTY),
        num(figures::EIGHTY).plus(num(figures::TWENTY)) == num(figures::HUNDRED),
{
    lemma_sizes();
    lemma_exact_sum(num(figures::TWENTY_FIVE), num(figures::THIRTY), num(figures::FIFTY_FIVE));
    lemma_exact_sum(num(figures::FIFTY_FIVE), num(figures::TWENTY_FIVE), num(figures::EIGHTY));
    lemma_exact_sum(num(figures::FORTY), num(figures::TWENTY), num(figures::SIXTY));
    lemma_exact_sum(num(figures::SIXTY), num(figures::TWENTY), num(figures::EIGHTY));
    lemma_exact_sum(num(figures::EIGHTY), num(figures::TWENTY), num(figures::HUNDRED));
}

/// A counted number is finite, is none exactly where nothing was counted, and is larger
/// for more.
proof fn lemma_counts(a: u64, b: u64)
    requires
        a <= b,
    ensures
        Num::from_u64(a).finite(),
        !Num::from_u64(a).negative(),
        Num::from_u64(a).at_most(Num::from_u64(b)),
        b > 0 ==> positive(Num::from_u64(b)),
{
    reveal(Num::spec_from_u64);
    let one = pow2(1074);
    lemma_pow2_pos(1074);
    lemma2_to64_rest();
    lemma_pow2_adds(64, 1074);
    lemma_pow2_strictly_increases(1138, 1200);
    assert(1 * pow2(1200) == pow2(1200));
    assert(a * one <= b * one && b * one < pow2(64) * one) by (nonlinear_arith)
        requires
            a <= b < pow2(64),
            one > 0,
    ;
    accuracy::lemma_encode_finite(a as nat * one, 1);
    accuracy::lemma_encode_finite(b as nat * one, 1);
    arithmetic::lemma_encode_monotone(a as nat * one, 1, b as nat * one, 1);
    if b > 0 {
        arithmetic::lemma_one();
        arithmetic::lemma_encode_of(num(figures::ONE));
        assert(one * 1 <= (b as nat * one) * 1) by (nonlinear_arith)
            requires
                b >= 1,
                one > 0,
        ;
        arithmetic::lemma_encode_monotone(one, 1, b as nat * one, 1);
    }
}

/// The share of some among many in percent is a percentage.
pub proof fn lemma_share(a: u64, b: u64)
    requires
        a <= b,
        b > 0,
    ensures
        percentage(Num::from_u64(a).over(Num::from_u64(b)).times(num(figures::HUNDRED))),
{
    let (x, y) = (Num::from_u64(a), Num::from_u64(b));
    let zero = num(figures::ZERO);
    lemma_counts(a, b);
    arithmetic::lemma_over_monotone(x, y, y);
    arithmetic::lemma_over_itself(y);
    arithmetic::lemma_over_monotone(zero, x, y);
    arithmetic::lemma_zero_parts(y);
    lemma_hundredfold(x.over(y));
}

/// A part of one in percent is a percentage.
pub proof fn lemma_hundredfold(x: Num)
    requires
        up_to(x, num(figures::ONE)),
    ensures
        percentage(x.times(num(figures::HUNDRED))),
{
    let zero = num(figures::ZERO);
    let one = num(figures::ONE);
    let hundred = num(figures::HUNDRED);
    arithmetic::lemma_times_monotone(x, one, hundred);
    arithmetic::lemma_times_monotone(zero, x, hundred);
    arithmetic::lemma_times_one(hundred);
    arithmetic::lemma_zero_parts(hundred);
}

/// What is left of one.
pub proof fn lemma_rest_of_one(x: Num)
    requires
        up_to(x, num(figures::ONE)),
    ensures
        up_to(num(figures::ONE).minus(x), num(figures::ONE)),
{
    let one = num(figures::ONE);
    arithmetic::lemma_one();
    arithmetic::lemma_negated(x);
    arithmetic::lemma_value_order(x, one);
    arithmetic::lemma_value_order(num(figures::ZERO), x);
    arithmetic::lemma_plus_rank(one, x.negated());
    let s = one.value() - x.value();
    arithmetic::lemma_rounded_rank_monotone(0, s);
    arithmetic::lemma_rounded_rank_monotone(s, one.value());
    arithmetic::lemma_encode_of(one);
    rounding::lemma_encode_zero(1);
}

/// A number up to a hundred by a weight is at most a hundred by it.
proof fn lemma_weighted(x: Num, weight: Num)
    requires
        x.at_most(num(figures::HUNDRED)),
        positive(weight),
    ensures
        x.times(weight).at_most(num(figures::HUNDRED).times(weight)),
        x.rank() >= 0 ==> x.times(weight).rank() >= 0,
{
    arithmetic::lemma_times_monotone(x, num(figures::HUNDRED), weight);
    if x.rank() >= 0 {
        arithmetic::lemma_times_monotone(num(figures::ZERO), x, weight);
        arithmetic::lemma_zero_parts(weight);
    }
}

/// A sum is at most the sum of what its terms are at most.
proof fn lemma_sum(a: Num, b: Num, top_a: Num, top_b: Num)
    requires
        a.at_most(top_a),
        up_to(b, top_b),
        positive(top_a),
        positive(top_b),
    ensures
        a.plus(b).at_most(top_a.plus(top_b)),
        a.rank() >= 0 ==> a.plus(b).rank() >= 0,
{
    arithmetic::lemma_plus_monotone(a, top_a, b);
    arithmetic::lemma_plus_monotone(b, top_b, top_a);
    arithmetic::lemma_plus_commutes(top_a, b);
    arithmetic::lemma_plus_commutes(top_a, top_b);
    if a.rank() >= 0 {
        let zero = num(figures::ZERO);
        arithmetic::lemma_plus_monotone(zero, a, b);
        arithmetic::lemma_plus_monotone(zero, b, zero);
        arithmetic::lemma_plus_commutes(zero, b);
        arithmetic::lemma_one();
        arithmetic::lemma_plus_rank(zero, zero);
        rounding::lemma_encode_zero(1);
    }
}

/// Percentages by a quarter, three tenths, a quarter and a fifth add up to one.
pub proof fn lemma_quarters(a: Num, b: Num, c: Num, d: Num)
    requires
        percentage(a),
        percentage(b),
        percentage(c),
        percentage(d),
    ensures
        percentage(
            a.times(num(figures::QUARTER)).plus(b.times(num(figures::THREE_TENTHS))).plus(
                c.times(num(figures::QUARTER)),
            ).plus(d.times(num(figures::FIFTH))),
        ),
{
    let quarter = num(figures::QUARTER);
    let tenths = num(figures::THREE_TENTHS);
    let fifth = num(figures::FIFTH);
    lemma_weights();
    lemma_totals();
    lemma_weighted(a, quarter);
    lemma_weighted(b, tenths);
    lemma_weighted(c, quarter);
    lemma_weighted(d, fifth);
    let (w, x, y, z) = (a.times(quarter), b.times(tenths), c.times(quarter), d.times(fifth));
    lemma_sum(w, x, num(figures::TWENTY_FIVE), num(figures::THIRTY));
    lemma_sum(w.plus(x), y, num(figures::FIFTY_FIVE), num(figures::TWENTY_FIVE));
    lemma_sum(w.plus(x).plus(y), z, num(figures::EIGHTY), num(figures::TWENTY));
}

/// Percentages by two fifths and three times a fifth add up to at most one, also where
/// the third is below zero; to one where it is not.
pub proof fn lemma_fifths(a: Num, b: Num, c: Num, d: Num)
    requires
        percentage(a),
        percentage(b),
        c.at_most(num(figures::HUNDRED)),
        percentage(d),
    ensures
        ({
            let fifth = num(figures::FIFTH);
            let sum = a.times(num(figures::TWO_FIFTHS)).plus(b.times(fifth)).plus(
                c.times(fifth),
            ).plus(d.times(fifth));
            &&& sum.at_most(num(figures::HUNDRED))
            &&& c.rank() >= 0 ==> percentage(sum)
        }),
{
    let fifths = num(figures::TWO_FIFTHS);
    let fifth = num(figures::FIFTH);
    lemma_weights();
    lemma_totals();
    lemma_weighted(a, fifths);
    lemma_weighted(b, fifth);
    lemma_weighted(c, fifth);
    lemma_weighted(d, fifth);
    let (w, x, y, z) = (a.times(fifths), b.times(fifth), c.times(fifth), d.times(fifth));
    lemma_sum(w, x, num(figures::FORTY), num(figures::TWENTY));
    let s = w.plus(x);
    lemma_sum(y, s, num(figures::TWENTY), num(figures::SIXTY));
    arithmetic::lemma_plus_commutes(y, s);
    arithmetic::lemma_plus_commutes(num(figures::TWENTY), num(figures::SIXTY));
    lemma_sum(s.plus(y), z, num(figures::EIGHTY), num(figures::TWENTY));
}

} // verus!
