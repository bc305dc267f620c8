//! What doubling all prices does to the averages and to the score.
use vstd::prelude::*;
use vstd::arithmetic::power2::*;
use crate::accuracy;
use crate::arithmetic;
use crate::figures;
use crate::market;
use crate::market::KlineData;
use crate::num;
use crate::num::Num;
use crate::rounding;
use crate::rounding::{BINADE, INFINITY};
use crate::scaling;
use crate::william::alligator;
use crate::william::score;
use crate::william::score::{AlligatorScoreView, Position, Trial};

verus! {

/// Whether a number lies between `a` times the least and `a` times the greatest close
/// that is considered.
pub open spec fn amid(x: Num, a: nat) -> bool {
    &&& x.finite()
    &&& a > 0 ==> !x.negative()
    &&& a * pow2(56) <= x.size() <= a * pow2(2074)
}

/// A small multiple of a power of two has an exact encoding.
proof fn lemma_small_multiple(a: nat, e: nat)
    requires
        1 <= a < 16,
        52 <= e <= 2075,
    ensures
        rounding::encode(a * pow2(e), 1) < 2030 * BINADE,
        rounding::units(rounding::encode(a * pow2(e), 1)) == a * pow2(e),
{
    let s: nat = if a < 2 {
        52
    } else if a < 4 {
        51
    } else if a < 8 {
        50
    } else {
        49
    };
    let k = (e - s) as nat;
    lemma2_to64_rest();
    lemma_pow2_adds(s, k);
    let p = pow2(s);
    let m = a * p;
    assert(0x10_0000_0000_0000 <= m < 0x20_0000_0000_0000) by (nonlinear_arith)
        requires
            m == a * p,
            ({
                ||| a == 1 && p == 0x10_0000_0000_0000
                ||| 2 <= a < 4 && p == 0x8_0000_0000_0000
                ||| 4 <= a < 8 && p == 0x4_0000_0000_0000
                ||| 8 <= a < 16 && p == 0x2_0000_0000_0000
            }),
    ;
    accuracy::lemma_units_of(k, m);
    assert(m * pow2(k) == a * pow2(e)) by (nonlinear_arith)
        requires
            m == a * p,
            p * pow2(k) == pow2(e),
    ;
    assert(k * BINADE <= 2026 * BINADE);
    num::lemma_encode_units(k * BINADE as nat + m);
}

/// The encoding of a ratio between multiples of the bounds lies between them too.
proof fn lemma_encode_amid(n: nat, d: nat, a: nat)
    requires
        d > 0,
        1 <= a < 16,
        (a * pow2(56)) * d <= n <= (a * pow2(2074)) * d,
    ensures
        rounding::encode(n, d) < INFINITY,
        a * pow2(56) <= rounding::units(rounding::encode(n, d)) <= a * pow2(2074),
        rounding::encode(2 * n, d) < INFINITY,
        n / d >= BINADE,
{
    let (low, high, top) = (a * pow2(56), a * pow2(2074), a * pow2(2075));
    lemma_small_multiple(a, 56);
    lemma_small_multiple(a, 2074);
    lemma_small_multiple(a, 2075);
    lemma_pow2_unfold(2075);
    assert(top == 2 * high) by (nonlinear_arith)
        requires
            top == a * pow2(2075),
            high == a * pow2(2074),
            pow2(2075) == 2 * pow2(2074),
    ;
    assert((2 * n) * 1 <= top * d) by (nonlinear_arith)
        requires
            n <= high * d,
            top == 2 * high,
    ;
    arithmetic::lemma_encode_monotone(low, 1, n, d);
    arithmetic::lemma_encode_monotone(n, d, high, 1);
    arithmetic::lemma_encode_monotone(2 * n, d, top, 1);
    num::lemma_units_monotone(rounding::encode(low, 1), rounding::encode(n, d));
    num::lemma_units_monotone(rounding::encode(n, d), rounding::encode(high, 1));
    lemma2_to64_rest();
    assert(BINADE * d <= n) by (nonlinear_arith)
        requires
            low * d <= n,
            low >= BINADE,
    ;
    rounding::lemma_division(BINADE as nat * d, d, BINADE as nat, 0);
    vstd::arithmetic::div_mod::lemma_div_is_ordered(BINADE * d, n as int, d as int);
}

/// A number between the bounds can be doubled.
proof fn lemma_amid_roomy(x: Num, a: nat)
    requires
        amid(x, a),
        a < 16,
    ensures
        scaling::roomy(x, 4),
        a > 0 ==> x.magnitude() > 0,
{
    arithmetic::lemma_encode_of(x);
    lemma_pow2_pos(56);
    if a == 0 {
        rounding::lemma_encode_zero(1);
    } else {
        lemma_small_multiple(a, 2074);
        arithmetic::lemma_encode_monotone(x.size(), 1, a * pow2(2074), 1);
        assert(a * pow2(56) > 0) by (nonlinear_arith)
            requires
                a > 0,
                pow2(56) > 0,
        ;
    }
}

/// One more number between the bounds.
proof fn lemma_amid_plus(x: Num, y: Num, a: nat)
    requires
        amid(x, a),
        amid(y, 1),
        a < 15,
    ensures
        amid(x.plus(y), a + 1),
        scaling::twice(x).plus(scaling::twice(y)) == scaling::twice(x.plus(y)),
{
    reveal(Num::spec_plus);
    lemma_amid_roomy(x, a);
    lemma_amid_roomy(y, 1);
    scaling::lemma_plus_twice(x, y);
    lemma_pow2_pos(56);
    let n = x.size() + y.size();
    assert((a + 1) * pow2(56) == a * pow2(56) + 1 * pow2(56)) by (nonlinear_arith);
    assert((a + 1) * pow2(2074) == a * pow2(2074) + 1 * pow2(2074)) by (nonlinear_arith);
    lemma_encode_amid(n, 1, a + 1);
}

/// A small multiple of a number between the bounds.
proof fn lemma_amid_times(x: Num, c: Num, b: nat)
    requires
        amid(x, 1),
        1 <= b < 16,
        c.finite(),
        !c.negative(),
        c.size() == b * pow2(1074),
    ensures
        amid(x.times(c), b),
        scaling::twice(x).times(c) == scaling::twice(x.times(c)),
{
    reveal(Num::spec_times);
    let one = pow2(1074);
    lemma_pow2_pos(1074);
    lemma_amid_roomy(x, 1);
    let n = x.size() * c.size();
    assert((b * pow2(56)) * one <= n <= (b * pow2(2074)) * one) by (nonlinear_arith)
        requires
            n == x.size() * c.size(),
            c.size() == b * one,
            1 * pow2(56) <= x.size() <= 1 * pow2(2074),
    ;
    lemma_encode_amid(n, one, b);
    scaling::lemma_times_twice(x, c);
}

/// A small part of a number between multiples of the bounds.
proof fn lemma_amid_over(x: Num, c: Num, b: nat)
    requires
        amid(x, b),
        1 <= b < 16,
        c.finite(),
        !c.negative(),
        c.magnitude() > 0,
        c.size() == b * pow2(1074),
    ensures
        amid(x.over(c), 1),
        scaling::twice(x).over(c) == scaling::twice(x.over(c)),
{
    reveal(Num::spec_over);
    let one = pow2(1074);
    lemma_pow2_pos(1074);
    lemma_amid_roomy(x, b);
    let d = c.size();
    let n = x.size() * one;
    assert(d > 0) by (nonlinear_arith)
        requires
            d == b * one,
            b >= 1,
            one > 0,
    ;
    assert((1 * pow2(56)) * d <= n <= (1 * pow2(2074)) * d) by (nonlinear_arith)
        requires
            n == x.size() * one,
            d == b * one,
            b * pow2(56) <= x.size() <= b * pow2(2074),
    ;
    lemma_encode_amid(n, d, 1);
    scaling::lemma_twice(x);
    assert((2 * x.size()) * one == 2 * n) by (nonlinear_arith)
        requires
            n == x.size() * one,
    ;
    scaling::lemma_encode_twice(n, d);
    scaling::lemma_twice(x.over(c));
}

/// The number of closes of an average and one less, as numbers.
proof fn lemma_period(period: usize)
    requires
        2 <= period < 16,
    ensures
        ({
            let p = Num::from_u64(period as u64);
            let rest = p.minus(num::num(figures::ONE));
            &&& p.finite() && !p.negative() && p.magnitude() > 0
            &&& p.size() == period as nat * pow2(1074)
            &&& rest.finite() && !rest.negative()
            &&& rest.size() == (period - 1) as nat * pow2(1074)
        }),
{
    reveal(Num::spec_from_u64);
    reveal(Num::spec_plus);
    let one = pow2(1074);
    let (a, b) = (period as nat, (period - 1) as nat);
    lemma_pow2_pos(1074);
    arithmetic::lemma_one();
    accuracy::lemma_whole_encoding(a);
    accuracy::lemma_whole_encoding(b);
    let p = Num::from_u64(period as u64);
    assert(a * one - one == b * one && b * one > 0) by (nonlinear_arith)
        requires
            a == b + 1,
            b >= 1,
            one > 0,
    ;
    if p.magnitude() == 0 {
        assert(rounding::units(0) == 0);
        assert(false);
    }
}

/// Numbers, each of them doubled.
pub open spec fn doubled(values: Seq<Num>) -> Seq<Num> {
    Seq::new(values.len(), |i: int| scaling::twice(values[i]))
}

/// The sum of the first values doubles with the values.
proof fn lemma_total_scaled(values: Seq<Num>, n: nat)
    requires
        n <= values.len(),
        n < 16,
        forall|i: int| 0 <= i < values.len() ==> amid(#[trigger] values[i], 1),
    ensures
        alligator::total(doubled(values), n) == scaling::twice(alligator::total(values, n)),
        amid(alligator::total(values, n), n),
    decreases n,
{
    if n == 0 {
        scaling::lemma_twice(num::num(figures::MINUS_ZERO));
    } else {
        let m = (n - 1) as nat;
        lemma_total_scaled(values, m);
        assert(amid(values[n - 1], 1));
        lemma_amid_plus(alligator::total(values, m), values[n - 1], m);
    }
}

/// A smoothed average doubles with the values, and lies between their bounds.
proof fn lemma_smoothed_scaled(values: Seq<Num>, period: usize, i: int)
    requires
        2 <= period < 16,
        period <= values.len(),
        i < values.len(),
        forall|j: int| 0 <= j < values.len() ==> amid(#[trigger] values[j], 1),
    ensures
        alligator::smoothed(doubled(values), period, i) == scaling::twice(
            alligator::smoothed(values, period, i),
        ),
        amid(alligator::smoothed(values, period, i), 1),
    decreases i,
{
    let p = Num::from_u64(period as u64);
    let rest = p.minus(num::num(figures::ONE));
    lemma_period(period);
    if i < period {
        let sum = alligator::total(values, period as nat);
        lemma_total_scaled(values, period as nat);
        lemma_amid_over(sum, p, period as nat);
    } else {
        let before = alligator::smoothed(values, period, i - 1);
        let b = (period - 1) as nat;
        lemma_smoothed_scaled(values, period, i - 1);
        assert(amid(values[i], 1));
        lemma_amid_times(before, rest, b);
        lemma_amid_plus(before.times(rest), values[i], b);
        lemma_amid_over(before.times(rest).plus(values[i]), p, b + 1);
    }
}

/// The average that is read doubles with the values.
proof fn lemma_displaced_scaled(values: Seq<Num>, period: usize, displacement: usize)
    requires
        2 <= period < 16,
        forall|j: int| 0 <= j < values.len() ==> amid(#[trigger] values[j], 1),
    ensures
        ({
            let r = alligator::displaced(alligator::smma(values, period), displacement);
            &&& alligator::displaced(alligator::smma(doubled(values), period), displacement) == match r {
                Some(x) => Some(scaling::twice(x)),
                None => None,
            }
            &&& r is Some ==> scaling::roomy(r->0, 4)
        }),
{
    let averages = alligator::smma(values, period);
    if averages.len() > displacement {
        let i = averages.len() - 1 - displacement + period - 1;
        lemma_smoothed_scaled(values, period, i);
        lemma_amid_roomy(alligator::smoothed(values, period, i), 1);
    }
}

/// The averages of doubled closes stand to each other as those of the closes.
pub proof fn lemma_alignment_scaled(closes: Seq<Num>)
    requires
        forall|j: int| 0 <= j < closes.len() ==> amid(#[trigger] closes[j], 1),
    ensures
        score::alignment_of(doubled(closes)) == score::alignment_of(closes),
{
    lemma_displaced_scaled(closes, alligator::JAW_PERIOD, alligator::JAW_DISPLACEMENT);
    lemma_displaced_scaled(closes, alligator::TEETH_PERIOD, alligator::TEETH_DISPLACEMENT);
    lemma_displaced_scaled(closes, alligator::LIPS_PERIOD, alligator::LIPS_DISPLACEMENT);
    let jaw = alligator::displaced(
        alligator::smma(closes, alligator::JAW_PERIOD),
        alligator::JAW_DISPLACEMENT,
    );
    let teeth = alligator::displaced(
        alligator::smma(closes, alligator::TEETH_PERIOD),
        alligator::TEETH_DISPLACEMENT,
    );
    let lips = alligator::displaced(
        alligator::smma(closes, alligator::LIPS_PERIOD),
        alligator::LIPS_DISPLACEMENT,
    );
    if let (Some(l), Some(t), Some(j)) = (lips, teeth, jaw) {
        scaling::lemma_order_twice(t, l);
        scaling::lemma_order_twice(l, t);
        scaling::lemma_order_twice(j, t);
        scaling::lemma_order_twice(t, j);
    }
}

/// Whether the prices of a bar can be doubled, and its close be averaged, without a loss
/// of digits: the close is positive, and none of them is extremely large or small.
pub open spec fn scalable(k: KlineData) -> bool {
    &&& scaling::roomy(k.high, 4)
    &&& scaling::roomy(k.low, 4)
    &&& !k.close.negative()
    &&& 5 * BINADE <= k.close.magnitude() <= 2023 * BINADE
}

/// The close of a scalable bar lies between the bounds.
proof fn lemma_close_amid(k: KlineData)
    requires
        scalable(k),
    ensures
        amid(k.close, 1),
{
    lemma2_to64_rest();
    accuracy::lemma_units_of(4, BINADE as nat);
    accuracy::lemma_units_of(2022, BINADE as nat);
    lemma_pow2_adds(52, 4);
    lemma_pow2_adds(52, 2022);
    num::lemma_units_monotone(5 * BINADE as nat, k.close.magnitude() as nat);
    num::lemma_units_monotone(k.close.magnitude() as nat, 2023 * BINADE as nat);
}

/// The closes that are kept double with the bars.
proof fn lemma_kept_scaled(klines: Seq<KlineData>, n: int)
    requires
        0 <= n <= klines.len(),
        forall|i: int| 0 <= i < klines.len() ==> scalable(#[trigger] klines[i]),
    ensures
        score::kept_closes(scaling::doubled_bars(klines), n) == doubled(
            score::kept_closes(klines, n),
        ),
        forall|j: int|
            0 <= j < score::kept_closes(klines, n).len() ==> amid(
                #[trigger] score::kept_closes(klines, n)[j],
                1,
            ),
    decreases n,
{
    if n > 0 {
        lemma_kept_scaled(klines, n - 1);
        assert(scalable(klines[n - 1]));
        lemma_close_amid(klines[n - 1]);
        assert(scaling::doubled_bars(klines)[n - 1] == scaling::doubled_bar(klines[n - 1]));
    }
    assert(score::kept_closes(scaling::doubled_bars(klines), n) =~= doubled(
        score::kept_closes(klines, n),
    ));
}

/// Whether a stop or a target is at most fifty percent away, to either side.
pub open spec fn within_half(pct: Num) -> bool {
    pct.magnitude() <= num::num(figures::FIFTY).magnitude()
}

/// The factors of a stop or a target that is at most fifty percent away.
proof fn lemma_factors(pct: Num)
    requires
        within_half(pct),
    ensures
        ({
            let s = pct.over(num::num(figures::HUNDRED));
            let down = num::num(figures::ONE).minus(s);
            let up = num::num(figures::ONE).plus(s);
            &&& down.finite() && pow2(1074) <= 2 * down.size() && down.size() <= 2 * pow2(1074)
            &&& up.finite() && pow2(1074) <= 2 * up.size() && up.size() <= 2 * pow2(1074)
        }),
{
    reveal(Num::spec_over);
    reveal(Num::spec_plus);
    let one = pow2(1074);
    let (half, two) = (num::num(figures::HALF), num::num(figures::TWO));
    let (fifty, hundred) = (num::num(figures::FIFTY), num::num(figures::HUNDRED));
    lemma_pow2_pos(1074);
    lemma2_to64_rest();
    arithmetic::lemma_one();
    accuracy::lemma_units_of(1021, 0x10_0000_0000_0000);
    accuracy::lemma_units_of(1023, 0x10_0000_0000_0000);
    accuracy::lemma_units_of(1027, 0x19_0000_0000_0000);
    accuracy::lemma_units_of(1028, 0x19_0000_0000_0000);
    assert(half.magnitude() == 1021 * 0x10_0000_0000_0000 + 0x10_0000_0000_0000);
    assert(two.magnitude() == 1023 * 0x10_0000_0000_0000 + 0x10_0000_0000_0000);
    assert(fifty.magnitude() == 1027 * 0x10_0000_0000_0000 + 0x19_0000_0000_0000);
    assert(hundred.magnitude() == 1028 * 0x10_0000_0000_0000 + 0x19_0000_0000_0000);
    lemma_pow2_adds(52, 1021);
    lemma_pow2_adds(52, 1023);
    lemma_pow2_unfold(1074);
    lemma_pow2_unfold(1075);
    lemma_pow2_unfold(1028);
    assert(2 * half.size() == one && two.size() == 2 * one);
    lemma_pow2_adds(47, 1027);
    assert(fifty.size() == 50 * one) by (nonlinear_arith)
        requires
            fifty.size() == 0x19_0000_0000_0000 * pow2(1027),
            one == 0x8000_0000_0000 * pow2(1027),
    ;
    assert(hundred.size() == 100 * one);
    num::lemma_units_monotone(pct.magnitude() as nat, fifty.magnitude() as nat);
    let n = pct.size() * one;
    assert(n * 1 <= half.size() * hundred.size()) by (nonlinear_arith)
        requires
            n == pct.size() * one,
            pct.size() <= 50 * one,
            2 * half.size() == one,
            hundred.size() == 100 * one,
    ;
    arithmetic::lemma_encode_of(half);
    arithmetic::lemma_encode_of(two);
    arithmetic::lemma_encode_monotone(n, hundred.size(), half.size(), 1);
    let s = pct.over(hundred);
    assert(s.magnitude() <= half.magnitude());
    num::lemma_units_monotone(s.magnitude() as nat, half.magnitude() as nat);
    let x = (one + s.size()) as nat;
    let y = (one - s.size()) as nat;
    arithmetic::lemma_encode_monotone(half.size(), 1, x, 1);
    arithmetic::lemma_encode_monotone(x, 1, two.size(), 1);
    arithmetic::lemma_encode_monotone(half.size(), 1, y, 1);
    arithmetic::lemma_encode_monotone(y, 1, two.size(), 1);
    scaling::lemma_about_one(num::num(figures::ONE).minus(s));
    scaling::lemma_about_one(num::num(figures::ONE).plus(s));
}

/// The stop and the target double with the price that they are taken from.
proof fn lemma_bracket_scaled(long: bool, price: Num, sl_pct: Num, tp_pct: Num)
    requires
        scaling::roomy(price, 4),
        price.magnitude() >= 2 * BINADE,
        within_half(sl_pct),
        within_half(tp_pct),
    ensures
        ({
            let (sl, tp) = market::bracket(long, price, sl_pct, tp_pct);
            &&& market::bracket(long, scaling::twice(price), sl_pct, tp_pct) == (
                scaling::twice(sl),
                scaling::twice(tp),
            )
            &&& scaling::roomy(sl, 3)
            &&& scaling::roomy(tp, 3)
        }),
{
    let one = num::num(figures::ONE);
    let s = sl_pct.over(num::num(figures::HUNDRED));
    let t = tp_pct.over(num::num(figures::HUNDRED));
    lemma_factors(sl_pct);
    lemma_factors(tp_pct);
    scaling::lemma_times_about_one(price, one.minus(s));
    scaling::lemma_times_about_one(price, one.plus(s));
    scaling::lemma_times_about_one(price, one.minus(t));
    scaling::lemma_times_about_one(price, one.plus(t));
}

/// A trade of the trial with its prices doubled.
pub open spec fn doubled_position(p: Option<Position>) -> Option<Position> {
    match p {
        Some(p) => Some(
            Position {
                entry: scaling::twice(p.entry),
                sl: scaling::twice(p.sl),
                tp: scaling::twice(p.tp),
                ..p
            },
        ),
        None => None,
    }
}

/// The trial goes the same way when all prices are doubled; only the prices of the trade
/// that is still open double.
proof fn lemma_trial_scaled(klines: Seq<KlineData>, sl_pct: Num, tp_pct: Num, n: int)
    requires
        0 <= n <= klines.len(),
        forall|i: int| 0 <= i < klines.len() ==> scalable(#[trigger] klines[i]),
        within_half(sl_pct),
        within_half(tp_pct),
    ensures
        ({
            let t = score::trial(klines, sl_pct, tp_pct, n);
            &&& score::trial(scaling::doubled_bars(klines), sl_pct, tp_pct, n) == (Trial {
                active: doubled_position(t.active),
                ..t
            })
            &&& t.active is Some ==> {
                let p = t.active->0;
                &&& scaling::roomy(p.entry, 4)
                &&& p.entry.magnitude() > 0
                &&& scaling::roomy(p.sl, 3)
                &&& scaling::roomy(p.tp, 3)
            }
        }),
    decreases n,
{
    if n > 0 {
        let k = klines[n - 1];
        assert(scalable(klines[n - 1]));
        lemma_kept_scaled(klines, n);
        lemma_alignment_scaled(score::kept_closes(klines, n));
        lemma_trial_scaled(klines, sl_pct, tp_pct, n - 1);
        let t = score::trial(klines, sl_pct, tp_pct, n - 1);
        if t.active is Some {
            let p = t.active->0;
            let long = p.direction.long();
            scaling::lemma_exit_twice(long, p.sl, p.tp, k.low, k.high);
            scaling::lemma_gain_twice(long, p.entry, k.low);
            scaling::lemma_gain_twice(long, p.entry, k.high);
            scaling::lemma_gain_twice(long, p.entry, p.tp);
            scaling::lemma_gain_twice(long, p.entry, k.close);
        }
        lemma_bracket_scaled(true, k.close, sl_pct, tp_pct);
        lemma_bracket_scaled(false, k.close, sl_pct, tp_pct);
    }
}

/// The score depends on relative prices only: doubling every price leaves it as it is but
/// for the base price, which doubles. The prices may be any that can be doubled, see
/// [`scalable`], and the stop and the target lie at most fifty percent away.
pub proof fn lemma_score_scaled(klines: Seq<KlineData>, sl_pct: Num, tp_pct: Num)
    requires
        forall|i: int| 0 <= i < klines.len() ==> scalable(#[trigger] klines[i]),
        within_half(sl_pct),
        within_half(tp_pct),
    ensures
        score::score(scaling::doubled_bars(klines), sl_pct, tp_pct) == (AlligatorScoreView {
            base_price: scaling::twice(score::score(klines, sl_pct, tp_pct).base_price),
            ..score::score(klines, sl_pct, tp_pct)
        }),
{
    if klines.len() < score::FEWEST_BARS {
        scaling::lemma_twice(num::num(figures::ZERO));
    } else {
        lemma_trial_scaled(klines, sl_pct, tp_pct, klines.len() as int);
    }
}

} // verus!
