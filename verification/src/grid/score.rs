//! How well a symbol would have done on the grid.
use vstd::prelude::*;
use crate::figures;
use crate::grid::engine::RealtimeEngine;
use crate::grid::tracker;
use crate::market;
use crate::market::{KlineData, TradeDirection};
use crate::num;
use crate::num::Num;
use crate::parts;
use crate::percentages;
use crate::rounding::BINADE;
use crate::scaling;

verus! {

/// The score of a symbol.
#[derive(Debug)]
pub struct GridScore {
    pub symbol: String,
    pub base_price: Num,
    pub price_range_pct: Num,
    pub level_crosses: u32,
    pub oscillation_score: Num,
    pub total_trades: u32,
    pub wins: u32,
    pub losses: u32,
    pub total_pnl_pct: Num,
    pub win_rate: Num,
    pub suitability: Num,
}

/// The contents of a [`GridScore`].
#[verifier::ext_equal]
pub struct GridScoreView {
    pub symbol: Seq<char>,
    pub base_price: Num,
    pub price_range_pct: Num,
    pub level_crosses: u32,
    pub oscillation_score: Num,
    pub total_trades: u32,
    pub wins: u32,
    pub losses: u32,
    pub total_pnl_pct: Num,
    pub win_rate: Num,
    pub suitability: Num,
}

impl View for GridScore {
    type V = GridScoreView;

    open spec fn view(&self) -> GridScoreView {
        GridScoreView {
            symbol: self.symbol@,
            base_price: self.base_price,
            price_range_pct: self.price_range_pct,
            level_crosses: self.level_crosses,
            oscillation_score: self.oscillation_score,
            total_trades: self.total_trades,
            wins: self.wins,
            losses: self.losses,
            total_pnl_pct: self.total_pnl_pct,
            win_rate: self.win_rate,
            suitability: self.suitability,
        }
    }
}

/// The least number of bars that are scored.
pub const FEWEST_BARS: usize = 10;

/// The highest price of some bars.
pub open spec fn peak(klines: Seq<KlineData>) -> Num
    decreases klines.len(),
{
    if klines.len() == 0 {
        num::num(figures::LOWEST)
    } else {
        peak(klines.drop_last()).larger(klines.last().high)
    }
}

/// The lowest price of some bars.
pub open spec fn trough(klines: Seq<KlineData>) -> Num
    decreases klines.len(),
{
    if klines.len() == 0 {
        num::num(figures::LARGEST)
    } else {
        trough(klines.drop_last()).smaller(klines.last().low)
    }
}

/// The distance from the lowest to the highest price, in percent of a base.
pub open spec fn range_pct(klines: Seq<KlineData>, base: Num) -> Num {
    peak(klines).minus(trough(klines)).over(base).times(num::num(figures::HUNDRED))
}

/// See [`range_pct`].
fn price_range(klines: &[KlineData], base: Num) -> (r: Num)
    ensures
        r == range_pct(klines@, base),
{
    let mut high: Num = num::num(figures::LOWEST);
    let mut low: Num = num::num(figures::LARGEST);
    let mut i: usize = 0;
    while i < klines.len()
        invariant
            i <= klines@.len(),
            high == peak(klines@.take(i as int)),
            low == trough(klines@.take(i as int)),
        decreases klines@.len() - i,
    {
        assert(klines@.take(i + 1).drop_last() =~= klines@.take(i as int));
        high = high.larger(klines[i].high);
        low = low.smaller(klines[i].low);
        i = i + 1;
    }
    assert(klines@.take(i as int) =~= klines@);
    high.minus(low).over(base).times(num::num(figures::HUNDRED))
}

/// What was counted of the levels that closes cross.
#[derive(Clone, Copy)]
pub struct Crossings {
    /// The level of the last close.
    pub level: i32,
    /// How often the level changed.
    pub crosses: u32,
    /// How often it changed against the change before.
    pub turns: u32,
    /// Whether the last change was upward, if there was one.
    pub upward: Option<bool>,
}

/// The counts after one more close.
pub open spec fn spec_crossed(c: Crossings, level: i32) -> Crossings {
    if level == c.level {
        c
    } else {
        let up = level > c.level;
        Crossings {
            level,
            crosses: (c.crosses + 1) as u32,
            turns: if c.upward == Some(!up) {
                (c.turns + 1) as u32
            } else {
                c.turns
            },
            upward: Some(up),
        }
    }
}

/// The counts after one more close.
#[verifier::when_used_as_spec(spec_crossed)]
pub fn crossed(c: Crossings, level: i32) -> (r: Crossings)
    requires
        c.crosses < u32::MAX,
        c.turns < u32::MAX,
    ensures
        r == spec_crossed(c, level),
{
    if level == c.level {
        return c;
    }
    let up: bool = level > c.level;
    let turned: bool = match c.upward {
        Some(before) => before != up,
        None => false,
    };
    Crossings {
        level,
        crosses: c.crosses + 1,
        turns: if turned {
            c.turns + 1
        } else {
            c.turns
        },
        upward: Some(up),
    }
}

/// What is counted of the first `n` closes.
pub open spec fn crossings(klines: Seq<KlineData>, base: Num, n: int) -> Crossings
    decreases n,
{
    if n <= 1 {
        Crossings {
            level: tracker::level_of(klines[0].close, base),
            crosses: 0,
            turns: 0,
            upward: None,
        }
    } else {
        crossed(
            crossings(klines, base, n - 1),
            tracker::level_of(klines[n - 1].close, base),
        )
    }
}

/// See [`crossings`].
fn count_crossings(klines: &[KlineData], base: Num) -> (c: Crossings)
    requires
        1 <= klines@.len() <= u32::MAX,
    ensures
        c == crossings(klines@, base, klines@.len() as int),
{
    let mut c: Crossings = Crossings {
        level: tracker::level_of(klines[0].close, base),
        crosses: 0,
        turns: 0,
        upward: None,
    };
    let mut i: usize = 1;
    while i < klines.len()
        invariant
            1 <= i <= klines@.len() <= u32::MAX,
            c == crossings(klines@, base, i as int),
            c.crosses < i,
            c.turns < i,
        decreases klines@.len() - i,
    {
        c = crossed(c, tracker::level_of(klines[i].close, base));
        i = i + 1;
    }
    c
}

/// The share of turns among the crossings in percent; zero where there are none.
pub open spec fn spec_oscillation(c: Crossings) -> Num {
    if c.crosses > 0 {
        Num::from_u64(c.turns as u64).over(Num::from_u64(c.crosses as u64)).times(
            num::num(figures::HUNDRED),
        )
    } else {
        num::num(figures::ZERO)
    }
}

/// See [`spec_oscillation`].
#[verifier::when_used_as_spec(spec_oscillation)]
pub fn oscillation(c: Crossings) -> (r: Num)
    ensures
        r == spec_oscillation(c),
{
    if c.crosses > 0 {
        Num::from_u64(c.turns as u64).over(Num::from_u64(c.crosses as u64)).times(
            num::num(figures::HUNDRED),
        )
    } else {
        num::num(figures::ZERO)
    }
}

/// A trade of the trial.
#[derive(Clone, Copy)]
pub struct Position {
    pub direction: TradeDirection,
    pub entry: Num,
    pub sl: Num,
    pub tp: Num,
}

/// Where the trial of the strategy on past bars stands.
#[derive(Clone, Copy)]
pub struct Trial {
    pub active: Option<Position>,
    pub trades: u32,
    pub wins: u32,
    pub losses: u32,
    pub pnl: Num,
    /// The level of the last close.
    pub level: i32,
}

/// The trial after a bar at which the active trade may have left. A bar that reaches
/// the target counts as a win, also where the trade left at its stop.
pub open spec fn spec_settled(t: Trial, k: KlineData) -> Trial {
    match t.active {
        Some(p) => {
            let long = p.direction.long();
            match market::exit_price(long, p.sl, p.tp, k.low, k.high) {
                Some(price) => {
                    let won = market::reaches_target(long, p.tp, k.low, k.high);
                    Trial {
                        active: None,
                        wins: if won {
                            (t.wins + 1) as u32
                        } else {
                            t.wins
                        },
                        losses: if won {
                            t.losses
                        } else {
                            (t.losses + 1) as u32
                        },
                        pnl: t.pnl.plus(market::gain(long, p.entry, price)),
                        ..t
                    }
                },
                None => t,
            }
        },
        None => t,
    }
}

/// See [`spec_settled`].
#[verifier::when_used_as_spec(spec_settled)]
pub fn settled(t: Trial, k: KlineData) -> (r: Trial)
    requires
        t.wins < u32::MAX,
        t.losses < u32::MAX,
    ensures
        r == spec_settled(t, k),
{
    let mut r: Trial = t;
    if let Some(p) = t.active {
        let long: bool = p.direction.long();
        if let Some(price) = market::exit_price(long, p.sl, p.tp, k.low, k.high) {
            if market::reaches_target(long, p.tp, k.low, k.high) {
                r.wins = t.wins + 1;
            } else {
                r.losses = t.losses + 1;
            }
            r.pnl = t.pnl.plus(market::gain(long, p.entry, price));
            r.active = None;
        }
    }
    r
}

/// The trial after a close at a level: without an active trade, a crossed level starts
/// one against the move.
pub open spec fn spec_ventured(t: Trial, close: Num, level: i32) -> Trial {
    if t.active is None && level != t.level {
        let direction = if level > t.level {
            TradeDirection::Short
        } else {
            TradeDirection::Long
        };
        let (sl, tp) = tracker::grid_bracket(direction, close);
        Trial {
            active: Some(Position { direction, entry: close, sl, tp }),
            trades: (t.trades + 1) as u32,
            level,
            ..t
        }
    } else {
        Trial { level, ..t }
    }
}

/// See [`spec_ventured`].
#[verifier::when_used_as_spec(spec_ventured)]
pub fn ventured(t: Trial, close: Num, level: i32) -> (r: Trial)
    requires
        t.trades < u32::MAX,
    ensures
        r == spec_ventured(t, close, level),
{
    let mut r: Trial = t;
    if t.active.is_none() && level != t.level {
        let direction: TradeDirection = if level > t.level {
            TradeDirection::Short
        } else {
            TradeDirection::Long
        };
        let (sl, tp): (Num, Num) = tracker::grid_bracket(direction, close);
        r.active = Some(Position { direction, entry: close, sl, tp });
        r.trades = t.trades + 1;
    }
    r.level = level;
    r
}

/// The trial over the first `n` bars.
pub open spec fn trial(klines: Seq<KlineData>, base: Num, n: int) -> Trial
    decreases n,
{
    if n <= 1 {
        Trial {
            active: None,
            trades: 0,
            wins: 0,
            losses: 0,
            pnl: num::num(figures::ZERO),
            level: tracker::level_of(klines[0].close, base),
        }
    } else {
        let k = klines[n - 1];
        ventured(settled(trial(klines, base, n - 1), k), k.close, tracker::level_of(k.close, base))
    }
}

/// See [`trial`].
fn run_trial(klines: &[KlineData], base: Num) -> (t: Trial)
    requires
        1 <= klines@.len() <= u32::MAX,
    ensures
        t == trial(klines@, base, klines@.len() as int),
{
    let mut t: Trial = Trial {
        active: None,
        trades: 0,
        wins: 0,
        losses: 0,
        pnl: num::num(figures::ZERO),
        level: tracker::level_of(klines[0].close, base),
    };
    let mut i: usize = 1;
    while i < klines.len()
        invariant
            1 <= i <= klines@.len() <= u32::MAX,
            t == trial(klines@, base, i as int),
            t.trades < i,
            t.wins < i,
            t.losses < i,
        decreases klines@.len() - i,
    {
        let k: KlineData = klines[i];
        t = ventured(settled(t, k), k.close, tracker::level_of(k.close, base));
        i = i + 1;
    }
    t
}

/// Every trade of a trial is won, lost or still open, and no bar starts more than one.
pub proof fn lemma_trial_counts(klines: Seq<KlineData>, base: Num, n: int)
    requires
        1 <= n <= u32::MAX,
    ensures
        ({
            let t = trial(klines, base, n);
            &&& t.trades < n
            &&& t.trades == t.wins + t.losses + if t.active is Some {
                1int
            } else {
                0int
            }
        }),
    decreases n,
{
    if n > 1 {
        lemma_trial_counts(klines, base, n - 1);
    }
}

/// A level turns no more often than it changes, and changes at most once with each close
/// but the first.
pub proof fn lemma_crossings_counts(klines: Seq<KlineData>, base: Num, n: int)
    requires
        1 <= n <= u32::MAX,
    ensures
        crossings(klines, base, n).crosses < n,
        crossings(klines, base, n).turns <= crossings(klines, base, n).crosses,
        crossings(klines, base, n).crosses > 0 ==> crossings(klines, base, n).turns < crossings(
            klines,
            base,
            n,
        ).crosses && crossings(klines, base, n).upward is Some,
        crossings(klines, base, n).crosses == 0 ==> crossings(klines, base, n).upward is None,
    decreases n,
{
    if n > 1 {
        lemma_crossings_counts(klines, base, n - 1);
    }
}

/// A number brought down to a hundred where it is above.
pub open spec fn spec_capped(n: Num) -> Num {
    n.smaller(num::num(figures::HUNDRED))
}

/// See [`spec_capped`].
#[verifier::when_used_as_spec(spec_capped)]
pub fn capped(n: Num) -> (r: Num)
    ensures
        r == spec_capped(n),
{
    n.smaller(num::num(figures::HUNDRED))
}

/// The sum of the four parts of the suitability by their weights: the oscillation, the
/// crossings per bar, the range and the gain.
pub open spec fn spec_weighed(oscillation: Num, crosses: u32, bars: u64, range: Num, pnl: Num) -> Num {
    let crossing = capped(
        Num::from_u64(crosses as u64).over(Num::from_u64(bars)).times(num::num(figures::HUNDRED)),
    );
    let gain = capped(pnl.plus(num::num(figures::TEN)).larger(num::num(figures::ZERO)));
    capped(oscillation).times(num::num(figures::TWO_FIFTHS)).plus(
        crossing.times(num::num(figures::FIFTH)),
    ).plus(capped(range).times(num::num(figures::FIFTH))).plus(gain.times(num::num(figures::FIFTH)))
}

/// See [`spec_weighed`].
#[verifier::when_used_as_spec(spec_weighed)]
pub fn weighed(oscillation: Num, crosses: u32, bars: u64, range: Num, pnl: Num) -> (r: Num)
    ensures
        r == spec_weighed(oscillation, crosses, bars, range, pnl),
{
    let crossing: Num = capped(
        Num::from_u64(crosses as u64).over(Num::from_u64(bars)).times(num::num(figures::HUNDRED)),
    );
    let gain: Num = capped(pnl.plus(num::num(figures::TEN)).larger(num::num(figures::ZERO)));
    capped(oscillation).times(num::num(figures::TWO_FIFTHS)).plus(
        crossing.times(num::num(figures::FIFTH)),
    ).plus(capped(range).times(num::num(figures::FIFTH))).plus(gain.times(num::num(figures::FIFTH)))
}

/// The score of too few bars.
pub open spec fn no_score() -> GridScoreView {
    GridScoreView {
        symbol: ""@,
        base_price: num::num(figures::ZERO),
        price_range_pct: num::num(figures::ZERO),
        level_crosses: 0,
        oscillation_score: num::num(figures::ZERO),
        total_trades: 0,
        wins: 0,
        losses: 0,
        total_pnl_pct: num::num(figures::ZERO),
        win_rate: num::num(figures::ZERO),
        suitability: num::num(figures::ZERO),
    }
}

/// The score of some bars, with levels around their first close.
pub open spec fn score(klines: Seq<KlineData>) -> GridScoreView {
    if klines.len() < FEWEST_BARS {
        no_score()
    } else {
        let n = klines.len() as int;
        let base = klines[0].close;
        let range = range_pct(klines, base);
        let c = crossings(klines, base, n);
        let t = trial(klines, base, n);
        GridScoreView {
            symbol: ""@,
            base_price: base,
            price_range_pct: range,
            level_crosses: c.crosses,
            oscillation_score: oscillation(c),
            total_trades: t.trades,
            wins: t.wins,
            losses: t.losses,
            total_pnl_pct: t.pnl,
            win_rate: parts::win_rate(t.wins as u64, t.trades as u64),
            suitability: weighed(oscillation(c), c.crosses, n as u64, range, t.pnl),
        }
    }
}

/// The suitability of any bars is a number of at most a hundred, whatever the prices, and
/// not below zero where the range of the prices is not. The win rate and the oscillation
/// are percentages.
pub proof fn lemma_suitability(klines: Seq<KlineData>)
    requires
        klines.len() <= u32::MAX,
    ensures
        score(klines).suitability.at_most(num::num(figures::HUNDRED)),
        !score(klines).price_range_pct.below(num::num(figures::ZERO)) ==> percentages::percentage(
            score(klines).suitability,
        ),
        percentages::percentage(score(klines).win_rate),
        percentages::percentage(score(klines).oscillation_score),
{
    if klines.len() >= FEWEST_BARS {
        let n = klines.len() as int;
        let base = klines[0].close;
        let c = crossings(klines, base, n);
        let t = trial(klines, base, n);
        let hundred = num::num(figures::HUNDRED);
        lemma_trial_counts(klines, base, n);
        lemma_crossings_counts(klines, base, n);
        percentages::lemma_share(c.crosses as u64, n as u64);
        if c.crosses > 0 {
            percentages::lemma_share(c.turns as u64, c.crosses as u64);
        }
        if t.trades > 0 {
            percentages::lemma_share(t.wins as u64, t.trades as u64);
        }
        let crossing = Num::from_u64(c.crosses as u64).over(Num::from_u64(n as u64)).times(hundred);
        let gain = t.pnl.plus(num::num(figures::TEN)).larger(num::num(figures::ZERO));
        percentages::lemma_fifths(
            capped(oscillation(c)),
            capped(crossing),
            capped(range_pct(klines, base)),
            capped(gain),
        );
    }
}

/// Whether the prices of a bar can be doubled: none is too large for that, and the close is
/// not too small to be kept with all its digits, as are the stop and the target from it.
pub open spec fn scalable(k: KlineData) -> bool {
    &&& scaling::roomy(k.high, 4)
    &&& scaling::roomy(k.low, 4)
    &&& scaling::roomy(k.close, 4)
    &&& k.close.magnitude() >= 2 * BINADE
}

/// The level of a doubled price over a doubled base is that of the price.
proof fn lemma_level_scaled(price: Num, base: Num)
    requires
        scaling::roomy(price, 1),
        scaling::roomy(base, 1),
        base.magnitude() > 0,
    ensures
        tracker::level_of(scaling::twice(price), scaling::twice(base)) == tracker::level_of(price, base),
{
    scaling::lemma_over_twice(price, base);
}

/// The highest and the lowest price double with the bars.
proof fn lemma_extremes_scaled(klines: Seq<KlineData>)
    requires
        klines.len() > 0,
        forall|i: int| 0 <= i < klines.len() ==> scalable(#[trigger] klines[i]),
    ensures
        peak(scaling::doubled_bars(klines)) == scaling::twice(peak(klines)),
        trough(scaling::doubled_bars(klines)) == scaling::twice(trough(klines)),
        scaling::roomy(peak(klines), 4),
        scaling::roomy(trough(klines), 4),
    decreases klines.len(),
{
    let shorter = klines.drop_last();
    let k = klines.last();
    assert(scalable(klines[klines.len() - 1]));
    let doubled = scaling::doubled_bars(klines);
    assert(doubled.drop_last() =~= scaling::doubled_bars(shorter));
    assert(doubled.last() == scaling::doubled_bar(k));
    assert(peak(doubled) == peak(scaling::doubled_bars(shorter)).larger(scaling::twice(k.high)));
    assert(trough(doubled) == trough(scaling::doubled_bars(shorter)).smaller(scaling::twice(k.low)));
    scaling::lemma_twice(k.high);
    scaling::lemma_twice(k.low);
    if shorter.len() == 0 {
        assert(scaling::doubled_bars(shorter).len() == 0);
    } else {
        assert forall|i: int| 0 <= i < shorter.len() implies scalable(#[trigger] shorter[i]) by {
            assert(shorter[i] == klines[i]);
        }
        lemma_extremes_scaled(shorter);
        scaling::lemma_order_twice(peak(shorter), k.high);
        scaling::lemma_order_twice(trough(shorter), k.low);
    }
}

/// The levels that closes cross do not change when all prices are doubled.
proof fn lemma_crossings_scaled(klines: Seq<KlineData>, base: Num, n: int)
    requires
        1 <= n <= klines.len(),
        forall|i: int| 0 <= i < klines.len() ==> scalable(#[trigger] klines[i]),
        scaling::roomy(base, 4),
        base.magnitude() > 0,
    ensures
        crossings(scaling::doubled_bars(klines), scaling::twice(base), n) == crossings(klines, base, n),
    decreases n,
{
    assert(scalable(klines[n - 1]));
    lemma_level_scaled(klines[n - 1].close, base);
    if n > 1 {
        lemma_crossings_scaled(klines, base, n - 1);
    }
}

/// The stop and the target double with the price that they are taken from.
proof fn lemma_bracket_scaled(direction: TradeDirection, price: Num)
    requires
        scaling::roomy(price, 4),
        price.magnitude() >= 2 * BINADE,
    ensures
        ({
            let (sl, tp) = tracker::grid_bracket(direction, price);
            &&& tracker::grid_bracket(direction, scaling::twice(price)) == (
                scaling::twice(sl),
                scaling::twice(tp),
            )
            &&& scaling::roomy(sl, 3)
            &&& scaling::roomy(tp, 3)
        }),
{
    let low = num::num(figures::DOWN_ONE_AND_A_HALF_PERCENT);
    let high = num::num(figures::UP_ONE_AND_A_HALF_PERCENT);
    let down = num::num(figures::DOWN_HALF_PERCENT);
    let up = num::num(figures::UP_HALF_PERCENT);
    scaling::lemma_about_one(low);
    scaling::lemma_about_one(high);
    scaling::lemma_about_one(down);
    scaling::lemma_about_one(up);
    scaling::lemma_times_about_one(price, low);
    scaling::lemma_times_about_one(price, high);
    scaling::lemma_times_about_one(price, down);
    scaling::lemma_times_about_one(price, up);
}

/// A trade of the trial with its prices doubled.
pub open spec fn doubled_position(p: Option<Position>) -> Option<Position> {
    match p {
        Some(p) => Some(
            Position {
                entry: scaling::twice(p.entry),
                sl: scaling::twice(p.sl),
                tp: scaling::twice(p.tp),
                ..p
            },
        ),
        None => None,
    }
}

/// The trial goes the same way when all prices are doubled; only the prices of the trade
/// that is still open double.
proof fn lemma_trial_scaled(klines: Seq<KlineData>, base: Num, n: int)
    requires
        1 <= n <= klines.len(),
        forall|i: int| 0 <= i < klines.len() ==> scalable(#[trigger] klines[i]),
        scaling::roomy(base, 4),
        base.magnitude() > 0,
    ensures
        ({
            let t = trial(klines, base, n);
            &&& trial(scaling::doubled_bars(klines), scaling::twice(base), n) == (Trial {
                active: doubled_position(t.active),
                ..t
            })
            &&& t.active is Some ==> {
                let p = t.active->0;
                &&& scaling::roomy(p.entry, 4)
                &&& p.entry.magnitude() > 0
                &&& scaling::roomy(p.sl, 3)
                &&& scaling::roomy(p.tp, 3)
            }
        }),
    decreases n,
{
    let k = klines[n - 1];
    assert(scalable(klines[n - 1]));
    lemma_level_scaled(k.close, base);
    if n > 1 {
        lemma_trial_scaled(klines, base, n - 1);
        let t = trial(klines, base, n - 1);
        if t.active is Some {
            let p = t.active->0;
            let long = p.direction.long();
            scaling::lemma_exit_twice(long, p.sl, p.tp, k.low, k.high);
            scaling::lemma_gain_twice(long, p.entry, k.low);
            scaling::lemma_gain_twice(long, p.entry, k.high);
            scaling::lemma_gain_twice(long, p.entry, p.tp);
        }
        lemma_bracket_scaled(TradeDirection::Long, k.close);
        lemma_bracket_scaled(TradeDirection::Short, k.close);
    }
}

/// The score depends on relative prices only: doubling every price leaves it as it is but
/// for the base price, which doubles. The prices may be any that can be doubled, see
/// [`scalable`].
pub proof fn lemma_score_scaled(klines: Seq<KlineData>)
    requires
        forall|i: int| 0 <= i < klines.len() ==> scalable(#[trigger] klines[i]),
    ensures
        score(scaling::doubled_bars(klines)) == (GridScoreView {
            base_price: scaling::twice(score(klines).base_price),
            ..score(klines)
        }),
{
    if klines.len() < FEWEST_BARS {
        scaling::lemma_twice(num::num(figures::ZERO));
    } else {
        let n = klines.len() as int;
        let base = klines[0].close;
        assert(scalable(klines[0]));
        lemma_extremes_scaled(klines);
        lemma_crossings_scaled(klines, base, n);
        lemma_trial_scaled(klines, base, n);
        scaling::lemma_minus_twice(peak(klines), trough(klines));
        scaling::lemma_over_twice(peak(klines).minus(trough(klines)), base);
    }
}

impl RealtimeEngine {
    /// The score of a symbol by its past bars.
    pub fn score_symbol_grid(klines: &[KlineData]) -> (r: GridScore)
        requires
            klines@.len() <= u32::MAX,
        ensures
            r@ == score(klines@),
    {
        let zero: Num = num::num(figures::ZERO);
        if klines.len() < FEWEST_BARS {
            return GridScore {
                symbol: "".to_owned(),
                base_price: zero,
                price_range_pct: zero,
                level_crosses: 0,
                oscillation_score: zero,
                total_trades: 0,
                wins: 0,
                losses: 0,
                total_pnl_pct: zero,
                win_rate: zero,
                suitability: zero,
            };
        }
        let base: Num = klines[0].close;
        let range: Num = price_range(klines, base);
        let c: Crossings = count_crossings(klines, base);
        let t: Trial = run_trial(klines, base);
        GridScore {
            symbol: "".to_owned(),
            base_price: base,
            price_range_pct: range,
            level_crosses: c.crosses,
            oscillation_score: oscillation(c),
            total_trades: t.trades,
            wins: t.wins,
            losses: t.losses,
            total_pnl_pct: t.pnl,
            win_rate: parts::win_rate(t.wins as u64, t.trades as u64),
            suitability: weighed(oscillation(c), c.crosses, klines.len() as u64, range, t.pnl),
        }
    }
}

} // verus!
