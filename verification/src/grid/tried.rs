//! What the score of some bars says of the trades that the grid engine would have made.
use vstd::prelude::*;
use crate::drawing;
use crate::figures;
use crate::grid::score;
use crate::grid::score::Position;
use crate::grid::tracker;
use crate::grid::tracker::{GridTradeView, TrackerView};
use crate::market::{KlineData, TradeDirection};
use crate::num::{num, Num};

verus! {

/// Whether a bar reaches the stop of a trade.
pub open spec fn stop_reached(p: Position, k: KlineData) -> bool {
    if p.direction == TradeDirection::Long {
        k.low.at_most(p.sl)
    } else {
        p.sl.at_most(k.high)
    }
}

/// Whether a bar reaches the target of a trade.
pub open spec fn target_reached(p: Position, k: KlineData) -> bool {
    if p.direction == TradeDirection::Long {
        p.tp.at_most(k.high)
    } else {
        k.low.at_most(p.tp)
    }
}

/// The price at which a bar ends a trade that it ends: the worst of the bar where it reaches
/// the stop, else the target.
pub open spec fn left_at(p: Position, k: KlineData) -> Num {
    if !stop_reached(p, k) {
        p.tp
    } else if p.direction == TradeDirection::Long {
        k.low
    } else {
        k.high
    }
}

/// A trial starts with the level of the first close and nothing else.
pub proof fn lemma_start(klines: Seq<KlineData>, base: Num)
    ensures
        ({
            let t = score::trial(klines, base, 1);
            &&& t.active is None
            &&& t.trades == 0 && t.wins == 0 && t.losses == 0
            &&& t.pnl == num(figures::ZERO)
            &&& t.level == tracker::level_of(klines[0].close, base)
        }),
{
}

/// What one more bar does to a trial. A trade whose stop or target it reaches ends, and is a
/// win where it reaches the target, else a loss; its gain is added. Without a trade, a
/// close at another level than the last starts one at the close, short after a rise and
/// long after a fall.
pub proof fn lemma_next(klines: Seq<KlineData>, base: Num, n: int)
    requires
        1 <= n < u32::MAX,
    ensures
        ({
            let t = score::trial(klines, base, n);
            let u = score::trial(klines, base, n + 1);
            let k = klines[n];
            let level = tracker::level_of(k.close, base);
            let p = t.active->0;
            let left = t.active is Some && (stop_reached(p, k) || target_reached(p, k));
            let starts = (t.active is None || left) && level != t.level;
            &&& u.level == level
            &&& u.wins == t.wins + if left && target_reached(p, k) {
                1int
            } else {
                0int
            }
            &&& u.losses == t.losses + if left && !target_reached(p, k) {
                1int
            } else {
                0int
            }
            &&& u.pnl == if left {
                t.pnl.plus(
                    drawing::change(p.direction == TradeDirection::Long, p.entry, left_at(p, k)),
                )
            } else {
                t.pnl
            }
            &&& u.trades == t.trades + if starts {
                1int
            } else {
                0int
            }
            &&& t.active is Some && !left ==> u.active == t.active
            &&& (t.active is None || left) && !starts ==> u.active is None
            &&& starts ==> {
                let q = u.active->0;
                &&& u.active is Some
                &&& q.entry == k.close
                &&& level > t.level ==> q.direction == TradeDirection::Short
                &&& level < t.level ==> q.direction == TradeDirection::Long
                &&& (q.sl, q.tp) == tracker::grid_bracket(q.direction, k.close)
            }
        }),
{
    score::lemma_trial_counts(klines, base, n);
}

/// A tracker that started at the first close and saw the first `n` bars.
pub open spec fn watched(symbol: Seq<char>, klines: Seq<KlineData>, n: int) -> TrackerView
    decreases n,
{
    if n <= 0 {
        TrackerView::fresh(symbol, klines[0].close)
    } else {
        watched(symbol, klines, n - 1).after_kline(klines[n - 1]).0
    }
}

/// The gains of some finished trades, added one after the other to zero.
pub open spec fn earned(trades: Seq<GridTradeView>) -> Num
    decreases trades.len(),
{
    if trades.len() == 0 {
        num(figures::ZERO)
    } else {
        let t = trades.last();
        earned(trades.drop_last()).plus(
            drawing::change(t.direction == TradeDirection::Long, t.entry_price, t.exit_price->0),
        )
    }
}

/// A trial makes the trades that a tracker makes of the same bars: as many, with the same
/// gains, and with the same one open at the end.
pub proof fn lemma_as_the_tracker(symbol: Seq<char>, klines: Seq<KlineData>, n: int)
    requires
        1 <= n <= u32::MAX,
    ensures
        ({
            let t = score::trial(klines, klines[0].close, n);
            let w = watched(symbol, klines, n);
            &&& w.base_price == klines[0].close
            &&& w.last_close_level == Some(t.level)
            &&& w.active_trade is Some <==> t.active is Some
            &&& t.active is Some ==> {
                &&& w.active_trade->0.direction == t.active->0.direction
                &&& w.active_trade->0.entry_price == t.active->0.entry
                &&& w.active_trade->0.sl == t.active->0.sl
                &&& w.active_trade->0.tp == t.active->0.tp
            }
            &&& w.closed_trades.len() == t.wins + t.losses
            &&& t.trades == w.closed_trades.len() + if w.active_trade is Some {
                1int
            } else {
                0int
            }
            &&& t.pnl == earned(w.closed_trades)
        }),
    decreases n,
{
    let base = klines[0].close;
    if n == 1 {
        reveal_with_fuel(watched, 2);
    } else {
        lemma_as_the_tracker(symbol, klines, n - 1);
        lemma_next(klines, base, n - 1);
        score::lemma_trial_counts(klines, base, n - 1);
        score::lemma_trial_counts(klines, base, n);
        let v = watched(symbol, klines, n - 1);
        let w = watched(symbol, klines, n);
        let k = klines[n - 1];
        if w.closed_trades.len() > v.closed_trades.len() {
            assert(w.closed_trades.drop_last() =~= v.closed_trades);
        } else {
            assert(w.closed_trades =~= v.closed_trades);
        }
    }
}

/// The score of ten bars or more is that of the trial and of the levels around the first
/// close; fewer score nothing.
pub proof fn lemma_score(klines: Seq<KlineData>)
    ensures
        ({
            let s = score::score(klines);
            let base = klines[0].close;
            let n = klines.len() as int;
            if n >= 10 {
                let t = score::trial(klines, base, n);
                let c = score::crossings(klines, base, n);
                &&& s.base_price == base
                &&& s.total_trades == t.trades
                &&& s.wins == t.wins
                &&& s.losses == t.losses
                &&& s.total_pnl_pct == t.pnl
                &&& s.level_crosses == c.crosses
                &&& s.price_range_pct == score::peak(klines).minus(score::trough(klines)).over(
                    base,
                ).times(num(figures::HUNDRED))
                &&& s.total_trades == 0 ==> s.win_rate == num(figures::ZERO)
                &&& s.total_trades > 0 ==> s.win_rate == Num::from_u64(s.wins as u64).over(
                    Num::from_u64(s.total_trades as u64),
                ).times(num(figures::HUNDRED))
                &&& s.level_crosses == 0 ==> s.oscillation_score == num(figures::ZERO)
                &&& s.level_crosses > 0 ==> s.oscillation_score == Num::from_u64(
                    c.turns as u64,
                ).over(Num::from_u64(s.level_crosses as u64)).times(num(figures::HUNDRED))
            } else {
                &&& s.total_trades == 0 && s.wins == 0 && s.losses == 0 && s.level_crosses == 0
                &&& s.suitability == num(figures::ZERO)
            }
        }),
{
}

/// What one more close does to the count of crossings: a close at another level counts one,
/// and a turn where the level had last changed the other way.
pub proof fn lemma_crossing(klines: Seq<KlineData>, base: Num, n: int)
    requires
        1 <= n < u32::MAX,
    ensures
        score::crossings(klines, base, 1).crosses == 0,
        score::crossings(klines, base, 1).turns == 0,
        score::crossings(klines, base, 1).level == tracker::level_of(klines[0].close, base),
        ({
            let c = score::crossings(klines, base, n);
            let d = score::crossings(klines, base, n + 1);
            let level = tracker::level_of(klines[n].close, base);
            &&& d.level == level
            &&& d.crosses == c.crosses + if level != c.level {
                1int
            } else {
                0int
            }
            &&& d.turns == c.turns + if (level > c.level && c.upward == Some(false)) || (level
                < c.level && c.upward == Some(true)) {
                1int
            } else {
                0int
            }
            &&& level == c.level ==> d.upward == c.upward
            &&& level > c.level ==> d.upward == Some(true)
            &&& level < c.level ==> d.upward == Some(false)
        }),
{
    score::lemma_crossings_counts(klines, base, n);
}

/// Whether bars have prices that are all numbers.
pub open spec fn numbered(klines: Seq<KlineData>) -> bool {
    forall|i: int|
        0 <= i < klines.len() ==> !(#[trigger] klines[i]).high.nan() && !klines[i].low.nan()
}

/// The range is taken from the highest high, which no bar passes, to the lowest low, which
/// none falls below.
pub proof fn lemma_extremes(klines: Seq<KlineData>, i: int)
    requires
        0 <= i < klines.len(),
        numbered(klines),
    ensures
        klines[i].high.at_most(score::peak(klines)),
        score::trough(klines).at_most(klines[i].low),
    decreases klines.len(),
{
    let rest = klines.drop_last();
    assert(numbered(rest)) by {
        assert forall|j: int| 0 <= j < rest.len() implies !(#[trigger] rest[j]).high.nan()
            && !rest[j].low.nan() by {
            assert(rest[j] == klines[j]);
        }
    }
    lemma_numbers(rest);
    if i < rest.len() {
        lemma_extremes(rest, i);
        assert(rest[i] == klines[i]);
    }
}

/// The extremes of bars with prices that are numbers are numbers.
proof fn lemma_numbers(klines: Seq<KlineData>)
    requires
        numbered(klines),
    ensures
        !score::peak(klines).nan(),
        !score::trough(klines).nan(),
    decreases klines.len(),
{
    if klines.len() > 0 {
        let rest = klines.drop_last();
        assert forall|j: int| 0 <= j < rest.len() implies !(#[trigger] rest[j]).high.nan()
            && !rest[j].low.nan() by {
            assert(rest[j] == klines[j]);
        }
        lemma_numbers(rest);
    }
}

} // verus!
