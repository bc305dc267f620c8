//! What the score of some bars says of the trades that the alligator engine would have
//! made.
use vstd::prelude::*;
use crate::drawing;
use crate::figures;
use crate::market::{KlineData, TradeDirection};
use crate::num::{num, Num};
use crate::william::alligator;
use crate::william::alligator::AlligatorAlignment;
use crate::william::score;
use crate::william::score::Position;
use crate::william::tracker::{GridTradeView, TrackerView};

verus! {

/// The first average is the mean of as many values as the period has; each further one has
/// one part of its value to the rest of the average before.
pub proof fn lemma_averages(values: Seq<Num>, period: usize, j: int)
    requires
        1 <= period <= values.len(),
        0 <= j < values.len() - period,
    ensures
        alligator::smma(values, period).len() == values.len() - period + 1,
        alligator::smma(values, period)[0] == alligator::total(values, period as nat).over(
            Num::from_u64(period as u64),
        ),
        alligator::smma(values, period)[j + 1] == alligator::smma(values, period)[j].times(
            Num::from_u64(period as u64).minus(num(figures::ONE)),
        ).plus(values[j + period]).over(Num::from_u64(period as u64)),
{
}

/// The alignment of some closes is that of the jaw of thirteen as it was eight values ago,
/// the teeth of eight as they were five ago and the lips of five as they were three ago;
/// there is none before the twenty-first close.
pub proof fn lemma_alignment_of(closes: Seq<Num>)
    ensures
        score::alignment_of(closes) is Some <==> closes.len() >= 21,
        closes.len() >= 21 ==> {
            let jaw = alligator::smma(closes, 13)[closes.len() - 21];
            let teeth = alligator::smma(closes, 8)[closes.len() - 13];
            let lips = alligator::smma(closes, 5)[closes.len() - 8];
            let a = score::alignment_of(closes)->0;
            &&& a == AlligatorAlignment::Bullish <==> teeth.below(lips) && jaw.below(teeth)
            &&& a == AlligatorAlignment::Bearish <==> lips.below(teeth) && teeth.below(jaw)
        },
{
}

/// The closes that are kept are the last five hundred.
pub proof fn lemma_kept(klines: Seq<KlineData>, n: int, i: int)
    requires
        0 <= n <= klines.len(),
        0 <= i < score::kept_closes(klines, n).len(),
    ensures
        score::kept_closes(klines, n).len() == if n <= 500 {
            n
        } else {
            500
        },
        score::kept_closes(klines, n)[i] == klines[n - score::kept_closes(klines, n).len()
            + i].close,
    decreases n,
{
    lemma_kept_length(klines, n);
    lemma_kept_length(klines, n - 1);
    let before = score::kept_closes(klines, n - 1);
    let after = score::kept_closes(klines, n);
    if i < after.len() - 1 {
        if n <= 500 {
            lemma_kept(klines, n - 1, i);
        } else {
            lemma_kept(klines, n - 1, i + 1);
        }
    }
}

/// See [`lemma_kept`].
proof fn lemma_kept_length(klines: Seq<KlineData>, n: int)
    ensures
        n >= 0 ==> score::kept_closes(klines, n).len() == if n <= 500 {
            n
        } else {
            500
        },
    decreases n,
{
    if n > 0 {
        lemma_kept_length(klines, n - 1);
    }
}

/// Whether a bar reaches the stop of a trade.
pub open spec fn stop_reached(p: Position, k: KlineData) -> bool {
    if p.direction == TradeDirection::Long {
        k.low.at_most(p.sl)
    } else {
        p.sl.at_most(k.high)
    }
}

/// Whether a bar reaches the target of a trade.
pub open spec fn target_reached(p: Position, k: KlineData) -> bool {
    if p.direction == TradeDirection::Long {
        p.tp.at_most(k.high)
    } else {
        k.low.at_most(p.tp)
    }
}

/// Whether an alignment is that of a direction.
pub open spec fn agrees(a: AlligatorAlignment, direction: TradeDirection) -> bool {
    ||| a == AlligatorAlignment::Bullish && direction == TradeDirection::Long
    ||| a == AlligatorAlignment::Bearish && direction == TradeDirection::Short
}

/// The price at which a bar ends a trade that it ends: the worst of the bar where it reaches
/// the stop, else the target where it reaches that, else the close.
pub open spec fn left_at(p: Position, k: KlineData) -> Num {
    if stop_reached(p, k) && p.direction == TradeDirection::Long {
        k.low
    } else if stop_reached(p, k) {
        k.high
    } else if target_reached(p, k) {
        p.tp
    } else {
        k.close
    }
}

/// A trial starts with nothing.
pub proof fn lemma_start(klines: Seq<KlineData>, sl_pct: Num, tp_pct: Num)
    ensures
        ({
            let t = score::trial(klines, sl_pct, tp_pct, 0);
            &&& t.active is None
            &&& t.trades == 0 && t.wins == 0 && t.losses == 0
            &&& t.pnl == num(figures::ZERO)
            &&& t.peak == num(figures::ZERO)
            &&& t.drawdown == num(figures::ZERO)
            &&& t.alignment == AlligatorAlignment::Mixed
        }),
{
}

/// What one more bar does to a trial. Before the twenty-first it does nothing. A trade ends
/// where the bar reaches its stop or target, or where the alignment has just changed away
/// from it; it is a win where the bar reaches the target, else a loss; its gain is added,
/// and the greatest fall of the gains is kept. Without a trade, a new alignment starts one
/// in its direction at the close, with the stop and the target of the given percentages.
pub proof fn lemma_next(klines: Seq<KlineData>, sl_pct: Num, tp_pct: Num, n: int)
    requires
        0 <= n < klines.len(),
        n < u32::MAX,
    ensures
        ({
            let t = score::trial(klines, sl_pct, tp_pct, n);
            let u = score::trial(klines, sl_pct, tp_pct, n + 1);
            let k = klines[n];
            let judged = score::alignment_of(score::kept_closes(klines, n + 1));
            let now = judged->0;
            let p = t.active->0;
            let left = t.active is Some && (stop_reached(p, k) || target_reached(p, k) || (now
                != t.alignment && !agrees(now, p.direction)));
            let starts = (t.active is None || left) && now != t.alignment && now
                != AlligatorAlignment::Mixed;
            if n < 20 {
                judged is None && u == t
            } else {
                &&& judged is Some
                &&& u.alignment == now
                &&& u.wins == t.wins + if left && target_reached(p, k) {
                    1int
                } else {
                    0int
                }
                &&& u.losses == t.losses + if left && !target_reached(p, k) {
                    1int
                } else {
                    0int
                }
                &&& u.pnl == if left {
                    t.pnl.plus(
                        drawing::change(
                            p.direction == TradeDirection::Long,
                            p.entry,
                            left_at(p, k),
                        ),
                    )
                } else {
                    t.pnl
                }
                &&& u.peak == if left && t.peak.below(u.pnl) {
                    u.pnl
                } else {
                    t.peak
                }
                &&& u.drawdown == if left && t.drawdown.below(u.peak.minus(u.pnl)) {
                    u.peak.minus(u.pnl)
                } else {
                    t.drawdown
                }
                &&& u.trades == t.trades + if starts {
                    1int
                } else {
                    0int
                }
                &&& t.active is Some && !left ==> u.active == t.active
                &&& (t.active is None || left) && !starts ==> u.active is None
                &&& starts ==> {
                    let q = u.active->0;
                    let one = num(figures::ONE);
                    let s = sl_pct.over(num(figures::HUNDRED));
                    let g = tp_pct.over(num(figures::HUNDRED));
                    &&& u.active is Some
                    &&& q.entry == k.close
                    &&& agrees(now, q.direction)
                    &&& q.direction == TradeDirection::Long ==> q.sl == k.close.times(one.minus(s))
                        && q.tp == k.close.times(one.plus(g))
                    &&& q.direction == TradeDirection::Short ==> q.sl == k.close.times(one.plus(s))
                        && q.tp == k.close.times(one.minus(g))
                }
            }
        }),
{
    score::lemma_trial_counts(klines, sl_pct, tp_pct, n);
    lemma_kept_length(klines, n + 1);
    lemma_alignment_of(score::kept_closes(klines, n + 1));
    lemma_quiet(klines, sl_pct, tp_pct, n);
}

/// Nothing happens before there is an alignment.
proof fn lemma_quiet(klines: Seq<KlineData>, sl_pct: Num, tp_pct: Num, n: int)
    ensures
        n <= 20 ==> score::trial(klines, sl_pct, tp_pct, n) == score::trial(
            klines,
            sl_pct,
            tp_pct,
            0,
        ),
    decreases n,
{
    if 0 < n <= 20 {
        lemma_quiet(klines, sl_pct, tp_pct, n - 1);
        lemma_kept_length(klines, n);
        lemma_alignment_of(score::kept_closes(klines, n));
    }
}

/// A tracker that started at a price and saw the first `n` bars, with these settings.
pub open spec fn watched(
    start: TrackerView,
    klines: Seq<KlineData>,
    sl_pct: Num,
    tp_pct: Num,
    threshold: i32,
    n: int,
) -> TrackerView
    decreases n,
{
    if n <= 0 {
        start
    } else {
        watched(start, klines, sl_pct, tp_pct, threshold, n - 1).after_kline(
            klines[n - 1],
            sl_pct,
            tp_pct,
            threshold,
        ).0
    }
}

/// The gains of some finished trades, ghosts among them, added one after the other to zero.
pub open spec fn earned(trades: Seq<GridTradeView>) -> Num
    decreases trades.len(),
{
    if trades.len() == 0 {
        num(figures::ZERO)
    } else {
        let t = trades.last();
        earned(trades.drop_last()).plus(
            drawing::change(t.direction == TradeDirection::Long, t.entry_price, t.exit_price->0),
        )
    }
}

/// A trial makes the trades that a tracker makes of the same bars with the same stop and
/// target, ghosts or not: as many, with the same gains, and with the same one open at the
/// end.
pub proof fn lemma_as_the_tracker(
    symbol: Seq<char>,
    price: Num,
    klines: Seq<KlineData>,
    sl_pct: Num,
    tp_pct: Num,
    threshold: i32,
    n: int,
)
    requires
        0 <= n <= klines.len(),
        n <= u32::MAX,
    ensures
        ({
            let start = TrackerView::fresh(symbol, price);
            let t = score::trial(klines, sl_pct, tp_pct, n);
            let w = watched(start, klines, sl_pct, tp_pct, threshold, n);
            &&& w.close_prices == score::kept_closes(klines, n)
            &&& w.alignment == t.alignment
            &&& w.active_trade is Some <==> t.active is Some
            &&& t.active is Some ==> {
                &&& w.active_trade->0.direction == t.active->0.direction
                &&& w.active_trade->0.entry_price == t.active->0.entry
                &&& w.active_trade->0.sl == t.active->0.sl
                &&& w.active_trade->0.tp == t.active->0.tp
            }
            &&& w.closed_trades.len() == t.wins + t.losses
            &&& t.trades == w.closed_trades.len() + if w.active_trade is Some {
                1int
            } else {
                0int
            }
            &&& t.pnl == earned(w.closed_trades)
            &&& n <= 20 ==> !w.alignment_changed
        }),
    decreases n,
{
    let start = TrackerView::fresh(symbol, price);
    if n > 0 {
        lemma_as_the_tracker(symbol, price, klines, sl_pct, tp_pct, threshold, n - 1);
        lemma_next(klines, sl_pct, tp_pct, n - 1);
        lemma_quiet(klines, sl_pct, tp_pct, n - 1);
        lemma_kept_length(klines, n);
        lemma_alignment_of(score::kept_closes(klines, n));
        let v = watched(start, klines, sl_pct, tp_pct, threshold, n - 1);
        let w = watched(start, klines, sl_pct, tp_pct, threshold, n);
        if w.closed_trades.len() > v.closed_trades.len() {
            assert(w.closed_trades.drop_last() =~= v.closed_trades);
        } else {
            assert(w.closed_trades =~= v.closed_trades);
        }
    }
}

/// The score of twenty-one bars or more is that of the trial; fewer score nothing.
pub proof fn lemma_score(klines: Seq<KlineData>, sl_pct: Num, tp_pct: Num)
    ensures
        ({
            let s = score::score(klines, sl_pct, tp_pct);
            let n = klines.len() as int;
            if n >= 21 {
                let t = score::trial(klines, sl_pct, tp_pct, n);
                &&& s.base_price == klines[0].close
                &&& s.total_signals == t.trades
                &&& s.total_trades == t.trades
                &&& s.wins == t.wins
                &&& s.losses == t.losses
                &&& s.total_pnl_pct == t.pnl
                &&& s.max_drawdown_pct == t.drawdown
                &&& s.total_trades == 0 ==> s.win_rate == num(figures::ZERO)
                &&& s.total_trades > 0 ==> s.win_rate == Num::from_u64(s.wins as u64).over(
                    Num::from_u64(s.total_trades as u64),
                ).times(num(figures::HUNDRED))
            } else {
                &&& s.total_trades == 0 && s.total_signals == 0 && s.wins == 0 && s.losses == 0
                &&& s.suitability == num(figures::ZERO)
            }
        }),
{
}

} // verus!
