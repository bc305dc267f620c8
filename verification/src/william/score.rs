//! How well a symbol would have done with the alligator.
use std::collections::VecDeque;
use vstd::prelude::*;
use crate::arithmetic;
use crate::figures;
use crate::market;
use crate::market::{KlineData, TradeDirection};
use crate::num::{num, Num};
use crate::parts;
use crate::percentages;
use crate::william::alligator;
use crate::william::alligator::AlligatorAlignment;
use crate::william::engine::RealtimeEngine;

verus! {

/// The score of a symbol.
#[derive(Debug)]
pub struct AlligatorScore {
    pub symbol: String,
    pub base_price: Num,
    pub total_signals: u32,
    pub total_trades: u32,
    pub wins: u32,
    pub losses: u32,
    pub total_pnl_pct: Num,
    pub win_rate: Num,
    pub max_drawdown_pct: Num,
    pub suitability: Num,
}

/// The contents of an [`AlligatorScore`].
#[verifier::ext_equal]
pub struct AlligatorScoreView {
    pub symbol: Seq<char>,
    pub base_price: Num,
    pub total_signals: u32,
    pub total_trades: u32,
    pub wins: u32,
    pub losses: u32,
    pub total_pnl_pct: Num,
    pub win_rate: Num,
    pub max_drawdown_pct: Num,
    pub suitability: Num,
}

impl View for AlligatorScore {
    type V = AlligatorScoreView;

    open spec fn view(&self) -> AlligatorScoreView {
        AlligatorScoreView {
            symbol: self.symbol@,
            base_price: self.base_price,
            total_signals: self.total_signals,
            total_trades: self.total_trades,
            wins: self.wins,
            losses: self.losses,
            total_pnl_pct: self.total_pnl_pct,
            win_rate: self.win_rate,
            max_drawdown_pct: self.max_drawdown_pct,
            suitability: self.suitability,
        }
    }
}

/// The least number of bars that are scored.
pub const FEWEST_BARS: usize = 21;

/// The alignment of the averages of some closes, once each of them can be read.
pub open spec fn alignment_of(closes: Seq<Num>) -> Option<AlligatorAlignment> {
    let jaw = alligator::displaced(
        alligator::smma(closes, alligator::JAW_PERIOD),
        alligator::JAW_DISPLACEMENT,
    );
    let teeth = alligator::displaced(
        alligator::smma(closes, alligator::TEETH_PERIOD),
        alligator::TEETH_DISPLACEMENT,
    );
    let lips = alligator::displaced(
        alligator::smma(closes, alligator::LIPS_PERIOD),
        alligator::LIPS_DISPLACEMENT,
    );
    match (lips, teeth, jaw) {
        (Some(l), Some(t), Some(j)) => Some(alligator::determine_alignment(l, t, j)),
        _ => None,
    }
}

/// See [`alignment_of`].
fn align(closes: &VecDeque<Num>) -> (r: Option<AlligatorAlignment>)
    ensures
        r == alignment_of(closes@),
{
    let jaw: Option<Num> = alligator::get_displaced(
        &alligator::calc_smma(closes, alligator::JAW_PERIOD),
        alligator::JAW_DISPLACEMENT,
    );
    let teeth: Option<Num> = alligator::get_displaced(
        &alligator::calc_smma(closes, alligator::TEETH_PERIOD),
        alligator::TEETH_DISPLACEMENT,
    );
    let lips: Option<Num> = alligator::get_displaced(
        &alligator::calc_smma(closes, alligator::LIPS_PERIOD),
        alligator::LIPS_DISPLACEMENT,
    );
    match (lips, teeth, jaw) {
        (Some(l), Some(t), Some(j)) => Some(alligator::determine_alignment(l, t, j)),
        _ => None,
    }
}

/// The closes that are kept after `n` bars.
pub open spec fn kept_closes(klines: Seq<KlineData>, n: int) -> Seq<Num>
    decreases n,
{
    if n <= 0 {
        Seq::empty()
    } else {
        alligator::with_close(kept_closes(klines, n - 1), klines[n - 1].close)
    }
}

/// A trade of the trial.
#[derive(Clone, Copy)]
pub struct Position {
    pub direction: TradeDirection,
    pub entry: Num,
    pub sl: Num,
    pub tp: Num,
}

/// Where the trial of the strategy on past bars stands.
#[derive(Clone, Copy)]
pub struct Trial {
    pub active: Option<Position>,
    pub trades: u32,
    pub wins: u32,
    pub losses: u32,
    pub pnl: Num,
    /// The highest gain so far.
    pub peak: Num,
    /// The greatest fall from the highest gain.
    pub drawdown: Num,
    pub alignment: AlligatorAlignment,
}

/// The trial at its start.
pub open spec fn spec_outset() -> Trial {
    Trial {
        active: None,
        trades: 0,
        wins: 0,
        losses: 0,
        pnl: num(figures::ZERO),
        peak: num(figures::ZERO),
        drawdown: num(figures::ZERO),
        alignment: AlligatorAlignment::Mixed,
    }
}

/// The trial at its start.
#[verifier::when_used_as_spec(spec_outset)]
pub fn outset() -> (r: Trial)
    ensures
        r == spec_outset(),
{
    Trial {
        active: None,
        trades: 0,
        wins: 0,
        losses: 0,
        pnl: num(figures::ZERO),
        peak: num(figures::ZERO),
        drawdown: num(figures::ZERO),
        alignment: AlligatorAlignment::Mixed,
    }
}

/// The direction that an alignment calls for.
pub open spec fn spec_called_for(a: AlligatorAlignment) -> Option<TradeDirection> {
    match a {
        AlligatorAlignment::Bullish => Some(TradeDirection::Long),
        AlligatorAlignment::Bearish => Some(TradeDirection::Short),
        AlligatorAlignment::Mixed => None,
    }
}

/// See [`spec_called_for`].
#[verifier::when_used_as_spec(spec_called_for)]
pub fn called_for(a: AlligatorAlignment) -> (r: Option<TradeDirection>)
    ensures
        r == spec_called_for(a),
{
    match a {
        AlligatorAlignment::Bullish => Some(TradeDirection::Long),
        AlligatorAlignment::Bearish => Some(TradeDirection::Short),
        AlligatorAlignment::Mixed => None,
    }
}

/// Where a trade leaves at a bar: at its stop or target, or else at the close if the
/// alignment has just turned away from it.
pub open spec fn spec_exit_at(p: Position, k: KlineData, before: AlligatorAlignment, now: AlligatorAlignment) -> Option<
    Num,
> {
    match market::exit_price(p.direction.long(), p.sl, p.tp, k.low, k.high) {
        Some(price) => Some(price),
        None => if before != now && called_for(now) != Some(p.direction) {
            Some(k.close)
        } else {
            None
        },
    }
}

/// See [`spec_exit_at`].
#[verifier::when_used_as_spec(spec_exit_at)]
pub fn exit_at(p: Position, k: KlineData, before: AlligatorAlignment, now: AlligatorAlignment) -> (r: Option<
    Num,
>)
    ensures
        r == spec_exit_at(p, k, before, now),
{
    match market::exit_price(p.direction.long(), p.sl, p.tp, k.low, k.high) {
        Some(price) => Some(price),
        None => {
            let held: bool = match called_for(now) {
                Some(d) => d == p.direction,
                None => false,
            };
            if before != now && !held {
                Some(k.close)
            } else {
                None
            }
        },
    }
}

/// The trial after a trade left at a price. A bar that reaches the target counts as a
/// win, also where the trade left elsewhere.
pub open spec fn spec_settled(t: Trial, p: Position, price: Num, k: KlineData) -> Trial {
    let long = p.direction.long();
    let won = market::reaches_target(long, p.tp, k.low, k.high);
    let pnl = t.pnl.plus(market::gain(long, p.entry, price));
    let peak = if t.peak.below(pnl) {
        pnl
    } else {
        t.peak
    };
    let fall = peak.minus(pnl);
    Trial {
        active: None,
        wins: if won {
            (t.wins + 1) as u32
        } else {
            t.wins
        },
        losses: if won {
            t.losses
        } else {
            (t.losses + 1) as u32
        },
        pnl,
        peak,
        drawdown: if t.drawdown.below(fall) {
            fall
        } else {
            t.drawdown
        },
        ..t
    }
}

/// See [`spec_settled`].
#[verifier::when_used_as_spec(spec_settled)]
pub fn settled(t: Trial, p: Position, price: Num, k: KlineData) -> (r: Trial)
    requires
        t.wins < u32::MAX,
        t.losses < u32::MAX,
    ensures
        r == spec_settled(t, p, price, k),
{
    let long: bool = p.direction.long();
    let mut r: Trial = t;
    r.active = None;
    if market::reaches_target(long, p.tp, k.low, k.high) {
        r.wins = t.wins + 1;
    } else {
        r.losses = t.losses + 1;
    }
    r.pnl = t.pnl.plus(market::gain(long, p.entry, price));
    if r.peak.below(r.pnl) {
        r.peak = r.pnl;
    }
    let fall: Num = r.peak.minus(r.pnl);
    if r.drawdown.below(fall) {
        r.drawdown = fall;
    }
    r
}

/// The trial after the active trade may have left at a bar.
pub open spec fn checked(t: Trial, k: KlineData, now: AlligatorAlignment) -> Trial {
    match t.active {
        Some(p) => match exit_at(p, k, t.alignment, now) {
            Some(price) => settled(t, p, price, k),
            None => t,
        },
        None => t,
    }
}

/// The trial after a bar with an alignment: the active trade may leave, and without one
/// a new alignment starts one in its direction.
pub open spec fn stepped(t: Trial, k: KlineData, now: AlligatorAlignment, sl_pct: Num, tp_pct: Num) -> Trial {
    let c = checked(t, k, now);
    match called_for(now) {
        Some(direction) => if c.active is None && t.alignment != now {
            let (sl, tp) = market::bracket(direction.long(), k.close, sl_pct, tp_pct);
            Trial {
                active: Some(Position { direction, entry: k.close, sl, tp }),
                trades: (c.trades + 1) as u32,
                alignment: now,
                ..c
            }
        } else {
            Trial { alignment: now, ..c }
        },
        None => Trial { alignment: now, ..c },
    }
}

/// See [`stepped`].
fn step(t: Trial, k: KlineData, now: AlligatorAlignment, sl_pct: Num, tp_pct: Num) -> (r: Trial)
    requires
        t.trades < u32::MAX,
        t.wins < u32::MAX,
        t.losses < u32::MAX,
    ensures
        r == stepped(t, k, now, sl_pct, tp_pct),
{
    let before: AlligatorAlignment = t.alignment;
    let mut r: Trial = t;
    if let Some(p) = t.active {
        if let Some(price) = exit_at(p, k, before, now) {
            r = settled(t, p, price, k);
        }
    }
    if let Some(direction) = called_for(now) {
        if r.active.is_none() && before != now {
            let (sl, tp): (Num, Num) = market::bracket(direction.long(), k.close, sl_pct, tp_pct);
            r.active = Some(Position { direction, entry: k.close, sl, tp });
            r.trades = r.trades + 1;
        }
    }
    r.alignment = now;
    r
}

/// The trial over the first `n` bars.
pub open spec fn trial(klines: Seq<KlineData>, sl_pct: Num, tp_pct: Num, n: int) -> Trial
    decreases n,
{
    if n <= 0 {
        outset()
    } else {
        let t = trial(klines, sl_pct, tp_pct, n - 1);
        match alignment_of(kept_closes(klines, n)) {
            Some(now) => stepped(t, klines[n - 1], now, sl_pct, tp_pct),
            None => t,
        }
    }
}

/// See [`trial`].
fn run_trial(klines: &[KlineData], sl_pct: Num, tp_pct: Num) -> (t: Trial)
    requires
        klines@.len() <= u32::MAX,
    ensures
        t == trial(klines@, sl_pct, tp_pct, klines@.len() as int),
{
    let mut closes: VecDeque<Num> = VecDeque::new();
    let mut t: Trial = outset();
    let mut i: usize = 0;
    while i < klines.len()
        invariant
            i <= klines@.len() <= u32::MAX,
            closes@ == kept_closes(klines@, i as int),
            t == trial(klines@, sl_pct, tp_pct, i as int),
            t.trades <= i,
            t.wins <= i,
            t.losses <= i,
        decreases klines@.len() - i,
    {
        alligator::push_close(&mut closes, klines[i].close);
        if let Some(now) = align(&closes) {
            t = step(t, klines[i], now, sl_pct, tp_pct);
        }
        i = i + 1;
    }
    t
}

/// Every trade of a trial is won, lost or still open, and no bar starts more than one.
pub proof fn lemma_trial_counts(klines: Seq<KlineData>, sl_pct: Num, tp_pct: Num, n: int)
    requires
        0 <= n <= u32::MAX,
    ensures
        ({
            let t = trial(klines, sl_pct, tp_pct, n);
            &&& t.trades <= n
            &&& t.trades == t.wins + t.losses + if t.active is Some {
                1int
            } else {
                0int
            }
        }),
    decreases n,
{
    if n > 0 {
        lemma_trial_counts(klines, sl_pct, tp_pct, n - 1);
    }
}

/// The sum of the four parts of the suitability by their weights: the trades per bar,
/// the win rate, the gain, and how small the greatest fall was.
pub open spec fn spec_weighed(trades: u32, bars: u64, win_rate: Num, pnl: Num, drawdown: Num) -> Num {
    let hundred = num(figures::HUNDRED);
    let one = num(figures::ONE);
    let activity = Num::from_u64(trades as u64).over(Num::from_u64(bars)).times(hundred).smaller(
        hundred,
    );
    let gain = pnl.plus(num(figures::TWENTY)).larger(num(figures::ZERO)).smaller(hundred);
    let calm = one.minus(drawdown.over(num(figures::THIRTY)).smaller(one)).times(hundred);
    activity.times(num(figures::QUARTER)).plus(win_rate.times(num(figures::THREE_TENTHS))).plus(
        gain.times(num(figures::QUARTER)),
    ).plus(calm.times(num(figures::FIFTH)))
}

/// See [`spec_weighed`].
#[verifier::when_used_as_spec(spec_weighed)]
pub fn weighed(trades: u32, bars: u64, win_rate: Num, pnl: Num, drawdown: Num) -> (r: Num)
    ensures
        r == spec_weighed(trades, bars, win_rate, pnl, drawdown),
{
    let hundred: Num = num(figures::HUNDRED);
    let one: Num = num(figures::ONE);
    let activity: Num = Num::from_u64(trades as u64).over(Num::from_u64(bars)).times(
        hundred,
    ).smaller(hundred);
    let gain: Num = pnl.plus(num(figures::TWENTY)).larger(num(figures::ZERO)).smaller(hundred);
    let calm: Num = one.minus(drawdown.over(num(figures::THIRTY)).smaller(one)).times(hundred);
    activity.times(num(figures::QUARTER)).plus(win_rate.times(num(figures::THREE_TENTHS))).plus(
        gain.times(num(figures::QUARTER)),
    ).plus(calm.times(num(figures::FIFTH)))
}

/// The score of some bars, for a stop and a target in percent. Too few bars score
/// nothing.
pub open spec fn score(klines: Seq<KlineData>, sl_pct: Num, tp_pct: Num) -> AlligatorScoreView {
    let zero = num(figures::ZERO);
    if klines.len() < FEWEST_BARS {
        AlligatorScoreView {
            symbol: ""@,
            base_price: zero,
            total_signals: 0,
            total_trades: 0,
            wins: 0,
            losses: 0,
            total_pnl_pct: zero,
            win_rate: zero,
            max_drawdown_pct: zero,
            suitability: zero,
        }
    } else {
        let t = trial(klines, sl_pct, tp_pct, klines.len() as int);
        let rate = parts::win_rate(t.wins as u64, t.trades as u64);
        AlligatorScoreView {
            symbol: ""@,
            base_price: klines[0].close,
            total_signals: t.trades,
            total_trades: t.trades,
            wins: t.wins,
            losses: t.losses,
            total_pnl_pct: t.pnl,
            win_rate: rate,
            max_drawdown_pct: t.drawdown,
            suitability: weighed(t.trades, klines.len() as u64, rate, t.pnl, t.drawdown),
        }
    }
}

/// The greatest fall of a trial is a number, and not below zero.
pub proof fn lemma_drawdown(klines: Seq<KlineData>, sl_pct: Num, tp_pct: Num, n: int)
    ensures
        !trial(klines, sl_pct, tp_pct, n).drawdown.nan(),
        trial(klines, sl_pct, tp_pct, n).drawdown.rank() >= 0,
    decreases n,
{
    if n > 0 {
        lemma_drawdown(klines, sl_pct, tp_pct, n - 1);
    }
}

/// The suitability and the win rate of any bars are percentages, whatever the prices:
/// they are numbers between zero and a hundred.
pub proof fn lemma_suitability(klines: Seq<KlineData>, sl_pct: Num, tp_pct: Num)
    requires
        klines.len() <= u32::MAX,
    ensures
        percentages::percentage(score(klines, sl_pct, tp_pct).suitability),
        percentages::percentage(score(klines, sl_pct, tp_pct).win_rate),
{
    if klines.len() >= FEWEST_BARS {
        let n = klines.len() as int;
        let t = trial(klines, sl_pct, tp_pct, n);
        let zero = num(figures::ZERO);
        let one = num(figures::ONE);
        let hundred = num(figures::HUNDRED);
        let thirty = num(figures::THIRTY);
        lemma_trial_counts(klines, sl_pct, tp_pct, n);
        lemma_drawdown(klines, sl_pct, tp_pct, n);
        percentages::lemma_share(t.trades as u64, n as u64);
        if t.trades > 0 {
            percentages::lemma_share(t.wins as u64, t.trades as u64);
        }
        arithmetic::lemma_over_monotone(zero, t.drawdown, thirty);
        arithmetic::lemma_zero_parts(thirty);
        let fallen = t.drawdown.over(thirty).smaller(one);
        percentages::lemma_rest_of_one(fallen);
        percentages::lemma_hundredfold(one.minus(fallen));
        let activity = Num::from_u64(t.trades as u64).over(Num::from_u64(n as u64)).times(hundred);
        let gain = t.pnl.plus(num(figures::TWENTY)).larger(zero).smaller(hundred);
        percentages::lemma_quarters(
            activity.smaller(hundred),
            parts::win_rate(t.wins as u64, t.trades as u64),
            gain,
            one.minus(fallen).times(hundred),
        );
    }
}

impl RealtimeEngine {
    /// The score of a symbol by its past bars, with a stop of 1.5 and a target of 0.5
    /// percent.
    pub fn score_symbol(klines: &[KlineData]) -> (r: AlligatorScore)
        requires
            klines@.len() <= u32::MAX,
        ensures
            r@ == score(klines@, num(figures::ONE_AND_A_HALF), num(figures::HALF)),
    {
        Self::score_symbol_with_config(klines, num(figures::ONE_AND_A_HALF), num(figures::HALF))
    }

    /// The score of a symbol by its past bars, for a stop and a target in percent.
    pub fn score_symbol_with_config(klines: &[KlineData], sl_pct: Num, tp_pct: Num) -> (r:
        AlligatorScore)
        requires
            klines@.len() <= u32::MAX,
        ensures
            r@ == score(klines@, sl_pct, tp_pct),
    {
        let zero: Num = num(figures::ZERO);
        if klines.len() < FEWEST_BARS {
            return AlligatorScore {
                symbol: "".to_owned(),
                base_price: zero,
                total_signals: 0,
                total_trades: 0,
                wins: 0,
                losses: 0,
                total_pnl_pct: zero,
                win_rate: zero,
                max_drawdown_pct: zero,
                suitability: zero,
            };
        }
        let t: Trial = run_trial(klines, sl_pct, tp_pct);
        let rate: Num = parts::win_rate(t.wins as u64, t.trades as u64);
        AlligatorScore {
            symbol: "".to_owned(),
            base_price: klines[0].close,
            total_signals: t.trades,
            total_trades: t.trades,
            wins: t.wins,
            losses: t.losses,
            total_pnl_pct: t.pnl,
            win_rate: rate,
            max_drawdown_pct: t.drawdown,
            suitability: weighed(t.trades, klines.len() as u64, rate, t.pnl, t.drawdown),
        }
    }
}

} // verus!
