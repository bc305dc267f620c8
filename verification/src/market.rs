//! What the engines share: price bars, directions, and the rules on a single trade.
use vstd::prelude::*;
use crate::arithmetic;
use crate::figures;
use crate::num::{num, Num};
use crate::time::Moment;

verus! {

/// Which way a trade goes.
#[derive(Clone, Copy, Debug, PartialEq, Eq, Structural)]
pub enum TradeDirection {
    Long,
    Short,
}

impl TradeDirection {
    /// The lower-case name.
    pub open spec fn lower_name(self) -> Seq<char> {
        match self {
            TradeDirection::Long => "long"@,
            TradeDirection::Short => "short"@,
        }
    }

    /// The upper-case name.
    pub open spec fn upper_name(self) -> Seq<char> {
        match self {
            TradeDirection::Long => "LONG"@,
            TradeDirection::Short => "SHORT"@,
        }
    }

    pub fn as_str(&self) -> (r: &'static str)
        ensures
            r@ == self.lower_name(),
    {
        match self {
            TradeDirection::Long => "long",
            TradeDirection::Short => "short",
        }
    }

    pub fn upper(&self) -> (r: &'static str)
        ensures
            r@ == self.upper_name(),
    {
        match self {
            TradeDirection::Long => "LONG",
            TradeDirection::Short => "SHORT",
        }
    }

    pub open spec fn spec_long(self) -> bool {
        self == TradeDirection::Long
    }

    /// Whether this is the long direction.
    #[verifier::when_used_as_spec(spec_long)]
    pub fn long(self) -> (b: bool)
        ensures
            b == self.spec_long(),
    {
        match self {
            TradeDirection::Long => true,
            TradeDirection::Short => false,
        }
    }
}

/// Whether a trade is still running.
#[derive(Clone, Copy, Debug, PartialEq, Eq, Structural)]
pub enum TradeStatus {
    Open,
    Closed,
}

/// A price bar.
#[derive(Clone, Copy, Debug)]
pub struct KlineData {
    pub ts: i64,
    pub datetime: Moment,
    pub open: Num,
    pub high: Num,
    pub low: Num,
    pub close: Num,
    pub volume: Num,
}

/// How many bars a tracker keeps.
pub const MAX_KLINES: usize = 5000;

/// The bars after one more, of which the oldest goes when there are too many.
pub open spec fn with_kline(klines: Seq<KlineData>, k: KlineData) -> Seq<KlineData> {
    let s = klines.push(k);
    if s.len() > MAX_KLINES {
        s.skip(1)
    } else {
        s
    }
}

/// See [`with_kline`].
pub fn push_kline(klines: &mut Vec<KlineData>, k: &KlineData)
    ensures
        final(klines)@ == with_kline(old(klines)@, *k),
{
    klines.push(*k);
    if klines.len() > MAX_KLINES {
        let ghost all = klines@;
        klines.remove(0);
        assert(klines@ =~= all.skip(1));
    }
}

/// The change from `entry` to `price` in percent, counted as a gain of the side.
pub open spec fn spec_gain(long: bool, entry: Num, price: Num) -> Num {
    if long {
        price.minus(entry).over(entry).times(num(figures::HUNDRED))
    } else {
        entry.minus(price).over(entry).times(num(figures::HUNDRED))
    }
}

/// The change from `entry` to `price` in percent, counted as a gain of the side.
#[verifier::when_used_as_spec(spec_gain)]
pub fn gain(long: bool, entry: Num, price: Num) -> (r: Num)
    ensures
        r == spec_gain(long, entry, price),
{
    if long {
        price.minus(entry).over(entry).times(num(figures::HUNDRED))
    } else {
        entry.minus(price).over(entry).times(num(figures::HUNDRED))
    }
}

/// Where a trade with a stop and a target leaves, if prices between `low` and
/// `high` were seen: at the worst price if the stop was reached, else at the
/// target if that was.
pub open spec fn spec_exit_price(long: bool, sl: Num, tp: Num, low: Num, high: Num) -> Option<Num> {
    if long {
        if low.at_most(sl) {
            Some(low)
        } else if tp.at_most(high) {
            Some(tp)
        } else {
            None
        }
    } else {
        if sl.at_most(high) {
            Some(high)
        } else if low.at_most(tp) {
            Some(tp)
        } else {
            None
        }
    }
}

/// See [`spec_exit_price`].
#[verifier::when_used_as_spec(spec_exit_price)]
pub fn exit_price(long: bool, sl: Num, tp: Num, low: Num, high: Num) -> (r: Option<Num>)
    ensures
        r == spec_exit_price(long, sl, tp, low, high),
{
    if long {
        if low.at_most(sl) {
            Some(low)
        } else if tp.at_most(high) {
            Some(tp)
        } else {
            None
        }
    } else {
        if sl.at_most(high) {
            Some(high)
        } else if low.at_most(tp) {
            Some(tp)
        } else {
            None
        }
    }
}

/// Whether the target of a trade lies between `low` and `high`, or was passed.
pub open spec fn spec_reaches_target(long: bool, tp: Num, low: Num, high: Num) -> bool {
    if long {
        tp.at_most(high)
    } else {
        low.at_most(tp)
    }
}

/// See [`spec_reaches_target`].
#[verifier::when_used_as_spec(spec_reaches_target)]
pub fn reaches_target(long: bool, tp: Num, low: Num, high: Num) -> (b: bool)
    ensures
        b == spec_reaches_target(long, tp, low, high),
{
    if long {
        tp.at_most(high)
    } else {
        low.at_most(tp)
    }
}

/// The price at which a side can leave: a long trade sells at the bid, a short
/// trade buys back at the ask.
pub open spec fn spec_leaving_price(long: bool, bid: Num, ask: Num) -> Num {
    if long {
        bid
    } else {
        ask
    }
}

/// See [`spec_leaving_price`].
#[verifier::when_used_as_spec(spec_leaving_price)]
pub fn leaving_price(long: bool, bid: Num, ask: Num) -> (r: Num)
    ensures
        r == spec_leaving_price(long, bid, ask),
{
    if long {
        bid
    } else {
        ask
    }
}

/// The middle of bid and ask.
pub open spec fn spec_middle(bid: Num, ask: Num) -> Num {
    bid.plus(ask).over(num(figures::TWO))
}

/// The middle of bid and ask.
#[verifier::when_used_as_spec(spec_middle)]
pub fn middle(bid: Num, ask: Num) -> (r: Num)
    ensures
        r == spec_middle(bid, ask),
{
    bid.plus(ask).over(num(figures::TWO))
}

/// The stop and the target of a trade, at given fractions of its entry price.
pub open spec fn spec_bracket(long: bool, price: Num, sl_pct: Num, tp_pct: Num) -> (Num, Num) {
    let one = num(figures::ONE);
    let s = sl_pct.over(num(figures::HUNDRED));
    let t = tp_pct.over(num(figures::HUNDRED));
    if long {
        (price.times(one.minus(s)), price.times(one.plus(t)))
    } else {
        (price.times(one.plus(s)), price.times(one.minus(t)))
    }
}

/// See [`spec_bracket`].
#[verifier::when_used_as_spec(spec_bracket)]
pub fn bracket(long: bool, price: Num, sl_pct: Num, tp_pct: Num) -> (r: (Num, Num))
    ensures
        r == spec_bracket(long, price, sl_pct, tp_pct),
{
    let one: Num = num(figures::ONE);
    let s: Num = sl_pct.over(num(figures::HUNDRED));
    let t: Num = tp_pct.over(num(figures::HUNDRED));
    if long {
        (price.times(one.minus(s)), price.times(one.plus(t)))
    } else {
        (price.times(one.plus(s)), price.times(one.minus(t)))
    }
}

/// How much to trade for a stake, at a price.
pub open spec fn spec_stake_quantity(size: Num, price: Num) -> Num {
    if num(figures::ZERO).below(price) {
        size.over(price)
    } else {
        size
    }
}

/// How much to trade for a stake, at a price.
#[verifier::when_used_as_spec(spec_stake_quantity)]
pub fn stake_quantity(size: Num, price: Num) -> (r: Num)
    ensures
        r == spec_stake_quantity(size, price),
{
    if num(figures::ZERO).below(price) {
        size.over(price)
    } else {
        size
    }
}

/// `"green"` for a gain, `"red"` for a loss.
pub open spec fn pnl_class_name(pnl: Num) -> Seq<char> {
    if num(figures::ZERO).at_most(pnl) {
        "green"@
    } else {
        "red"@
    }
}

/// See [`pnl_class_name`].
pub fn pnl_class(pnl: Num) -> (r: &'static str)
    ensures
        r@ == pnl_class_name(pnl),
{
    if num(figures::ZERO).at_most(pnl) {
        "green"
    } else {
        "red"
    }
}

/// The colour code for a gain or a loss.
pub open spec fn pnl_color_code(pnl: Num) -> Seq<char> {
    if num(figures::ZERO).at_most(pnl) {
        "#4caf50"@
    } else {
        "#ef5350"@
    }
}

/// See [`pnl_color_code`].
pub fn pnl_color(pnl: Num) -> (r: &'static str)
    ensures
        r@ == pnl_color_code(pnl),
{
    if num(figures::ZERO).at_most(pnl) {
        "#4caf50"
    } else {
        "#ef5350"
    }
}

/// The colour class of a direction.
pub open spec fn direction_color(d: TradeDirection) -> Seq<char> {
    match d {
        TradeDirection::Long => "green"@,
        TradeDirection::Short => "red"@,
    }
}

/// See [`direction_color`].
pub fn dir_color(d: TradeDirection) -> (r: &'static str)
    ensures
        r@ == direction_color(d),
{
    match d {
        TradeDirection::Long => "green",
        TradeDirection::Short => "red",
    }
}

/// The label of a direction: its upper-case name.
pub fn dir_label(d: TradeDirection) -> (r: &'static str)
    ensures
        r@ == d.upper_name(),
{
    d.upper()
}

/// A number, or another one where there is none.
pub open spec fn spec_or_else(o: Option<Num>, other: Num) -> Num {
    match o {
        Some(n) => n,
        None => other,
    }
}

/// A number, or another one where there is none.
#[verifier::when_used_as_spec(spec_or_else)]
pub fn or_else(o: Option<Num>, other: Num) -> (r: Num)
    ensures
        r == spec_or_else(o, other),
{
    match o {
        Some(n) => n,
        None => other,
    }
}

/// A side gains where the price has moved its way, and loses where it has moved the other
/// way: from a positive entry, a price that is no lower is no loss for a long trade and
/// no gain for a short one, and a price that is no higher the other way round.
pub proof fn lemma_gain_sign(entry: Num, price: Num)
    requires
        arithmetic::positive(entry),
    ensures
        entry.at_most(price) ==> num(figures::ZERO).at_most(gain(true, entry, price)),
        price.at_most(entry) ==> gain(true, entry, price).at_most(num(figures::ZERO)),
        entry.at_most(price) && price.finite() ==> gain(false, entry, price).at_most(
            num(figures::ZERO),
        ),
        price.at_most(entry) && price.finite() ==> num(figures::ZERO).at_most(
            gain(false, entry, price),
        ),
{
    let zero = num(figures::ZERO);
    let hundred = num(figures::HUNDRED);
    arithmetic::lemma_minus_itself(entry);
    arithmetic::lemma_zero_parts(entry);
    arithmetic::lemma_zero_parts(hundred);
    let d = price.minus(entry);
    if entry.at_most(price) {
        arithmetic::lemma_plus_monotone(entry, price, entry.negated());
        arithmetic::lemma_over_monotone(zero, d, entry);
        arithmetic::lemma_times_monotone(zero, d.over(entry), hundred);
    }
    if price.at_most(entry) {
        arithmetic::lemma_plus_monotone(price, entry, entry.negated());
        arithmetic::lemma_over_monotone(d, zero, entry);
        arithmetic::lemma_times_monotone(d.over(entry), zero, hundred);
    }
    if price.finite() {
        lemma_gain_mirrored(entry, price);
    }
}

/// What one side gains the other loses.
pub proof fn lemma_gain_mirrored(entry: Num, price: Num)
    requires
        arithmetic::positive(entry),
        price.finite(),
    ensures
        gain(true, entry, price).rank() == -gain(false, entry, price).rank(),
        !gain(true, entry, price).nan(),
        !gain(false, entry, price).nan(),
{
    let a = price.minus(entry);
    let b = entry.minus(price);
    arithmetic::lemma_minus_mirrored(price, entry);
    arithmetic::lemma_mirrored_parts(a, b, entry);
    arithmetic::lemma_mirrored_parts(a.over(entry), b.over(entry), num(figures::HUNDRED));
}

/// The stop of a trade lies on its losing side and the target on its winning side, or at
/// the price itself, for percentages that are not negative.
pub proof fn lemma_bracket_sides(price: Num, sl_pct: Num, tp_pct: Num)
    requires
        arithmetic::positive(price),
        num(figures::ZERO).at_most(sl_pct),
        num(figures::ZERO).at_most(tp_pct),
    ensures
        bracket(true, price, sl_pct, tp_pct).0.at_most(price),
        price.at_most(bracket(true, price, sl_pct, tp_pct).1),
        price.at_most(bracket(false, price, sl_pct, tp_pct).0),
        bracket(false, price, sl_pct, tp_pct).1.at_most(price),
{
    lemma_moved_by(price, sl_pct);
    lemma_moved_by(price, tp_pct);
}

/// A price less a percentage is no higher, and a price more a percentage is no lower.
proof fn lemma_moved_by(price: Num, pct: Num)
    requires
        arithmetic::positive(price),
        num(figures::ZERO).at_most(pct),
    ensures
        ({
            let one = num(figures::ONE);
            let p = pct.over(num(figures::HUNDRED));
            &&& price.times(one.minus(p)).at_most(price)
            &&& price.at_most(price.times(one.plus(p)))
        }),
{
    let zero = num(figures::ZERO);
    let one = num(figures::ONE);
    let hundred = num(figures::HUNDRED);
    let p = pct.over(hundred);
    arithmetic::lemma_over_monotone(zero, pct, hundred);
    arithmetic::lemma_zero_parts(hundred);
    arithmetic::lemma_zero_plus_one();
    arithmetic::lemma_times_one(price);
    arithmetic::lemma_negated(p);
    arithmetic::lemma_plus_monotone(p.negated(), zero, one);
    arithmetic::lemma_plus_commutes(p.negated(), one);
    arithmetic::lemma_plus_monotone(zero, p, one);
    arithmetic::lemma_plus_commutes(p, one);
    arithmetic::lemma_times_monotone(one.minus(p), one, price);
    arithmetic::lemma_times_commutes(one.minus(p), price);
    arithmetic::lemma_times_monotone(one, one.plus(p), price);
    arithmetic::lemma_times_commutes(one.plus(p), price);
}

} // verus!
