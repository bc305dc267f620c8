//! What the one-sided engine keeps of one symbol.
use vstd::prelude::*;
use crate::figures;
use crate::market;
use crate::market::{KlineData, TradeStatus};
use crate::num::{num, Num};
use crate::time;
use crate::time::Moment;

verus! {

/// The side that a symbol is watched for.
#[derive(Clone, Copy, Debug, PartialEq, Eq, Structural)]
pub enum Side {
    Long,
    Short,
}

impl Side {
    /// The lower-case name.
    pub open spec fn lower_name(self) -> Seq<char> {
        match self {
            Side::Long => "long"@,
            Side::Short => "short"@,
        }
    }

    /// The upper-case name.
    pub open spec fn upper_name(self) -> Seq<char> {
        match self {
            Side::Long => "LONG"@,
            Side::Short => "SHORT"@,
        }
    }

    pub fn as_str(&self) -> (r: &'static str)
        ensures
            r@ == self.lower_name(),
    {
        match self {
            Side::Long => "long",
            Side::Short => "short",
        }
    }

    pub fn upper(&self) -> (r: &'static str)
        ensures
            r@ == self.upper_name(),
    {
        match self {
            Side::Long => "LONG",
            Side::Short => "SHORT",
        }
    }

    pub open spec fn spec_long(self) -> bool {
        self == Side::Long
    }

    /// Whether this is the long side.
    #[verifier::when_used_as_spec(spec_long)]
    pub fn long(self) -> (b: bool)
        ensures
            b == self.spec_long(),
    {
        match self {
            Side::Long => true,
            Side::Short => false,
        }
    }

    pub open spec fn spec_entry_price(self, bid: Num, ask: Num) -> Num {
        match self {
            Side::Long => ask,
            Side::Short => bid,
        }
    }

    /// The price at which the side enters: a long trade buys at the ask, a short trade
    /// sells at the bid.
    #[verifier::when_used_as_spec(spec_entry_price)]
    pub fn entry_price(self, bid: Num, ask: Num) -> (r: Num)
        ensures
            r == self.spec_entry_price(bid, ask),
    {
        match self {
            Side::Long => ask,
            Side::Short => bid,
        }
    }

    pub open spec fn spec_exit_price(self, bid: Num, ask: Num) -> Num {
        match self {
            Side::Long => bid,
            Side::Short => ask,
        }
    }

    /// The price at which the side leaves.
    #[verifier::when_used_as_spec(spec_exit_price)]
    pub fn exit_price(self, bid: Num, ask: Num) -> (r: Num)
        ensures
            r == self.spec_exit_price(bid, ask),
    {
        match self {
            Side::Long => bid,
            Side::Short => ask,
        }
    }

    pub open spec fn spec_stop_for(self, entry: Num) -> Num {
        match self {
            Side::Long => entry.times(num(figures::DOWN_HALF_PERCENT)),
            Side::Short => entry.times(num(figures::UP_HALF_PERCENT)),
        }
    }

    /// The stop for an entry: half a percent against the side.
    #[verifier::when_used_as_spec(spec_stop_for)]
    pub fn stop_for(self, entry: Num) -> (r: Num)
        ensures
            r == self.spec_stop_for(entry),
    {
        match self {
            Side::Long => entry.times(num(figures::DOWN_HALF_PERCENT)),
            Side::Short => entry.times(num(figures::UP_HALF_PERCENT)),
        }
    }

    pub open spec fn spec_stopped(self, price: Num, sl: Num) -> bool {
        match self {
            Side::Long => price.at_most(sl),
            Side::Short => sl.at_most(price),
        }
    }

    /// Whether the side is stopped out at a price.
    #[verifier::when_used_as_spec(spec_stopped)]
    pub fn stopped(self, price: Num, sl: Num) -> (b: bool)
        ensures
            b == self.spec_stopped(price, sl),
    {
        match self {
            Side::Long => price.at_most(sl),
            Side::Short => sl.at_most(price),
        }
    }

    pub open spec fn spec_passed(self, price: Num, mark: Num) -> bool {
        match self {
            Side::Long => mark.below(price),
            Side::Short => price.below(mark),
        }
    }

    /// Whether a price has passed a mark in the direction of the side.
    #[verifier::when_used_as_spec(spec_passed)]
    pub fn passed(self, price: Num, mark: Num) -> (b: bool)
        ensures
            b == self.spec_passed(price, mark),
    {
        match self {
            Side::Long => mark.below(price),
            Side::Short => price.below(mark),
        }
    }
}

/// A trade.
#[derive(Debug)]
pub struct Trade {
    pub symbol: String,
    pub direction: Side,
    pub entry_time: Moment,
    pub entry_price: Num,
    pub exit_time: Option<Moment>,
    pub exit_price: Option<Num>,
    pub status: TradeStatus,
}

/// The contents of a [`Trade`].
#[verifier::ext_equal]
pub struct TradeView {
    pub symbol: Seq<char>,
    pub direction: Side,
    pub entry_time: Moment,
    pub entry_price: Num,
    pub exit_time: Option<Moment>,
    pub exit_price: Option<Num>,
    pub status: TradeStatus,
}

impl View for Trade {
    type V = TradeView;

    open spec fn view(&self) -> TradeView {
        TradeView {
            symbol: self.symbol@,
            direction: self.direction,
            entry_time: self.entry_time,
            entry_price: self.entry_price,
            exit_time: self.exit_time,
            exit_price: self.exit_price,
            status: self.status,
        }
    }
}

impl TradeView {
    /// The gain of a closed trade in percent; zero for one that runs.
    pub open spec fn pnl(self) -> Num {
        if self.status == TradeStatus::Open || self.exit_price is None {
            num(figures::ZERO)
        } else {
            market::gain(self.direction.long(), self.entry_price, self.exit_price->0)
        }
    }

    /// How long the trade ran, in whole seconds.
    pub open spec fn seconds(self) -> Option<int> {
        match self.exit_time {
            Some(t) => Some(time::whole_seconds(t.stamp() - self.entry_time.stamp())),
            None => None,
        }
    }

    /// The trade after it left at a price.
    pub open spec fn closed(self, price: Num, at: Moment) -> TradeView {
        TradeView {
            exit_time: Some(at),
            exit_price: Some(price),
            status: TradeStatus::Closed,
            ..self
        }
    }

    /// A running trade has not left.
    pub open spec fn running(self) -> bool {
        self.status == TradeStatus::Open && self.exit_time is None && self.exit_price is None
    }

    /// A finished trade has left at some time and price.
    pub open spec fn finished(self) -> bool {
        self.status == TradeStatus::Closed && self.exit_time is Some && self.exit_price is Some
    }
}

impl Trade {
    /// The gain of a closed trade in percent; zero for one that runs.
    pub fn pnl_pct(&self) -> (r: Num)
        ensures
            r == self@.pnl(),
    {
        match self.exit_price {
            Some(exit) => {
                if self.status == TradeStatus::Open {
                    num(figures::ZERO)
                } else {
                    market::gain(self.direction.long(), self.entry_price, exit)
                }
            },
            None => num(figures::ZERO),
        }
    }

    /// How long the trade ran, in whole seconds.
    pub fn duration(&self) -> (r: Option<i64>)
        ensures
            r is Some <==> self@.seconds() is Some,
            r is Some ==> Some(r->0 as int) == self@.seconds(),
            r is Some ==> r->0 > i64::MIN,
    {
        match self.exit_time {
            Some(t) => Some(t.seconds_since(&self.entry_time)),
            None => None,
        }
    }
}

/// The contents of a list of trades.
pub open spec fn trade_views(s: Seq<Trade>) -> Seq<TradeView> {
    Seq::new(s.len(), |i: int| s[i]@)
}

/// The contents of a trade that may not be there.
pub open spec fn trade_view(t: Option<Trade>) -> Option<TradeView> {
    match t {
        Some(x) => Some(x@),
        None => None,
    }
}

/// What a tracker tells the engine.
#[derive(Debug)]
pub enum TrackerEvent {
    Entered { symbol: String, direction: Side, price: Num },
    Exited { symbol: String },
    Nothing,
}

/// The contents of a [`TrackerEvent`].
#[verifier::ext_equal]
pub enum EventView {
    Entered { symbol: Seq<char>, direction: Side, price: Num },
    Exited { symbol: Seq<char> },
    Nothing,
}

impl View for TrackerEvent {
    type V = EventView;

    open spec fn view(&self) -> EventView {
        match *self {
            TrackerEvent::Entered { symbol, direction, price } => EventView::Entered {
                symbol: symbol@,
                direction,
                price,
            },
            TrackerEvent::Exited { symbol } => EventView::Exited { symbol: symbol@ },
            TrackerEvent::Nothing => EventView::Nothing,
        }
    }
}

/// The state of one symbol.
pub struct SymbolTracker {
    pub symbol: String,
    pub direction: Side,
    pub entry_price: Option<Num>,
    pub sl: Option<Num>,
    pub in_position: bool,
    pub waiting_for_reentry: bool,
    pub klines: Vec<KlineData>,
    pub closed_trades: Vec<Trade>,
    pub active_trade: Option<Trade>,
    pub current_price: Option<Num>,
    pub current_bid: Option<Num>,
    pub current_ask: Option<Num>,
}

/// The contents of a [`SymbolTracker`].
#[verifier::ext_equal]
pub struct TrackerView {
    pub symbol: Seq<char>,
    pub direction: Side,
    pub entry_price: Option<Num>,
    pub sl: Option<Num>,
    pub in_position: bool,
    pub waiting_for_reentry: bool,
    pub klines: Seq<KlineData>,
    pub closed_trades: Seq<TradeView>,
    pub active_trade: Option<TradeView>,
    pub current_price: Option<Num>,
    pub current_bid: Option<Num>,
    pub current_ask: Option<Num>,
}

impl View for SymbolTracker {
    type V = TrackerView;

    open spec fn view(&self) -> TrackerView {
        TrackerView {
            symbol: self.symbol@,
            direction: self.direction,
            entry_price: self.entry_price,
            sl: self.sl,
            in_position: self.in_position,
            waiting_for_reentry: self.waiting_for_reentry,
            klines: self.klines@,
            closed_trades: trade_views(self.closed_trades@),
            active_trade: trade_view(self.active_trade),
            current_price: self.current_price,
            current_bid: self.current_bid,
            current_ask: self.current_ask,
        }
    }
}

impl TrackerView {
    /// A tracker at its start.
    pub open spec fn fresh(symbol: Seq<char>, direction: Side) -> TrackerView {
        TrackerView {
            symbol,
            direction,
            entry_price: None,
            sl: None,
            in_position: false,
            waiting_for_reentry: false,
            klines: Seq::empty(),
            closed_trades: Seq::empty(),
            active_trade: None,
            current_price: None,
            current_bid: None,
            current_ask: None,
        }
    }

    /// The bars are no more than are kept; there is an active trade exactly while in
    /// position, and it runs; the closed trades are finished; after the first entry
    /// there are an entry price and its stop, and the tracker is either in position or
    /// waits to enter again; before it, it is neither.
    pub open spec fn wf(self) -> bool {
        &&& self.klines.len() <= market::MAX_KLINES
        &&& self.in_position == (self.active_trade is Some)
        &&& self.active_trade is Some ==> self.active_trade->0.running()
            && self.active_trade->0.direction == self.direction
        &&& forall|i: int|
            0 <= i < self.closed_trades.len() ==> (#[trigger] self.closed_trades[i]).finished()
                && self.closed_trades[i].direction == self.direction
        &&& match self.entry_price {
            Some(p) => self.sl == Some(self.direction.stop_for(p)) && self.in_position
                != self.waiting_for_reentry,
            None => self.sl is None && !self.in_position && !self.waiting_for_reentry
                && self.closed_trades.len() == 0,
        }
    }

    /// How many trades were entered.
    pub open spec fn attempts(self) -> nat {
        self.closed_trades.len() + if self.active_trade is Some {
            1nat
        } else {
            0nat
        }
    }

    /// The tracker after it opened a trade at a price.
    pub open spec fn opened(self, price: Num, at: Moment) -> TrackerView {
        TrackerView {
            in_position: true,
            active_trade: Some(
                TradeView {
                    symbol: self.symbol,
                    direction: self.direction,
                    entry_time: at,
                    entry_price: price,
                    exit_time: None,
                    exit_price: None,
                    status: TradeStatus::Open,
                },
            ),
            ..self
        }
    }

    /// What the tracker tells of a trade that was opened.
    pub open spec fn opening(self, price: Num) -> EventView {
        EventView::Entered { symbol: self.symbol, direction: self.direction, price }
    }

    /// The tracker after it opened a trade and no longer waits for one.
    pub open spec fn reopened(self, price: Num, at: Moment) -> TrackerView {
        TrackerView { waiting_for_reentry: false, ..self.opened(price, at) }
    }

    /// The tracker after its first entry, which fixes the entry price and the stop.
    pub open spec fn first_entry(self, price: Num, at: Moment) -> TrackerView {
        TrackerView {
            entry_price: Some(price),
            sl: Some(self.direction.stop_for(price)),
            ..self.opened(price, at)
        }
    }

    /// Whether the tracker is stopped out at a price.
    pub open spec fn hits_stop(self, price: Num) -> bool {
        self.in_position && self.sl is Some && self.direction.stopped(price, self.sl->0)
    }

    /// The tracker after it was stopped out.
    pub open spec fn stopped_out(self, at: Moment) -> TrackerView {
        TrackerView {
            in_position: false,
            waiting_for_reentry: true,
            active_trade: None,
            closed_trades: match self.active_trade {
                Some(t) => self.closed_trades.push(t.closed(self.sl->0, at)),
                None => self.closed_trades,
            },
            ..self
        }
    }

    /// The tracker, and what it tells, after a stop was looked for at a price.
    pub open spec fn checked(self, price: Num, at: Moment, told: EventView) -> (
        TrackerView,
        EventView,
    ) {
        if self.hits_stop(price) {
            (self.stopped_out(at), EventView::Exited { symbol: self.symbol })
        } else {
            (self, told)
        }
    }

    /// The tracker, and what it tells, after a closed bar. The prices to enter and to
    /// leave at are the last quote, or else the close and the worst price of the bar.
    pub open spec fn after_kline(self, k: KlineData) -> (TrackerView, EventView) {
        let seen = TrackerView { klines: market::with_kline(self.klines, k), ..self };
        let ask = market::or_else(
            self.current_ask,
            if self.entry_price is None || self.direction == Side::Long {
                k.close
            } else {
                k.high
            },
        );
        let bid = market::or_else(
            self.current_bid,
            if self.entry_price is None || self.direction == Side::Short {
                k.close
            } else {
                k.low
            },
        );
        let entry = self.direction.entry_price(bid, ask);
        let exit = self.direction.exit_price(bid, ask);
        if self.entry_price is None {
            (seen.first_entry(entry, k.datetime), seen.opening(entry))
        } else if !self.in_position && (!self.waiting_for_reentry || self.direction.passed(
            entry,
            self.entry_price->0,
        )) {
            seen.reopened(entry, k.datetime).checked(exit, k.datetime, seen.opening(entry))
        } else {
            seen.checked(exit, k.datetime, EventView::Nothing)
        }
    }

    /// The tracker, and what it tells, after a quote.
    pub open spec fn after_quote(self, bid: Num, ask: Num, now: Moment) -> (
        TrackerView,
        EventView,
    ) {
        let entry = self.direction.entry_price(bid, ask);
        let exit = self.direction.exit_price(bid, ask);
        let seen = TrackerView {
            current_bid: Some(bid),
            current_ask: Some(ask),
            current_price: Some(exit),
            ..self
        };
        let (started, told) = if self.entry_price is None {
            (seen.first_entry(entry, now), seen.opening(entry))
        } else {
            (seen, EventView::Nothing)
        };
        if started.hits_stop(exit) {
            started.checked(exit, now, told)
        } else if !started.in_position && started.waiting_for_reentry && started.entry_price is Some
            && self.direction.passed(entry, started.entry_price->0) {
            (started.reopened(entry, now), started.opening(entry))
        } else {
            (started, told)
        }
    }

    /// The gain of the position in percent, counted from the first entry.
    pub open spec fn unrealized(self) -> Option<Num> {
        match (self.current_price, self.entry_price) {
            (Some(price), Some(entry)) => if self.in_position {
                Some(market::gain(self.direction.long(), entry, price))
            } else {
                None
            },
            _ => None,
        }
    }
}

impl SymbolTracker {
    /// A tracker at its start.
    pub fn new(symbol: String, direction: Side) -> (r: SymbolTracker)
        ensures
            r@ == TrackerView::fresh(symbol@, direction),
            r@.wf(),
    {
        let r: SymbolTracker = SymbolTracker {
            symbol,
            direction,
            entry_price: None,
            sl: None,
            in_position: false,
            waiting_for_reentry: false,
            klines: Vec::new(),
            closed_trades: Vec::new(),
            active_trade: None,
            current_price: None,
            current_bid: None,
            current_ask: None,
        };
        assert(r@ =~= TrackerView::fresh(symbol@, direction));
        r
    }

    /// How many trades were entered.
    pub fn total_attempts(&self) -> (r: usize)
        requires
            self.closed_trades@.len() < usize::MAX,
        ensures
            r == self@.attempts(),
    {
        self.closed_trades.len() + if self.active_trade.is_some() {
            1
        } else {
            0
        }
    }

    /// Opens a trade.
    fn open(&mut self, price: Num, at: Moment) -> (event: TrackerEvent)
        ensures
            final(self)@ == old(self)@.opened(price, at),
            event@ == old(self)@.opening(price),
    {
        let ghost before = self@;
        self.in_position = true;
        self.active_trade = Some(
            Trade {
                symbol: self.symbol.clone(),
                direction: self.direction,
                entry_time: at,
                entry_price: price,
                exit_time: None,
                exit_price: None,
                status: TradeStatus::Open,
            },
        );
        assert(self@ =~= before.opened(price, at));
        TrackerEvent::Entered { symbol: self.symbol.clone(), direction: self.direction, price }
    }

    /// Opens a trade and no longer waits for one.
    fn reopen(&mut self, price: Num, at: Moment) -> (event: TrackerEvent)
        ensures
            final(self)@ == old(self)@.reopened(price, at),
            event@ == old(self)@.opening(price),
    {
        let ghost before = self@;
        let event: TrackerEvent = self.open(price, at);
        self.waiting_for_reentry = false;
        assert(self@ =~= before.reopened(price, at));
        event
    }

    /// Opens the first trade.
    pub fn open_first(&mut self, price: Num, at: Moment) -> (event: TrackerEvent)
        ensures
            final(self)@ == old(self)@.first_entry(price, at),
            event@ == old(self)@.opening(price),
    {
        let ghost before = self@;
        let event: TrackerEvent = self.open(price, at);
        self.entry_price = Some(price);
        self.sl = Some(self.direction.stop_for(price));
        assert(self@ =~= before.first_entry(price, at));
        event
    }

    /// Closes the trade if it is stopped out at a price.
    fn check_stop(&mut self, price: Num, at: Moment, told: TrackerEvent) -> (event: TrackerEvent)
        ensures
            (final(self)@, event@) == old(self)@.checked(price, at, told@),
    {
        let ghost before = self@;
        if self.in_position {
            if let Some(sl) = self.sl {
                if self.direction.stopped(price, sl) {
                    self.in_position = false;
                    self.waiting_for_reentry = true;
                    let taken: Option<Trade> = self.active_trade.take();
                    if let Some(mut t) = taken {
                        t.exit_time = Some(at);
                        t.exit_price = Some(sl);
                        t.status = TradeStatus::Closed;
                        assert(t@ =~= before.active_trade->0.closed(sl, at));
                        self.closed_trades.push(t);
                    }
                    assert(self@.closed_trades =~= before.stopped_out(at).closed_trades);
                    assert(self@ =~= before.stopped_out(at));
                    return TrackerEvent::Exited { symbol: self.symbol.clone() };
                }
            }
        }
        told
    }

    /// Takes in a closed bar.
    pub fn process_kline(&mut self, kline: &KlineData) -> (event: TrackerEvent)
        ensures
            (final(self)@, event@) == old(self)@.after_kline(*kline),
    {
        let ghost before = self@;
        market::push_kline(&mut self.klines, kline);
        let ghost seen = TrackerView { klines: market::with_kline(before.klines, *kline), ..before };
        assert(self@ =~= seen);
        if self.entry_price.is_none() {
            let ask: Num = market::or_else(self.current_ask, kline.close);
            let bid: Num = market::or_else(self.current_bid, kline.close);
            let price: Num = self.direction.entry_price(bid, ask);
            return self.open_first(price, kline.datetime);
        }
        match self.direction {
            Side::Long => self.process_long(kline.close, kline.low, kline.datetime),
            Side::Short => self.process_short(kline.close, kline.high, kline.datetime),
        }
    }

    /// Takes in a closed bar for the long side.
    fn process_long(&mut self, close: Num, low: Num, dt: Moment) -> (event: TrackerEvent)
        requires
            old(self).entry_price is Some,
            old(self).direction == Side::Long,
        ensures
            ({
                let v = old(self)@;
                let ask = market::or_else(v.current_ask, close);
                let bid = market::or_else(v.current_bid, low);
                (final(self)@, event@) == if !v.in_position && (!v.waiting_for_reentry
                    || v.direction.passed(ask, v.entry_price->0)) {
                    v.reopened(ask, dt).checked(bid, dt, v.opening(ask))
                } else {
                    v.checked(bid, dt, EventView::Nothing)
                }
            }),
    {
        let ask: Num = market::or_else(self.current_ask, close);
        let bid: Num = market::or_else(self.current_bid, low);
        let event: TrackerEvent = self.reenter(ask, dt);
        self.check_stop(bid, dt, event)
    }

    /// Takes in a closed bar for the short side.
    fn process_short(&mut self, close: Num, high: Num, dt: Moment) -> (event: TrackerEvent)
        requires
            old(self).entry_price is Some,
            old(self).direction == Side::Short,
        ensures
            ({
                let v = old(self)@;
                let ask = market::or_else(v.current_ask, high);
                let bid = market::or_else(v.current_bid, close);
                (final(self)@, event@) == if !v.in_position && (!v.waiting_for_reentry
                    || v.direction.passed(bid, v.entry_price->0)) {
                    v.reopened(bid, dt).checked(ask, dt, v.opening(bid))
                } else {
                    v.checked(ask, dt, EventView::Nothing)
                }
            }),
    {
        let ask: Num = market::or_else(self.current_ask, high);
        let bid: Num = market::or_else(self.current_bid, close);
        let event: TrackerEvent = self.reenter(bid, dt);
        self.check_stop(ask, dt, event)
    }

    /// Opens a trade where none runs and the price allows it.
    fn reenter(&mut self, price: Num, dt: Moment) -> (event: TrackerEvent)
        requires
            old(self).entry_price is Some,
        ensures
            ({
                let v = old(self)@;
                if !v.in_position && (!v.waiting_for_reentry || v.direction.passed(
                    price,
                    v.entry_price->0,
                )) {
                    final(self)@ == v.reopened(price, dt) && event@ == v.opening(price)
                } else {
                    final(self)@ == v && event@ == EventView::Nothing
                }
            }),
    {
        if !self.in_position {
            if !self.waiting_for_reentry {
                return self.reopen(price, dt);
            }
            if let Some(ep) = self.entry_price {
                if self.direction.passed(price, ep) {
                    return self.reopen(price, dt);
                }
            }
        }
        TrackerEvent::Nothing
    }

    /// Takes in a quote.
    pub fn update_ticker(&mut self, bid: Num, ask: Num, now: Moment) -> (event: TrackerEvent)
        ensures
            (final(self)@, event@) == old(self)@.after_quote(bid, ask, now),
    {
        let ghost before = self@;
        let entry: Num = self.direction.entry_price(bid, ask);
        let exit: Num = self.direction.exit_price(bid, ask);
        self.current_bid = Some(bid);
        self.current_ask = Some(ask);
        self.current_price = Some(exit);
        let ghost seen = TrackerView {
            current_bid: Some(bid),
            current_ask: Some(ask),
            current_price: Some(exit),
            ..before
        };
        assert(self@ =~= seen);
        let told: TrackerEvent = if self.entry_price.is_none() {
            self.open_first(entry, now)
        } else {
            TrackerEvent::Nothing
        };
        let ghost started = self@;
        let event: TrackerEvent = self.check_stop(exit, now, told);
        let stopped: bool = match &event {
            TrackerEvent::Exited { symbol } => true,
            _ => false,
        };
        assert(stopped == started.hits_stop(exit));
        if !stopped && !self.in_position && self.waiting_for_reentry {
            if let Some(ep) = self.entry_price {
                if self.direction.passed(entry, ep) {
                    return self.reopen(entry, now);
                }
            }
        }
        event
    }

    /// The gain of the position in percent, counted from the first entry.
    pub fn unrealized_pnl(&self) -> (r: Option<Num>)
        ensures
            r == self@.unrealized(),
    {
        match (self.current_price, self.entry_price) {
            (Some(price), Some(entry)) => {
                if self.in_position {
                    Some(market::gain(self.direction.long(), entry, price))
                } else {
                    None
                }
            },
            _ => None,
        }
    }
}


/// A stop that is looked for keeps a tracker well formed.
proof fn lemma_checked_wf(v: TrackerView, price: Num, at: Moment, told: EventView)
    requires
        v.wf(),
    ensures
        v.checked(price, at, told).0.wf(),
{
    let after = v.stopped_out(at).closed_trades;
    if v.hits_stop(price) {
        assert forall|i: int| 0 <= i < after.len() implies (#[trigger] after[i]).finished()
            && after[i].direction == v.direction by {
            if i < v.closed_trades.len() {
                assert(after[i] == v.closed_trades[i]);
            }
        }
    }
}

/// A closed bar keeps a tracker well formed, and its symbol and side as they were.
pub proof fn lemma_kline_wf(v: TrackerView, k: KlineData)
    requires
        v.wf(),
    ensures
        v.after_kline(k).0.wf(),
        v.after_kline(k).0.symbol == v.symbol,
        v.after_kline(k).0.direction == v.direction,
{
    let seen = TrackerView { klines: market::with_kline(v.klines, k), ..v };
    assert(seen.wf());
    let ask = market::or_else(
        v.current_ask,
        if v.direction == Side::Long {
            k.close
        } else {
            k.high
        },
    );
    let bid = market::or_else(
        v.current_bid,
        if v.direction == Side::Short {
            k.close
        } else {
            k.low
        },
    );
    if v.entry_price is Some {
        let entry = v.direction.entry_price(bid, ask);
        let exit = v.direction.exit_price(bid, ask);
        if !v.in_position {
            assert(seen.reopened(entry, k.datetime).wf());
            lemma_checked_wf(
                seen.reopened(entry, k.datetime),
                exit,
                k.datetime,
                seen.opening(entry),
            );
        }
        lemma_checked_wf(seen, exit, k.datetime, EventView::Nothing);
    }
}

/// A quote keeps a tracker well formed, and its symbol, side and bars as they were.
pub proof fn lemma_quote_wf(v: TrackerView, bid: Num, ask: Num, now: Moment)
    requires
        v.wf(),
    ensures
        v.after_quote(bid, ask, now).0.wf(),
        v.after_quote(bid, ask, now).0.symbol == v.symbol,
        v.after_quote(bid, ask, now).0.direction == v.direction,
        v.after_quote(bid, ask, now).0.klines == v.klines,
{
    let entry = v.direction.entry_price(bid, ask);
    let exit = v.direction.exit_price(bid, ask);
    let seen = TrackerView {
        current_bid: Some(bid),
        current_ask: Some(ask),
        current_price: Some(exit),
        ..v
    };
    assert(seen.wf());
    let (started, told) = if v.entry_price is None {
        (seen.first_entry(entry, now), seen.opening(entry))
    } else {
        (seen, EventView::Nothing)
    };
    assert(started.wf());
    lemma_checked_wf(started, exit, now, told);
}

} // verus!
