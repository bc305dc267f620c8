//! What the grid engine keeps of one symbol.
use vstd::prelude::*;
use crate::figures;
use crate::market;
use crate::market::{KlineData, TradeDirection, TradeStatus};
use crate::num::{num, Num};
use crate::time;
use crate::time::Moment;

verus! {

/// A trade of the grid.
#[derive(Debug)]
pub struct GridTrade {
    pub symbol: String,
    pub level: i32,
    pub direction: TradeDirection,
    pub entry_time: Moment,
    pub entry_price: Num,
    pub sl: Num,
    pub tp: Num,
    pub exit_time: Option<Moment>,
    pub exit_price: Option<Num>,
    pub status: TradeStatus,
}

/// The contents of a [`GridTrade`].
#[verifier::ext_equal]
pub struct GridTradeView {
    pub symbol: Seq<char>,
    pub level: i32,
    pub direction: TradeDirection,
    pub entry_time: Moment,
    pub entry_price: Num,
    pub sl: Num,
    pub tp: Num,
    pub exit_time: Option<Moment>,
    pub exit_price: Option<Num>,
    pub status: TradeStatus,
}

impl View for GridTrade {
    type V = GridTradeView;

    open spec fn view(&self) -> GridTradeView {
        GridTradeView {
            symbol: self.symbol@,
            level: self.level,
            direction: self.direction,
            entry_time: self.entry_time,
            entry_price: self.entry_price,
            sl: self.sl,
            tp: self.tp,
            exit_time: self.exit_time,
            exit_price: self.exit_price,
            status: self.status,
        }
    }
}

impl GridTradeView {
    /// The gain of a closed trade in percent; zero for one that runs.
    pub open spec fn pnl(self) -> Num {
        if self.status == TradeStatus::Open || self.exit_price is None {
            num(figures::ZERO)
        } else {
            market::gain(self.direction.long(), self.entry_price, self.exit_price->0)
        }
    }

    /// How long the trade ran, in whole seconds.
    pub open spec fn seconds(self) -> Option<int> {
        match self.exit_time {
            Some(t) => Some(time::whole_seconds(t.stamp() - self.entry_time.stamp())),
            None => None,
        }
    }

    /// The trade after it left at a price.
    pub open spec fn closed(self, price: Num, at: Moment) -> GridTradeView {
        GridTradeView {
            exit_time: Some(at),
            exit_price: Some(price),
            status: TradeStatus::Closed,
            ..self
        }
    }

    /// A running trade has not left.
    pub open spec fn running(self) -> bool {
        self.status == TradeStatus::Open && self.exit_time is None && self.exit_price is None
    }

    /// A finished trade has left at some time and price.
    pub open spec fn finished(self) -> bool {
        self.status == TradeStatus::Closed && self.exit_time is Some && self.exit_price is Some
    }
}

impl GridTrade {
    /// The gain of a closed trade in percent; zero for one that runs.
    pub fn pnl_pct(&self) -> (r: Num)
        ensures
            r == self@.pnl(),
    {
        match self.exit_price {
            Some(exit) => {
                if self.status == TradeStatus::Open {
                    num(figures::ZERO)
                } else {
                    market::gain(self.direction.long(), self.entry_price, exit)
                }
            },
            None => num(figures::ZERO),
        }
    }

    /// How long the trade ran, in whole seconds.
    pub fn duration(&self) -> (r: Option<i64>)
        ensures
            r is Some <==> self@.seconds() is Some,
            r is Some ==> Some(r->0 as int) == self@.seconds(),
            r is Some ==> r->0 > i64::MIN,
    {
        match self.exit_time {
            Some(t) => Some(t.seconds_since(&self.entry_time)),
            None => None,
        }
    }
}

/// The contents of a list of trades.
pub open spec fn trade_views(s: Seq<GridTrade>) -> Seq<GridTradeView> {
    Seq::new(s.len(), |i: int| s[i]@)
}

/// The contents of a trade that may not be there.
pub open spec fn trade_view(t: Option<GridTrade>) -> Option<GridTradeView> {
    match t {
        Some(x) => Some(x@),
        None => None,
    }
}

/// What a tracker tells the engine.
#[derive(Debug)]
pub enum TrackerEvent {
    Entered {
        symbol: String,
        direction: TradeDirection,
        price: Num,
        level: i32,
        sl: Num,
        tp: Num,
    },
    Exited { symbol: String, direction: TradeDirection, level: i32 },
}

/// The contents of a [`TrackerEvent`].
#[verifier::ext_equal]
pub enum EventView {
    Entered {
        symbol: Seq<char>,
        direction: TradeDirection,
        price: Num,
        level: i32,
        sl: Num,
        tp: Num,
    },
    Exited { symbol: Seq<char>, direction: TradeDirection, level: i32 },
}

impl View for TrackerEvent {
    type V = EventView;

    open spec fn view(&self) -> EventView {
        match *self {
            TrackerEvent::Entered { symbol, direction, price, level, sl, tp } => EventView::Entered {
                symbol: symbol@,
                direction,
                price,
                level,
                sl,
                tp,
            },
            TrackerEvent::Exited { symbol, direction, level } => EventView::Exited {
                symbol: symbol@,
                direction,
                level,
            },
        }
    }
}

/// The contents of a list of events.
pub open spec fn event_views(s: Seq<TrackerEvent>) -> Seq<EventView> {
    Seq::new(s.len(), |i: int| s[i]@)
}

/// The state of one symbol.
pub struct SymbolTracker {
    pub symbol: String,
    pub base_price: Num,
    pub level_step: Num,
    pub last_close_level: Option<i32>,
    pub klines: Vec<KlineData>,
    pub current_price: Option<Num>,
    pub active_trade: Option<GridTrade>,
    pub closed_trades: Vec<GridTrade>,
}

/// The contents of a [`SymbolTracker`].
#[verifier::ext_equal]
pub struct TrackerView {
    pub symbol: Seq<char>,
    pub base_price: Num,
    pub level_step: Num,
    pub last_close_level: Option<i32>,
    pub klines: Seq<KlineData>,
    pub current_price: Option<Num>,
    pub active_trade: Option<GridTradeView>,
    pub closed_trades: Seq<GridTradeView>,
}

impl View for SymbolTracker {
    type V = TrackerView;

    open spec fn view(&self) -> TrackerView {
        TrackerView {
            symbol: self.symbol@,
            base_price: self.base_price,
            level_step: self.level_step,
            last_close_level: self.last_close_level,
            klines: self.klines@,
            current_price: self.current_price,
            active_trade: trade_view(self.active_trade),
            closed_trades: trade_views(self.closed_trades@),
        }
    }
}

/// The stop and the target of a trade: a loss of 1.5 % and a gain of 0.5 %.
pub open spec fn spec_grid_bracket(direction: TradeDirection, price: Num) -> (Num, Num) {
    match direction {
        TradeDirection::Long => (
            price.times(num(figures::DOWN_ONE_AND_A_HALF_PERCENT)),
            price.times(num(figures::UP_HALF_PERCENT)),
        ),
        TradeDirection::Short => (
            price.times(num(figures::UP_ONE_AND_A_HALF_PERCENT)),
            price.times(num(figures::DOWN_HALF_PERCENT)),
        ),
    }
}

/// The stop and the target of a trade: a loss of 1.5 % and a gain of 0.5 %.
#[verifier::when_used_as_spec(spec_grid_bracket)]
pub fn grid_bracket(direction: TradeDirection, price: Num) -> (r: (Num, Num))
    ensures
        r == spec_grid_bracket(direction, price),
{
    match direction {
        TradeDirection::Long => (
            price.times(num(figures::DOWN_ONE_AND_A_HALF_PERCENT)),
            price.times(num(figures::UP_HALF_PERCENT)),
        ),
        TradeDirection::Short => (
            price.times(num(figures::UP_ONE_AND_A_HALF_PERCENT)),
            price.times(num(figures::DOWN_HALF_PERCENT)),
        ),
    }
}

/// The level of a price: how many steps of half a percent it is from the base.
pub open spec fn spec_level_of(price: Num, base: Num) -> i32 {
    price.over(base).minus(num(figures::ONE)).over(num(figures::HALF_PERCENT)).rounded().to_i32()
}

/// The level of a price: how many steps of half a percent it is from the base.
#[verifier::when_used_as_spec(spec_level_of)]
pub fn level_of(price: Num, base: Num) -> (r: i32)
    ensures
        r == spec_level_of(price, base),
{
    price.over(base).minus(num(figures::ONE)).over(num(figures::HALF_PERCENT)).rounded().to_i32()
}

/// The price of a level.
pub open spec fn spec_price_for_level(level: i32, base: Num) -> Num {
    base.times(num(figures::ONE).plus(Num::from_i32(level).times(num(figures::HALF_PERCENT))))
}

/// The price of a level.
#[verifier::when_used_as_spec(spec_price_for_level)]
pub fn price_for_level(level: i32, base: Num) -> (r: Num)
    ensures
        r == spec_price_for_level(level, base),
{
    base.times(num(figures::ONE).plus(Num::from_i32(level).times(num(figures::HALF_PERCENT))))
}

impl TrackerView {
    /// A tracker at its start.
    pub open spec fn fresh(symbol: Seq<char>, base_price: Num) -> TrackerView {
        TrackerView {
            symbol,
            base_price,
            level_step: base_price.times(num(figures::HALF_PERCENT)),
            last_close_level: None,
            klines: Seq::empty(),
            current_price: Some(base_price),
            active_trade: None,
            closed_trades: Seq::empty(),
        }
    }

    /// The bars are no more than are kept; the active trade runs; the closed trades
    /// are finished.
    pub open spec fn wf(self) -> bool {
        &&& self.klines.len() <= market::MAX_KLINES
        &&& self.active_trade is Some ==> self.active_trade->0.running()
        &&& forall|i: int|
            0 <= i < self.closed_trades.len() ==> (#[trigger] self.closed_trades[i]).finished()
    }

    /// How many trades were entered.
    pub open spec fn attempts(self) -> nat {
        self.closed_trades.len() + if self.active_trade is Some {
            1nat
        } else {
            0nat
        }
    }

    /// The tracker, and what it tells, after the active trade left at a price, if it
    /// did.
    pub open spec fn left(self, price: Option<Num>, at: Moment) -> (TrackerView, Seq<EventView>) {
        match (self.active_trade, price) {
            (Some(t), Some(p)) => (
                TrackerView {
                    active_trade: None,
                    closed_trades: self.closed_trades.push(t.closed(p, at)),
                    ..self
                },
                seq![
                    EventView::Exited {
                        symbol: self.symbol,
                        direction: t.direction,
                        level: t.level,
                    },
                ],
            ),
            _ => (self, Seq::empty()),
        }
    }

    /// The tracker, and what it tells, after it entered a trade.
    pub open spec fn entered(
        self,
        direction: TradeDirection,
        level: i32,
        price: Num,
        at: Moment,
    ) -> (TrackerView, Seq<EventView>) {
        let (sl, tp) = grid_bracket(direction, price);
        (
            TrackerView {
                active_trade: Some(
                    GridTradeView {
                        symbol: self.symbol,
                        level,
                        direction,
                        entry_time: at,
                        entry_price: price,
                        sl,
                        tp,
                        exit_time: None,
                        exit_price: None,
                        status: TradeStatus::Open,
                    },
                ),
                ..self
            },
            seq![EventView::Entered { symbol: self.symbol, direction, price, level, sl, tp }],
        )
    }

    /// Where the active trade leaves, given the lowest and highest price seen.
    pub open spec fn exit_between(self, low: Num, high: Num) -> Option<Num> {
        match self.active_trade {
            Some(t) => market::exit_price(t.direction.long(), t.sl, t.tp, low, high),
            None => None,
        }
    }

    /// Where the active trade leaves at a quote.
    pub open spec fn exit_at_quote(self, bid: Num, ask: Num) -> Option<Num> {
        match self.active_trade {
            Some(t) => {
                let p = market::leaving_price(t.direction.long(), bid, ask);
                market::exit_price(t.direction.long(), t.sl, t.tp, p, p)
            },
            None => None,
        }
    }

    /// The tracker, and what it tells, after a closed bar: the active trade may leave,
    /// and where none is left a level that was crossed is traded against the move.
    pub open spec fn after_kline(self, k: KlineData) -> (TrackerView, Seq<EventView>) {
        let level = level_of(k.close, self.base_price);
        let previous = match self.last_close_level {
            Some(l) => l,
            None => level,
        };
        let seen = TrackerView {
            klines: market::with_kline(self.klines, k),
            current_price: Some(k.close),
            last_close_level: Some(level),
            ..self
        };
        let (rest, told) = seen.left(seen.exit_between(k.low, k.high), k.datetime);
        if rest.active_trade is None && level != previous {
            let direction = if level > previous {
                TradeDirection::Short
            } else {
                TradeDirection::Long
            };
            let (next, more) = rest.entered(direction, level, k.close, k.datetime);
            (next, told + more)
        } else {
            (rest, told)
        }
    }

    /// The tracker, and what it tells, after a quote.
    pub open spec fn after_quote(self, bid: Num, ask: Num, now: Moment) -> (
        TrackerView,
        Seq<EventView>,
    ) {
        let mid = market::middle(bid, ask);
        let seen = TrackerView { current_price: Some(mid), ..self };
        let (rest, told) = seen.left(seen.exit_at_quote(bid, ask), now);
        let level = level_of(mid, self.base_price);
        if rest.active_trade is Some {
            (rest, told)
        } else {
            match self.last_close_level {
                None => (TrackerView { last_close_level: Some(level), ..rest }, told),
                Some(previous) => {
                    let moved = TrackerView { last_close_level: Some(level), ..rest };
                    if level > previous {
                        let (next, more) = moved.entered(TradeDirection::Short, level, bid, now);
                        (next, told + more)
                    } else if level < previous {
                        let (next, more) = moved.entered(TradeDirection::Long, level, ask, now);
                        (next, told + more)
                    } else {
                        (rest, told)
                    }
                },
            }
        }
    }
}

impl SymbolTracker {
    /// A tracker at its start.
    pub fn new(symbol: String, base_price: Num) -> (r: SymbolTracker)
        ensures
            r@ == TrackerView::fresh(symbol@, base_price),
            r@.wf(),
    {
        let r: SymbolTracker = SymbolTracker {
            symbol,
            base_price,
            level_step: base_price.times(num(figures::HALF_PERCENT)),
            last_close_level: None,
            klines: Vec::new(),
            current_price: Some(base_price),
            active_trade: None,
            closed_trades: Vec::new(),
        };
        assert(r@ =~= TrackerView::fresh(symbol@, base_price));
        r
    }

    /// The price of a level.
    pub fn level_to_price(&self, level: i32) -> (r: Num)
        ensures
            r == price_for_level(level, self.base_price),
    {
        price_for_level(level, self.base_price)
    }

    /// The level of a price.
    pub fn price_to_level(&self, price: Num) -> (r: i32)
        ensures
            r == level_of(price, self.base_price),
    {
        level_of(price, self.base_price)
    }

    /// How many trades were entered.
    pub fn total_attempts(&self) -> (r: usize)
        requires
            self.closed_trades@.len() < usize::MAX,
        ensures
            r == self@.attempts(),
    {
        self.closed_trades.len() + if self.active_trade.is_some() {
            1
        } else {
            0
        }
    }

    /// Closes the active trade at a price.
    fn leave(&mut self, price: Num, at: Moment, events: &mut Vec<TrackerEvent>)
        requires
            old(self).active_trade is Some,
        ensures
            final(self)@ == old(self)@.left(Some(price), at).0,
            event_views(final(events)@) == event_views(old(events)@) + old(self)@.left(
                Some(price),
                at,
            ).1,
    {
        let ghost told = event_views(events@);
        let ghost before = self@;
        let taken: Option<GridTrade> = self.active_trade.take();
        if let Some(mut t) = taken {
            t.exit_time = Some(at);
            t.exit_price = Some(price);
            t.status = TradeStatus::Closed;
            events.push(
                TrackerEvent::Exited {
                    symbol: self.symbol.clone(),
                    direction: t.direction,
                    level: t.level,
                },
            );
            assert(t@ =~= before.active_trade->0.closed(price, at));
            self.closed_trades.push(t);
        }
        assert(event_views(events@) =~= told + before.left(Some(price), at).1);
        assert(self@.closed_trades =~= before.left(Some(price), at).0.closed_trades);
        assert(self@ =~= before.left(Some(price), at).0);
    }

    /// Opens a trade.
    fn enter(
        &mut self,
        direction: TradeDirection,
        level: i32,
        price: Num,
        at: Moment,
        events: &mut Vec<TrackerEvent>,
    )
        ensures
            final(self)@ == old(self)@.entered(direction, level, price, at).0,
            event_views(final(events)@) == event_views(old(events)@) + old(self)@.entered(
                direction,
                level,
                price,
                at,
            ).1,
    {
        let ghost told = event_views(events@);
        let ghost before = self@;
        let (sl, tp): (Num, Num) = grid_bracket(direction, price);
        self.active_trade = Some(
            GridTrade {
                symbol: self.symbol.clone(),
                level,
                direction,
                entry_time: at,
                entry_price: price,
                sl,
                tp,
                exit_time: None,
                exit_price: None,
                status: TradeStatus::Open,
            },
        );
        events.push(
            TrackerEvent::Entered {
                symbol: self.symbol.clone(),
                direction,
                price,
                level,
                sl,
                tp,
            },
        );
        assert(event_views(events@) =~= told + before.entered(direction, level, price, at).1);
        assert(self@ =~= before.entered(direction, level, price, at).0);
    }

    /// Takes in a closed bar.
    pub fn process_kline(&mut self, kline: &KlineData) -> (events: Vec<TrackerEvent>)
        ensures
            final(self)@ == old(self)@.after_kline(*kline).0,
            event_views(events@) == old(self)@.after_kline(*kline).1,
    {
        let ghost before = self@;
        let mut events: Vec<TrackerEvent> = Vec::new();
        let level: i32 = self.price_to_level(kline.close);
        let previous: i32 = match self.last_close_level {
            Some(l) => l,
            None => level,
        };
        market::push_kline(&mut self.klines, kline);
        self.current_price = Some(kline.close);
        self.last_close_level = Some(level);
        let ghost seen = self@;
        assert(event_views(events@) =~= Seq::<EventView>::empty());
        let leaving: Option<Num> = match &self.active_trade {
            Some(t) => market::exit_price(t.direction.long(), t.sl, t.tp, kline.low, kline.high),
            None => None,
        };
        if let Some(price) = leaving {
            self.leave(price, kline.datetime, &mut events);
        }
        let ghost told = event_views(events@);
        assert(told =~= seen.left(seen.exit_between(kline.low, kline.high), kline.datetime).1);
        if self.active_trade.is_none() && level != previous {
            let direction: TradeDirection = if level > previous {
                TradeDirection::Short
            } else {
                TradeDirection::Long
            };
            self.enter(direction, level, kline.close, kline.datetime, &mut events);
        }
        events
    }

    /// Takes in a quote.
    pub fn update_ticker(&mut self, bid: Num, ask: Num, now: Moment) -> (events: Vec<TrackerEvent>)
        ensures
            final(self)@ == old(self)@.after_quote(bid, ask, now).0,
            event_views(events@) == old(self)@.after_quote(bid, ask, now).1,
    {
        let ghost before = self@;
        let mut events: Vec<TrackerEvent> = Vec::new();
        let mid: Num = market::middle(bid, ask);
        self.current_price = Some(mid);
        let ghost seen = self@;
        assert(event_views(events@) =~= Seq::<EventView>::empty());
        let leaving: Option<Num> = match &self.active_trade {
            Some(t) => {
                let p: Num = market::leaving_price(t.direction.long(), bid, ask);
                market::exit_price(t.direction.long(), t.sl, t.tp, p, p)
            },
            None => None,
        };
        if let Some(price) = leaving {
            self.leave(price, now, &mut events);
        }
        let ghost told = event_views(events@);
        assert(told =~= seen.left(seen.exit_at_quote(bid, ask), now).1);
        if self.active_trade.is_none() {
            let level: i32 = self.price_to_level(mid);
            let ghost rest = self@;
            match self.last_close_level {
                None => {
                    self.last_close_level = Some(level);
                    assert(self@ =~= TrackerView { last_close_level: Some(level), ..rest });
                },
                Some(previous) => {
                    if level > previous {
                        self.last_close_level = Some(level);
                        assert(self@ =~= TrackerView { last_close_level: Some(level), ..rest });
                        self.enter(TradeDirection::Short, level, bid, now, &mut events);
                    } else if level < previous {
                        self.last_close_level = Some(level);
                        assert(self@ =~= TrackerView { last_close_level: Some(level), ..rest });
                        self.enter(TradeDirection::Long, level, ask, now, &mut events);
                    }
                },
            }
        }
        events
    }
}


/// Leaving keeps a tracker well formed.
proof fn lemma_left_wf(v: TrackerView, price: Option<Num>, at: Moment)
    requires
        v.wf(),
    ensures
        v.left(price, at).0.wf(),
{
    let after = v.left(price, at).0.closed_trades;
    assert forall|i: int| 0 <= i < after.len() implies (#[trigger] after[i]).finished() by {
        if i < v.closed_trades.len() {
            assert(after[i] == v.closed_trades[i]);
        }
    }
}

/// A closed bar keeps a tracker well formed, and its symbol, base and step as they
/// were.
pub proof fn lemma_kline_wf(v: TrackerView, k: KlineData)
    requires
        v.wf(),
    ensures
        v.after_kline(k).0.wf(),
        v.after_kline(k).0.symbol == v.symbol,
        v.after_kline(k).0.base_price == v.base_price,
        v.after_kline(k).0.level_step == v.level_step,
{
    let level = level_of(k.close, v.base_price);
    let seen = TrackerView {
        klines: market::with_kline(v.klines, k),
        current_price: Some(k.close),
        last_close_level: Some(level),
        ..v
    };
    lemma_left_wf(seen, seen.exit_between(k.low, k.high), k.datetime);
}

/// A quote keeps a tracker well formed, and its symbol, base, step and bars as they
/// were.
pub proof fn lemma_quote_wf(v: TrackerView, bid: Num, ask: Num, now: Moment)
    requires
        v.wf(),
    ensures
        v.after_quote(bid, ask, now).0.wf(),
        v.after_quote(bid, ask, now).0.symbol == v.symbol,
        v.after_quote(bid, ask, now).0.base_price == v.base_price,
        v.after_quote(bid, ask, now).0.level_step == v.level_step,
        v.after_quote(bid, ask, now).0.klines == v.klines,
{
    let seen = TrackerView { current_price: Some(market::middle(bid, ask)), ..v };
    lemma_left_wf(seen, seen.exit_at_quote(bid, ask), now);
}

} // verus!
