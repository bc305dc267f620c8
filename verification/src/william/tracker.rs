//! What the alligator engine keeps of one symbol.
use std::collections::VecDeque;
use vstd::prelude::*;
use vstd::string::*;
use crate::figures;
use crate::market;
use crate::market::{KlineData, TradeDirection, TradeStatus};
use crate::num::{num, Num};
use crate::stream;
use crate::text;
use crate::time;
use crate::time::Moment;
use crate::william::alligator;
use crate::william::alligator::AlligatorAlignment;

verus! {

/// A trade. A ghost trade is followed like any other but never ordered.
#[derive(Debug)]
pub struct GridTrade {
    pub symbol: String,
    pub direction: TradeDirection,
    pub entry_time: Moment,
    pub entry_price: Num,
    pub sl: Num,
    pub tp: Num,
    pub exit_time: Option<Moment>,
    pub exit_price: Option<Num>,
    pub status: TradeStatus,
    pub is_ghost: bool,
    pub signal_label: String,
}

/// The contents of a [`GridTrade`].
#[verifier::ext_equal]
pub struct GridTradeView {
    pub symbol: Seq<char>,
    pub direction: TradeDirection,
    pub entry_time: Moment,
    pub entry_price: Num,
    pub sl: Num,
    pub tp: Num,
    pub exit_time: Option<Moment>,
    pub exit_price: Option<Num>,
    pub status: TradeStatus,
    pub is_ghost: bool,
    pub signal_label: Seq<char>,
}

impl View for GridTrade {
    type V = GridTradeView;

    open spec fn view(&self) -> GridTradeView {
        GridTradeView {
            symbol: self.symbol@,
            direction: self.direction,
            entry_time: self.entry_time,
            entry_price: self.entry_price,
            sl: self.sl,
            tp: self.tp,
            exit_time: self.exit_time,
            exit_price: self.exit_price,
            status: self.status,
            is_ghost: self.is_ghost,
            signal_label: self.signal_label@,
        }
    }
}

impl GridTradeView {
    /// The gain of a closed trade in percent; zero for one that runs and for a ghost.
    pub open spec fn pnl(self) -> Num {
        if self.is_ghost || self.status == TradeStatus::Open || self.exit_price is None {
            num(figures::ZERO)
        } else {
            market::gain(self.direction.long(), self.entry_price, self.exit_price->0)
        }
    }

    /// How long the trade ran, in whole seconds.
    pub open spec fn seconds(self) -> Option<int> {
        match self.exit_time {
            Some(t) => Some(time::whole_seconds(t.stamp() - self.entry_time.stamp())),
            None => None,
        }
    }

    /// The trade after it left at a price.
    pub open spec fn closed(self, price: Num, at: Moment) -> GridTradeView {
        GridTradeView {
            exit_time: Some(at),
            exit_price: Some(price),
            status: TradeStatus::Closed,
            ..self
        }
    }

    /// Whether leaving at a price is a loss.
    pub open spec fn loses_at(self, price: Num) -> bool {
        match self.direction {
            TradeDirection::Long => price.below(self.entry_price),
            TradeDirection::Short => self.entry_price.below(price),
        }
    }

    /// A running trade has not left.
    pub open spec fn running(self) -> bool {
        self.status == TradeStatus::Open && self.exit_time is None && self.exit_price is None
    }

    /// A finished trade has left at some time and price.
    pub open spec fn finished(self) -> bool {
        self.status == TradeStatus::Closed && self.exit_time is Some && self.exit_price is Some
    }
}

impl GridTrade {
    /// The gain of a closed trade in percent; zero for one that runs and for a ghost.
    pub fn pnl_pct(&self) -> (r: Num)
        ensures
            r == self@.pnl(),
    {
        match self.exit_price {
            Some(exit) => {
                if self.is_ghost || self.status == TradeStatus::Open {
                    num(figures::ZERO)
                } else {
                    market::gain(self.direction.long(), self.entry_price, exit)
                }
            },
            None => num(figures::ZERO),
        }
    }

    /// How long the trade ran, in whole seconds.
    pub fn duration(&self) -> (r: Option<i64>)
        ensures
            r is Some <==> self@.seconds() is Some,
            r is Some ==> Some(r->0 as int) == self@.seconds(),
            r is Some ==> r->0 > i64::MIN,
    {
        match self.exit_time {
            Some(t) => Some(t.seconds_since(&self.entry_time)),
            None => None,
        }
    }

    /// Whether leaving at a price is a loss.
    fn loses_at(&self, price: Num) -> (b: bool)
        ensures
            b == self@.loses_at(price),
    {
        match self.direction {
            TradeDirection::Long => price.below(self.entry_price),
            TradeDirection::Short => self.entry_price.below(price),
        }
    }
}

/// The contents of a list of trades.
pub open spec fn trade_views(s: Seq<GridTrade>) -> Seq<GridTradeView> {
    Seq::new(s.len(), |i: int| s[i]@)
}

/// The contents of a trade that may not be there.
pub open spec fn trade_view(t: Option<GridTrade>) -> Option<GridTradeView> {
    match t {
        Some(x) => Some(x@),
        None => None,
    }
}

/// How many of some trades are ghosts.
pub open spec fn ghosts(s: Seq<GridTradeView>) -> nat
    decreases s.len(),
{
    if s.len() == 0 {
        0
    } else {
        ghosts(s.drop_last()) + if s.last().is_ghost {
            1nat
        } else {
            0nat
        }
    }
}

/// There are no more ghosts than trades.
pub proof fn lemma_ghosts_bound(s: Seq<GridTradeView>)
    ensures
        ghosts(s) <= s.len(),
    decreases s.len(),
{
    if s.len() > 0 {
        lemma_ghosts_bound(s.drop_last());
    }
}

/// See [`ghosts`].
pub fn count_ghosts(trades: &Vec<GridTrade>) -> (n: usize)
    ensures
        n == ghosts(trade_views(trades@)),
        n <= trades@.len(),
{
    let mut n: usize = 0;
    let mut i: usize = 0;
    let ghost all = trade_views(trades@);
    while i < trades.len()
        invariant
            i <= trades@.len(),
            n <= i,
            all == trade_views(trades@),
            n == ghosts(all.take(i as int)),
        decreases trades@.len() - i,
    {
        assert(all.take(i + 1).drop_last() =~= all.take(i as int));
        assert(all.take(i + 1).last() == trades@[i as int]@);
        if trades[i].is_ghost {
            n = n + 1;
        }
        i = i + 1;
    }
    assert(all.take(i as int) =~= all);
    n
}

/// What a tracker tells the engine.
#[derive(Debug)]
pub enum TrackerEvent {
    Entered {
        symbol: String,
        direction: TradeDirection,
        price: Num,
        sl: Num,
        tp: Num,
        is_ghost: bool,
    },
    Exited { symbol: String, direction: TradeDirection, is_ghost: bool },
}

/// The contents of a [`TrackerEvent`].
#[verifier::ext_equal]
pub enum EventView {
    Entered {
        symbol: Seq<char>,
        direction: TradeDirection,
        price: Num,
        sl: Num,
        tp: Num,
        is_ghost: bool,
    },
    Exited { symbol: Seq<char>, direction: TradeDirection, is_ghost: bool },
}

impl View for TrackerEvent {
    type V = EventView;

    open spec fn view(&self) -> EventView {
        match *self {
            TrackerEvent::Entered { symbol, direction, price, sl, tp, is_ghost } => EventView::Entered {
                symbol: symbol@,
                direction,
                price,
                sl,
                tp,
                is_ghost,
            },
            TrackerEvent::Exited { symbol, direction, is_ghost } => EventView::Exited {
                symbol: symbol@,
                direction,
                is_ghost,
            },
        }
    }
}

/// The contents of a list of events.
pub open spec fn event_views(s: Seq<TrackerEvent>) -> Seq<EventView> {
    Seq::new(s.len(), |i: int| s[i]@)
}

/// The state of one symbol.
pub struct SymbolTracker {
    pub symbol: String,
    pub base_price: Num,
    pub klines: Vec<KlineData>,
    pub current_price: Option<Num>,
    pub active_trade: Option<GridTrade>,
    pub closed_trades: Vec<GridTrade>,
    pub ghost_remaining: i32,
    pub ghost_triggered: bool,
    pub close_prices: VecDeque<Num>,
    pub jaw_values: VecDeque<Num>,
    pub teeth_values: VecDeque<Num>,
    pub lips_values: VecDeque<Num>,
    pub alignment: AlligatorAlignment,
    pub prev_alignment: AlligatorAlignment,
    pub alignment_changed: bool,
    pub jaw_val: Num,
    pub teeth_val: Num,
    pub lips_val: Num,
}

/// The contents of a [`SymbolTracker`].
#[verifier::ext_equal]
pub struct TrackerView {
    pub symbol: Seq<char>,
    pub base_price: Num,
    pub klines: Seq<KlineData>,
    pub current_price: Option<Num>,
    pub active_trade: Option<GridTradeView>,
    pub closed_trades: Seq<GridTradeView>,
    pub ghost_remaining: i32,
    pub ghost_triggered: bool,
    pub close_prices: Seq<Num>,
    pub jaw_values: Seq<Num>,
    pub teeth_values: Seq<Num>,
    pub lips_values: Seq<Num>,
    pub alignment: AlligatorAlignment,
    pub prev_alignment: AlligatorAlignment,
    pub alignment_changed: bool,
    pub jaw_val: Num,
    pub teeth_val: Num,
    pub lips_val: Num,
}

impl View for SymbolTracker {
    type V = TrackerView;

    open spec fn view(&self) -> TrackerView {
        TrackerView {
            symbol: self.symbol@,
            base_price: self.base_price,
            klines: self.klines@,
            current_price: self.current_price,
            active_trade: trade_view(self.active_trade),
            closed_trades: trade_views(self.closed_trades@),
            ghost_remaining: self.ghost_remaining,
            ghost_triggered: self.ghost_triggered,
            close_prices: self.close_prices@,
            jaw_values: self.jaw_values@,
            teeth_values: self.teeth_values@,
            lips_values: self.lips_values@,
            alignment: self.alignment,
            prev_alignment: self.prev_alignment,
            alignment_changed: self.alignment_changed,
            jaw_val: self.jaw_val,
            teeth_val: self.teeth_val,
            lips_val: self.lips_val,
        }
    }
}

/// The label of a change of alignment.
pub open spec fn signal(from: AlligatorAlignment, to: AlligatorAlignment) -> Seq<char> {
    from.name() + "→"@ + to.name()
}

/// A number, or zero where there is none.
pub open spec fn or_zero(o: Option<Num>) -> Num {
    stream::or_zero(o)
}

impl TrackerView {
    /// A tracker at its start.
    pub open spec fn fresh(symbol: Seq<char>, base_price: Num) -> TrackerView {
        TrackerView {
            symbol,
            base_price,
            klines: Seq::empty(),
            current_price: Some(base_price),
            active_trade: None,
            closed_trades: Seq::empty(),
            ghost_remaining: 0,
            ghost_triggered: false,
            close_prices: Seq::empty(),
            jaw_values: Seq::empty(),
            teeth_values: Seq::empty(),
            lips_values: Seq::empty(),
            alignment: AlligatorAlignment::Mixed,
            prev_alignment: AlligatorAlignment::Mixed,
            alignment_changed: false,
            jaw_val: num(figures::ZERO),
            teeth_val: num(figures::ZERO),
            lips_val: num(figures::ZERO),
        }
    }

    /// Bars and closes are no more than are kept, and a close is kept only with its
    /// bar; the active trade runs; the closed trades are finished; the ghosts to come
    /// are not negative.
    pub open spec fn wf(self) -> bool {
        &&& self.klines.len() <= market::MAX_KLINES
        &&& self.close_prices.len() <= alligator::MAX_CLOSE_POOL
        &&& self.close_prices.len() <= self.klines.len()
        &&& self.active_trade is Some ==> self.active_trade->0.running()
        &&& forall|i: int|
            0 <= i < self.closed_trades.len() ==> (#[trigger] self.closed_trades[i]).finished()
        &&& self.ghost_remaining >= 0
    }

    /// How many trades were entered, ghosts not counted.
    pub open spec fn attempts(self) -> nat {
        (self.closed_trades.len() - ghosts(self.closed_trades) + match self.active_trade {
            Some(t) => if t.is_ghost {
                0int
            } else {
                1int
            },
            None => 0int,
        }) as nat
    }

    /// The tracker after the averages were taken over the closes.
    pub open spec fn recalculated(self) -> TrackerView {
        if self.close_prices.len() < alligator::JAW_PERIOD {
            self
        } else {
            let jaw = alligator::smma(self.close_prices, alligator::JAW_PERIOD);
            let teeth = alligator::smma(self.close_prices, alligator::TEETH_PERIOD);
            let lips = alligator::smma(self.close_prices, alligator::LIPS_PERIOD);
            let j = or_zero(alligator::displaced(jaw, alligator::JAW_DISPLACEMENT));
            let t = or_zero(alligator::displaced(teeth, alligator::TEETH_DISPLACEMENT));
            let l = or_zero(alligator::displaced(lips, alligator::LIPS_DISPLACEMENT));
            let averaged = TrackerView {
                jaw_values: jaw,
                teeth_values: teeth,
                lips_values: lips,
                jaw_val: j,
                teeth_val: t,
                lips_val: l,
                ..self
            };
            if jaw.len() > alligator::JAW_DISPLACEMENT && teeth.len() > alligator::TEETH_DISPLACEMENT
                && lips.len() > alligator::LIPS_DISPLACEMENT {
                let now = alligator::determine_alignment(l, t, j);
                TrackerView {
                    prev_alignment: self.alignment,
                    alignment: now,
                    alignment_changed: self.alignment != now,
                    ..averaged
                }
            } else {
                averaged
            }
        }
    }

    /// The tracker after a trade that was no ghost left at a price: a first loss starts
    /// a series of ghosts, anything but a loss ends it.
    pub open spec fn judged(self, t: GridTradeView, price: Num, threshold: i32) -> TrackerView {
        if t.is_ghost {
            self
        } else if threshold > 0 && t.loses_at(price) && !self.ghost_triggered {
            TrackerView { ghost_remaining: threshold, ghost_triggered: true, ..self }
        } else if !t.loses_at(price) {
            TrackerView { ghost_remaining: 0, ghost_triggered: false, ..self }
        } else {
            self
        }
    }

    /// The tracker after its active trade was moved to the closed ones.
    pub open spec fn shelved(self, price: Num, at: Moment) -> TrackerView {
        TrackerView {
            active_trade: None,
            closed_trades: self.closed_trades.push(self.active_trade->0.closed(price, at)),
            ..self
        }
    }

    /// What the tracker tells when its active trade leaves.
    pub open spec fn leaving(self) -> Seq<EventView> {
        seq![
            EventView::Exited {
                symbol: self.symbol,
                direction: self.active_trade->0.direction,
                is_ghost: self.active_trade->0.is_ghost,
            },
        ]
    }

    /// The tracker, and what it tells, after the active trade left at a price, if it
    /// did.
    pub open spec fn left(self, price: Option<Num>, at: Moment, threshold: i32) -> (
        TrackerView,
        Seq<EventView>,
    ) {
        match (self.active_trade, price) {
            (Some(t), Some(p)) => (
                self.shelved(p, at).judged(t, p, threshold),
                self.leaving(),
            ),
            _ => (self, Seq::empty()),
        }
    }

    /// Whether the active trade is against the alignment.
    pub open spec fn misaligned(self) -> bool {
        match self.active_trade {
            Some(t) => match t.direction {
                TradeDirection::Long => self.alignment != AlligatorAlignment::Bullish,
                TradeDirection::Short => self.alignment != AlligatorAlignment::Bearish,
            },
            None => false,
        }
    }

    /// The tracker, and what it tells, after it entered a trade. It is a ghost while
    /// ghosts are to come.
    pub open spec fn entered(
        self,
        direction: TradeDirection,
        price: Num,
        at: Moment,
        sl_pct: Num,
        tp_pct: Num,
    ) -> (TrackerView, Seq<EventView>) {
        let is_ghost = self.ghost_remaining > 0;
        let (sl, tp) = market::bracket(direction.long(), price, sl_pct, tp_pct);
        (
            TrackerView {
                ghost_remaining: if is_ghost {
                    (self.ghost_remaining - 1) as i32
                } else {
                    self.ghost_remaining
                },
                active_trade: Some(
                    GridTradeView {
                        symbol: self.symbol,
                        direction,
                        entry_time: at,
                        entry_price: price,
                        sl,
                        tp,
                        exit_time: None,
                        exit_price: None,
                        status: TradeStatus::Open,
                        is_ghost,
                        signal_label: signal(self.prev_alignment, self.alignment),
                    },
                ),
                ..self
            },
            seq![EventView::Entered { symbol: self.symbol, direction, price, sl, tp, is_ghost }],
        )
    }

    /// Where the active trade leaves, given the lowest and highest price seen.
    pub open spec fn exit_between(self, low: Num, high: Num) -> Option<Num> {
        match self.active_trade {
            Some(t) => market::exit_price(t.direction.long(), t.sl, t.tp, low, high),
            None => None,
        }
    }

    /// Where the active trade leaves at a quote.
    pub open spec fn exit_at_quote(self, bid: Num, ask: Num) -> Option<Num> {
        match self.active_trade {
            Some(t) => {
                let p = market::leaving_price(t.direction.long(), bid, ask);
                market::exit_price(t.direction.long(), t.sl, t.tp, p, p)
            },
            None => None,
        }
    }

    /// The direction to enter on a change of alignment.
    pub open spec fn signalled(self) -> Option<TradeDirection> {
        if self.alignment_changed && self.active_trade is None {
            match self.alignment {
                AlligatorAlignment::Bullish => Some(TradeDirection::Long),
                AlligatorAlignment::Bearish => Some(TradeDirection::Short),
                AlligatorAlignment::Mixed => None,
            }
        } else {
            None
        }
    }

    /// The tracker after a bar was put to the others.
    pub open spec fn noted(self, k: KlineData) -> TrackerView {
        TrackerView {
            klines: market::with_kline(self.klines, k),
            current_price: Some(k.close),
            close_prices: alligator::with_close(self.close_prices, k.close),
            ..self
        }
    }

    /// The tracker, and what it tells, after a closed bar: the active trade may leave at
    /// its stop or target, the averages are taken, a change of alignment ends a trade
    /// against it, and starts one in its direction.
    pub open spec fn after_kline(self, k: KlineData, sl_pct: Num, tp_pct: Num, threshold: i32) -> (
        TrackerView,
        Seq<EventView>,
    ) {
        let noted = self.noted(k);
        let (a, told_a) = noted.left(noted.exit_between(k.low, k.high), k.datetime, threshold);
        let b = a.recalculated();
        let (c, told_c) = b.left(
            if b.alignment_changed && b.misaligned() {
                Some(k.close)
            } else {
                None
            },
            k.datetime,
            threshold,
        );
        match c.signalled() {
            Some(direction) => {
                let (d, told_d) = c.entered(direction, k.close, k.datetime, sl_pct, tp_pct);
                (d, told_a + told_c + told_d)
            },
            None => (c, told_a + told_c),
        }
    }

    /// The tracker, and what it tells, after a quote. Leaving at a quote does not change
    /// what is known of ghosts.
    pub open spec fn after_quote(self, bid: Num, ask: Num, now: Moment) -> (
        TrackerView,
        Seq<EventView>,
    ) {
        let seen = TrackerView { current_price: Some(market::middle(bid, ask)), ..self };
        match seen.exit_at_quote(bid, ask) {
            Some(p) => (seen.shelved(p, now), seen.leaving()),
            None => (seen, Seq::empty()),
        }
    }
}

impl SymbolTracker {
    /// A tracker at its start.
    pub fn new(symbol: String, base_price: Num) -> (r: SymbolTracker)
        ensures
            r@ == TrackerView::fresh(symbol@, base_price),
            r@.wf(),
    {
        let r: SymbolTracker = SymbolTracker {
            symbol,
            base_price,
            klines: Vec::new(),
            current_price: Some(base_price),
            active_trade: None,
            closed_trades: Vec::new(),
            ghost_remaining: 0,
            ghost_triggered: false,
            close_prices: VecDeque::with_capacity(alligator::MAX_CLOSE_POOL),
            jaw_values: VecDeque::new(),
            teeth_values: VecDeque::new(),
            lips_values: VecDeque::new(),
            alignment: AlligatorAlignment::Mixed,
            prev_alignment: AlligatorAlignment::Mixed,
            alignment_changed: false,
            jaw_val: num(figures::ZERO),
            teeth_val: num(figures::ZERO),
            lips_val: num(figures::ZERO),
        };
        assert(r@ =~= TrackerView::fresh(symbol@, base_price));
        r
    }

    /// How many trades were entered, ghosts not counted.
    pub fn total_attempts(&self) -> (r: usize)
        requires
            self.closed_trades@.len() < usize::MAX,
        ensures
            r == self@.attempts(),
    {
        let closed: usize = self.closed_trades.len() - count_ghosts(&self.closed_trades);
        let active: usize = match &self.active_trade {
            Some(t) => if t.is_ghost {
                0
            } else {
                1
            },
            None => 0,
        };
        closed + active
    }

    /// Takes the averages over the closes.
    fn recalc_alligator(&mut self)
        ensures
            final(self)@ == old(self)@.recalculated(),
    {
        let ghost before = self@;
        if self.close_prices.len() < alligator::JAW_PERIOD {
            return;
        }
        self.jaw_values = alligator::calc_smma(&self.close_prices, alligator::JAW_PERIOD);
        self.teeth_values = alligator::calc_smma(&self.close_prices, alligator::TEETH_PERIOD);
        self.lips_values = alligator::calc_smma(&self.close_prices, alligator::LIPS_PERIOD);
        self.jaw_val = stream::or_zero(
            alligator::get_displaced(&self.jaw_values, alligator::JAW_DISPLACEMENT),
        );
        self.teeth_val = stream::or_zero(
            alligator::get_displaced(&self.teeth_values, alligator::TEETH_DISPLACEMENT),
        );
        self.lips_val = stream::or_zero(
            alligator::get_displaced(&self.lips_values, alligator::LIPS_DISPLACEMENT),
        );
        if self.jaw_values.len() > alligator::JAW_DISPLACEMENT && self.teeth_values.len()
            > alligator::TEETH_DISPLACEMENT && self.lips_values.len() > alligator::LIPS_DISPLACEMENT {
            let now: AlligatorAlignment = alligator::determine_alignment(
                self.lips_val,
                self.teeth_val,
                self.jaw_val,
            );
            self.prev_alignment = self.alignment;
            self.alignment = now;
            self.alignment_changed = self.prev_alignment != self.alignment;
        }
        assert(self@ =~= before.recalculated());
    }

    /// Moves the active trade to the closed ones.
    fn shelve(&mut self, price: Num, at: Moment, events: &mut Vec<TrackerEvent>)
        requires
            old(self).active_trade is Some,
        ensures
            final(self)@ == old(self)@.shelved(price, at),
            event_views(final(events)@) == event_views(old(events)@) + old(self)@.leaving(),
    {
        let ghost told = event_views(events@);
        let ghost before = self@;
        let taken: Option<GridTrade> = self.active_trade.take();
        if let Some(mut t) = taken {
            t.exit_time = Some(at);
            t.exit_price = Some(price);
            t.status = TradeStatus::Closed;
            events.push(
                TrackerEvent::Exited {
                    symbol: self.symbol.clone(),
                    direction: t.direction,
                    is_ghost: t.is_ghost,
                },
            );
            assert(t@ =~= before.active_trade->0.closed(price, at));
            self.closed_trades.push(t);
        }
        assert(event_views(events@) =~= told + before.leaving());
        assert(self@.closed_trades =~= before.shelved(price, at).closed_trades);
        assert(self@ =~= before.shelved(price, at));
    }

    /// Closes the active trade at a price, and judges it.
    fn leave(&mut self, price: Num, at: Moment, threshold: i32, events: &mut Vec<TrackerEvent>)
        requires
            old(self).active_trade is Some,
        ensures
            final(self)@ == old(self)@.left(Some(price), at, threshold).0,
            event_views(final(events)@) == event_views(old(events)@) + old(self)@.left(
                Some(price),
                at,
                threshold,
            ).1,
    {
        let ghost before = self@;
        let (is_ghost, lost): (bool, bool) = match &self.active_trade {
            Some(t) => (t.is_ghost, t.loses_at(price)),
            None => (true, false),
        };
        self.shelve(price, at, events);
        let ghost shelved = self@;
        if !is_ghost {
            if threshold > 0 && lost && !self.ghost_triggered {
                self.ghost_remaining = threshold;
                self.ghost_triggered = true;
            } else if !lost {
                self.ghost_remaining = 0;
                self.ghost_triggered = false;
            }
        }
        assert(self@ =~= shelved.judged(before.active_trade->0, price, threshold));
    }

    /// Opens a trade.
    fn enter(
        &mut self,
        direction: TradeDirection,
        price: Num,
        at: Moment,
        sl_pct: Num,
        tp_pct: Num,
        events: &mut Vec<TrackerEvent>,
    )
        ensures
            final(self)@ == old(self)@.entered(direction, price, at, sl_pct, tp_pct).0,
            event_views(final(events)@) == event_views(old(events)@) + old(self)@.entered(
                direction,
                price,
                at,
                sl_pct,
                tp_pct,
            ).1,
    {
        let ghost told = event_views(events@);
        let ghost before = self@;
        let is_ghost: bool = self.ghost_remaining > 0;
        if is_ghost {
            self.ghost_remaining = self.ghost_remaining - 1;
        }
        let (sl, tp): (Num, Num) = market::bracket(direction.long(), price, sl_pct, tp_pct);
        let label: String = text::concat(
            text::concat(self.prev_alignment.as_str(), "→").as_str(),
            self.alignment.as_str(),
        );
        self.active_trade = Some(
            GridTrade {
                symbol: self.symbol.clone(),
                direction,
                entry_time: at,
                entry_price: price,
                sl,
                tp,
                exit_time: None,
                exit_price: None,
                status: TradeStatus::Open,
                is_ghost,
                signal_label: label,
            },
        );
        events.push(
            TrackerEvent::Entered {
                symbol: self.symbol.clone(),
                direction,
                price,
                sl,
                tp,
                is_ghost,
            },
        );
        assert(event_views(events@) =~= told + before.entered(
            direction,
            price,
            at,
            sl_pct,
            tp_pct,
        ).1);
        assert(self@ =~= before.entered(direction, price, at, sl_pct, tp_pct).0);
    }

    /// Takes in a closed bar.
    pub fn process_kline(
        &mut self,
        kline: &KlineData,
        sl_pct: Num,
        tp_pct: Num,
        _reverse: bool,
        ghost_threshold: i32,
    ) -> (events: Vec<TrackerEvent>)
        ensures
            final(self)@ == old(self)@.after_kline(*kline, sl_pct, tp_pct, ghost_threshold).0,
            event_views(events@) == old(self)@.after_kline(
                *kline,
                sl_pct,
                tp_pct,
                ghost_threshold,
            ).1,
    {
        let ghost before = self@;
        let mut events: Vec<TrackerEvent> = Vec::new();
        market::push_kline(&mut self.klines, kline);
        self.current_price = Some(kline.close);
        alligator::push_close(&mut self.close_prices, kline.close);
        let ghost noted = self@;
        assert(noted =~= before.noted(*kline));
        assert(event_views(events@) =~= Seq::<EventView>::empty());
        let leaving: Option<Num> = match &self.active_trade {
            Some(t) => market::exit_price(t.direction.long(), t.sl, t.tp, kline.low, kline.high),
            None => None,
        };
        if let Some(price) = leaving {
            self.leave(price, kline.datetime, ghost_threshold, &mut events);
        }
        let ghost told_a = event_views(events@);
        assert(told_a =~= noted.left(
            noted.exit_between(kline.low, kline.high),
            kline.datetime,
            ghost_threshold,
        ).1);
        self.recalc_alligator();
        let ghost b = self@;
        let misaligned: bool = match &self.active_trade {
            Some(t) => match t.direction {
                TradeDirection::Long => self.alignment != AlligatorAlignment::Bullish,
                TradeDirection::Short => self.alignment != AlligatorAlignment::Bearish,
            },
            None => false,
        };
        if self.alignment_changed && misaligned {
            self.leave(kline.close, kline.datetime, ghost_threshold, &mut events);
        }
        let ghost told_c = b.left(
            if b.alignment_changed && b.misaligned() {
                Some(kline.close)
            } else {
                None
            },
            kline.datetime,
            ghost_threshold,
        ).1;
        assert(event_views(events@) =~= told_a + told_c);
        if self.alignment_changed && self.active_trade.is_none() {
            match self.alignment {
                AlligatorAlignment::Bullish => {
                    self.enter(
                        TradeDirection::Long,
                        kline.close,
                        kline.datetime,
                        sl_pct,
                        tp_pct,
                        &mut events,
                    );
                },
                AlligatorAlignment::Bearish => {
                    self.enter(
                        TradeDirection::Short,
                        kline.close,
                        kline.datetime,
                        sl_pct,
                        tp_pct,
                        &mut events,
                    );
                },
                AlligatorAlignment::Mixed => {},
            }
        }
        events
    }

    /// Takes in a quote.
    pub fn update_ticker(
        &mut self,
        bid: Num,
        ask: Num,
        _sl_pct: Num,
        _tp_pct: Num,
        _reverse: bool,
        _ghost_threshold: i32,
        now: Moment,
    ) -> (events: Vec<TrackerEvent>)
        ensures
            final(self)@ == old(self)@.after_quote(bid, ask, now).0,
            event_views(events@) == old(self)@.after_quote(bid, ask, now).1,
    {
        let ghost before = self@;
        let mut events: Vec<TrackerEvent> = Vec::new();
        self.current_price = Some(market::middle(bid, ask));
        let ghost seen = self@;
        assert(seen =~= TrackerView { current_price: Some(market::middle(bid, ask)), ..before });
        assert(event_views(events@) =~= Seq::<EventView>::empty());
        let leaving: Option<Num> = match &self.active_trade {
            Some(t) => {
                let p: Num = market::leaving_price(t.direction.long(), bid, ask);
                market::exit_price(t.direction.long(), t.sl, t.tp, p, p)
            },
            None => None,
        };
        if let Some(price) = leaving {
            self.shelve(price, now, &mut events);
            assert(event_views(events@) =~= seen.leaving());
        }
        events
    }
}

/// Leaving keeps a tracker well formed.
proof fn lemma_shelved_wf(v: TrackerView, price: Num, at: Moment)
    requires
        v.wf(),
        v.active_trade is Some,
    ensures
        v.shelved(price, at).wf(),
{
    let after = v.shelved(price, at).closed_trades;
    assert forall|i: int| 0 <= i < after.len() implies (#[trigger] after[i]).finished() by {
        if i < v.closed_trades.len() {
            assert(after[i] == v.closed_trades[i]);
        }
    }
}

/// Leaving, and judging the trade, keeps a tracker well formed.
proof fn lemma_left_wf(v: TrackerView, price: Option<Num>, at: Moment, threshold: i32)
    requires
        v.wf(),
    ensures
        v.left(price, at, threshold).0.wf(),
{
    if v.active_trade is Some && price is Some {
        lemma_shelved_wf(v, price->0, at);
    }
}

/// A closed bar keeps a tracker well formed, and its symbol and base as they were.
pub proof fn lemma_kline_wf(v: TrackerView, k: KlineData, sl_pct: Num, tp_pct: Num, threshold: i32)
    requires
        v.wf(),
    ensures
        v.after_kline(k, sl_pct, tp_pct, threshold).0.wf(),
        v.after_kline(k, sl_pct, tp_pct, threshold).0.symbol == v.symbol,
        v.after_kline(k, sl_pct, tp_pct, threshold).0.base_price == v.base_price,
{
    let noted = v.noted(k);
    assert(noted.wf());
    let exit = noted.exit_between(k.low, k.high);
    lemma_left_wf(noted, exit, k.datetime, threshold);
    let b = noted.left(exit, k.datetime, threshold).0.recalculated();
    assert(b.wf());
    lemma_left_wf(
        b,
        if b.alignment_changed && b.misaligned() {
            Some(k.close)
        } else {
            None
        },
        k.datetime,
        threshold,
    );
}

/// A quote keeps a tracker well formed, and its symbol, base, bars and what is known of
/// ghosts as they were.
pub proof fn lemma_quote_wf(v: TrackerView, bid: Num, ask: Num, now: Moment)
    requires
        v.wf(),
    ensures
        v.after_quote(bid, ask, now).0.wf(),
        v.after_quote(bid, ask, now).0.symbol == v.symbol,
        v.after_quote(bid, ask, now).0.base_price == v.base_price,
        v.after_quote(bid, ask, now).0.klines == v.klines,
        v.after_quote(bid, ask, now).0.ghost_remaining == v.ghost_remaining,
        v.after_quote(bid, ask, now).0.ghost_triggered == v.ghost_triggered,
{
    let seen = TrackerView { current_price: Some(market::middle(bid, ask)), ..v };
    match seen.exit_at_quote(bid, ask) {
        Some(p) => lemma_shelved_wf(seen, p, now),
        None => {},
    }
}

} // verus!
