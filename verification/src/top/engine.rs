//! The one-sided engine: its trackers, its subscribers, and what it orders.
use vstd::prelude::*;
use vstd::string::*;
use crate::figures;
use crate::top::tracker;
use crate::top::tracker::{EventView, Side, SymbolTracker, TrackerEvent, TrackerView};
use crate::json;
use crate::link::{Link, LinkAction, LinkEvent};
use crate::market;
use crate::market::KlineData;
use crate::num::{num, Num};
use crate::roster;
use crate::roster::Roster;
use crate::stream;
use crate::stream::{MessageView, StreamMessage};
use crate::symbols;
use crate::table;
use crate::table::SymbolTable;
use crate::text;
use crate::time::Moment;

verus! {

/// Someone who follows the signals of one side with a stake in USDT.
#[derive(Clone, Copy, Debug)]
pub struct Subscriber {
    pub sub_id: i32,
    pub side: Side,
    pub size: Num,
}

/// A command to the stream.
#[derive(Debug)]
pub enum WsCommand {
    Subscribe(String),
    Unsubscribe(String),
    ResubscribeAll(Vec<String>),
}

/// The contents of a [`WsCommand`].
#[verifier::ext_equal]
pub enum CommandView {
    Subscribe(Seq<char>),
    Unsubscribe(Seq<char>),
    ResubscribeAll(Seq<Seq<char>>),
}

impl View for WsCommand {
    type V = CommandView;

    open spec fn view(&self) -> CommandView {
        match *self {
            WsCommand::Subscribe(s) => CommandView::Subscribe(s@),
            WsCommand::Unsubscribe(s) => CommandView::Unsubscribe(s@),
            WsCommand::ResubscribeAll(l) => CommandView::ResubscribeAll(json::all_chars(l@)),
        }
    }
}

impl CommandView {
    /// The request that a command sends, on bars of one minute.
    pub open spec fn request(self) -> Seq<char> {
        match self {
            CommandView::Subscribe(s) => stream::request("subscribe"@, 1, seq![s]),
            CommandView::Unsubscribe(s) => stream::request("unsubscribe"@, 1, seq![s]),
            CommandView::ResubscribeAll(l) => stream::request("subscribe"@, 1, l),
        }
    }
}

impl WsCommand {
    /// The request that the command sends.
    pub fn request_text(&self) -> (r: String)
        ensures
            r@ == self@.request(),
    {
        match self {
            WsCommand::Subscribe(s) => stream::request_one("subscribe", 1, s.as_str()),
            WsCommand::Unsubscribe(s) => stream::request_one("unsubscribe", 1, s.as_str()),
            WsCommand::ResubscribeAll(l) => stream::request_text("subscribe", 1, l),
        }
    }
}

/// The contents of a list of commands.
pub open spec fn command_views(s: Seq<WsCommand>) -> Seq<CommandView> {
    Seq::new(s.len(), |i: int| s[i]@)
}

/// Something to be done for a subscriber at the exchange.
#[derive(Debug)]
pub enum Action {
    /// Place a market order.
    Open { sub_id: i32, symbol: String, side: Side, qty: Num },
    /// Close all positions on a symbol.
    CloseAll { sub_id: i32, symbol: String },
}

/// The contents of an [`Action`].
#[verifier::ext_equal]
pub enum ActionView {
    Open { sub_id: i32, symbol: Seq<char>, side: Side, qty: Num },
    CloseAll { sub_id: i32, symbol: Seq<char> },
}

impl View for Action {
    type V = ActionView;

    open spec fn view(&self) -> ActionView {
        match *self {
            Action::Open { sub_id, symbol, side, qty } => ActionView::Open {
                sub_id,
                symbol: symbol@,
                side,
                qty,
            },
            Action::CloseAll { sub_id, symbol } => ActionView::CloseAll { sub_id, symbol: symbol@ },
        }
    }
}

/// The contents of a list of actions.
pub open spec fn action_views(s: Seq<Action>) -> Seq<ActionView> {
    Seq::new(s.len(), |i: int| s[i]@)
}

/// The orders of the subscribers of a side, in the order of their numbers.
pub open spec fn orders(symbol: Seq<char>, side: Side, price: Num, subs: Seq<(i32, Subscriber)>) -> Seq<
    ActionView,
>
    decreases subs.len(),
{
    if subs.len() == 0 {
        Seq::empty()
    } else {
        let before = orders(symbol, side, price, subs.drop_last());
        let sub = subs.last().1;
        if sub.side == side {
            before.push(
                ActionView::Open {
                    sub_id: sub.sub_id,
                    symbol,
                    side,
                    qty: market::stake_quantity(sub.size, price),
                },
            )
        } else {
            before
        }
    }
}

/// What all subscribers do after a trade left.
pub open spec fn closings(symbol: Seq<char>, subs: Seq<(i32, Subscriber)>) -> Seq<ActionView> {
    Seq::new(
        subs.len(),
        |i: int| ActionView::CloseAll { sub_id: subs[i].1.sub_id, symbol },
    )
}

/// The engine.
pub struct RealtimeEngine {
    pub trackers: SymbolTable<SymbolTracker>,
    pub subscribers: Roster<Subscriber>,
    /// Whether there is a stream to send commands to.
    pub connected: bool,
    /// Commands that are still to be sent.
    pub outbox: Vec<WsCommand>,
    pub running: bool,
}

/// The contents of a [`RealtimeEngine`].
#[verifier::ext_equal]
pub struct EngineView {
    pub trackers: Seq<(Seq<char>, TrackerView)>,
    pub subscribers: Seq<(i32, Subscriber)>,
    pub connected: bool,
    pub outbox: Seq<CommandView>,
    pub running: bool,
}

impl View for RealtimeEngine {
    type V = EngineView;

    open spec fn view(&self) -> EngineView {
        EngineView {
            trackers: self.trackers@,
            subscribers: self.subscribers@,
            connected: self.connected,
            outbox: command_views(self.outbox@),
            running: self.running,
        }
    }
}

impl EngineView {
    /// Trackers and subscribers are in order, each tracker is kept under its own
    /// symbol and is well formed, and each subscriber under its own number.
    pub open spec fn wf(self) -> bool {
        &&& table::ordered(self.trackers)
        &&& roster::ascending(self.subscribers)
        &&& forall|i: int|
            0 <= i < self.trackers.len() ==> (#[trigger] self.trackers[i]).1.wf()
                && self.trackers[i].1.symbol == self.trackers[i].0
        &&& forall|i: int|
            0 <= i < self.subscribers.len() ==> (#[trigger] self.subscribers[i]).1.sub_id
                == self.subscribers[i].0
    }

    /// The engine after a command was given: it is kept only where there is a stream.
    pub open spec fn told(self, command: CommandView) -> EngineView {
        if self.connected {
            EngineView { outbox: self.outbox.push(command), ..self }
        } else {
            self
        }
    }

    /// Whether a symbol can be added for a side: it is not watched for it already.
    pub open spec fn accepts(self, key: Seq<char>, side: Side) -> bool {
        match table::lookup(self.trackers, key) {
            Some(t) => t.direction != side,
            None => true,
        }
    }

    /// The engine after a symbol was added, and what is to be done. With a positive
    /// quote the first trade is entered at once.
    pub open spec fn added(
        self,
        key: Seq<char>,
        side: Side,
        quote: Option<(Num, Num)>,
        now: Moment,
    ) -> (EngineView, Seq<ActionView>) {
        let (bid, ask) = match quote {
            Some(q) => q,
            None => (num(figures::ZERO), num(figures::ZERO)),
        };
        if self.accepts(key, side) {
            let t = started(key, side, bid, ask, now);
            let next = EngineView { trackers: table::put(self.trackers, key, t), ..self };
            (
                next.told(CommandView::Subscribe(key)),
                if quoted(bid, ask) {
                    next.orders_for(key, side, side.entry_price(bid, ask))
                } else {
                    Seq::empty()
                },
            )
        } else {
            (self, Seq::empty())
        }
    }

    /// The orders for a trade that was entered, at the current price of its symbol
    /// where there is one.
    pub open spec fn orders_for(self, symbol: Seq<char>, side: Side, price: Num) -> Seq<ActionView> {
        orders(symbol, side, self.price_of(symbol, price), self.subscribers)
    }

    /// The current price of a symbol, or another one where there is none.
    pub open spec fn price_of(self, symbol: Seq<char>, price: Num) -> Num {
        match table::lookup(self.trackers, symbol) {
            Some(t) => market::or_else(t.current_price, price),
            None => price,
        }
    }

    /// What is to be done on an event.
    pub open spec fn actions_on(self, event: EventView) -> Seq<ActionView> {
        match event {
            EventView::Entered { symbol, direction, price } => self.orders_for(
                symbol,
                direction,
                price,
            ),
            EventView::Exited { symbol } => closings(symbol, self.subscribers),
            EventView::Nothing => Seq::empty(),
        }
    }

    /// The engine after a symbol was removed.
    pub open spec fn removed(self, key: Seq<char>) -> EngineView {
        EngineView { trackers: table::without(self.trackers, key), ..self }.told(
            CommandView::Unsubscribe(key),
        )
    }

    /// The engine after a tracker changed and told something, and what is to be done.
    pub open spec fn stepped(
        self,
        symbol: Seq<char>,
        step: (TrackerView, EventView),
    ) -> (EngineView, Seq<ActionView>) {
        let next = EngineView { trackers: table::put(self.trackers, symbol, step.0), ..self };
        (next, next.actions_on(step.1))
    }

    /// The engine after a closed bar of a symbol, and what is to be done.
    pub open spec fn after_bar(self, symbol: Seq<char>, k: KlineData) -> (
        EngineView,
        Seq<ActionView>,
    ) {
        match table::lookup(self.trackers, symbol) {
            Some(t) => self.stepped(symbol, t.after_kline(k)),
            None => (self, Seq::empty()),
        }
    }

    /// The engine after a quote of a symbol, and what is to be done.
    pub open spec fn after_quote(self, symbol: Seq<char>, bid: Num, ask: Num, now: Moment) -> (
        EngineView,
        Seq<ActionView>,
    ) {
        match table::lookup(self.trackers, symbol) {
            Some(t) => self.stepped(symbol, t.after_quote(bid, ask, now)),
            None => (self, Seq::empty()),
        }
    }

    /// The engine after a message of the stream, and what is to be done.
    pub open spec fn after_message(self, m: MessageView, now: Moment) -> (
        EngineView,
        Seq<ActionView>,
    ) {
        if !stream::carries_data(m) {
            (self, Seq::empty())
        } else {
            match stream::behind(m.topic, "kline.1."@) {
                Some(symbol) => match stream::bar_of(m) {
                    Some(k) => if m.confirmed {
                        self.after_bar(symbol, k)
                    } else {
                        (self, Seq::empty())
                    },
                    None => (self, Seq::empty()),
                },
                None => match stream::behind(m.topic, "tickers."@) {
                    Some(symbol) => match (stream::number_in(m.bid), stream::number_in(m.ask)) {
                        (Some(bid), Some(ask)) => self.after_quote(symbol, bid, ask, now),
                        _ => match stream::number_in(m.mark) {
                            Some(p) => self.after_quote(symbol, p, p, now),
                            None => (self, Seq::empty()),
                        },
                    },
                    None => (self, Seq::empty()),
                },
            }
        }
    }
}

/// Whether a quote is positive on both sides.
pub open spec fn spec_quoted(bid: Num, ask: Num) -> bool {
    num(figures::ZERO).below(bid) && num(figures::ZERO).below(ask)
}

/// Whether a quote is positive on both sides.
#[verifier::when_used_as_spec(spec_quoted)]
pub fn quoted(bid: Num, ask: Num) -> (b: bool)
    ensures
        b == spec_quoted(bid, ask),
{
    num(figures::ZERO).below(bid) && num(figures::ZERO).below(ask)
}

/// A tracker as it is put in: with a positive quote it has entered its first trade, and
/// holds one bar at the entry price.
pub open spec fn started(symbol: Seq<char>, side: Side, bid: Num, ask: Num, now: Moment) -> TrackerView {
    let fresh = TrackerView::fresh(symbol, side);
    if quoted(bid, ask) {
        let entry = side.entry_price(bid, ask);
        TrackerView {
            current_price: Some(side.exit_price(bid, ask)),
            current_bid: Some(bid),
            current_ask: Some(ask),
            klines: seq![
                KlineData {
                    ts: (now.stamp() / 1_000_000) as i64,
                    datetime: now,
                    open: entry,
                    high: entry,
                    low: entry,
                    close: entry,
                    volume: num(figures::ZERO),
                },
            ],
            ..fresh.first_entry(entry, now)
        }
    } else {
        fresh
    }
}

/// See [`started`].
fn start(symbol: String, side: Side, bid: Num, ask: Num, now: Moment) -> (r: SymbolTracker)
    ensures
        r@ == started(symbol@, side, bid, ask, now),
        r@.wf(),
{
    let ghost name = symbol@;
    let mut r: SymbolTracker = SymbolTracker::new(symbol, side);
    if quoted(bid, ask) {
        let entry: Num = side.entry_price(bid, ask);
        r.open_first(entry, now);
        r.current_price = Some(side.exit_price(bid, ask));
        r.current_bid = Some(bid);
        r.current_ask = Some(ask);
        r.klines.push(
            KlineData {
                ts: now.millis(),
                datetime: now,
                open: entry,
                high: entry,
                low: entry,
                close: entry,
                volume: num(figures::ZERO),
            },
        );
        assert(r@.klines =~= started(name, side, bid, ask, now).klines);
    }
    assert(r@ =~= started(name, side, bid, ask, now));
    r
}

impl RealtimeEngine {
    /// An engine without trackers and subscribers.
    pub fn new() -> (r: RealtimeEngine)
        ensures
            r@ == (EngineView {
                trackers: Seq::empty(),
                subscribers: Seq::empty(),
                connected: false,
                outbox: Seq::empty(),
                running: true,
            }),
            r@.wf(),
    {
        let r: RealtimeEngine = RealtimeEngine {
            trackers: SymbolTable::new(),
            subscribers: Roster::new(),
            connected: false,
            outbox: Vec::new(),
            running: true,
        };
        assert(r@.outbox =~= Seq::<CommandView>::empty());
        r
    }

    /// Gives a command to the stream, if there is one.
    fn send_ws_cmd(&mut self, cmd: WsCommand)
        ensures
            final(self)@ == old(self)@.told(cmd@),
    {
        let ghost before = self@;
        if self.connected {
            self.outbox.push(cmd);
            assert(self@.outbox =~= before.outbox.push(cmd@));
        }
        assert(self@ =~= before.told(cmd@));
    }

    /// Notes that there is a stream to send commands to.
    pub fn connect(&mut self)
        ensures
            final(self)@ == (EngineView { connected: true, outbox: Seq::empty(), ..old(self)@ }),
    {
        self.connected = true;
        self.outbox = Vec::new();
        assert(self@.outbox =~= Seq::<CommandView>::empty());
    }

    /// Hands out the commands that are to be sent.
    pub fn take_commands(&mut self) -> (r: Vec<WsCommand>)
        ensures
            command_views(r@) == old(self)@.outbox,
            final(self)@ == (EngineView { outbox: Seq::empty(), ..old(self)@ }),
    {
        let mut r: Vec<WsCommand> = Vec::new();
        let ghost before = self.outbox@;
        r.append(&mut self.outbox);
        assert(r@ =~= before);
        assert(self@.outbox =~= Seq::<CommandView>::empty());
        r
    }

    /// The request for everything that is tracked, to be sent on a new connection.
    pub fn resubscription(&self) -> (r: Option<String>)
        ensures
            r is Some <==> self@.trackers.len() > 0,
            r is Some ==> r->0@ == stream::request(
                "subscribe"@,
                1,
                Seq::new(self@.trackers.len(), |i: int| self@.trackers[i].0),
            ),
            r is Some ==> r->0@ == CommandView::ResubscribeAll(
                Seq::new(self@.trackers.len(), |i: int| self@.trackers[i].0),
            ).request(),
    {
        let symbols: Vec<String> = self.trackers.keys();
        if symbols.len() == 0 {
            return None;
        }
        assert(json::all_chars(symbols@) =~= Seq::new(
            self@.trackers.len(),
            |i: int| self@.trackers[i].0,
        ));
        Some(stream::request_text("subscribe", 1, &symbols))
    }

    /// Starts to track a symbol for a side. Where it is watched for that side already,
    /// nothing changes; where it is watched for the other, it starts anew.
    pub fn track(
        &mut self,
        key: String,
        direction: Side,
        quote: Option<(Num, Num)>,
        now: Moment,
    ) -> (r: (bool, Vec<Action>))
        requires
            old(self)@.wf(),
        ensures
            r.0 == old(self)@.accepts(key@, direction),
            final(self)@ == old(self)@.added(key@, direction, quote, now).0,
            action_views(r.1@) == old(self)@.added(key@, direction, quote, now).1,
            final(self)@.wf(),
    {
        let (bid, ask): (Num, Num) = match quote {
            Some(q) => q,
            None => (num(figures::ZERO), num(figures::ZERO)),
        };
        let ghost before = self@;
        let mut actions: Vec<Action> = Vec::new();
        assert(action_views(actions@) =~= Seq::<ActionView>::empty());
        if let Some(t) = self.trackers.get(key.as_str()) {
            if t.direction == direction {
                return (false, actions);
            }
        }
        let t: SymbolTracker = start(key.clone(), direction, bid, ask, now);
        proof {
            lemma_put_wf(before, key@, t@);
        }
        self.trackers.insert(key.clone(), t);
        assert(self@ =~= EngineView {
            trackers: table::put(before.trackers, key@, started(key@, direction, bid, ask, now)),
            ..before
        });
        if quoted(bid, ask) {
            actions = self.on_enter_position(&key, direction, direction.entry_price(bid, ask));
        }
        self.send_ws_cmd(WsCommand::Subscribe(key));
        (true, actions)
    }

    /// Starts to track a symbol, under its name in capitals: see [`RealtimeEngine::track`].
    pub fn add_tracker(
        &mut self,
        symbol: &str,
        direction: Side,
        quote: Option<(Num, Num)>,
        now: Moment,
    ) -> (r: (bool, Vec<Action>))
        requires
            old(self)@.wf(),
        ensures
            r.0 == old(self)@.accepts(text::uppercase(symbol@), direction),
            final(self)@ == old(self)@.added(text::uppercase(symbol@), direction, quote, now).0,
            action_views(r.1@) == old(self)@.added(
                text::uppercase(symbol@),
                direction,
                quote,
                now,
            ).1,
            final(self)@.wf(),
    {
        self.track(text::to_uppercase(symbol), direction, quote, now)
    }

    /// Stops to track a symbol.
    pub fn untrack(&mut self, key: String) -> (r: bool)
        requires
            old(self)@.wf(),
        ensures
            r,
            final(self)@ == old(self)@.removed(key@),
            final(self)@.wf(),
    {
        let ghost before = self@;
        proof {
            lemma_without_wf(before, key@);
        }
        self.trackers.remove(key.as_str());
        assert(self@ =~= EngineView {
            trackers: table::without(before.trackers, key@),
            ..before
        });
        self.send_ws_cmd(WsCommand::Unsubscribe(key));
        true
    }

    /// Stops to track a symbol, under its name in capitals.
    pub fn remove_tracker(&mut self, symbol: &str) -> (r: bool)
        requires
            old(self)@.wf(),
        ensures
            r,
            final(self)@ == old(self)@.removed(text::uppercase(symbol@)),
            final(self)@.wf(),
    {
        self.untrack(text::to_uppercase(symbol))
    }

    /// The tracker of a symbol.
    pub fn get_tracker(&self, symbol: &str) -> (r: Option<&SymbolTracker>)
        ensures
            r is Some <==> table::lookup(self@.trackers, symbol@) is Some,
            r is Some ==> table::lookup(self@.trackers, symbol@) == Some(r->0@),
    {
        self.trackers.get(symbol)
    }

    /// All trackers with their symbols, in dictionary order.
    pub fn all_trackers(&self) -> (r: &Vec<(String, SymbolTracker)>)
        ensures
            table::rows(r@) == self@.trackers,
    {
        &self.trackers.entries
    }

    /// Puts a subscriber on the list, in place of one with the same number.
    pub fn add_subscriber(&mut self, sub_id: i32, side: Side, size: Num) -> (r: bool)
        requires
            old(self)@.wf(),
        ensures
            r,
            final(self)@ == (EngineView {
                subscribers: roster::put(
                    old(self)@.subscribers,
                    sub_id,
                    Subscriber { sub_id, side, size },
                ),
                ..old(self)@
            }),
            final(self)@.wf(),
    {
        let ghost before = self@.subscribers;
        let sub: Subscriber = Subscriber { sub_id, side, size };
        self.subscribers.insert(sub_id, sub);
        proof {
            roster::lemma_place(before, sub_id);
            let after = self@.subscribers;
            let p = roster::place(before, sub_id);
            assert forall|i: int| 0 <= i < after.len() implies (#[trigger] after[i]).1.sub_id
                == after[i].0 by {
                if roster::holds(before, sub_id) || i < p {
                    if i != p {
                        assert(after[i] == before[i]);
                    }
                } else if i > p {
                    assert(after[i] == before[i - 1]);
                }
            }
        }
        true
    }

    /// Takes a subscriber off the list; says whether it was on it.
    pub fn remove_subscriber(&mut self, sub_id: i32) -> (r: bool)
        requires
            old(self)@.wf(),
        ensures
            r == roster::holds(old(self)@.subscribers, sub_id),
            final(self)@ == (EngineView {
                subscribers: roster::without(old(self)@.subscribers, sub_id),
                ..old(self)@
            }),
            final(self)@.wf(),
    {
        let ghost before = self@.subscribers;
        let r: bool = self.subscribers.remove(sub_id);
        proof {
            roster::lemma_place(before, sub_id);
            let after = self@.subscribers;
            let p = roster::place(before, sub_id);
            assert forall|i: int| 0 <= i < after.len() implies (#[trigger] after[i]).1.sub_id
                == after[i].0 by {
                if roster::holds(before, sub_id) && i >= p {
                    assert(after[i] == before[i + 1]);
                } else {
                    assert(after[i] == before[i]);
                }
            }
        }
        r
    }

    /// All subscribers, in the order of their numbers.
    pub fn get_subscribers(&self) -> (r: Vec<Subscriber>)
        ensures
            r@.len() == self@.subscribers.len(),
            forall|i: int| 0 <= i < r@.len() ==> #[trigger] r@[i] == self@.subscribers[i].1,
    {
        let mut r: Vec<Subscriber> = Vec::new();
        let mut i: usize = 0;
        while i < self.subscribers.entries.len()
            invariant
                i <= self@.subscribers.len(),
                r@.len() == i,
                forall|j: int| 0 <= j < i ==> #[trigger] r@[j] == self@.subscribers[j].1,
            decreases self@.subscribers.len() - i,
        {
            r.push(self.subscribers.entries[i].1);
            i = i + 1;
        }
        r
    }

    /// Forgets all trackers and subscribers.
    pub fn clear(&mut self)
        ensures
            final(self)@ == (EngineView {
                trackers: Seq::empty(),
                subscribers: Seq::empty(),
                ..old(self)@
            }),
            final(self)@.wf(),
    {
        self.trackers = SymbolTable::new();
        self.subscribers = Roster::new();
    }

    /// Forgets all trackers and subscribers, and has the stream connected anew: says what
    /// is to be done with the link.
    pub fn flush(&mut self, link: &mut Link) -> (action: LinkAction)
        requires
            old(link).wf(),
        ensures
            final(self)@ == (EngineView {
                trackers: Seq::empty(),
                subscribers: Seq::empty(),
                ..old(self)@
            }),
            final(self)@.wf(),
            *final(link) == old(link).after(LinkEvent::Flushed, old(self)@.running).0,
            action == old(link).after(LinkEvent::Flushed, old(self)@.running).1,
            final(link).wf(),
    {
        self.clear();
        link.follow(LinkEvent::Flushed, self.running)
    }

    /// Asks the engine to stop.
    pub fn stop(&mut self)
        ensures
            final(self)@ == (EngineView { running: false, ..old(self)@ }),
    {
        self.running = false;
    }

    /// The name that the exchange uses for a symbol.
    pub fn resolve_symbol(sym: &str) -> (r: String)
        ensures
            r@ == symbols::resolved_usdt(sym@),
    {
        symbols::resolve_usdt(sym)
    }

    /// The orders of the subscribers of a side for a trade that was entered.
    fn on_enter_position(&self, symbol: &String, direction: Side, price: Num) -> (actions: Vec<Action>)
        ensures
            action_views(actions@) == self@.orders_for(symbol@, direction, price),
    {
        let mut actions: Vec<Action> = Vec::new();
        let at: Num = match self.trackers.get(symbol.as_str()) {
            Some(t) => market::or_else(t.current_price, price),
            None => price,
        };
        let ghost subs = self@.subscribers;
        let mut i: usize = 0;
        assert(action_views(actions@) =~= Seq::<ActionView>::empty());
        while i < self.subscribers.entries.len()
            invariant
                i <= subs.len(),
                subs == self@.subscribers,
                action_views(actions@) == orders(symbol@, direction, at, subs.take(i as int)),
            decreases subs.len() - i,
        {
            let ghost before = actions@;
            let sub: Subscriber = self.subscribers.entries[i].1;
            proof {
                assert(subs.take(i + 1).drop_last() =~= subs.take(i as int));
                assert(subs.take(i + 1).last() == subs[i as int]);
            }
            if sub.side == direction {
                let a: Action = Action::Open {
                    sub_id: sub.sub_id,
                    symbol: symbol.clone(),
                    side: direction,
                    qty: market::stake_quantity(sub.size, at),
                };
                actions.push(a);
                assert(action_views(actions@) =~= action_views(before).push(a@));
            }
            i = i + 1;
        }
        assert(subs.take(i as int) =~= subs);
        actions
    }

    /// What all subscribers do after a trade left.
    fn on_exit_position(&self, symbol: &String) -> (actions: Vec<Action>)
        ensures
            action_views(actions@) == closings(symbol@, self@.subscribers),
    {
        let mut actions: Vec<Action> = Vec::new();
        let ghost wanted = closings(symbol@, self@.subscribers);
        let mut i: usize = 0;
        while i < self.subscribers.entries.len()
            invariant
                i <= self@.subscribers.len(),
                wanted == closings(symbol@, self@.subscribers),
                action_views(actions@) == wanted.take(i as int),
            decreases self@.subscribers.len() - i,
        {
            let ghost before = actions@;
            let sub: Subscriber = self.subscribers.entries[i].1;
            let a: Action = Action::CloseAll { sub_id: sub.sub_id, symbol: symbol.clone() };
            actions.push(a);
            proof {
                assert(a@ == wanted[i as int]);
                assert(wanted.take(i + 1) =~= wanted.take(i as int).push(wanted[i as int]));
                assert(action_views(actions@) =~= action_views(before).push(a@));
            }
            i = i + 1;
        }
        assert(wanted.take(i as int) =~= wanted);
        actions
    }

    /// What is to be done on an event.
    fn act_on(&self, event: &TrackerEvent) -> (actions: Vec<Action>)
        ensures
            action_views(actions@) == self@.actions_on(event@),
    {
        match event {
            TrackerEvent::Entered { symbol, direction, price } => self.on_enter_position(
                symbol,
                *direction,
                *price,
            ),
            TrackerEvent::Exited { symbol } => self.on_exit_position(symbol),
            TrackerEvent::Nothing => {
                let actions: Vec<Action> = Vec::new();
                assert(action_views(actions@) =~= Seq::<ActionView>::empty());
                actions
            },
        }
    }

    /// Takes in a closed bar of a symbol.
    pub fn take_bar(&mut self, symbol: &str, k: &KlineData) -> (actions: Vec<Action>)
        requires
            old(self)@.wf(),
        ensures
            final(self)@ == old(self)@.after_bar(symbol@, *k).0,
            action_views(actions@) == old(self)@.after_bar(symbol@, *k).1,
            final(self)@.wf(),
    {
        let ghost before = self@;
        let p: usize = self.trackers.find(symbol);
        if !self.trackers.is_at(p, symbol) {
            let actions: Vec<Action> = Vec::new();
            assert(action_views(actions@) =~= Seq::<ActionView>::empty());
            return actions;
        }
        let ghost rows = self.trackers.entries@;
        assert(before.trackers[p as int].1 == rows[p as int].1@);
        let event: TrackerEvent = self.trackers.entries[p].1.process_kline(k);
        proof {
            let next = before.trackers[p as int].1.after_kline(*k);
            assert(self.trackers@ =~= before.trackers.update(p as int, (symbol@, next.0)));
            tracker::lemma_kline_wf(before.trackers[p as int].1, *k);
            lemma_put_wf(before, symbol@, next.0);
            assert(self@ =~= EngineView {
                trackers: table::put(before.trackers, symbol@, next.0),
                ..before
            });
        }
        self.act_on(&event)
    }

    /// Takes in a quote of a symbol.
    pub fn take_quote(&mut self, symbol: &str, bid: Num, ask: Num, now: Moment) -> (actions: Vec<
        Action,
    >)
        requires
            old(self)@.wf(),
        ensures
            final(self)@ == old(self)@.after_quote(symbol@, bid, ask, now).0,
            action_views(actions@) == old(self)@.after_quote(symbol@, bid, ask, now).1,
            final(self)@.wf(),
    {
        let ghost before = self@;
        let p: usize = self.trackers.find(symbol);
        if !self.trackers.is_at(p, symbol) {
            let actions: Vec<Action> = Vec::new();
            assert(action_views(actions@) =~= Seq::<ActionView>::empty());
            return actions;
        }
        let ghost rows = self.trackers.entries@;
        assert(before.trackers[p as int].1 == rows[p as int].1@);
        let event: TrackerEvent = self.trackers.entries[p].1.update_ticker(bid, ask, now);
        proof {
            let next = before.trackers[p as int].1.after_quote(bid, ask, now);
            assert(self.trackers@ =~= before.trackers.update(p as int, (symbol@, next.0)));
            tracker::lemma_quote_wf(before.trackers[p as int].1, bid, ask, now);
            lemma_put_wf(before, symbol@, next.0);
            assert(self@ =~= EngineView {
                trackers: table::put(before.trackers, symbol@, next.0),
                ..before
            });
        }
        self.act_on(&event)
    }

    /// Takes in a message of the stream.
    pub fn apply_message(&mut self, m: &StreamMessage, now: Moment) -> (actions: Vec<Action>)
        requires
            old(self)@.wf(),
        ensures
            final(self)@ == old(self)@.after_message(m@, now).0,
            action_views(actions@) == old(self)@.after_message(m@, now).1,
            final(self)@.wf(),
    {
        let nothing: Vec<Action> = Vec::new();
        assert(action_views(nothing@) =~= Seq::<ActionView>::empty());
        if !stream::is_data(m) {
            return nothing;
        }
        match stream::strip_prefix(m.topic.as_str(), "kline.1.") {
            Some(symbol) => {
                if m.confirmed {
                    if let Some(k) = stream::parse_kline(m) {
                        return self.take_bar(symbol.as_str(), &k);
                    }
                }
                nothing
            },
            None => match stream::strip_prefix(m.topic.as_str(), "tickers.") {
                Some(symbol) => {
                    let bid: Option<Num> = stream::read_number(&m.bid);
                    let ask: Option<Num> = stream::read_number(&m.ask);
                    match (bid, ask) {
                        (Some(bid), Some(ask)) => self.take_quote(symbol.as_str(), bid, ask, now),
                        _ => match stream::read_number(&m.mark) {
                            Some(p) => self.take_quote(symbol.as_str(), p, p, now),
                            None => nothing,
                        },
                    }
                },
                None => nothing,
            },
        }
    }

    /// Takes in the text of a message of the stream; a text that is no document changes
    /// nothing.
    pub fn handle_message(&mut self, raw: &str, now: Moment) -> (actions: Vec<Action>)
        requires
            old(self)@.wf(),
        ensures
            match stream::message_of(raw@) {
                Some(m) => final(self)@ == old(self)@.after_message(m, now).0 && action_views(
                    actions@,
                ) == old(self)@.after_message(m, now).1,
                None => final(self)@ == old(self)@ && actions@.len() == 0,
            },
            final(self)@.wf(),
    {
        match stream::read_message(raw) {
            Some(m) => self.apply_message(&m, now),
            None => Vec::new(),
        }
    }
}

/// A well-formed tracker under its own symbol can be put in.
pub proof fn lemma_put_wf(e: EngineView, key: Seq<char>, t: TrackerView)
    requires
        e.wf(),
        t.wf(),
        t.symbol == key,
    ensures
        (EngineView { trackers: table::put(e.trackers, key, t), ..e }).wf(),
{
    table::lemma_put_ordered(e.trackers, key, t);
    table::lemma_place(e.trackers, key);
    let after = table::put(e.trackers, key, t);
    let p = table::place(e.trackers, key);
    assert forall|i: int| 0 <= i < after.len() implies (#[trigger] after[i]).1.wf()
        && after[i].1.symbol == after[i].0 by {
        if table::holds(e.trackers, key) || i < p {
            if i != p {
                assert(after[i] == e.trackers[i]);
            }
        } else if i > p {
            assert(after[i] == e.trackers[i - 1]);
        }
    }
}

/// A tracker can be taken out.
pub proof fn lemma_without_wf(e: EngineView, key: Seq<char>)
    requires
        e.wf(),
    ensures
        (EngineView { trackers: table::without(e.trackers, key), ..e }).wf(),
{
    table::lemma_without_ordered(e.trackers, key);
    table::lemma_place(e.trackers, key);
    let after = table::without(e.trackers, key);
    let p = table::place(e.trackers, key);
    assert forall|i: int| 0 <= i < after.len() implies (#[trigger] after[i]).1.wf()
        && after[i].1.symbol == after[i].0 by {
        if table::holds(e.trackers, key) && i >= p {
            assert(after[i] == e.trackers[i + 1]);
        } else {
            assert(after[i] == e.trackers[i]);
        }
    }
}

} // verus!
