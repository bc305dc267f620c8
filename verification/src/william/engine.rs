//! The alligator engine: its settings, its trackers, its subscribers, and what it
//! orders.
use vstd::prelude::*;
use vstd::string::*;
use crate::figures;
use crate::william::tracker;
use crate::william::tracker::{EventView, SymbolTracker, TrackerEvent, TrackerView};
use crate::json;
use crate::link::{Link, LinkAction, LinkEvent};
use crate::market;
use crate::market::{KlineData, TradeDirection};
use crate::num::{num, Num};
use crate::roster;
use crate::roster::Roster;
use crate::stream;
use crate::stream::{MessageView, StreamMessage};
use crate::symbols;
use crate::table;
use crate::table::SymbolTable;
use crate::text;
use crate::time::Moment;

verus! {

/// Someone who follows the signals with a stake in USDT.
#[derive(Clone, Copy, Debug)]
pub struct Subscriber {
    pub sub_id: i32,
    pub size: Num,
}

/// A command to the stream.
#[derive(Debug)]
pub enum WsCommand {
    Subscribe(String, i32),
    Unsubscribe(String, i32),
    ResubscribeAll(Vec<String>, i32),
}

/// The contents of a [`WsCommand`].
#[verifier::ext_equal]
pub enum CommandView {
    Subscribe(Seq<char>, i32),
    Unsubscribe(Seq<char>, i32),
    ResubscribeAll(Seq<Seq<char>>, i32),
}

impl View for WsCommand {
    type V = CommandView;

    open spec fn view(&self) -> CommandView {
        match *self {
            WsCommand::Subscribe(s, n) => CommandView::Subscribe(s@, n),
            WsCommand::Unsubscribe(s, n) => CommandView::Unsubscribe(s@, n),
            WsCommand::ResubscribeAll(l, n) => CommandView::ResubscribeAll(json::all_chars(l@), n),
        }
    }
}

impl CommandView {
    /// The request that a command sends, on bars of its interval.
    pub open spec fn request(self) -> Seq<char> {
        match self {
            CommandView::Subscribe(s, n) => stream::request("subscribe"@, n as int, seq![s]),
            CommandView::Unsubscribe(s, n) => stream::request("unsubscribe"@, n as int, seq![s]),
            CommandView::ResubscribeAll(l, n) => stream::request("subscribe"@, n as int, l),
        }
    }
}

impl WsCommand {
    /// The request that the command sends.
    pub fn request_text(&self) -> (r: String)
        ensures
            r@ == self@.request(),
    {
        match self {
            WsCommand::Subscribe(s, n) => stream::request_one("subscribe", *n, s.as_str()),
            WsCommand::Unsubscribe(s, n) => stream::request_one("unsubscribe", *n, s.as_str()),
            WsCommand::ResubscribeAll(l, n) => stream::request_text("subscribe", *n, l),
        }
    }
}

/// The contents of a list of commands.
pub open spec fn command_views(s: Seq<WsCommand>) -> Seq<CommandView> {
    Seq::new(s.len(), |i: int| s[i]@)
}

/// Something to be done for a subscriber at the exchange.
#[derive(Debug)]
pub enum Action {
    /// Place a limit order with a stop and a target.
    Open {
        sub_id: i32,
        symbol: String,
        direction: TradeDirection,
        qty: Num,
        price: Num,
        sl: Num,
        tp: Num,
    },
    /// Cancel the orders on a symbol that have become old.
    CancelOld { sub_id: i32, symbol: String },
}

/// The contents of an [`Action`].
#[verifier::ext_equal]
pub enum ActionView {
    Open {
        sub_id: i32,
        symbol: Seq<char>,
        direction: TradeDirection,
        qty: Num,
        price: Num,
        sl: Num,
        tp: Num,
    },
    CancelOld { sub_id: i32, symbol: Seq<char> },
}

impl View for Action {
    type V = ActionView;

    open spec fn view(&self) -> ActionView {
        match *self {
            Action::Open { sub_id, symbol, direction, qty, price, sl, tp } => ActionView::Open {
                sub_id,
                symbol: symbol@,
                direction,
                qty,
                price,
                sl,
                tp,
            },
            Action::CancelOld { sub_id, symbol } => ActionView::CancelOld {
                sub_id,
                symbol: symbol@,
            },
        }
    }
}

/// The contents of a list of actions.
pub open spec fn action_views(s: Seq<Action>) -> Seq<ActionView> {
    Seq::new(s.len(), |i: int| s[i]@)
}

/// What an event means for one subscriber.
pub open spec fn action_for(event: EventView, sub: Subscriber) -> ActionView {
    match event {
        EventView::Entered { symbol, direction, price, sl, tp, is_ghost } => ActionView::Open {
            sub_id: sub.sub_id,
            symbol,
            direction,
            qty: market::stake_quantity(sub.size, price),
            price,
            sl,
            tp,
        },
        EventView::Exited { symbol, direction, is_ghost } => ActionView::CancelOld {
            sub_id: sub.sub_id,
            symbol,
        },
    }
}

/// Whether an event is about a ghost.
pub open spec fn of_ghost(event: EventView) -> bool {
    match event {
        EventView::Entered { symbol, direction, price, sl, tp, is_ghost } => is_ghost,
        EventView::Exited { symbol, direction, is_ghost } => is_ghost,
    }
}

/// What an event means for all subscribers, in the order of their numbers. A ghost
/// means nothing to them.
pub open spec fn actions_for(event: EventView, subs: Seq<(i32, Subscriber)>) -> Seq<ActionView> {
    if of_ghost(event) {
        Seq::empty()
    } else {
        Seq::new(subs.len(), |i: int| action_for(event, subs[i].1))
    }
}

/// What some events mean for all subscribers.
pub open spec fn all_actions(events: Seq<EventView>, subs: Seq<(i32, Subscriber)>) -> Seq<ActionView>
    decreases events.len(),
{
    if events.len() == 0 {
        Seq::empty()
    } else {
        all_actions(events.drop_last(), subs) + actions_for(events.last(), subs)
    }
}

/// The engine.
pub struct RealtimeEngine {
    pub trackers: SymbolTable<SymbolTracker>,
    pub subscribers: Roster<Subscriber>,
    /// Whether there is a stream to send commands to.
    pub connected: bool,
    /// Commands that are still to be sent.
    pub outbox: Vec<WsCommand>,
    pub running: bool,
    pub sl_percent: Num,
    pub tp_percent: Num,
    pub reverse_mode: bool,
    pub ghost_threshold: i32,
    pub interval_minutes: i32,
}

/// The contents of a [`RealtimeEngine`].
#[verifier::ext_equal]
pub struct EngineView {
    pub trackers: Seq<(Seq<char>, TrackerView)>,
    pub subscribers: Seq<(i32, Subscriber)>,
    pub connected: bool,
    pub outbox: Seq<CommandView>,
    pub running: bool,
    pub sl_percent: Num,
    pub tp_percent: Num,
    pub reverse_mode: bool,
    pub ghost_threshold: i32,
    pub interval_minutes: i32,
}

impl View for RealtimeEngine {
    type V = EngineView;

    open spec fn view(&self) -> EngineView {
        EngineView {
            trackers: self.trackers@,
            subscribers: self.subscribers@,
            connected: self.connected,
            outbox: command_views(self.outbox@),
            running: self.running,
            sl_percent: self.sl_percent,
            tp_percent: self.tp_percent,
            reverse_mode: self.reverse_mode,
            ghost_threshold: self.ghost_threshold,
            interval_minutes: self.interval_minutes,
        }
    }
}

impl EngineView {
    /// Trackers and subscribers are in order, each tracker is kept under its own
    /// symbol and is well formed, and each subscriber under its own number.
    pub open spec fn wf(self) -> bool {
        &&& table::ordered(self.trackers)
        &&& roster::ascending(self.subscribers)
        &&& forall|i: int|
            0 <= i < self.trackers.len() ==> (#[trigger] self.trackers[i]).1.wf()
                && self.trackers[i].1.symbol == self.trackers[i].0
        &&& forall|i: int|
            0 <= i < self.subscribers.len() ==> (#[trigger] self.subscribers[i]).1.sub_id
                == self.subscribers[i].0
    }

    /// The engine after a command was given: it is kept only where there is a stream.
    pub open spec fn told(self, command: CommandView) -> EngineView {
        if self.connected {
            EngineView { outbox: self.outbox.push(command), ..self }
        } else {
            self
        }
    }

    /// Whether a symbol can be added, given its price.
    pub open spec fn accepts(self, key: Seq<char>, price: Option<Num>) -> bool {
        price is Some && num(figures::ZERO).below(price->0) && !table::holds(self.trackers, key)
    }

    /// The engine after a symbol was added.
    pub open spec fn added(self, key: Seq<char>, price: Option<Num>) -> EngineView {
        if self.accepts(key, price) {
            EngineView {
                trackers: table::put(self.trackers, key, TrackerView::fresh(key, price->0)),
                ..self
            }.told(CommandView::Subscribe(key, self.interval_minutes))
        } else {
            self
        }
    }

    /// The engine after a symbol was removed.
    pub open spec fn removed(self, key: Seq<char>) -> EngineView {
        EngineView { trackers: table::without(self.trackers, key), ..self }.told(
            CommandView::Unsubscribe(key, self.interval_minutes),
        )
    }

    /// The engine after a tracker changed and told something, and what is to be done.
    pub open spec fn stepped(
        self,
        symbol: Seq<char>,
        step: (TrackerView, Seq<EventView>),
    ) -> (EngineView, Seq<ActionView>) {
        (
            EngineView { trackers: table::put(self.trackers, symbol, step.0), ..self },
            all_actions(step.1, self.subscribers),
        )
    }

    /// The engine after a closed bar of a symbol, and what is to be done.
    pub open spec fn after_bar(self, symbol: Seq<char>, k: KlineData) -> (
        EngineView,
        Seq<ActionView>,
    ) {
        match table::lookup(self.trackers, symbol) {
            Some(t) => self.stepped(
                symbol,
                t.after_kline(k, self.sl_percent, self.tp_percent, self.ghost_threshold),
            ),
            None => (self, Seq::empty()),
        }
    }

    /// The engine after a quote of a symbol, and what is to be done.
    pub open spec fn after_quote(self, symbol: Seq<char>, bid: Num, ask: Num, now: Moment) -> (
        EngineView,
        Seq<ActionView>,
    ) {
        match table::lookup(self.trackers, symbol) {
            Some(t) => self.stepped(symbol, t.after_quote(bid, ask, now)),
            None => (self, Seq::empty()),
        }
    }

    /// The engine after a message of the stream, and what is to be done.
    pub open spec fn after_message(self, m: MessageView, now: Moment) -> (
        EngineView,
        Seq<ActionView>,
    ) {
        if !stream::carries_data(m) {
            (self, Seq::empty())
        } else {
            if text::begins(m.topic, "kline."@) {
                match (stream::bar_symbol(m.topic), stream::bar_of(m)) {
                    (Some(symbol), Some(k)) => if m.confirmed {
                        self.after_bar(symbol, k)
                    } else {
                        (self, Seq::empty())
                    },
                    _ => (self, Seq::empty()),
                }
            } else {
                match stream::behind(m.topic, "tickers."@) {
                    Some(symbol) => match (stream::number_in(m.bid), stream::number_in(m.ask)) {
                        (Some(bid), Some(ask)) => self.after_quote(symbol, bid, ask, now),
                        _ => (self, Seq::empty()),
                    },
                    None => (self, Seq::empty()),
                }
            }
        }
    }

    /// The engine after its interval was set: everything that is tracked is asked for
    /// again.
    pub open spec fn with_interval(self, minutes: i32) -> EngineView {
        let set = EngineView { interval_minutes: minutes, ..self };
        if self.trackers.len() > 0 {
            set.told(CommandView::ResubscribeAll(self.symbols(), minutes))
        } else {
            set
        }
    }

    /// The symbols that are tracked, in dictionary order.
    pub open spec fn symbols(self) -> Seq<Seq<char>> {
        Seq::new(self.trackers.len(), |i: int| self.trackers[i].0)
    }
}

impl RealtimeEngine {
    /// An engine without trackers and subscribers.
    pub fn new() -> (r: RealtimeEngine)
        ensures
            r@ == (EngineView {
                trackers: Seq::empty(),
                subscribers: Seq::empty(),
                connected: false,
                outbox: Seq::empty(),
                running: true,
                sl_percent: num(figures::ONE_AND_A_HALF),
                tp_percent: num(figures::HALF),
                reverse_mode: false,
                ghost_threshold: 3,
                interval_minutes: 1,
            }),
            r@.wf(),
    {
        let r: RealtimeEngine = RealtimeEngine {
            trackers: SymbolTable::new(),
            subscribers: Roster::new(),
            connected: false,
            outbox: Vec::new(),
            running: true,
            sl_percent: num(figures::ONE_AND_A_HALF),
            tp_percent: num(figures::HALF),
            reverse_mode: false,
            ghost_threshold: 3,
            interval_minutes: 1,
        };
        assert(r@.outbox =~= Seq::<CommandView>::empty());
        r
    }

    /// Sets how far, in percent, the stop and the target of a trade are.
    pub fn set_config(&mut self, sl: Num, tp: Num)
        ensures
            final(self)@ == (EngineView { sl_percent: sl, tp_percent: tp, ..old(self)@ }),
    {
        self.sl_percent = sl;
        self.tp_percent = tp;
    }

    /// Sets the reverse mode.
    pub fn set_reverse_mode(&mut self, enabled: bool)
        ensures
            final(self)@ == (EngineView { reverse_mode: enabled, ..old(self)@ }),
    {
        self.reverse_mode = enabled;
    }

    /// Sets how many ghosts follow a loss.
    pub fn set_ghost_threshold(&mut self, val: i32)
        ensures
            final(self)@ == (EngineView { ghost_threshold: val, ..old(self)@ }),
    {
        self.ghost_threshold = val;
    }

    /// Sets the interval of the bars, and asks for everything that is tracked again.
    pub fn set_interval(&mut self, minutes: i32)
        ensures
            final(self)@ == old(self)@.with_interval(minutes),
    {
        let ghost before = self@;
        self.interval_minutes = minutes;
        let symbols: Vec<String> = self.trackers.keys();
        assert(json::all_chars(symbols@) =~= before.symbols());
        assert(self@ =~= EngineView { interval_minutes: minutes, ..before });
        if symbols.len() > 0 {
            self.send_ws_cmd(WsCommand::ResubscribeAll(symbols, minutes));
        }
    }

    /// The settings: stop, target, reverse mode, ghosts after a loss, interval.
    pub fn get_config(&self) -> (r: (Num, Num, bool, i32, i32))
        ensures
            r == (
                self@.sl_percent,
                self@.tp_percent,
                self@.reverse_mode,
                self@.ghost_threshold,
                self@.interval_minutes,
            ),
    {
        (
            self.sl_percent,
            self.tp_percent,
            self.reverse_mode,
            self.ghost_threshold,
            self.interval_minutes,
        )
    }

    /// Gives a command to the stream, if there is one.
    fn send_ws_cmd(&mut self, cmd: WsCommand)
        ensures
            final(self)@ == old(self)@.told(cmd@),
    {
        let ghost before = self@;
        if self.connected {
            self.outbox.push(cmd);
            assert(self@.outbox =~= before.outbox.push(cmd@));
        }
        assert(self@ =~= before.told(cmd@));
    }

    /// Notes that there is a stream to send commands to.
    pub fn connect(&mut self)
        ensures
            final(self)@ == (EngineView { connected: true, outbox: Seq::empty(), ..old(self)@ }),
    {
        self.connected = true;
        self.outbox = Vec::new();
        assert(self@.outbox =~= Seq::<CommandView>::empty());
    }

    /// Hands out the commands that are to be sent.
    pub fn take_commands(&mut self) -> (r: Vec<WsCommand>)
        ensures
            command_views(r@) == old(self)@.outbox,
            final(self)@ == (EngineView { outbox: Seq::empty(), ..old(self)@ }),
    {
        let mut r: Vec<WsCommand> = Vec::new();
        let ghost before = self.outbox@;
        r.append(&mut self.outbox);
        assert(r@ =~= before);
        assert(self@.outbox =~= Seq::<CommandView>::empty());
        r
    }

    /// The request for everything that is tracked, to be sent on a new connection.
    pub fn resubscription(&self) -> (r: Option<String>)
        ensures
            r is Some <==> self@.trackers.len() > 0,
            r is Some ==> r->0@ == stream::request(
                "subscribe"@,
                self@.interval_minutes as int,
                self@.symbols(),
            ),
            r is Some ==> r->0@ == CommandView::ResubscribeAll(
                self@.symbols(),
                self@.interval_minutes,
            ).request(),
    {
        let symbols: Vec<String> = self.trackers.keys();
        if symbols.len() == 0 {
            return None;
        }
        assert(json::all_chars(symbols@) =~= self@.symbols());
        Some(stream::request_text("subscribe", self.interval_minutes, &symbols))
    }

    /// Starts to track a symbol at a price. Without a positive price, or where the
    /// symbol is tracked already, nothing changes.
    pub fn track(&mut self, key: String, price: Option<Num>) -> (r: bool)
        requires
            old(self)@.wf(),
        ensures
            r == old(self)@.accepts(key@, price),
            final(self)@ == old(self)@.added(key@, price),
            final(self)@.wf(),
    {
        let ghost before = self@;
        let p: Num = match price {
            Some(p) => p,
            None => {
                return false;
            },
        };
        if !num(figures::ZERO).below(p) {
            return false;
        }
        if self.trackers.get(key.as_str()).is_some() {
            return false;
        }
        proof {
            lemma_put_wf(before, key@, TrackerView::fresh(key@, p));
        }
        let t: SymbolTracker = SymbolTracker::new(key.clone(), p);
        self.trackers.insert(key.clone(), t);
        assert(self@ =~= EngineView {
            trackers: table::put(before.trackers, key@, TrackerView::fresh(key@, p)),
            ..before
        });
        self.send_ws_cmd(WsCommand::Subscribe(key, self.interval_minutes));
        true
    }

    /// Starts to track a symbol, under its name in capitals: see [`RealtimeEngine::track`].
    pub fn add_tracker(&mut self, symbol: &str, price: Option<Num>) -> (r: bool)
        requires
            old(self)@.wf(),
        ensures
            r == old(self)@.accepts(text::uppercase(symbol@), price),
            final(self)@ == old(self)@.added(text::uppercase(symbol@), price),
            final(self)@.wf(),
    {
        self.track(text::to_uppercase(symbol), price)
    }

    /// Stops to track a symbol.
    pub fn untrack(&mut self, key: String) -> (r: bool)
        requires
            old(self)@.wf(),
        ensures
            r,
            final(self)@ == old(self)@.removed(key@),
            final(self)@.wf(),
    {
        let ghost before = self@;
        proof {
            lemma_without_wf(before, key@);
        }
        self.trackers.remove(key.as_str());
        assert(self@ =~= EngineView {
            trackers: table::without(before.trackers, key@),
            ..before
        });
        self.send_ws_cmd(WsCommand::Unsubscribe(key, self.interval_minutes));
        true
    }

    /// Stops to track a symbol, under its name in capitals.
    pub fn remove_tracker(&mut self, symbol: &str) -> (r: bool)
        requires
            old(self)@.wf(),
        ensures
            r,
            final(self)@ == old(self)@.removed(text::uppercase(symbol@)),
            final(self)@.wf(),
    {
        self.untrack(text::to_uppercase(symbol))
    }

    /// The tracker of a symbol.
    pub fn get_tracker(&self, symbol: &str) -> (r: Option<&SymbolTracker>)
        ensures
            r is Some <==> table::lookup(self@.trackers, symbol@) is Some,
            r is Some ==> table::lookup(self@.trackers, symbol@) == Some(r->0@),
    {
        self.trackers.get(symbol)
    }

    /// All trackers with their symbols, in dictionary order.
    pub fn all_trackers(&self) -> (r: &Vec<(String, SymbolTracker)>)
        ensures
            table::rows(r@) == self@.trackers,
    {
        &self.trackers.entries
    }

    /// Puts a subscriber on the list, in place of one with the same number.
    pub fn add_subscriber(&mut self, sub_id: i32, size: Num) -> (r: bool)
        requires
            old(self)@.wf(),
        ensures
            r,
            final(self)@ == (EngineView {
                subscribers: roster::put(
                    old(self)@.subscribers,
                    sub_id,
                    Subscriber { sub_id, size },
                ),
                ..old(self)@
            }),
            final(self)@.wf(),
    {
        let ghost before = self@.subscribers;
        let sub: Subscriber = Subscriber { sub_id, size };
        self.subscribers.insert(sub_id, sub);
        proof {
            roster::lemma_place(before, sub_id);
            let after = self@.subscribers;
            let p = roster::place(before, sub_id);
            assert forall|i: int| 0 <= i < after.len() implies (#[trigger] after[i]).1.sub_id
                == after[i].0 by {
                if roster::holds(before, sub_id) || i < p {
                    if i != p {
                        assert(after[i] == before[i]);
                    }
                } else if i > p {
                    assert(after[i] == before[i - 1]);
                }
            }
        }
        true
    }

    /// Takes a subscriber off the list; says whether it was on it.
    pub fn remove_subscriber(&mut self, sub_id: i32) -> (r: bool)
        requires
            old(self)@.wf(),
        ensures
            r == roster::holds(old(self)@.subscribers, sub_id),
            final(self)@ == (EngineView {
                subscribers: roster::without(old(self)@.subscribers, sub_id),
                ..old(self)@
            }),
            final(self)@.wf(),
    {
        let ghost before = self@.subscribers;
        let r: bool = self.subscribers.remove(sub_id);
        proof {
            roster::lemma_place(before, sub_id);
            let after = self@.subscribers;
            let p = roster::place(before, sub_id);
            assert forall|i: int| 0 <= i < after.len() implies (#[trigger] after[i]).1.sub_id
                == after[i].0 by {
                if roster::holds(before, sub_id) && i >= p {
                    assert(after[i] == before[i + 1]);
                } else {
                    assert(after[i] == before[i]);
                }
            }
        }
        r
    }

    /// All subscribers, in the order of their numbers.
    pub fn get_subscribers(&self) -> (r: Vec<Subscriber>)
        ensures
            r@.len() == self@.subscribers.len(),
            forall|i: int| 0 <= i < r@.len() ==> #[trigger] r@[i] == self@.subscribers[i].1,
    {
        let mut r: Vec<Subscriber> = Vec::new();
        let mut i: usize = 0;
        while i < self.subscribers.entries.len()
            invariant
                i <= self@.subscribers.len(),
                r@.len() == i,
                forall|j: int| 0 <= j < i ==> #[trigger] r@[j] == self@.subscribers[j].1,
            decreases self@.subscribers.len() - i,
        {
            r.push(self.subscribers.entries[i].1);
            i = i + 1;
        }
        r
    }

    /// Forgets all trackers and subscribers.
    pub fn clear(&mut self)
        ensures
            final(self)@ == (EngineView {
                trackers: Seq::empty(),
                subscribers: Seq::empty(),
                ..old(self)@
            }),
            final(self)@.wf(),
    {
        self.trackers = SymbolTable::new();
        self.subscribers = Roster::new();
    }

    /// Forgets all trackers and subscribers, and has the stream connected anew: says what
    /// is to be done with the link.
    pub fn flush(&mut self, link: &mut Link) -> (action: LinkAction)
        requires
            old(link).wf(),
        ensures
            final(self)@ == (EngineView {
                trackers: Seq::empty(),
                subscribers: Seq::empty(),
                ..old(self)@
            }),
            final(self)@.wf(),
            *final(link) == old(link).after(LinkEvent::Flushed, old(self)@.running).0,
            action == old(link).after(LinkEvent::Flushed, old(self)@.running).1,
            final(link).wf(),
    {
        self.clear();
        link.follow(LinkEvent::Flushed, self.running)
    }

    /// Asks the engine to stop.
    pub fn stop(&mut self)
        ensures
            final(self)@ == (EngineView { running: false, ..old(self)@ }),
    {
        self.running = false;
    }

    /// The name that the exchange uses for a symbol.
    pub fn resolve_symbol(sym: &str) -> (r: String)
        ensures
            r@ == symbols::resolved(sym@),
    {
        symbols::resolve(sym)
    }

    /// The orders of all subscribers for a trade that was entered.
    fn on_enter_position(
        &self,
        symbol: &String,
        direction: TradeDirection,
        price: Num,
        sl: Num,
        tp: Num,
        is_ghost: bool,
        actions: &mut Vec<Action>,
    )
        ensures
            action_views(final(actions)@) == action_views(old(actions)@) + actions_for(
                EventView::Entered { symbol: symbol@, direction, price, sl, tp, is_ghost },
                self@.subscribers,
            ),
    {
        let ghost start = action_views(actions@);
        let ghost event = EventView::Entered { symbol: symbol@, direction, price, sl, tp, is_ghost };
        let ghost wanted = actions_for(event, self@.subscribers);
        if is_ghost {
            assert(start + wanted =~= start);
            return;
        }
        let mut i: usize = 0;
        assert(start + wanted.take(0) =~= start);
        while i < self.subscribers.entries.len()
            invariant
                i <= self@.subscribers.len(),
                event == (EventView::Entered { symbol: symbol@, direction, price, sl, tp, is_ghost }),
                wanted == actions_for(event, self@.subscribers),
                !is_ghost,
                action_views(actions@) == start + wanted.take(i as int),
            decreases self@.subscribers.len() - i,
        {
            let ghost before = actions@;
            let sub: Subscriber = self.subscribers.entries[i].1;
            let a: Action = Action::Open {
                sub_id: sub.sub_id,
                symbol: symbol.clone(),
                direction,
                qty: market::stake_quantity(sub.size, price),
                price,
                sl,
                tp,
            };
            proof {
                assert(a@ == wanted[i as int]);
                assert(wanted.take(i + 1) =~= wanted.take(i as int).push(wanted[i as int]));
            }
            actions.push(a);
            assert(action_views(actions@) =~= action_views(before).push(a@));
            assert((start + wanted.take(i as int)).push(a@) =~= start + wanted.take(i + 1));
            i = i + 1;
        }
        assert(wanted.take(i as int) =~= wanted);
    }

    /// What all subscribers do after a trade left.
    fn on_exit_position(
        &self,
        symbol: &String,
        direction: TradeDirection,
        is_ghost: bool,
        actions: &mut Vec<Action>,
    )
        ensures
            action_views(final(actions)@) == action_views(old(actions)@) + actions_for(
                EventView::Exited { symbol: symbol@, direction, is_ghost },
                self@.subscribers,
            ),
    {
        let ghost start = action_views(actions@);
        let ghost event = EventView::Exited { symbol: symbol@, direction, is_ghost };
        let ghost wanted = actions_for(event, self@.subscribers);
        if is_ghost {
            assert(start + wanted =~= start);
            return;
        }
        let mut i: usize = 0;
        assert(start + wanted.take(0) =~= start);
        while i < self.subscribers.entries.len()
            invariant
                i <= self@.subscribers.len(),
                event == (EventView::Exited { symbol: symbol@, direction, is_ghost }),
                wanted == actions_for(event, self@.subscribers),
                !is_ghost,
                action_views(actions@) == start + wanted.take(i as int),
            decreases self@.subscribers.len() - i,
        {
            let ghost before = actions@;
            let sub: Subscriber = self.subscribers.entries[i].1;
            let a: Action = Action::CancelOld { sub_id: sub.sub_id, symbol: symbol.clone() };
            proof {
                assert(a@ == wanted[i as int]);
                assert(wanted.take(i + 1) =~= wanted.take(i as int).push(wanted[i as int]));
            }
            actions.push(a);
            assert(action_views(actions@) =~= action_views(before).push(a@));
            assert((start + wanted.take(i as int)).push(a@) =~= start + wanted.take(i + 1));
            i = i + 1;
        }
        assert(wanted.take(i as int) =~= wanted);
    }

    /// What some events mean for all subscribers.
    fn act_on(&self, events: &Vec<TrackerEvent>) -> (actions: Vec<Action>)
        ensures
            action_views(actions@) == all_actions(
                tracker::event_views(events@),
                self@.subscribers,
            ),
    {
        let mut actions: Vec<Action> = Vec::new();
        let ghost all = tracker::event_views(events@);
        let mut i: usize = 0;
        assert(action_views(actions@) =~= Seq::<ActionView>::empty());
        while i < events.len()
            invariant
                i <= events@.len(),
                all == tracker::event_views(events@),
                action_views(actions@) == all_actions(all.take(i as int), self@.subscribers),
            decreases events@.len() - i,
        {
            proof {
                assert(all.take(i + 1).drop_last() =~= all.take(i as int));
                assert(all.take(i + 1).last() == events@[i as int]@);
            }
            match &events[i] {
                TrackerEvent::Entered { symbol, direction, price, sl, tp, is_ghost } => {
                    self.on_enter_position(
                        symbol,
                        *direction,
                        *price,
                        *sl,
                        *tp,
                        *is_ghost,
                        &mut actions,
                    );
                },
                TrackerEvent::Exited { symbol, direction, is_ghost } => {
                    self.on_exit_position(symbol, *direction, *is_ghost, &mut actions);
                },
            }
            i = i + 1;
        }
        assert(all.take(i as int) =~= all);
        actions
    }

    /// Takes in a closed bar of a symbol.
    pub fn take_bar(&mut self, symbol: &str, k: &KlineData) -> (actions: Vec<Action>)
        requires
            old(self)@.wf(),
        ensures
            final(self)@ == old(self)@.after_bar(symbol@, *k).0,
            action_views(actions@) == old(self)@.after_bar(symbol@, *k).1,
            final(self)@.wf(),
    {
        let ghost before = self@;
        let p: usize = self.trackers.find(symbol);
        if !self.trackers.is_at(p, symbol) {
            let actions: Vec<Action> = Vec::new();
            assert(action_views(actions@) =~= Seq::<ActionView>::empty());
            return actions;
        }
        let ghost rows = self.trackers.entries@;
        assert(before.trackers[p as int].1 == rows[p as int].1@);
        let (sl, tp, reverse, threshold): (Num, Num, bool, i32) = (
            self.sl_percent,
            self.tp_percent,
            self.reverse_mode,
            self.ghost_threshold,
        );
        let events: Vec<TrackerEvent> = self.trackers.entries[p].1.process_kline(
            k,
            sl,
            tp,
            reverse,
            threshold,
        );
        proof {
            let next = before.trackers[p as int].1.after_kline(*k, sl, tp, threshold);
            assert(self.trackers@ =~= before.trackers.update(p as int, (symbol@, next.0)));
            tracker::lemma_kline_wf(before.trackers[p as int].1, *k, sl, tp, threshold);
            lemma_put_wf(before, symbol@, next.0);
            assert(self@ =~= EngineView {
                trackers: table::put(before.trackers, symbol@, next.0),
                ..before
            });
        }
        self.act_on(&events)
    }

    /// Takes in a quote of a symbol.
    pub fn take_quote(&mut self, symbol: &str, bid: Num, ask: Num, now: Moment) -> (actions: Vec<
        Action,
    >)
        requires
            old(self)@.wf(),
        ensures
            final(self)@ == old(self)@.after_quote(symbol@, bid, ask, now).0,
            action_views(actions@) == old(self)@.after_quote(symbol@, bid, ask, now).1,
            final(self)@.wf(),
    {
        let ghost before = self@;
        let p: usize = self.trackers.find(symbol);
        if !self.trackers.is_at(p, symbol) {
            let actions: Vec<Action> = Vec::new();
            assert(action_views(actions@) =~= Seq::<ActionView>::empty());
            return actions;
        }
        let ghost rows = self.trackers.entries@;
        assert(before.trackers[p as int].1 == rows[p as int].1@);
        let (sl, tp, reverse, threshold): (Num, Num, bool, i32) = (
            self.sl_percent,
            self.tp_percent,
            self.reverse_mode,
            self.ghost_threshold,
        );
        let events: Vec<TrackerEvent> = self.trackers.entries[p].1.update_ticker(
            bid,
            ask,
            sl,
            tp,
            reverse,
            threshold,
            now,
        );
        proof {
            let next = before.trackers[p as int].1.after_quote(bid, ask, now);
            assert(self.trackers@ =~= before.trackers.update(p as int, (symbol@, next.0)));
            tracker::lemma_quote_wf(before.trackers[p as int].1, bid, ask, now);
            lemma_put_wf(before, symbol@, next.0);
            assert(self@ =~= EngineView {
                trackers: table::put(before.trackers, symbol@, next.0),
                ..before
            });
        }
        self.act_on(&events)
    }

    /// Takes in a message of the stream.
    pub fn apply_message(&mut self, m: &StreamMessage, now: Moment) -> (actions: Vec<Action>)
        requires
            old(self)@.wf(),
        ensures
            final(self)@ == old(self)@.after_message(m@, now).0,
            action_views(actions@) == old(self)@.after_message(m@, now).1,
            final(self)@.wf(),
    {
        let nothing: Vec<Action> = Vec::new();
        assert(action_views(nothing@) =~= Seq::<ActionView>::empty());
        if !stream::is_data(m) {
            return nothing;
        }
        if text::begins_with(m.topic.as_str(), "kline.") {
            if m.confirmed {
                let symbol: Option<String> = stream::read_bar_symbol(m.topic.as_str());
                let bar: Option<KlineData> = stream::parse_kline(m);
                match (symbol, bar) {
                    (Some(symbol), Some(k)) => {
                        return self.take_bar(symbol.as_str(), &k);
                    },
                    _ => {},
                }
            }
            return nothing;
        }
        match stream::strip_prefix(m.topic.as_str(), "tickers.") {
            Some(symbol) => {
                let bid: Option<Num> = stream::read_number(&m.bid);
                let ask: Option<Num> = stream::read_number(&m.ask);
                match (bid, ask) {
                    (Some(bid), Some(ask)) => self.take_quote(symbol.as_str(), bid, ask, now),
                    _ => nothing,
                }
            },
            None => nothing,
        }
    }

    /// Takes in the text of a message of the stream; a text that is no document changes
    /// nothing.
    pub fn handle_message(&mut self, raw: &str, now: Moment) -> (actions: Vec<Action>)
        requires
            old(self)@.wf(),
        ensures
            match stream::message_of(raw@) {
                Some(m) => final(self)@ == old(self)@.after_message(m, now).0 && action_views(
                    actions@,
                ) == old(self)@.after_message(m, now).1,
                None => final(self)@ == old(self)@ && actions@.len() == 0,
            },
            final(self)@.wf(),
    {
        match stream::read_message(raw) {
            Some(m) => self.apply_message(&m, now),
            None => Vec::new(),
        }
    }
}

/// A well-formed tracker under its own symbol can be put in.
pub proof fn lemma_put_wf(e: EngineView, key: Seq<char>, t: TrackerView)
    requires
        e.wf(),
        t.wf(),
        t.symbol == key,
    ensures
        (EngineView { trackers: table::put(e.trackers, key, t), ..e }).wf(),
{
    table::lemma_put_ordered(e.trackers, key, t);
    table::lemma_place(e.trackers, key);
    let after = table::put(e.trackers, key, t);
    let p = table::place(e.trackers, key);
    assert forall|i: int| 0 <= i < after.len() implies (#[trigger] after[i]).1.wf()
        && after[i].1.symbol == after[i].0 by {
        if table::holds(e.trackers, key) || i < p {
            if i != p {
                assert(after[i] == e.trackers[i]);
            }
        } else if i > p {
            assert(after[i] == e.trackers[i - 1]);
        }
    }
}

/// A tracker can be taken out.
pub proof fn lemma_without_wf(e: EngineView, key: Seq<char>)
    requires
        e.wf(),
    ensures
        (EngineView { trackers: table::without(e.trackers, key), ..e }).wf(),
{
    table::lemma_without_ordered(e.trackers, key);
    table::lemma_place(e.trackers, key);
    let after = table::without(e.trackers, key);
    let p = table::place(e.trackers, key);
    assert forall|i: int| 0 <= i < after.len() implies (#[trigger] after[i]).1.wf()
        && after[i].1.symbol == after[i].0 by {
        if table::holds(e.trackers, key) && i >= p {
            assert(after[i] == e.trackers[i + 1]);
        } else {
            assert(after[i] == e.trackers[i]);
        }
    }
}

} // verus!
