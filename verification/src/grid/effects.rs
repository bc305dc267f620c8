//! What messages, bars and quotes do to the grid engine, by their fields.
use vstd::prelude::*;
use crate::figures;
use crate::grid::engine;
use crate::grid::engine::{ActionView, CommandView, EngineView, Subscriber};
use crate::grid::laws;
use crate::grid::laws::Input;
use crate::grid::tracker;
use crate::grid::tracker::{EventView, GridTradeView, TrackerView};
use crate::json;
use crate::json::FieldView;
use crate::market::{KlineData, TradeDirection, TradeStatus};
use crate::num::{num, Num};
use crate::stream;
use crate::stream::MessageView;
use crate::table;
use crate::text;
use crate::time::Moment;

verus! {

/// Two messages that differ only in being a snapshot or a delta have the same effect.
pub proof fn lemma_snapshot_or_delta(e: EngineView, m: MessageView, now: Moment)
    ensures
        e.after_message((MessageView { kind: "snapshot"@, ..m }), now) == e.after_message(
            (MessageView { kind: "delta"@, ..m }),
            now,
        ),
{
}

/// A message that is a refusal, carries no object, or is of another kind has no effect.
pub proof fn lemma_no_data(e: EngineView, m: MessageView, now: Moment)
    requires
        m.refused || !m.has_data || (m.kind != "snapshot"@ && m.kind != "delta"@),
    ensures
        e.after_message(m, now) == (e, Seq::<ActionView>::empty()),
{
}

/// Whether a message carries data on a topic.
pub open spec fn carries(m: MessageView, topic: Seq<char>) -> bool {
    !m.refused && m.has_data && (m.kind == "snapshot"@ || m.kind == "delta"@) && m.topic == topic
}

/// A topic of quotes is none of bars.
proof fn lemma_quotes_are_no_bars(symbol: Seq<char>)
    ensures
        stream::behind("tickers."@ + symbol, "tickers."@) == Some(symbol),
        stream::behind("tickers."@ + symbol, "kline.1."@) is None,
        !text::begins("tickers."@ + symbol, "kline."@),
{
    reveal_strlit("tickers.");
    reveal_strlit("kline.1.");
    reveal_strlit("kline.");
    let s = "tickers."@ + symbol;
    stream::lemma_behind("tickers."@, symbol);
    if text::begins(s, "kline.1."@) {
        assert(s.subrange(0, 8)[0] == 't');
    }
    if text::begins(s, "kline."@) {
        assert(s.subrange(0, 6)[0] == 't');
    }
}

/// A message with two prices on the topic of the quotes of a symbol is a quote of the
/// symbol: the one price is the bid, the other the ask.
pub proof fn lemma_quote_message(
    e: EngineView,
    m: MessageView,
    symbol: Seq<char>,
    bid: Num,
    ask: Num,
    now: Moment,
)
    requires
        carries(m, "tickers."@ + symbol),
        stream::writes(m.bid, bid),
        stream::writes(m.ask, ask),
    ensures
        e.after_message(m, now) == e.after_quote(symbol, bid, ask, now),
{
    lemma_quotes_are_no_bars(symbol);
}

/// A message with all that makes a bar, on the topic of the bars of one minute of a symbol,
/// is a bar of the symbol once it is closed, and has no effect before.
pub proof fn lemma_bar_message(
    e: EngineView,
    m: MessageView,
    symbol: Seq<char>,
    k: KlineData,
    now: Moment,
)
    requires
        carries(m, "kline.1."@ + symbol),
        m.start == Some(k.ts),
        stream::writes(m.open, k.open),
        stream::writes(m.high, k.high),
        stream::writes(m.low, k.low),
        stream::writes(m.close, k.close),
        stream::writes(m.volume, k.volume),
        k.datetime == stream::time_of(k.ts as int),
    ensures
        m.confirmed ==> e.after_message(m, now) == e.after_bar(symbol, k),
        !m.confirmed ==> e.after_message(m, now) == (e, Seq::<ActionView>::empty()),
{
    stream::lemma_behind("kline.1."@, symbol);
    stream::lemma_bar_prices(m);
    assert(stream::bar_of(m) == Some(k));
}

/// A message without a readable bid or ask on the topic of the quotes of a symbol has no
/// effect.
pub proof fn lemma_half_a_quote(e: EngineView, m: MessageView, symbol: Seq<char>, now: Moment)
    requires
        m.topic == "tickers."@ + symbol,
        !stream::readable(m.bid) || !stream::readable(m.ask),
    ensures
        e.after_message(m, now) == (e, Seq::<ActionView>::empty()),
{
    lemma_quotes_are_no_bars(symbol);
}

/// The engine, and what is to be done, after one input on a symbol.
pub open spec fn after_input(e: EngineView, symbol: Seq<char>, input: Input) -> (EngineView, Seq<ActionView>) {
    match input {
        Input::Bar(k) => e.after_bar(symbol, k),
        Input::Quote { bid, ask, now } => e.after_quote(symbol, bid, ask, now),
    }
}

/// A bar or a quote of a tracked symbol goes to the tracker of the symbol, which
/// is kept from then on; what it tells is acted on by the subscribers; the rest of the
/// engine stays.
pub proof fn lemma_step(e: EngineView, symbol: Seq<char>, input: Input)
    requires
        e.wf(),
        table::lookup(e.trackers, symbol) is Some,
    ensures
        ({
            let t = table::lookup(e.trackers, symbol)->0;
            let (next, acts) = after_input(e, symbol, input);
            let (w, told) = laws::after(t, input);
            &&& table::lookup(next.trackers, symbol) == Some(w)
            &&& next == (EngineView { trackers: next.trackers, ..e })
            &&& acts == engine::all_actions(told, e.subscribers)
        }),
{
    let t = table::lookup(e.trackers, symbol)->0;
    let (w, told) = laws::after(t, input);
    table::lemma_put_lookup(e.trackers, symbol, w, symbol);
}

/// Every action is that of one subscriber on one event.
proof fn lemma_action_source(events: Seq<EventView>, subs: Seq<(i32, Subscriber)>, i: int)
    requires
        0 <= i < engine::all_actions(events, subs).len(),
    ensures
        exists|m: int, j: int|
            0 <= m < events.len() && 0 <= j < subs.len() && engine::all_actions(events, subs)[i]
                == #[trigger] engine::action_for(events[m], subs[j].1),
    decreases events.len(),
{
    if events.len() > 0 {
        let before = events.drop_last();
        let earlier = engine::all_actions(before, subs);
        if i < earlier.len() {
            lemma_action_source(before, subs, i);
            let (m, j) = choose|m: int, j: int|
                0 <= m < before.len() && 0 <= j < subs.len() && earlier[i]
                    == #[trigger] engine::action_for(before[m], subs[j].1);
            assert(engine::all_actions(events, subs)[i] == engine::action_for(
                events[m],
                subs[j].1,
            ));
        } else {
            let m = events.len() - 1;
            let j = i - earlier.len();
            assert(engine::all_actions(events, subs)[i] == engine::action_for(
                events[m],
                subs[j].1,
            ));
        }
    }
}

/// The actions of a bar or a quote are those of the subscribers of the engine, on the
/// symbol: an order is for the stake of its subscriber at its price, and has a stop
/// of 1.5 % and a target of 0.5 %.
pub proof fn lemma_actions(e: EngineView, symbol: Seq<char>, input: Input, i: int)
    requires
        e.wf(),
        0 <= i < after_input(e, symbol, input).1.len(),
    ensures
        ({
            let a = after_input(e, symbol, input).1[i];
            exists|j: int|
                0 <= j < e.subscribers.len() && {
                    let sub = (#[trigger] e.subscribers[j]).1;
                    match a {
                        ActionView::CancelOld { sub_id, symbol: s } => s == symbol && sub_id
                            == sub.sub_id,
                        ActionView::Open { sub_id, symbol: s, direction, qty, price, sl, tp } => {
                            &&& s == symbol && sub_id == sub.sub_id
                            &&& qty == if num(figures::ZERO).below(price) {
                                sub.size.over(price)
                            } else {
                                sub.size
                            }
                            &&& price == match input {
                                Input::Bar(k) => k.close,
                                Input::Quote { bid, ask, now } => if direction
                                    == TradeDirection::Long {
                                    ask
                                } else {
                                    bid
                                },
                            }
                            &&& sl == price.times(
                                num(
                                    if direction == TradeDirection::Long {
                                        figures::DOWN_ONE_AND_A_HALF_PERCENT
                                    } else {
                                        figures::UP_ONE_AND_A_HALF_PERCENT
                                    },
                                ),
                            )
                            &&& tp == price.times(
                                num(
                                    if direction == TradeDirection::Long {
                                        figures::UP_HALF_PERCENT
                                    } else {
                                        figures::DOWN_HALF_PERCENT
                                    },
                                ),
                            )
                        },
                    }
                }
        }),
{
    if let Some(t) = table::lookup(e.trackers, symbol) {
        let (w, told) = laws::after(t, input);
        let acts = engine::all_actions(told, e.subscribers);
        assert(after_input(e, symbol, input).1 == acts);
        lemma_action_source(told, e.subscribers, i);
        let (m, j) = choose|m: int, j: int|
            0 <= m < told.len() && 0 <= j < e.subscribers.len() && acts[i]
                == #[trigger] engine::action_for(told[m], e.subscribers[j].1);
        assert(acts[i] == engine::action_for(told[m], e.subscribers[j].1));
        table::lemma_place(e.trackers, symbol);
        assert(t.symbol == symbol);
        assert(0 <= j < e.subscribers.len());
        let sub = e.subscribers[j].1;
    }
}

/// When an input happens.
pub open spec fn happens(input: Input) -> Moment {
    match input {
        Input::Bar(k) => k.datetime,
        Input::Quote { bid, ask, now } => now,
    }
}

/// The price that an input leaves as the current one: the close of a bar, the middle of a
/// quote.
pub open spec fn current(input: Input) -> Num {
    match input {
        Input::Bar(k) => k.close,
        Input::Quote { bid, ask, now } => bid.plus(ask).over(num(figures::TWO)),
    }
}

/// The lowest and the highest price at which a trade could be left: those of a bar; of a
/// quote the bid for a long trade, which sells, and the ask for a short one.
pub open spec fn reach(input: Input, direction: TradeDirection) -> (Num, Num) {
    match input {
        Input::Bar(k) => (k.low, k.high),
        Input::Quote { bid, ask, now } => if direction == TradeDirection::Long {
            (bid, bid)
        } else {
            (ask, ask)
        },
    }
}

/// The price at which a trade is left within a reach, if it is: the far end where the stop
/// lies within, else the target where that does.
pub open spec fn exit_of(t: GridTradeView, input: Input) -> Option<Num> {
    let (low, high) = reach(input, t.direction);
    if t.direction == TradeDirection::Long && low.at_most(t.sl) {
        Some(low)
    } else if t.direction == TradeDirection::Short && t.sl.at_most(high) {
        Some(high)
    } else if (t.direction == TradeDirection::Long && t.tp.at_most(high)) || (t.direction
        == TradeDirection::Short && low.at_most(t.tp)) {
        Some(t.tp)
    } else {
        None
    }
}

/// An open trade is left exactly where its stop or target is reached. It is then the last
/// of the closed ones, as it was but for its exit; otherwise it stays as it is.
pub proof fn lemma_exit(v: TrackerView, input: Input)
    requires
        v.active_trade is Some,
    ensures
        ({
            let t = v.active_trade->0;
            let (w, told) = laws::after(v, input);
            match exit_of(t, input) {
                Some(price) => {
                    &&& w.closed_trades == v.closed_trades.push(
                        GridTradeView {
                            exit_time: Some(happens(input)),
                            exit_price: Some(price),
                            status: TradeStatus::Closed,
                            ..t
                        },
                    )
                    &&& told.len() >= 1
                    &&& told[0] == (EventView::Exited {
                        symbol: v.symbol,
                        direction: t.direction,
                        level: t.level,
                    })
                },
                None => {
                    &&& w.active_trade == v.active_trade
                    &&& w.closed_trades == v.closed_trades
                    &&& told.len() == 0
                },
            }
        }),
{
}

/// Every input leaves its price as the current one. A bar is put behind the others, and
/// its level noted; a quote leaves the bars.
pub proof fn lemma_noted(v: TrackerView, input: Input)
    ensures
        ({
            let w = laws::after(v, input).0;
            &&& w.current_price == Some(current(input))
            &&& w.symbol == v.symbol && w.base_price == v.base_price && w.level_step == v.level_step
            &&& match input {
                Input::Bar(k) => {
                    &&& w.klines.len() > 0 && w.klines.last() == k
                    &&& v.klines.len() < 5000 ==> w.klines == v.klines.push(k)
                    &&& v.klines.len() >= 5000 ==> w.klines == v.klines.skip(1).push(k)
                    &&& w.last_close_level == Some(tracker::level_of(k.close, v.base_price))
                },
                Input::Quote { bid, ask, now } => w.klines == v.klines,
            }
        }),
{
    if let Input::Bar(k) = input {
        let s = v.klines.push(k);
        if v.klines.len() > 0 {
            assert(s.skip(1) =~= v.klines.skip(1).push(k));
        }
    }
}

/// Without an open trade, or after one was left, a level that was crossed since the last
/// one is traded against the move: short where the price rose, long where it fell. The
/// trade starts at the time of the input, in a symbol, at a level and at a price, and with
/// a stop and a target, which are those that are told.
pub proof fn lemma_entry(v: TrackerView, input: Input)
    requires
        v.active_trade is Some ==> exit_of(v.active_trade->0, input) is Some,
    ensures
        ({
            let (w, told) = laws::after(v, input);
            let level = tracker::level_of(current(input), v.base_price);
            let crossed = v.last_close_level is Some && v.last_close_level->0 != level;
            let before = if v.active_trade is Some {
                1int
            } else {
                0int
            };
            &&& told.len() == before + if crossed {
                1int
            } else {
                0int
            }
            &&& !crossed ==> w.active_trade is None
            &&& crossed ==> {
                let t = w.active_trade->0;
                let risen = level > v.last_close_level->0;
                &&& w.active_trade is Some
                &&& t.direction == if risen {
                    TradeDirection::Short
                } else {
                    TradeDirection::Long
                }
                &&& t.symbol == v.symbol
                &&& t.level == level
                &&& t.entry_time == happens(input)
                &&& t.exit_time is None && t.exit_price is None && t.status == TradeStatus::Open
                &&& t.entry_price == match input {
                    Input::Bar(k) => k.close,
                    Input::Quote { bid, ask, now } => if risen {
                        bid
                    } else {
                        ask
                    },
                }
                &&& told[before] == (EventView::Entered {
                    symbol: t.symbol,
                    direction: t.direction,
                    price: t.entry_price,
                    level: t.level,
                    sl: t.sl,
                    tp: t.tp,
                })
            }
        }),
{
}

/// A command asks for, or gives up, the bars of one minute and the quotes of its symbols.
pub proof fn lemma_commands(s: Seq<char>)
    ensures
        CommandView::Subscribe(s).request() == json::object_text(
            seq![
                ("op"@, FieldView::Text("subscribe"@)),
                ("args"@, FieldView::List(seq!["kline.1."@ + s, "tickers."@ + s])),
            ],
        ),
        CommandView::Unsubscribe(s).request() == json::object_text(
            seq![
                ("op"@, FieldView::Text("unsubscribe"@)),
                ("args"@, FieldView::List(seq!["kline.1."@ + s, "tickers."@ + s])),
            ],
        ),
        CommandView::ResubscribeAll(seq![s]).request() == CommandView::Subscribe(s).request(),
{
    stream::lemma_topics_read_back(1, s);
    reveal_strlit("kline.");
    reveal_strlit(".");
    reveal_strlit("kline.1.");
    assert(text::decimal(1) =~= seq!['1']);
    assert("kline."@ + text::decimal(1) + "."@ + s =~= "kline.1."@ + s);
}

/// A symbol that is added is asked for, and one that is removed given up, where there is a
/// stream; without one nothing is sent.
pub proof fn lemma_told(e: EngineView, key: Seq<char>, price: Option<Num>)
    ensures
        e.accepts(key, price) <==> price is Some && num(figures::ZERO).below(price->0)
            && table::lookup(e.trackers, key) is None,
        e.added(key, price).outbox == if e.connected && e.accepts(key, price) {
            e.outbox.push(CommandView::Subscribe(key))
        } else {
            e.outbox
        },
        e.removed(key).outbox == if e.connected {
            e.outbox.push(CommandView::Unsubscribe(key))
        } else {
            e.outbox
        },
        !e.accepts(key, price) ==> e.added(key, price) == e,
{
}

} // verus!
