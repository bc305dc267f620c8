//! What messages, bars and quotes do to the one-sided engine, by their fields.
use vstd::prelude::*;
use crate::figures;
use crate::json;
use crate::json::FieldView;
use crate::market::{KlineData, TradeStatus};
use crate::num::{num, Num};
use crate::stream;
use crate::stream::MessageView;
use crate::table;
use crate::text;
use crate::time::Moment;
use crate::top::engine;
use crate::top::engine::{ActionView, CommandView, EngineView, Subscriber};
use crate::top::laws;
use crate::top::laws::Input;
use crate::top::tracker::{EventView, Side, TrackerView, TradeView};

verus! {

/// Two messages that differ only in being a snapshot or a delta have the same effect.
pub proof fn lemma_snapshot_or_delta(e: EngineView, m: MessageView, now: Moment)
    ensures
        e.after_message((MessageView { kind: "snapshot"@, ..m }), now) == e.after_message(
            (MessageView { kind: "delta"@, ..m }),
            now,
        ),
{
}

/// A message that is a refusal, carries no object, or is of another kind has no effect.
pub proof fn lemma_no_data(e: EngineView, m: MessageView, now: Moment)
    requires
        m.refused || !m.has_data || (m.kind != "snapshot"@ && m.kind != "delta"@),
    ensures
        e.after_message(m, now) == (e, Seq::<ActionView>::empty()),
{
}

/// Whether a message carries data on a topic.
pub open spec fn carries(m: MessageView, topic: Seq<char>) -> bool {
    !m.refused && m.has_data && (m.kind == "snapshot"@ || m.kind == "delta"@) && m.topic == topic
}

/// A topic of quotes is none of bars.
proof fn lemma_quotes_are_no_bars(symbol: Seq<char>)
    ensures
        stream::behind("tickers."@ + symbol, "tickers."@) == Some(symbol),
        stream::behind("tickers."@ + symbol, "kline.1."@) is None,
        !text::begins("tickers."@ + symbol, "kline."@),
{
    reveal_strlit("tickers.");
    reveal_strlit("kline.1.");
    reveal_strlit("kline.");
    let s = "tickers."@ + symbol;
    stream::lemma_behind("tickers."@, symbol);
    if text::begins(s, "kline.1."@) {
        assert(s.subrange(0, 8)[0] == 't');
    }
    if text::begins(s, "kline."@) {
        assert(s.subrange(0, 6)[0] == 't');
    }
}

/// A message with two prices on the topic of the quotes of a symbol is a quote of the
/// symbol: the one price is the bid, the other the ask.
pub proof fn lemma_quote_message(
    e: EngineView,
    m: MessageView,
    symbol: Seq<char>,
    bid: Num,
    ask: Num,
    now: Moment,
)
    requires
        carries(m, "tickers."@ + symbol),
        stream::writes(m.bid, bid),
        stream::writes(m.ask, ask),
    ensures
        e.after_message(m, now) == e.after_quote(symbol, bid, ask, now),
{
    lemma_quotes_are_no_bars(symbol);
}

/// A message with all that makes a bar, on the topic of the bars of one minute of a symbol,
/// is a bar of the symbol once it is closed, and has no effect before.
pub proof fn lemma_bar_message(
    e: EngineView,
    m: MessageView,
    symbol: Seq<char>,
    k: KlineData,
    now: Moment,
)
    requires
        carries(m, "kline.1."@ + symbol),
        m.start == Some(k.ts),
        stream::writes(m.open, k.open),
        stream::writes(m.high, k.high),
        stream::writes(m.low, k.low),
        stream::writes(m.close, k.close),
        stream::writes(m.volume, k.volume),
        k.datetime == stream::time_of(k.ts as int),
    ensures
        m.confirmed ==> e.after_message(m, now) == e.after_bar(symbol, k),
        !m.confirmed ==> e.after_message(m, now) == (e, Seq::<ActionView>::empty()),
{
    stream::lemma_behind("kline.1."@, symbol);
    stream::lemma_bar_prices(m);
    assert(stream::bar_of(m) == Some(k));
}

/// Where a message on the topic of the quotes of a symbol has no readable bid or ask, its
/// mark price stands for both; without one it has no effect.
pub proof fn lemma_mark_message(
    e: EngineView,
    m: MessageView,
    symbol: Seq<char>,
    mark: Num,
    now: Moment,
)
    requires
        carries(m, "tickers."@ + symbol),
        !stream::readable(m.bid) || !stream::readable(m.ask),
    ensures
        stream::writes(m.mark, mark) ==> e.after_message(m, now) == e.after_quote(
            symbol,
            mark,
            mark,
            now,
        ),
        !stream::readable(m.mark) ==> e.after_message(m, now) == (e, Seq::<ActionView>::empty()),
{
    lemma_quotes_are_no_bars(symbol);
}

/// The engine, and what is to be done, after one input on a symbol.
pub open spec fn after_input(e: EngineView, symbol: Seq<char>, input: Input) -> (EngineView, Seq<ActionView>) {
    match input {
        Input::Bar(k) => e.after_bar(symbol, k),
        Input::Quote { bid, ask, now } => e.after_quote(symbol, bid, ask, now),
    }
}

/// A bar or a quote of a tracked symbol goes to the tracker of the symbol, which
/// is kept from then on; what it tells is acted on by the subscribers; the rest of the
/// engine stays.
pub proof fn lemma_step(e: EngineView, symbol: Seq<char>, input: Input)
    requires
        e.wf(),
        table::lookup(e.trackers, symbol) is Some,
    ensures
        ({
            let t = table::lookup(e.trackers, symbol)->0;
            let (next, acts) = after_input(e, symbol, input);
            let (w, told) = laws::after(t, input);
            &&& table::lookup(next.trackers, symbol) == Some(w)
            &&& next == (EngineView { trackers: next.trackers, ..e })
            &&& told is Nothing ==> acts.len() == 0
        }),
{
    let t = table::lookup(e.trackers, symbol)->0;
    let (w, told) = laws::after(t, input);
    table::lemma_put_lookup(e.trackers, symbol, w, symbol);
}

/// When an input happens.
pub open spec fn happens(input: Input) -> Moment {
    match input {
        Input::Bar(k) => k.datetime,
        Input::Quote { bid, ask, now } => now,
    }
}

/// What a side pays to enter: it buys at the ask, or sells at the bid. With a bar these are
/// those of the last quote, or else the close.
pub open spec fn entering(v: TrackerView, input: Input) -> Num {
    match input {
        Input::Bar(k) => if v.direction == Side::Long {
            if v.current_ask is Some {
                v.current_ask->0
            } else {
                k.close
            }
        } else {
            if v.current_bid is Some {
                v.current_bid->0
            } else {
                k.close
            }
        },
        Input::Quote { bid, ask, now } => if v.direction == Side::Long {
            ask
        } else {
            bid
        },
    }
}

/// What a side gets when it leaves: it sells at the bid, or buys back at the ask. With a
/// bar these are those of the last quote, or else the worst price of the bar.
pub open spec fn leaving(v: TrackerView, input: Input) -> Num {
    match input {
        Input::Bar(k) => if v.direction == Side::Long {
            if v.current_bid is Some {
                v.current_bid->0
            } else {
                k.low
            }
        } else {
            if v.current_ask is Some {
                v.current_ask->0
            } else {
                k.high
            }
        },
        Input::Quote { bid, ask, now } => if v.direction == Side::Long {
            bid
        } else {
            ask
        },
    }
}

/// Whether a price has reached the stop of an entry: half a percent below it for a long
/// trade, above it for a short one.
pub open spec fn at_stop(direction: Side, entry: Num, price: Num) -> bool {
    if direction == Side::Long {
        price.at_most(entry.times(num(figures::DOWN_HALF_PERCENT)))
    } else {
        entry.times(num(figures::UP_HALF_PERCENT)).at_most(price)
    }
}

/// The stop of an entry.
pub open spec fn stop(direction: Side, entry: Num) -> Num {
    if direction == Side::Long {
        entry.times(num(figures::DOWN_HALF_PERCENT))
    } else {
        entry.times(num(figures::UP_HALF_PERCENT))
    }
}

/// A trade that starts.
pub open spec fn new_trade(v: TrackerView, price: Num, at: Moment) -> TradeView {
    TradeView {
        symbol: v.symbol,
        direction: v.direction,
        entry_time: at,
        entry_price: price,
        exit_time: None,
        exit_price: None,
        status: TradeStatus::Open,
    }
}

/// The first input enters a trade, which fixes the entry price and the stop half a percent
/// against the side. A bar leaves it open; a quote too, unless what it would get for
/// leaving has reached the stop.
pub proof fn lemma_first(v: TrackerView, input: Input)
    requires
        v.wf(),
        v.entry_price is None,
    ensures
        ({
            let (w, told) = laws::after(v, input);
            let price = entering(v, input);
            &&& w.entry_price == Some(price)
            &&& w.sl == Some(stop(v.direction, price))
            &&& input is Quote && at_stop(v.direction, price, leaving(v, input)) ==> {
                &&& told == (EventView::Exited { symbol: v.symbol })
                &&& w.active_trade is None
                &&& w.closed_trades == seq![
                    TradeView {
                        exit_time: Some(happens(input)),
                        exit_price: w.sl,
                        status: TradeStatus::Closed,
                        ..new_trade(v, price, happens(input))
                    },
                ]
            }
            &&& !(input is Quote && at_stop(v.direction, price, leaving(v, input))) ==> {
                &&& told == (EventView::Entered {
                    symbol: v.symbol,
                    direction: v.direction,
                    price,
                })
                &&& w.active_trade == Some(new_trade(v, price, happens(input)))
                &&& w.closed_trades == v.closed_trades
            }
        }),
{
}

/// An open trade is left exactly where what it would get has reached the stop: at the stop,
/// as the last of the closed trades, which is as it was but for its exit. Otherwise it
/// stays as it is.
pub proof fn lemma_exit(v: TrackerView, input: Input)
    requires
        v.wf(),
        v.active_trade is Some,
    ensures
        ({
            let t = v.active_trade->0;
            let (w, told) = laws::after(v, input);
            &&& w.entry_price == v.entry_price && w.sl == v.sl
            &&& if at_stop(v.direction, v.entry_price->0, leaving(v, input)) {
                &&& told == (EventView::Exited { symbol: v.symbol })
                &&& w.active_trade is None && !w.in_position && w.waiting_for_reentry
                &&& w.closed_trades == v.closed_trades.push(
                    TradeView {
                        exit_time: Some(happens(input)),
                        exit_price: Some(stop(v.direction, v.entry_price->0)),
                        status: TradeStatus::Closed,
                        ..t
                    },
                )
            } else {
                &&& told is Nothing
                &&& w.active_trade == v.active_trade
                &&& w.closed_trades == v.closed_trades
            }
        }),
{
}

/// After a stop a trade is entered again exactly where the price to enter at has passed
/// the first entry in the direction of the side. Until then nothing changes but what is
/// noted.
pub proof fn lemma_again(v: TrackerView, input: Input)
    requires
        v.wf(),
        v.waiting_for_reentry,
    ensures
        ({
            let (w, told) = laws::after(v, input);
            let price = entering(v, input);
            let passed = if v.direction == Side::Long {
                v.entry_price->0.below(price)
            } else {
                price.below(v.entry_price->0)
            };
            &&& w.entry_price == v.entry_price && w.sl == v.sl
            &&& !passed ==> {
                &&& told is Nothing && w.active_trade is None && w.waiting_for_reentry
                &&& w.closed_trades == v.closed_trades
            }
            &&& passed && (input is Quote || !at_stop(
                v.direction,
                v.entry_price->0,
                leaving(v, input),
            )) ==> {
                &&& told == (EventView::Entered {
                    symbol: v.symbol,
                    direction: v.direction,
                    price,
                })
                &&& w.active_trade == Some(new_trade(v, price, happens(input)))
                &&& w.in_position && !w.waiting_for_reentry
                &&& w.closed_trades == v.closed_trades
            }
            &&& passed && input is Bar && at_stop(
                v.direction,
                v.entry_price->0,
                leaving(v, input),
            ) ==> {
                &&& told == (EventView::Exited { symbol: v.symbol })
                &&& w.waiting_for_reentry
                &&& w.closed_trades == v.closed_trades.push(
                    TradeView {
                        exit_time: Some(happens(input)),
                        exit_price: v.sl,
                        status: TradeStatus::Closed,
                        ..new_trade(v, price, happens(input))
                    },
                )
            }
        }),
{
}

/// A quote is kept, and what a trade would get for leaving is the current price; the bars
/// stay. A bar is put behind the others; the quote stays.
pub proof fn lemma_noted(v: TrackerView, input: Input)
    ensures
        ({
            let w = laws::after(v, input).0;
            &&& w.symbol == v.symbol && w.direction == v.direction
            &&& match input {
                Input::Bar(k) => {
                    &&& w.klines.len() > 0 && w.klines.last() == k
                    &&& v.klines.len() < 5000 ==> w.klines == v.klines.push(k)
                    &&& v.klines.len() >= 5000 ==> w.klines == v.klines.skip(1).push(k)
                    &&& w.current_bid == v.current_bid && w.current_ask == v.current_ask
                    &&& w.current_price == v.current_price
                },
                Input::Quote { bid, ask, now } => {
                    &&& w.current_bid == Some(bid) && w.current_ask == Some(ask)
                    &&& w.current_price == Some(leaving(v, input))
                    &&& w.klines == v.klines
                },
            }
        }),
{
    if let Input::Bar(k) = input {
        if v.klines.len() > 0 {
            assert(v.klines.push(k).skip(1) =~= v.klines.skip(1).push(k));
        }
    }
}

/// Whether an action is the order of a subscriber of a side, for its stake at a price.
pub open spec fn ordered_by(
    a: ActionView,
    symbol: Seq<char>,
    side: Side,
    price: Num,
    subs: Seq<(i32, Subscriber)>,
) -> bool {
    exists|j: int|
        0 <= j < subs.len() && {
            let sub = (#[trigger] subs[j]).1;
            sub.side == side && a == (ActionView::Open {
                sub_id: sub.sub_id,
                symbol,
                side,
                qty: if num(figures::ZERO).below(price) {
                    sub.size.over(price)
                } else {
                    sub.size
                },
            })
        }
}

/// Each order of some subscribers is that of one of them.
proof fn lemma_order_source(symbol: Seq<char>, side: Side, price: Num, subs: Seq<(i32, Subscriber)>, i: int)
    requires
        0 <= i < engine::orders(symbol, side, price, subs).len(),
    ensures
        ordered_by(engine::orders(symbol, side, price, subs)[i], symbol, side, price, subs),
    decreases subs.len(),
{
    if subs.len() > 0 {
        let rest = subs.drop_last();
        let before = engine::orders(symbol, side, price, rest);
        let a = engine::orders(symbol, side, price, subs)[i];
        if i < before.len() {
            lemma_order_source(symbol, side, price, rest, i);
            let j = choose|j: int|
                0 <= j < rest.len() && {
                    let sub = (#[trigger] rest[j]).1;
                    sub.side == side && a == (ActionView::Open {
                        sub_id: sub.sub_id,
                        symbol,
                        side,
                        qty: if num(figures::ZERO).below(price) {
                            sub.size.over(price)
                        } else {
                            sub.size
                        },
                    })
                };
            assert(subs[j] == rest[j]);
        } else {
            assert(subs[subs.len() - 1] == subs.last());
        }
    }
}

/// The actions of a bar or a quote are those of the subscribers of the engine, on the
/// symbol. An order is that of a subscriber of the side of the symbol, for its stake at the
/// current price, or the entry price where there is none; a close is that of any
/// subscriber.
pub proof fn lemma_actions(e: EngineView, symbol: Seq<char>, input: Input, i: int)
    requires
        e.wf(),
        0 <= i < after_input(e, symbol, input).1.len(),
    ensures
        table::lookup(e.trackers, symbol) is Some,
        ({
            let t = table::lookup(e.trackers, symbol)->0;
            let w = laws::after(t, input).0;
            let price = if w.current_price is Some {
                w.current_price->0
            } else {
                entering(t, input)
            };
            let a = after_input(e, symbol, input).1[i];
            exists|j: int|
                0 <= j < e.subscribers.len() && {
                    let sub = (#[trigger] e.subscribers[j]).1;
                    match a {
                        ActionView::CloseAll { sub_id, symbol: s } => s == symbol && sub_id
                            == sub.sub_id,
                        ActionView::Open { sub_id, symbol: s, side, qty } => {
                            &&& s == symbol && sub_id == sub.sub_id
                            &&& side == t.direction && sub.side == t.direction
                            &&& qty == if num(figures::ZERO).below(price) {
                                sub.size.over(price)
                            } else {
                                sub.size
                            }
                        },
                    }
                }
        }),
{
    if let Some(t) = table::lookup(e.trackers, symbol) {
        let (w, told) = laws::after(t, input);
        let next = after_input(e, symbol, input).0;
        table::lemma_place(e.trackers, symbol);
        assert(t.wf() && t.symbol == symbol);
        table::lemma_put_lookup(e.trackers, symbol, w, symbol);
        match told {
            EventView::Entered { symbol: s, direction, price } => {
                lemma_order_source(
                    symbol,
                    direction,
                    next.price_of(symbol, price),
                    e.subscribers,
                    i,
                );
            },
            EventView::Exited { symbol: s } => {
                assert(e.subscribers[i] == e.subscribers[i]);
            },
            EventView::Nothing => {},
        }
    }
}

/// On an exit every subscriber closes; on an entry every subscriber of the side, and no
/// other, orders.
pub proof fn lemma_all_act(e: EngineView, symbol: Seq<char>, input: Input)
    requires
        e.wf(),
        table::lookup(e.trackers, symbol) is Some,
    ensures
        ({
            let t = table::lookup(e.trackers, symbol)->0;
            let told = laws::after(t, input).1;
            let acts = after_input(e, symbol, input).1;
            &&& told is Exited ==> acts.len() == e.subscribers.len() && forall|j: int|
                0 <= j < acts.len() ==> #[trigger] acts[j] == (ActionView::CloseAll {
                    sub_id: e.subscribers[j].1.sub_id,
                    symbol,
                })
            &&& told is Entered ==> acts.len() == laws::followers(t.direction, e.subscribers)
        }),
{
    let t = table::lookup(e.trackers, symbol)->0;
    let (w, told) = laws::after(t, input);
    let next = after_input(e, symbol, input).0;
    table::lemma_place(e.trackers, symbol);
    assert(t.wf() && t.symbol == symbol);
    if let EventView::Entered { symbol: s, direction, price } = told {
        laws::lemma_matching_subscribers_order(
            symbol,
            direction,
            next.price_of(symbol, price),
            e.subscribers,
        );
    }
}

/// A symbol that is added with a positive quote has entered its first trade at once: at the
/// ask if long, at the bid if short, with the stop half a percent against it. Every
/// subscriber of the side orders, at the price that the trade would get for leaving.
/// Without such a quote it has entered nothing, and nobody orders.
pub proof fn lemma_added_at_once(
    e: EngineView,
    key: Seq<char>,
    side: Side,
    bid: Num,
    ask: Num,
    now: Moment,
)
    requires
        e.wf(),
        e.accepts(key, side),
    ensures
        e.added(key, side, None, now).1.len() == 0,
        ({
            let (w, acts) = e.added(key, side, Some((bid, ask)), now);
            let t = table::lookup(w.trackers, key)->0;
            let (entry, exit) = if side == Side::Long {
                (ask, bid)
            } else {
                (bid, ask)
            };
            &&& table::lookup(w.trackers, key) is Some
            &&& t.symbol == key && t.direction == side && t.closed_trades.len() == 0
            &&& w.outbox == if e.connected {
                e.outbox.push(CommandView::Subscribe(key))
            } else {
                e.outbox
            }
            &&& if num(figures::ZERO).below(bid) && num(figures::ZERO).below(ask) {
                &&& t.entry_price == Some(entry) && t.sl == Some(stop(side, entry))
                &&& t.active_trade is Some
                &&& t.active_trade->0.entry_price == entry
                &&& t.active_trade->0.entry_time == now
                &&& t.current_price == Some(exit)
                &&& t.current_bid == Some(bid) && t.current_ask == Some(ask)
                &&& t.klines.len() == 1
                &&& t.klines[0].datetime == now
                &&& t.klines[0].open == entry && t.klines[0].close == entry
                &&& t.klines[0].high == entry && t.klines[0].low == entry
                &&& acts.len() == laws::followers(side, e.subscribers)
                &&& forall|i: int|
                    0 <= i < acts.len() ==> ordered_by(
                        #[trigger] acts[i],
                        key,
                        side,
                        exit,
                        e.subscribers,
                    )
            } else {
                &&& t.entry_price is None && t.active_trade is None
                &&& acts.len() == 0
            }
        }),
{
    let t = engine::started(key, side, bid, ask, now);
    table::lemma_put_lookup(e.trackers, key, t, key);
    let (w, acts) = e.added(key, side, Some((bid, ask)), now);
    let exit = if side == Side::Long {
        bid
    } else {
        ask
    };
    if num(figures::ZERO).below(bid) && num(figures::ZERO).below(ask) {
        assert(acts == engine::orders(key, side, exit, e.subscribers));
        laws::lemma_matching_subscribers_order(key, side, exit, e.subscribers);
        assert forall|i: int| 0 <= i < acts.len() implies ordered_by(
            #[trigger] acts[i],
            key,
            side,
            exit,
            e.subscribers,
        ) by {
            lemma_order_source(key, side, exit, e.subscribers, i);
        }
    }
}

/// A command asks for, or gives up, the bars of one minute and the quotes of its symbols.
pub proof fn lemma_commands(s: Seq<char>)
    ensures
        CommandView::Subscribe(s).request() == json::object_text(
            seq![
                ("op"@, FieldView::Text("subscribe"@)),
                ("args"@, FieldView::List(seq!["kline.1."@ + s, "tickers."@ + s])),
            ],
        ),
        CommandView::Unsubscribe(s).request() == json::object_text(
            seq![
                ("op"@, FieldView::Text("unsubscribe"@)),
                ("args"@, FieldView::List(seq!["kline.1."@ + s, "tickers."@ + s])),
            ],
        ),
        CommandView::ResubscribeAll(seq![s]).request() == CommandView::Subscribe(s).request(),
{
    stream::lemma_topics_read_back(1, s);
    reveal_strlit("kline.");
    reveal_strlit(".");
    reveal_strlit("kline.1.");
    assert(text::decimal(1) =~= seq!['1']);
    assert("kline."@ + text::decimal(1) + "."@ + s =~= "kline.1."@ + s);
}

} // verus!
