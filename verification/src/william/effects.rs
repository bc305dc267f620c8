//! What messages, bars and quotes do to the alligator engine, by their fields.
use vstd::prelude::*;
use crate::figures;
use crate::json;
use crate::json::FieldView;
use crate::market::{KlineData, TradeDirection, TradeStatus};
use crate::num::{num, Num};
use crate::stream;
use crate::stream::MessageView;
use crate::table;
use crate::text;
use crate::time::Moment;
use crate::william::alligator::AlligatorAlignment;
use crate::william::engine;
use crate::william::engine::{ActionView, CommandView, EngineView, Subscriber};
use crate::william::laws;
use crate::william::laws::Input;
use crate::william::tracker::{EventView, GridTradeView, TrackerView};

verus! {

/// Two messages that differ only in being a snapshot or a delta have the same effect.
pub proof fn lemma_snapshot_or_delta(e: EngineView, m: MessageView, now: Moment)
    ensures
        e.after_message((MessageView { kind: "snapshot"@, ..m }), now) == e.after_message(
            (MessageView { kind: "delta"@, ..m }),
            now,
        ),
{
}

/// A message that is a refusal, carries no object, or is of another kind has no effect.
pub proof fn lemma_no_data(e: EngineView, m: MessageView, now: Moment)
    requires
        m.refused || !m.has_data || (m.kind != "snapshot"@ && m.kind != "delta"@),
    ensures
        e.after_message(m, now) == (e, Seq::<ActionView>::empty()),
{
}

/// Whether a message carries data on a topic.
pub open spec fn carries(m: MessageView, topic: Seq<char>) -> bool {
    !m.refused && m.has_data && (m.kind == "snapshot"@ || m.kind == "delta"@) && m.topic == topic
}

/// A topic of quotes is none of bars.
proof fn lemma_quotes_are_no_bars(symbol: Seq<char>)
    ensures
        stream::behind("tickers."@ + symbol, "tickers."@) == Some(symbol),
        stream::behind("tickers."@ + symbol, "kline.1."@) is None,
        !text::begins("tickers."@ + symbol, "kline."@),
{
    reveal_strlit("tickers.");
    reveal_strlit("kline.1.");
    reveal_strlit("kline.");
    let s = "tickers."@ + symbol;
    stream::lemma_behind("tickers."@, symbol);
    if text::begins(s, "kline.1."@) {
        assert(s.subrange(0, 8)[0] == 't');
    }
    if text::begins(s, "kline."@) {
        assert(s.subrange(0, 6)[0] == 't');
    }
}

/// A message with two prices on the topic of the quotes of a symbol is a quote of the
/// symbol: the one price is the bid, the other the ask.
pub proof fn lemma_quote_message(
    e: EngineView,
    m: MessageView,
    symbol: Seq<char>,
    bid: Num,
    ask: Num,
    now: Moment,
)
    requires
        carries(m, "tickers."@ + symbol),
        stream::writes(m.bid, bid),
        stream::writes(m.ask, ask),
    ensures
        e.after_message(m, now) == e.after_quote(symbol, bid, ask, now),
{
    lemma_quotes_are_no_bars(symbol);
}

/// A message with all that makes a bar, on the topic of the bars of a symbol, whatever
/// their interval, is a bar of the symbol once it is closed, and has no effect before.
pub proof fn lemma_bar_message(
    e: EngineView,
    m: MessageView,
    interval: int,
    symbol: Seq<char>,
    k: KlineData,
    now: Moment,
)
    requires
        carries(m, "kline."@ + text::decimal(interval) + "."@ + symbol),
        m.start == Some(k.ts),
        stream::writes(m.open, k.open),
        stream::writes(m.high, k.high),
        stream::writes(m.low, k.low),
        stream::writes(m.close, k.close),
        stream::writes(m.volume, k.volume),
        k.datetime == stream::time_of(k.ts as int),
    ensures
        m.confirmed ==> e.after_message(m, now) == e.after_bar(symbol, k),
        !m.confirmed ==> e.after_message(m, now) == (e, Seq::<ActionView>::empty()),
{
    stream::lemma_topics_read_back(interval, symbol);
    let rest = text::decimal(interval) + "."@ + symbol;
    assert(m.topic =~= "kline."@ + rest);
    stream::lemma_behind("kline."@, rest);
    stream::lemma_bar_prices(m);
    assert(stream::bar_of(m) == Some(k));
}

/// A message without a readable bid or ask on the topic of the quotes of a symbol has no
/// effect.
pub proof fn lemma_half_a_quote(e: EngineView, m: MessageView, symbol: Seq<char>, now: Moment)
    requires
        m.topic == "tickers."@ + symbol,
        !stream::readable(m.bid) || !stream::readable(m.ask),
    ensures
        e.after_message(m, now) == (e, Seq::<ActionView>::empty()),
{
    lemma_quotes_are_no_bars(symbol);
}

/// The engine, and what is to be done, after one input on a symbol.
pub open spec fn after_input(e: EngineView, symbol: Seq<char>, input: Input) -> (EngineView, Seq<ActionView>) {
    match input {
        Input::Bar(k) => e.after_bar(symbol, k),
        Input::Quote { bid, ask, now } => e.after_quote(symbol, bid, ask, now),
    }
}

/// A bar or a quote of a tracked symbol goes to the tracker of the symbol,
/// with the stop, the target and the number of ghosts that the engine is set to, which
/// is kept from then on; what it tells is acted on by the subscribers; the rest of the
/// engine stays.
pub proof fn lemma_step(e: EngineView, symbol: Seq<char>, input: Input)
    requires
        e.wf(),
        table::lookup(e.trackers, symbol) is Some,
    ensures
        ({
            let t = table::lookup(e.trackers, symbol)->0;
            let (next, acts) = after_input(e, symbol, input);
            let (w, told) = laws::after(t, input, e.sl_percent, e.tp_percent, e.ghost_threshold);
            &&& table::lookup(next.trackers, symbol) == Some(w)
            &&& next == (EngineView { trackers: next.trackers, ..e })
            &&& acts == engine::all_actions(told, e.subscribers)
        }),
{
    let t = table::lookup(e.trackers, symbol)->0;
    let (w, told) = laws::after(t, input, e.sl_percent, e.tp_percent, e.ghost_threshold);
    table::lemma_put_lookup(e.trackers, symbol, w, symbol);
}

/// Every action is that of one subscriber on one event.
proof fn lemma_action_source(events: Seq<EventView>, subs: Seq<(i32, Subscriber)>, i: int)
    requires
        0 <= i < engine::all_actions(events, subs).len(),
    ensures
        exists|m: int, j: int|
            0 <= m < events.len() && 0 <= j < subs.len() && engine::all_actions(events, subs)[i]
                == #[trigger] engine::action_for(events[m], subs[j].1) && !engine::of_ghost(events[m]),
    decreases events.len(),
{
    if events.len() > 0 {
        let before = events.drop_last();
        let earlier = engine::all_actions(before, subs);
        if i < earlier.len() {
            lemma_action_source(before, subs, i);
            let (m, j) = choose|m: int, j: int|
                0 <= m < before.len() && 0 <= j < subs.len() && earlier[i]
                    == #[trigger] engine::action_for(before[m], subs[j].1) && !engine::of_ghost(before[m]);
            assert(engine::all_actions(events, subs)[i] == engine::action_for(
                events[m],
                subs[j].1,
            ));
        } else {
            let m = events.len() - 1;
            let j = i - earlier.len();
            assert(engine::all_actions(events, subs)[i] == engine::action_for(
                events[m],
                subs[j].1,
            ));
        }
    }
}

/// The actions of a bar or a quote are those of the subscribers of the engine, on the
/// symbol: an order is for the stake of its subscriber at its price, and has a stop
/// and a target as far from it as the engine is set to.
pub proof fn lemma_actions(e: EngineView, symbol: Seq<char>, input: Input, i: int)
    requires
        e.wf(),
        0 <= i < after_input(e, symbol, input).1.len(),
    ensures
        ({
            let a = after_input(e, symbol, input).1[i];
            exists|j: int|
                0 <= j < e.subscribers.len() && {
                    let sub = (#[trigger] e.subscribers[j]).1;
                    match a {
                        ActionView::CancelOld { sub_id, symbol: s } => s == symbol && sub_id
                            == sub.sub_id,
                        ActionView::Open { sub_id, symbol: s, direction, qty, price, sl, tp } => {
                            &&& s == symbol && sub_id == sub.sub_id
                            &&& qty == if num(figures::ZERO).below(price) {
                                sub.size.over(price)
                            } else {
                                sub.size
                            }
                            &&& input is Bar && price == input->0.close
                            &&& sl == price.times(
                                if direction == TradeDirection::Long {
                                    num(figures::ONE).minus(e.sl_percent.over(num(figures::HUNDRED)))
                                } else {
                                    num(figures::ONE).plus(e.sl_percent.over(num(figures::HUNDRED)))
                                },
                            )
                            &&& tp == price.times(
                                if direction == TradeDirection::Long {
                                    num(figures::ONE).plus(e.tp_percent.over(num(figures::HUNDRED)))
                                } else {
                                    num(figures::ONE).minus(e.tp_percent.over(num(figures::HUNDRED)))
                                },
                            )
                        },
                    }
                }
        }),
{
    if let Some(t) = table::lookup(e.trackers, symbol) {
        let (w, told) = laws::after(t, input, e.sl_percent, e.tp_percent, e.ghost_threshold);
        let acts = engine::all_actions(told, e.subscribers);
        assert(after_input(e, symbol, input).1 == acts);
        lemma_action_source(told, e.subscribers, i);
        let (m, j) = choose|m: int, j: int|
            0 <= m < told.len() && 0 <= j < e.subscribers.len() && acts[i]
                == #[trigger] engine::action_for(told[m], e.subscribers[j].1) && !engine::of_ghost(told[m]);
        assert(acts[i] == engine::action_for(told[m], e.subscribers[j].1));
        table::lemma_place(e.trackers, symbol);
        assert(t.symbol == symbol);
        assert(0 <= j < e.subscribers.len());
        let sub = e.subscribers[j].1;
    }
}

/// When an input happens.
pub open spec fn happens(input: Input) -> Moment {
    match input {
        Input::Bar(k) => k.datetime,
        Input::Quote { bid, ask, now } => now,
    }
}

/// The lowest and the highest price at which a trade could be left: those of a bar; of a
/// quote the bid for a long trade, which sells, and the ask for a short one.
pub open spec fn reach(input: Input, direction: TradeDirection) -> (Num, Num) {
    match input {
        Input::Bar(k) => (k.low, k.high),
        Input::Quote { bid, ask, now } => if direction == TradeDirection::Long {
            (bid, bid)
        } else {
            (ask, ask)
        },
    }
}

/// The price at which a trade is left within a reach, if it is: the far end where the stop
/// lies within, else the target where that does.
pub open spec fn exit_of(t: GridTradeView, input: Input) -> Option<Num> {
    let (low, high) = reach(input, t.direction);
    if t.direction == TradeDirection::Long && low.at_most(t.sl) {
        Some(low)
    } else if t.direction == TradeDirection::Short && t.sl.at_most(high) {
        Some(high)
    } else if (t.direction == TradeDirection::Long && t.tp.at_most(high)) || (t.direction
        == TradeDirection::Short && low.at_most(t.tp)) {
        Some(t.tp)
    } else {
        None
    }
}

/// The alignment that a trade is kept for.
pub open spec fn kept_for(direction: TradeDirection) -> AlligatorAlignment {
    if direction == TradeDirection::Long {
        AlligatorAlignment::Bullish
    } else {
        AlligatorAlignment::Bearish
    }
}

/// Where an open trade is left after an input, if it is: at its stop or target, or else at
/// the close of a bar with which the alignment has changed to another than its own.
pub open spec fn left_at(v: TrackerView, input: Input, w: TrackerView) -> Option<Num> {
    let t = v.active_trade->0;
    match exit_of(t, input) {
        Some(price) => Some(price),
        None => if input is Bar && w.alignment_changed && w.alignment != kept_for(t.direction) {
            Some(input->0.close)
        } else {
            None
        },
    }
}

/// An open trade is left exactly where its stop or target is reached, or where the
/// alignment turns away from it. It is then the last of the closed ones, as it was but for
/// its exit; otherwise it stays as it is.
pub proof fn lemma_exit(v: TrackerView, input: Input, sl_pct: Num, tp_pct: Num, threshold: i32)
    requires
        v.active_trade is Some,
    ensures
        ({
            let t = v.active_trade->0;
            let (w, told) = laws::after(v, input, sl_pct, tp_pct, threshold);
            match left_at(v, input, w) {
                Some(price) => {
                    &&& w.closed_trades == v.closed_trades.push(
                        GridTradeView {
                            exit_time: Some(happens(input)),
                            exit_price: Some(price),
                            status: TradeStatus::Closed,
                            ..t
                        },
                    )
                    &&& told.len() >= 1
                    &&& told[0] == (EventView::Exited {
                        symbol: v.symbol,
                        direction: t.direction,
                        is_ghost: t.is_ghost,
                    })
                },
                None => {
                    &&& w.active_trade == v.active_trade
                    &&& w.closed_trades == v.closed_trades
                    &&& told.len() == 0
                    &&& w.ghost_remaining == v.ghost_remaining
                    &&& w.ghost_triggered == v.ghost_triggered
                },
            }
        }),
{
}

/// What a bar does to the ghosts: a real trade that it ends at a loss starts as many as
/// the threshold says, unless some were started before; one that it ends without a loss
/// ends them; and one that enters uses up one of them, while there are any. A quote does
/// nothing to them.
pub proof fn lemma_ghosts(v: TrackerView, input: Input, sl_pct: Num, tp_pct: Num, threshold: i32)
    requires
        v.active_trade is Some,
        v.ghost_remaining >= 0,
    ensures
        ({
            let t = v.active_trade->0;
            let (w, told) = laws::after(v, input, sl_pct, tp_pct, threshold);
            let price = left_at(v, input, w)->0;
            let lost = if t.direction == TradeDirection::Long {
                price.below(t.entry_price)
            } else {
                t.entry_price.below(price)
            };
            let judged = input is Bar && left_at(v, input, w) is Some && !t.is_ghost;
            let to_come = if judged && lost && threshold > 0 && !v.ghost_triggered {
                threshold
            } else if judged && !lost {
                0
            } else {
                v.ghost_remaining
            };
            &&& w.ghost_remaining == to_come - if w.active_trade is Some && left_at(v, input, w)
                is Some && to_come > 0 {
                1int
            } else {
                0int
            }
            &&& w.ghost_triggered == if judged && lost && threshold > 0 {
                true
            } else if judged && !lost {
                false
            } else {
                v.ghost_triggered
            }
            &&& w.active_trade is Some && left_at(v, input, w) is Some
                ==> w.active_trade->0.is_ghost == (to_come > 0)
        }),
{
}

/// Every input leaves its price as the current one: the close of a bar, the middle of a
/// quote. A bar and its close are put behind the others; a quote leaves them.
pub proof fn lemma_noted(v: TrackerView, input: Input, sl_pct: Num, tp_pct: Num, threshold: i32)
    ensures
        ({
            let w = laws::after(v, input, sl_pct, tp_pct, threshold).0;
            &&& w.symbol == v.symbol && w.base_price == v.base_price
            &&& match input {
                Input::Bar(k) => {
                    &&& w.current_price == Some(k.close)
                    &&& w.klines.len() > 0 && w.klines.last() == k
                    &&& v.klines.len() < 5000 ==> w.klines == v.klines.push(k)
                    &&& v.klines.len() >= 5000 ==> w.klines == v.klines.skip(1).push(k)
                    &&& v.close_prices.len() < 500 ==> w.close_prices == v.close_prices.push(k.close)
                    &&& v.close_prices.len() >= 500 ==> w.close_prices == v.close_prices.skip(
                        1,
                    ).push(k.close)
                },
                Input::Quote { bid, ask, now } => {
                    &&& w.current_price == Some(bid.plus(ask).over(num(figures::TWO)))
                    &&& w.klines == v.klines && w.close_prices == v.close_prices
                    &&& w.alignment == v.alignment && w.alignment_changed == v.alignment_changed
                    &&& w.prev_alignment == v.prev_alignment
                    &&& v.active_trade is None ==> w.active_trade is None
                },
            }
        }),
{
    if let Input::Bar(k) = input {
        if v.klines.len() > 0 {
            assert(v.klines.push(k).skip(1) =~= v.klines.skip(1).push(k));
        }
        if v.close_prices.len() > 0 {
            assert(v.close_prices.push(k.close).skip(1) =~= v.close_prices.skip(1).push(k.close));
        }
    }
}

/// Without an open trade, or after one was left, a bar with which the alignment has changed
/// enters a trade in its direction. The trade starts at the time and the close of the bar,
/// and is labelled with the change; its stop and target are those that are told.
pub proof fn lemma_entry(v: TrackerView, k: KlineData, sl_pct: Num, tp_pct: Num, threshold: i32)
    requires
        v.active_trade is Some ==> left_at(
            v,
            Input::Bar(k),
            v.after_kline(k, sl_pct, tp_pct, threshold).0,
        ) is Some,
    ensures
        ({
            let (w, told) = laws::after(v, Input::Bar(k), sl_pct, tp_pct, threshold);
            let enters = w.alignment_changed && w.alignment != AlligatorAlignment::Mixed;
            let before = if v.active_trade is Some {
                1int
            } else {
                0int
            };
            &&& told.len() == before + if enters {
                1int
            } else {
                0int
            }
            &&& !enters ==> w.active_trade is None
            &&& enters ==> {
                let t = w.active_trade->0;
                &&& w.active_trade is Some
                &&& kept_for(t.direction) == w.alignment
                &&& t.symbol == v.symbol
                &&& t.entry_time == k.datetime
                &&& t.entry_price == k.close
                &&& t.exit_time is None && t.exit_price is None && t.status == TradeStatus::Open
                &&& t.signal_label == w.prev_alignment.name() + "→"@ + w.alignment.name()
                &&& told[before] == (EventView::Entered {
                    symbol: t.symbol,
                    direction: t.direction,
                    price: t.entry_price,
                    sl: t.sl,
                    tp: t.tp,
                    is_ghost: t.is_ghost,
                })
            }
        }),
{
}

/// The alignment is judged by the three averages as they are kept: bullish where the lips
/// lie above the teeth and these above the jaw, bearish where they lie the other way. From
/// the twenty-first close on every bar judges it, and notes the one before and whether it
/// changed; with fewer closes it stays.
pub proof fn lemma_alignment(v: TrackerView, k: KlineData, sl_pct: Num, tp_pct: Num, threshold: i32)
    ensures
        ({
            let w = v.after_kline(k, sl_pct, tp_pct, threshold).0;
            if w.close_prices.len() >= 21 {
                &&& w.alignment == AlligatorAlignment::Bullish <==> w.teeth_val.below(w.lips_val)
                    && w.jaw_val.below(w.teeth_val)
                &&& w.alignment == AlligatorAlignment::Bearish <==> w.lips_val.below(w.teeth_val)
                    && w.teeth_val.below(w.jaw_val)
                &&& w.prev_alignment == v.alignment
                &&& w.alignment_changed == (w.alignment != v.alignment)
                &&& w.jaw_values.len() == w.close_prices.len() - 12
                &&& w.teeth_values.len() == w.close_prices.len() - 7
                &&& w.lips_values.len() == w.close_prices.len() - 4
                &&& w.jaw_val == w.jaw_values[w.jaw_values.len() - 9]
                &&& w.teeth_val == w.teeth_values[w.teeth_values.len() - 6]
                &&& w.lips_val == w.lips_values[w.lips_values.len() - 4]
            } else {
                w.alignment == v.alignment && w.prev_alignment == v.prev_alignment
                    && w.alignment_changed == v.alignment_changed
            }
        }),
{
}

/// A command asks for, or gives up, the bars of its interval and the quotes of its symbols.
pub proof fn lemma_commands(s: Seq<char>, n: i32)
    ensures
        ({
            let bars = "kline."@ + text::decimal(n as int) + "."@ + s;
            &&& CommandView::Subscribe(s, n).request() == json::object_text(
                seq![
                    ("op"@, FieldView::Text("subscribe"@)),
                    ("args"@, FieldView::List(seq![bars, "tickers."@ + s])),
                ],
            )
            &&& CommandView::Unsubscribe(s, n).request() == json::object_text(
                seq![
                    ("op"@, FieldView::Text("unsubscribe"@)),
                    ("args"@, FieldView::List(seq![bars, "tickers."@ + s])),
                ],
            )
            &&& CommandView::ResubscribeAll(seq![s], n).request() == CommandView::Subscribe(
                s,
                n,
            ).request()
        }),
{
    stream::lemma_topics_read_back(n as int, s);
}

/// A symbol that is added is asked for with bars of the interval that the engine is set to,
/// and one that is removed given up, where there is a stream. Setting the interval asks
/// for all symbols again. Without a stream nothing is sent.
pub proof fn lemma_told(e: EngineView, key: Seq<char>, price: Option<Num>, minutes: i32)
    ensures
        e.accepts(key, price) <==> price is Some && num(figures::ZERO).below(price->0)
            && table::lookup(e.trackers, key) is None,
        e.added(key, price).outbox == if e.connected && e.accepts(key, price) {
            e.outbox.push(CommandView::Subscribe(key, e.interval_minutes))
        } else {
            e.outbox
        },
        !e.accepts(key, price) ==> e.added(key, price) == e,
        e.removed(key).outbox == if e.connected {
            e.outbox.push(CommandView::Unsubscribe(key, e.interval_minutes))
        } else {
            e.outbox
        },
        e.with_interval(minutes).interval_minutes == minutes,
        e.with_interval(minutes).trackers == e.trackers,
        e.with_interval(minutes).outbox == if e.connected && e.trackers.len() > 0 {
            e.outbox.push(
                CommandView::ResubscribeAll(
                    e.trackers.map_values(|row: (Seq<char>, TrackerView)| row.0),
                    minutes,
                ),
            )
        } else {
            e.outbox
        },
{
    assert(e.symbols() =~= e.trackers.map_values(|row: (Seq<char>, TrackerView)| row.0));
}

/// A bar of a tracked symbol that takes the engine's stop: with another setting of the
/// stop and the target only the trade that is entered differs, and only in these.
pub proof fn lemma_settings_reach_entries(
    v: TrackerView,
    k: KlineData,
    sl_pct: Num,
    tp_pct: Num,
    sl_other: Num,
    tp_other: Num,
    threshold: i32,
)
    ensures
        ({
            let w = v.after_kline(k, sl_pct, tp_pct, threshold).0;
            let x = v.after_kline(k, sl_other, tp_other, threshold).0;
            x == (TrackerView {
                active_trade: match w.active_trade {
                    Some(t) => Some(
                        GridTradeView { sl: x.active_trade->0.sl, tp: x.active_trade->0.tp, ..t },
                    ),
                    None => None,
                },
                ..w
            })
        }),
{
}

} // verus!
