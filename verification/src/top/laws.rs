//! What holds of the one-sided engine over many bars and quotes.
use vstd::prelude::*;
use crate::market;
use crate::market::KlineData;
use crate::num::Num;
use crate::table;
use crate::time::Moment;
use crate::top::engine;
use crate::top::engine::{ActionView, EngineView, Subscriber};
use crate::top::tracker;
use crate::top::tracker::{EventView, Side, TrackerView};

verus! {

/// What a tracker takes in.
pub enum Input {
    Bar(KlineData),
    Quote { bid: Num, ask: Num, now: Moment },
}

/// The tracker, and what it tells, after one input.
pub open spec fn after(v: TrackerView, input: Input) -> (TrackerView, EventView) {
    match input {
        Input::Bar(k) => v.after_kline(k),
        Input::Quote { bid, ask, now } => v.after_quote(bid, ask, now),
    }
}

/// The tracker after some inputs.
pub open spec fn run(v: TrackerView, inputs: Seq<Input>) -> TrackerView
    decreases inputs.len(),
{
    if inputs.len() == 0 {
        v
    } else {
        after(run(v, inputs.drop_last()), inputs.last()).0
    }
}

/// The first entry fixes the entry price and its stop: the first bar or quote enters, and
/// no later one changes either.
pub proof fn lemma_first_entry_stays(v: TrackerView, input: Input)
    requires
        v.wf(),
    ensures
        ({
            let (w, told) = after(v, input);
            &&& w.entry_price is Some
            &&& w.sl == Some(v.direction.stop_for(w.entry_price->0))
            &&& v.entry_price is Some ==> w.entry_price == v.entry_price && w.sl == v.sl
        }),
{
    match input {
        Input::Bar(k) => tracker::lemma_kline_wf(v, k),
        Input::Quote { bid, ask, now } => tracker::lemma_quote_wf(v, bid, ask, now),
    }
}

/// What many inputs keep: a tracker stays well formed; its symbol and side do not change,
/// nor, once there is one, its entry price and stop; and closed trades are only ever
/// appended.
pub proof fn lemma_run_keeps(v: TrackerView, inputs: Seq<Input>)
    requires
        v.wf(),
    ensures
        run(v, inputs).wf(),
        run(v, inputs).symbol == v.symbol,
        run(v, inputs).direction == v.direction,
        v.entry_price is Some ==> run(v, inputs).entry_price == v.entry_price && run(v, inputs).sl
            == v.sl,
        v.closed_trades.is_prefix_of(run(v, inputs).closed_trades),
    decreases inputs.len(),
{
    if inputs.len() > 0 {
        lemma_run_keeps(v, inputs.drop_last());
        let w = run(v, inputs.drop_last());
        lemma_first_entry_stays(w, inputs.last());
        lemma_closed_at_the_stop(w, inputs.last());
        match inputs.last() {
            Input::Bar(k) => tracker::lemma_kline_wf(w, k),
            Input::Quote { bid, ask, now } => tracker::lemma_quote_wf(w, bid, ask, now),
        }
    }
}

/// A trade that is told to be entered is the first one, or one after a stop; in the
/// latter case the price has passed the first entry in the direction of the side. It is
/// then the active trade.
pub proof fn lemma_reentry(v: TrackerView, input: Input)
    requires
        v.wf(),
    ensures
        ({
            let (w, told) = after(v, input);
            told is Entered ==> {
                &&& told->direction == v.direction
                &&& !v.in_position
                &&& w.in_position
                &&& w.active_trade is Some
                &&& w.active_trade->0.entry_price == told->price
                &&& v.entry_price is Some ==> v.waiting_for_reentry && v.direction.passed(
                    told->price,
                    v.entry_price->0,
                )
            }
        }),
{
}

/// After a stop nothing happens until the price passes the first entry: a bar or quote
/// whose price to enter at has not passed it leaves the trades as they are.
pub proof fn lemma_waits(v: TrackerView, bid: Num, ask: Num, now: Moment)
    requires
        v.wf(),
        v.waiting_for_reentry,
        !v.direction.passed(v.direction.entry_price(bid, ask), v.entry_price->0),
    ensures
        ({
            let (w, told) = v.after_quote(bid, ask, now);
            &&& told is Nothing
            &&& w.waiting_for_reentry
            &&& w.active_trade is None
            &&& w.closed_trades == v.closed_trades
        }),
{
}

/// A trade is closed only at the stop, and at most one by one input; then the tracker
/// waits to enter again, and it is told. Closed trades are only ever appended.
pub proof fn lemma_closed_at_the_stop(v: TrackerView, input: Input)
    requires
        v.wf(),
    ensures
        ({
            let (w, told) = after(v, input);
            &&& v.closed_trades.is_prefix_of(w.closed_trades)
            &&& w.closed_trades.len() <= v.closed_trades.len() + 1
            &&& told is Exited <==> w.closed_trades.len() == v.closed_trades.len() + 1
            &&& told is Exited ==> {
                &&& w.waiting_for_reentry
                &&& w.active_trade is None
                &&& w.closed_trades.last().exit_price == w.sl
                &&& w.closed_trades.last().finished()
            }
        }),
{
}

/// How many of some subscribers follow a side.
pub open spec fn followers(side: Side, subs: Seq<(i32, Subscriber)>) -> nat
    decreases subs.len(),
{
    if subs.len() == 0 {
        0
    } else {
        followers(side, subs.drop_last()) + if subs.last().1.side == side {
            1nat
        } else {
            0nat
        }
    }
}

/// All subscribers of a side, and no others, place an order on the symbol, each once and
/// for its own stake.
pub proof fn lemma_matching_subscribers_order(
    symbol: Seq<char>,
    side: Side,
    price: Num,
    subs: Seq<(i32, Subscriber)>,
)
    ensures
        engine::orders(symbol, side, price, subs).len() == followers(side, subs),
        forall|i: int|
            0 <= i < engine::orders(symbol, side, price, subs).len() ==> exists|j: int|
                0 <= j < subs.len() && subs[j].1.side == side && #[trigger] engine::orders(
                    symbol,
                    side,
                    price,
                    subs,
                )[i] == #[trigger] order_of(symbol, price, subs[j].1),
        forall|j: int|
            0 <= j < subs.len() && (#[trigger] subs[j]).1.side == side ==> engine::orders(
                symbol,
                side,
                price,
                subs,
            ).contains(order_of(symbol, price, subs[j].1)),
    decreases subs.len(),
{
    if subs.len() > 0 {
        let rest = subs.drop_last();
        lemma_matching_subscribers_order(symbol, side, price, rest);
        let before = engine::orders(symbol, side, price, rest);
        let all = engine::orders(symbol, side, price, subs);
        let last = subs.last().1;
        assert forall|i: int| 0 <= i < all.len() implies exists|j: int|
            0 <= j < subs.len() && subs[j].1.side == side && #[trigger] all[i] == #[trigger] order_of(
                symbol,
                price,
                subs[j].1,
            ) by {
            if i < before.len() {
                assert(all[i] == before[i]);
                let j = choose|j: int|
                    0 <= j < rest.len() && rest[j].1.side == side && before[i] == #[trigger] order_of(
                        symbol,
                        price,
                        rest[j].1,
                    );
                assert(subs[j] == rest[j]);
            } else {
                assert(all[i] == order_of(symbol, price, subs[subs.len() - 1].1));
            }
        }
        assert forall|j: int| 0 <= j < subs.len() && (#[trigger] subs[j]).1.side
            == side implies all.contains(order_of(symbol, price, subs[j].1)) by {
            if j < rest.len() {
                assert(subs[j] == rest[j]);
                assert(before.contains(order_of(symbol, price, rest[j].1)));
                let i = choose|i: int|
                    0 <= i < before.len() && before[i] == order_of(symbol, price, rest[j].1);
                assert(all[i] == before[i]);
            } else {
                assert(all[all.len() - 1] == order_of(symbol, price, last));
            }
        }
    }
}

/// The order that a subscriber places.
pub open spec fn order_of(symbol: Seq<char>, price: Num, sub: Subscriber) -> ActionView {
    ActionView::Open {
        sub_id: sub.sub_id,
        symbol,
        side: sub.side,
        qty: market::stake_quantity(sub.size, price),
    }
}

/// A symbol that is added for a side is watched for it, from its start; all others stay
/// as they were. It cannot be added for that side again, but for the other.
pub proof fn lemma_added(
    e: EngineView,
    key: Seq<char>,
    side: Side,
    quote: Option<(Num, Num)>,
    now: Moment,
    other: Seq<char>,
)
    requires
        e.wf(),
        e.accepts(key, side),
    ensures
        ({
            let w = e.added(key, side, quote, now).0;
            &&& table::lookup(w.trackers, key) is Some
            &&& table::lookup(w.trackers, key)->0.direction == side
            &&& table::lookup(w.trackers, key)->0.closed_trades.len() == 0
            &&& other != key ==> table::lookup(w.trackers, other) == table::lookup(
                e.trackers,
                other,
            )
            &&& w.subscribers == e.subscribers
            &&& !w.accepts(key, side)
            &&& forall|s: Side| s != side ==> #[trigger] w.accepts(key, s)
        }),
{
    let (bid, ask) = match quote {
        Some(q) => q,
        None => (
            crate::num::num(crate::figures::ZERO),
            crate::num::num(crate::figures::ZERO),
        ),
    };
    let t = engine::started(key, side, bid, ask, now);
    table::lemma_put_lookup(e.trackers, key, t, other);
    table::lemma_put_lookup(e.trackers, key, t, key);
}

/// A symbol that is removed is no longer tracked; all others stay as they were.
pub proof fn lemma_removed(e: EngineView, key: Seq<char>, other: Seq<char>)
    requires
        e.wf(),
    ensures
        table::lookup(e.removed(key).trackers, key) is None,
        other != key ==> table::lookup(e.removed(key).trackers, other) == table::lookup(
            e.trackers,
            other,
        ),
        e.removed(key).subscribers == e.subscribers,
{
    table::lemma_without_lookup(e.trackers, key, other);
    table::lemma_without_lookup(e.trackers, key, key);
}

/// A bar or a quote of a symbol that is not tracked changes nothing.
pub proof fn lemma_untracked(e: EngineView, symbol: Seq<char>, k: KlineData, bid: Num, ask: Num, now: Moment)
    requires
        table::lookup(e.trackers, symbol) is None,
    ensures
        e.after_bar(symbol, k) == (e, Seq::<ActionView>::empty()),
        e.after_quote(symbol, bid, ask, now) == (e, Seq::<ActionView>::empty()),
{
}

/// A bar or a quote of a symbol leaves the trackers of all others as they were, and the
/// subscribers too.
pub proof fn lemma_others_untouched(
    e: EngineView,
    symbol: Seq<char>,
    other: Seq<char>,
    k: KlineData,
    bid: Num,
    ask: Num,
    now: Moment,
)
    requires
        e.wf(),
        other != symbol,
    ensures
        table::lookup(e.after_bar(symbol, k).0.trackers, other) == table::lookup(e.trackers, other),
        table::lookup(e.after_quote(symbol, bid, ask, now).0.trackers, other) == table::lookup(
            e.trackers,
            other,
        ),
        e.after_bar(symbol, k).0.subscribers == e.subscribers,
        e.after_quote(symbol, bid, ask, now).0.subscribers == e.subscribers,
{
    if let Some(t) = table::lookup(e.trackers, symbol) {
        table::lemma_put_lookup(e.trackers, symbol, t.after_kline(k).0, other);
        table::lemma_put_lookup(e.trackers, symbol, t.after_quote(bid, ask, now).0, other);
    }
}

} // verus!
