//! What holds of the grid engine over many bars and quotes.
use vstd::prelude::*;
use crate::arithmetic;
use crate::figures;
use crate::market;
use crate::market::{KlineData, TradeDirection};
use crate::num::{num, Num};
use crate::table;
use crate::time::Moment;
use crate::grid::engine;
use crate::grid::engine::{ActionView, EngineView, Subscriber};
use crate::grid::tracker;
use crate::grid::tracker::{EventView, TrackerView};

verus! {

/// What a tracker takes in.
pub enum Input {
    Bar(KlineData),
    Quote { bid: Num, ask: Num, now: Moment },
}

/// The tracker, and what it tells, after one input.
pub open spec fn after(v: TrackerView, input: Input) -> (TrackerView, Seq<EventView>) {
    match input {
        Input::Bar(k) => v.after_kline(k),
        Input::Quote { bid, ask, now } => v.after_quote(bid, ask, now),
    }
}

/// The tracker, and all that it told, after some inputs.
pub open spec fn run(v: TrackerView, inputs: Seq<Input>) -> (TrackerView, Seq<EventView>)
    decreases inputs.len(),
{
    if inputs.len() == 0 {
        (v, Seq::empty())
    } else {
        let (w, told) = run(v, inputs.drop_last());
        let (next, more) = after(w, inputs.last());
        (next, told + more)
    }
}

/// How many events tell of a trade that was entered.
pub open spec fn entries(events: Seq<EventView>) -> nat
    decreases events.len(),
{
    if events.len() == 0 {
        0
    } else {
        entries(events.drop_last()) + if events.last() is Entered {
            1nat
        } else {
            0nat
        }
    }
}

/// Whether entries and exits alternate, starting with an exit where a trade is open.
pub open spec fn alternate(events: Seq<EventView>, open: bool) -> bool {
    forall|i: int|
        0 <= i < events.len() ==> ((#[trigger] events[i]) is Exited <==> (i % 2 == 0) == open)
}

/// The entries of two lists are those of both.
pub proof fn lemma_entries_add(a: Seq<EventView>, b: Seq<EventView>)
    ensures
        entries(a + b) == entries(a) + entries(b),
    decreases b.len(),
{
    if b.len() == 0 {
        assert(a + b =~= a);
    } else {
        lemma_entries_add(a, b.drop_last());
        assert((a + b).drop_last() =~= a + b.drop_last());
    }
}

/// The entries of a list of one or two.
proof fn lemma_entries_short(events: Seq<EventView>)
    ensures
        events.len() == 1 ==> entries(events) == if events[0] is Entered {
            1nat
        } else {
            0nat
        },
        events.len() == 2 ==> entries(events) == (if events[0] is Entered {
            1nat
        } else {
            0nat
        }) + (if events[1] is Entered {
            1nat
        } else {
            0nat
        }),
{
    reveal_with_fuel(entries, 3);
    if events.len() == 1 {
        assert(events.drop_last().len() == 0);
    }
    if events.len() == 2 {
        assert(events.drop_last().drop_last().len() == 0);
        assert(events.drop_last().last() == events[0]);
    }
}

/// One input: there is at most one trade at a time, so that a trade is left before the
/// next is entered; closed trades are only ever appended; and every trade that was
/// entered is counted.
pub proof fn lemma_one_trade_at_a_time(v: TrackerView, input: Input)
    ensures
        ({
            let (w, told) = after(v, input);
            &&& told.len() <= 2
            &&& alternate(told, v.active_trade is Some)
            &&& (w.active_trade is Some) == ((v.active_trade is Some) == (told.len() % 2 == 0))
            &&& v.closed_trades.is_prefix_of(w.closed_trades)
            &&& w.attempts() == v.attempts() + entries(told)
        }),
{
    let (w, told) = after(v, input);
    lemma_entries_short(told);
}

/// Many inputs: entries and exits alternate, closed trades are only ever appended, and
/// every trade that was entered is counted.
pub proof fn lemma_trades_alternate(v: TrackerView, inputs: Seq<Input>)
    ensures
        ({
            let (w, told) = run(v, inputs);
            &&& alternate(told, v.active_trade is Some)
            &&& (w.active_trade is Some) == ((v.active_trade is Some) == (told.len() % 2 == 0))
            &&& v.closed_trades.is_prefix_of(w.closed_trades)
            &&& w.attempts() == v.attempts() + entries(told)
        }),
    decreases inputs.len(),
{
    if inputs.len() > 0 {
        let (w, told) = run(v, inputs.drop_last());
        let (next, more) = after(w, inputs.last());
        lemma_trades_alternate(v, inputs.drop_last());
        lemma_one_trade_at_a_time(w, inputs.last());
        lemma_entries_add(told, more);
        let all = told + more;
        let open = v.active_trade is Some;
        assert forall|i: int| 0 <= i < all.len() implies ((#[trigger] all[i]) is Exited <==> (i % 2
            == 0) == open) by {
            if i < told.len() {
                assert(all[i] == told[i]);
            } else {
                assert(all[i] == more[i - told.len()]);
            }
        }
    }
}

/// What many inputs keep: a tracker stays well formed, and its symbol and base do not
/// change.
pub proof fn lemma_run_wf(v: TrackerView, inputs: Seq<Input>)
    requires
        v.wf(),
    ensures
        run(v, inputs).0.wf(),
        run(v, inputs).0.symbol == v.symbol,
        run(v, inputs).0.base_price == v.base_price,
    decreases inputs.len(),
{
    if inputs.len() > 0 {
        lemma_run_wf(v, inputs.drop_last());
        let w = run(v, inputs.drop_last()).0;
        match inputs.last() {
            Input::Bar(k) => tracker::lemma_kline_wf(w, k),
            Input::Quote { bid, ask, now } => tracker::lemma_quote_wf(w, bid, ask, now),
        }
    }
}

/// A trade is entered only where a level was crossed since the last close or quote that
/// was noted, and against the move: short above it, long below. A bar enters at its
/// close; a quote at the bid if short, at the ask if long.
pub proof fn lemma_against_the_move(v: TrackerView, input: Input)
    ensures
        ({
            let (w, told) = after(v, input);
            forall|i: int|
                0 <= i < told.len() && (#[trigger] told[i]) is Entered ==> {
                    let level = tracker::level_of(
                        match input {
                            Input::Bar(k) => k.close,
                            Input::Quote { bid, ask, now } => market::middle(bid, ask),
                        },
                        v.base_price,
                    );
                    &&& v.last_close_level is Some
                    &&& w.last_close_level == Some(level)
                    &&& told[i]->Entered_level == level
                    &&& told[i]->Entered_direction == TradeDirection::Short ==> level
                        > v.last_close_level->0
                    &&& told[i]->Entered_direction == TradeDirection::Long ==> level
                        < v.last_close_level->0
                    &&& told[i]->price == match input {
                        Input::Bar(k) => k.close,
                        Input::Quote { bid, ask, now } => if told[i]->Entered_direction
                            == TradeDirection::Short {
                            bid
                        } else {
                            ask
                        },
                    }
                    &&& (told[i]->sl, told[i]->tp) == tracker::grid_bracket(
                        told[i]->Entered_direction,
                        told[i]->price,
                    )
                    &&& w.active_trade is Some
                    &&& w.active_trade->0.direction == told[i]->Entered_direction
                    &&& w.active_trade->0.entry_price == told[i]->price
                }
        }),
{
}

/// Where no trade is open and the level has not changed, nothing is entered or left.
pub proof fn lemma_quiet_level(v: TrackerView, input: Input)
    requires
        v.active_trade is None,
        v.last_close_level == Some(
            tracker::level_of(
                match input {
                    Input::Bar(k) => k.close,
                    Input::Quote { bid, ask, now } => market::middle(bid, ask),
                },
                v.base_price,
            ),
        ),
    ensures
        after(v, input).1.len() == 0,
        after(v, input).0.active_trade is None,
        after(v, input).0.closed_trades == v.closed_trades,
{
}

/// The price at which a symbol was added is at level zero, and level zero is that price.
pub proof fn lemma_base_is_level_zero(base: Num)
    requires
        arithmetic::positive(base),
    ensures
        tracker::level_of(base, base) == 0,
        tracker::price_for_level(0, base) == base,
{
    let zero = num(figures::ZERO);
    let one = num(figures::ONE);
    let step = num(figures::HALF_PERCENT);
    arithmetic::lemma_over_itself(base);
    arithmetic::lemma_minus_itself(one);
    arithmetic::lemma_zero_parts(step);
    arithmetic::lemma_zero_whole();
    arithmetic::lemma_zero_plus_one();
    arithmetic::lemma_times_one(base);
}

/// The level does not fall when the price rises.
pub proof fn lemma_levels_rise(low: Num, high: Num, base: Num)
    requires
        arithmetic::positive(base),
        low.at_most(high),
    ensures
        tracker::level_of(low, base) <= tracker::level_of(high, base),
{
    let one = num(figures::ONE);
    let step = num(figures::HALF_PERCENT);
    let a = low.over(base);
    let b = high.over(base);
    arithmetic::lemma_over_monotone(low, high, base);
    arithmetic::lemma_plus_monotone(a, b, one.negated());
    arithmetic::lemma_over_monotone(a.minus(one), b.minus(one), step);
    let c = a.minus(one).over(step);
    let d = b.minus(one).over(step);
    arithmetic::lemma_rounded_monotone(c, d);
    arithmetic::lemma_to_i32_monotone(c.rounded(), d.rounded());
}

/// The stop of a trade lies on its losing side and the target on its winning side, or at
/// the price itself.
pub proof fn lemma_bracket_sides(price: Num)
    requires
        arithmetic::positive(price),
    ensures
        tracker::grid_bracket(TradeDirection::Long, price).0.at_most(price),
        price.at_most(tracker::grid_bracket(TradeDirection::Long, price).1),
        price.at_most(tracker::grid_bracket(TradeDirection::Short, price).0),
        tracker::grid_bracket(TradeDirection::Short, price).1.at_most(price),
{
    let one = num(figures::ONE);
    let up = num(figures::UP_HALF_PERCENT);
    let down = num(figures::DOWN_HALF_PERCENT);
    let far_up = num(figures::UP_ONE_AND_A_HALF_PERCENT);
    let far_down = num(figures::DOWN_ONE_AND_A_HALF_PERCENT);
    arithmetic::lemma_times_one(price);
    arithmetic::lemma_times_monotone(one, up, price);
    arithmetic::lemma_times_monotone(one, far_up, price);
    arithmetic::lemma_times_monotone(down, one, price);
    arithmetic::lemma_times_monotone(far_down, one, price);
    arithmetic::lemma_times_commutes(up, price);
    arithmetic::lemma_times_commutes(far_up, price);
    arithmetic::lemma_times_commutes(down, price);
    arithmetic::lemma_times_commutes(far_down, price);
}

/// A trade leaves only at its target, or at a price that has reached its stop.
pub proof fn lemma_leaves_at_stop_or_target(v: TrackerView, input: Input)
    ensures
        ({
            let (w, told) = after(v, input);
            told.len() > 0 && told[0] is Exited ==> {
                let t = v.active_trade->0;
                let left = w.closed_trades.last();
                let price = left.exit_price->0;
                &&& v.active_trade is Some
                &&& w.closed_trades.len() == v.closed_trades.len() + 1
                &&& left.finished()
                &&& left.entry_price == t.entry_price && left.entry_time == t.entry_time
                &&& price == t.tp || if t.direction.long() {
                    price.at_most(t.sl)
                } else {
                    t.sl.at_most(price)
                }
            }
        }),
{
}

/// Every subscriber acts on every event: on an entry it opens a trade in the same
/// direction, for its own stake; on an exit it takes back its old orders.
pub proof fn lemma_every_subscriber_acts(events: Seq<EventView>, subs: Seq<(i32, Subscriber)>)
    ensures
        engine::all_actions(events, subs).len() == events.len() * subs.len(),
        forall|i: int, j: int|
            0 <= i < events.len() && 0 <= j < subs.len() ==> engine::all_actions(events, subs)[i
                * subs.len() + j] == #[trigger] engine::action_for(events[i], (#[trigger] subs[j]).1),
    decreases events.len(),
{
    let n = subs.len() as int;
    if events.len() > 0 {
        let before = events.drop_last();
        lemma_every_subscriber_acts(before, subs);
        let m = before.len() as int;
        assert((m + 1) * n == m * n + n) by (nonlinear_arith);
        let all = engine::all_actions(events, subs);
        assert forall|i: int, j: int| 0 <= i < events.len() && 0 <= j < subs.len() implies all[i * n
            + j] == #[trigger] engine::action_for(events[i], (#[trigger] subs[j]).1) by {
            if i < m {
                assert(i * n + j < m * n) by (nonlinear_arith)
                    requires
                        0 <= i < m,
                        0 <= j < n,
                ;
                assert(i * n >= 0) by (nonlinear_arith)
                    requires
                        0 <= i,
                        0 <= n,
                ;
                assert(engine::all_actions(before, subs)[i * n + j] == engine::action_for(
                    before[i],
                    subs[j].1,
                ));
            } else {
                assert(i == m);
                assert(all[m * n + j] == engine::actions_for(events.last(), subs)[j]);
            }
        }
    } else {
        assert(0 * n == 0);
    }
}

/// A symbol that is added is tracked from its price as the base; all others stay as they
/// were. It cannot be added again.
pub proof fn lemma_added(e: EngineView, key: Seq<char>, price: Option<Num>, other: Seq<char>)
    requires
        e.wf(),
        e.accepts(key, price),
    ensures
        table::lookup(e.added(key, price).trackers, key) == Some(
            TrackerView::fresh(key, price->0),
        ),
        TrackerView::fresh(key, price->0).base_price == price->0,
        other != key ==> table::lookup(e.added(key, price).trackers, other) == table::lookup(
            e.trackers,
            other,
        ),
        e.added(key, price).subscribers == e.subscribers,
        forall|again: Option<Num>| !#[trigger] e.added(key, price).accepts(key, again),
{
    table::lemma_put_lookup(e.trackers, key, TrackerView::fresh(key, price->0), other);
    table::lemma_put_lookup(e.trackers, key, TrackerView::fresh(key, price->0), key);
}

/// A symbol that is removed is no longer tracked; all others stay as they were.
pub proof fn lemma_removed(e: EngineView, key: Seq<char>, other: Seq<char>)
    requires
        e.wf(),
    ensures
        table::lookup(e.removed(key).trackers, key) is None,
        other != key ==> table::lookup(e.removed(key).trackers, other) == table::lookup(
            e.trackers,
            other,
        ),
        e.removed(key).subscribers == e.subscribers,
{
    table::lemma_without_lookup(e.trackers, key, other);
    table::lemma_without_lookup(e.trackers, key, key);
}

/// A bar or a quote of a symbol that is not tracked changes nothing.
pub proof fn lemma_untracked(e: EngineView, symbol: Seq<char>, k: KlineData, bid: Num, ask: Num, now: Moment)
    requires
        table::lookup(e.trackers, symbol) is None,
    ensures
        e.after_bar(symbol, k) == (e, Seq::<ActionView>::empty()),
        e.after_quote(symbol, bid, ask, now) == (e, Seq::<ActionView>::empty()),
{
}

/// A bar or a quote of a symbol leaves the trackers of all others as they were, and the
/// subscribers too.
pub proof fn lemma_others_untouched(
    e: EngineView,
    symbol: Seq<char>,
    other: Seq<char>,
    k: KlineData,
    bid: Num,
    ask: Num,
    now: Moment,
)
    requires
        e.wf(),
        other != symbol,
    ensures
        table::lookup(e.after_bar(symbol, k).0.trackers, other) == table::lookup(e.trackers, other),
        table::lookup(e.after_quote(symbol, bid, ask, now).0.trackers, other) == table::lookup(
            e.trackers,
            other,
        ),
        e.after_bar(symbol, k).0.subscribers == e.subscribers,
        e.after_quote(symbol, bid, ask, now).0.subscribers == e.subscribers,
{
    if let Some(t) = table::lookup(e.trackers, symbol) {
        table::lemma_put_lookup(e.trackers, symbol, t.after_kline(k).0, other);
        table::lemma_put_lookup(e.trackers, symbol, t.after_quote(bid, ask, now).0, other);
    }
}

} // verus!
