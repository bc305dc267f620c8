//! What holds of the alligator engine over many bars and quotes.
use vstd::prelude::*;
use crate::market;
use crate::market::{KlineData, TradeDirection};
use crate::num::Num;
use crate::table;
use crate::time::Moment;
use crate::william::engine;
use crate::william::engine::{ActionView, EngineView, Subscriber};
use crate::william::score;
use crate::william::tracker;
use crate::william::tracker::{EventView, TrackerView};

verus! {

/// What a tracker takes in.
pub enum Input {
    Bar(KlineData),
    Quote { bid: Num, ask: Num, now: Moment },
}

/// The tracker, and what it tells, after one input.
pub open spec fn after(v: TrackerView, input: Input, sl_pct: Num, tp_pct: Num, threshold: i32) -> (TrackerView, Seq<EventView>) {
    match input {
        Input::Bar(k) => v.after_kline(k, sl_pct, tp_pct, threshold),
        Input::Quote { bid, ask, now } => v.after_quote(bid, ask, now),
    }
}

/// The tracker, and all that it told, after some inputs.
pub open spec fn run(v: TrackerView, inputs: Seq<Input>, sl_pct: Num, tp_pct: Num, threshold: i32) -> (TrackerView, Seq<EventView>)
    decreases inputs.len(),
{
    if inputs.len() == 0 {
        (v, Seq::empty())
    } else {
        let (w, told) = run(v, inputs.drop_last(), sl_pct, tp_pct, threshold);
        let (next, more) = after(w, inputs.last(), sl_pct, tp_pct, threshold);
        (next, told + more)
    }
}

/// How many events tell of a trade that was entered.
pub open spec fn entries(events: Seq<EventView>) -> nat
    decreases events.len(),
{
    if events.len() == 0 {
        0
    } else {
        entries(events.drop_last()) + if events.last() is Entered {
            1nat
        } else {
            0nat
        }
    }
}

/// Whether entries and exits alternate, starting with an exit where a trade is open.
pub open spec fn alternate(events: Seq<EventView>, open: bool) -> bool {
    forall|i: int|
        0 <= i < events.len() ==> ((#[trigger] events[i]) is Exited <==> (i % 2 == 0) == open)
}

/// The entries of two lists are those of both.
pub proof fn lemma_entries_add(a: Seq<EventView>, b: Seq<EventView>)
    ensures
        entries(a + b) == entries(a) + entries(b),
    decreases b.len(),
{
    if b.len() == 0 {
        assert(a + b =~= a);
    } else {
        lemma_entries_add(a, b.drop_last());
        assert((a + b).drop_last() =~= a + b.drop_last());
    }
}

/// The entries of a list of one or two.
proof fn lemma_entries_short(events: Seq<EventView>)
    ensures
        events.len() == 1 ==> entries(events) == if events[0] is Entered {
            1nat
        } else {
            0nat
        },
        events.len() == 2 ==> entries(events) == (if events[0] is Entered {
            1nat
        } else {
            0nat
        }) + (if events[1] is Entered {
            1nat
        } else {
            0nat
        }),
{
    reveal_with_fuel(entries, 3);
    if events.len() == 1 {
        assert(events.drop_last().len() == 0);
    }
    if events.len() == 2 {
        assert(events.drop_last().drop_last().len() == 0);
        assert(events.drop_last().last() == events[0]);
    }
}

/// How many trades were entered, ghosts counted too.
pub open spec fn all_attempts(v: TrackerView) -> nat {
    v.closed_trades.len() + if v.active_trade is Some {
        1nat
    } else {
        0nat
    }
}

/// One input: there is at most one trade at a time, so that a trade is left before the
/// next is entered; closed trades are only ever appended; and every trade that was
/// entered is kept.
pub proof fn lemma_one_trade_at_a_time(
    v: TrackerView,
    input: Input,
    sl_pct: Num,
    tp_pct: Num,
    threshold: i32,
)
    ensures
        ({
            let (w, told) = after(v, input, sl_pct, tp_pct, threshold);
            &&& told.len() <= 2
            &&& alternate(told, v.active_trade is Some)
            &&& (w.active_trade is Some) == ((v.active_trade is Some) == (told.len() % 2 == 0))
            &&& v.closed_trades.is_prefix_of(w.closed_trades)
            &&& all_attempts(w) == all_attempts(v) + entries(told)
        }),
{
    let (w, told) = after(v, input, sl_pct, tp_pct, threshold);
    lemma_entries_short(told);
}

/// Many inputs: entries and exits alternate, closed trades are only ever appended, and
/// every trade that was entered is kept.
pub proof fn lemma_trades_alternate(
    v: TrackerView,
    inputs: Seq<Input>,
    sl_pct: Num,
    tp_pct: Num,
    threshold: i32,
)
    ensures
        ({
            let (w, told) = run(v, inputs, sl_pct, tp_pct, threshold);
            &&& alternate(told, v.active_trade is Some)
            &&& (w.active_trade is Some) == ((v.active_trade is Some) == (told.len() % 2 == 0))
            &&& v.closed_trades.is_prefix_of(w.closed_trades)
            &&& all_attempts(w) == all_attempts(v) + entries(told)
        }),
    decreases inputs.len(),
{
    if inputs.len() > 0 {
        let (w, told) = run(v, inputs.drop_last(), sl_pct, tp_pct, threshold);
        let (next, more) = after(w, inputs.last(), sl_pct, tp_pct, threshold);
        lemma_trades_alternate(v, inputs.drop_last(), sl_pct, tp_pct, threshold);
        lemma_one_trade_at_a_time(w, inputs.last(), sl_pct, tp_pct, threshold);
        lemma_entries_add(told, more);
        let all = told + more;
        let open = v.active_trade is Some;
        assert forall|i: int| 0 <= i < all.len() implies ((#[trigger] all[i]) is Exited <==> (i % 2
            == 0) == open) by {
            if i < told.len() {
                assert(all[i] == told[i]);
            } else {
                assert(all[i] == more[i - told.len()]);
            }
        }
    }
}

/// What many inputs keep: a tracker stays well formed, and its symbol and base do not
/// change.
pub proof fn lemma_run_wf(
    v: TrackerView,
    inputs: Seq<Input>,
    sl_pct: Num,
    tp_pct: Num,
    threshold: i32,
)
    requires
        v.wf(),
    ensures
        run(v, inputs, sl_pct, tp_pct, threshold).0.wf(),
        run(v, inputs, sl_pct, tp_pct, threshold).0.symbol == v.symbol,
        run(v, inputs, sl_pct, tp_pct, threshold).0.base_price == v.base_price,
    decreases inputs.len(),
{
    if inputs.len() > 0 {
        lemma_run_wf(v, inputs.drop_last(), sl_pct, tp_pct, threshold);
        let w = run(v, inputs.drop_last(), sl_pct, tp_pct, threshold).0;
        match inputs.last() {
            Input::Bar(k) => tracker::lemma_kline_wf(w, k, sl_pct, tp_pct, threshold),
            Input::Quote { bid, ask, now } => tracker::lemma_quote_wf(w, bid, ask, now),
        }
    }
}

/// Every subscriber acts on an event of a trade that is no ghost: on an entry it opens a
/// trade in the same direction, for its own stake; on an exit it takes back its old
/// orders. On a ghost nobody acts.
pub proof fn lemma_every_subscriber_acts(event: EventView, subs: Seq<(i32, Subscriber)>)
    ensures
        engine::of_ghost(event) ==> engine::actions_for(event, subs).len() == 0,
        !engine::of_ghost(event) ==> engine::actions_for(event, subs).len() == subs.len(),
        !engine::of_ghost(event) ==> forall|j: int|
            0 <= j < subs.len() ==> #[trigger] engine::actions_for(event, subs)[j]
                == engine::action_for(event, subs[j].1),
{
}

/// Ghosts lead to no orders at all.
pub proof fn lemma_ghosts_cost_nothing(events: Seq<EventView>, subs: Seq<(i32, Subscriber)>)
    requires
        forall|i: int| 0 <= i < events.len() ==> engine::of_ghost(#[trigger] events[i]),
    ensures
        engine::all_actions(events, subs).len() == 0,
    decreases events.len(),
{
    if events.len() > 0 {
        let before = events.drop_last();
        assert forall|i: int| 0 <= i < before.len() implies engine::of_ghost(#[trigger] before[i]) by {
            assert(before[i] == events[i]);
        }
        lemma_ghosts_cost_nothing(before, subs);
        lemma_every_subscriber_acts(events.last(), subs);
    }
}

/// A trade that is entered is a ghost exactly while ghosts are to come, and each ghost
/// uses up one of them.
pub proof fn lemma_entered_ghost(
    v: TrackerView,
    direction: TradeDirection,
    price: Num,
    at: Moment,
    sl_pct: Num,
    tp_pct: Num,
)
    ensures
        ({
            let (w, told) = v.entered(direction, price, at, sl_pct, tp_pct);
            &&& told.len() == 1
            &&& engine::of_ghost(told[0]) == (v.ghost_remaining > 0)
            &&& w.active_trade->0.is_ghost == (v.ghost_remaining > 0)
            &&& v.ghost_remaining > 0 ==> w.ghost_remaining == v.ghost_remaining - 1
            &&& v.ghost_remaining <= 0 ==> w.ghost_remaining == v.ghost_remaining
        }),
{
}

/// A trade that was no ghost and leaves at a loss starts as many ghosts as the threshold
/// says, if none were started since the last trade that was no loss; one that leaves
/// without a loss ends them; and a ghost that leaves changes nothing of them.
pub proof fn lemma_loss_starts_ghosts(v: TrackerView, price: Num, at: Moment, threshold: i32)
    requires
        v.active_trade is Some,
    ensures
        ({
            let w = v.left(Some(price), at, threshold).0;
            let t = v.active_trade->0;
            if t.is_ghost {
                w.ghost_remaining == v.ghost_remaining && w.ghost_triggered == v.ghost_triggered
            } else if !t.loses_at(price) {
                w.ghost_remaining == 0 && !w.ghost_triggered
            } else if threshold > 0 && !v.ghost_triggered {
                w.ghost_remaining == threshold && w.ghost_triggered
            } else {
                w.ghost_remaining == v.ghost_remaining && w.ghost_triggered == v.ghost_triggered
            }
        }),
{
}

/// Whether no trade that is open is a real one.
pub open spec fn nothing_at_stake(v: TrackerView) -> bool {
    v.active_trade is Some ==> v.active_trade->0.is_ghost
}

/// The events of one input while nothing is at stake: exits are those of ghosts, and an
/// entry is one exactly while ghosts are to come.
proof fn lemma_ghost_step(v: TrackerView, input: Input, sl_pct: Num, tp_pct: Num, threshold: i32)
    requires
        v.ghost_remaining >= 0,
        nothing_at_stake(v),
    ensures
        ({
            let (w, told) = after(v, input, sl_pct, tp_pct, threshold);
            &&& entries(told) <= 1
            &&& told.len() <= 2
            &&& forall|i: int|
                0 <= i < told.len() && (#[trigger] told[i]) is Exited ==> engine::of_ghost(told[i])
            &&& forall|i: int|
                0 <= i < told.len() && (#[trigger] told[i]) is Entered ==> (engine::of_ghost(told[i])
                    <==> v.ghost_remaining > 0)
            &&& entries(told) == 0 ==> nothing_at_stake(w) && w.ghost_remaining == v.ghost_remaining
            &&& entries(told) == 1 && v.ghost_remaining > 0 ==> nothing_at_stake(w)
                && w.ghost_remaining == v.ghost_remaining - 1
        }),
{
    let (w, told) = after(v, input, sl_pct, tp_pct, threshold);
    lemma_entries_short(told);
}

/// While ghosts are to come and nothing is at stake, the next trades are ghosts, as many
/// as are to come: whatever bars and quotes follow, as long as no more trades than that
/// are entered, no event is of a real trade, and each entry uses up one ghost.
pub proof fn lemma_next_trades_are_ghosts(
    v: TrackerView,
    inputs: Seq<Input>,
    sl_pct: Num,
    tp_pct: Num,
    threshold: i32,
)
    requires
        v.ghost_remaining >= 0,
        nothing_at_stake(v),
        entries(run(v, inputs, sl_pct, tp_pct, threshold).1) <= v.ghost_remaining,
    ensures
        ({
            let (w, told) = run(v, inputs, sl_pct, tp_pct, threshold);
            &&& forall|i: int| 0 <= i < told.len() ==> engine::of_ghost(#[trigger] told[i])
            &&& w.ghost_remaining == v.ghost_remaining - entries(told)
            &&& nothing_at_stake(w)
        }),
    decreases inputs.len(),
{
    if inputs.len() > 0 {
        let (w, told) = run(v, inputs.drop_last(), sl_pct, tp_pct, threshold);
        let (next, more) = after(w, inputs.last(), sl_pct, tp_pct, threshold);
        lemma_entries_add(told, more);
        lemma_next_trades_are_ghosts(v, inputs.drop_last(), sl_pct, tp_pct, threshold);
        lemma_ghost_step(w, inputs.last(), sl_pct, tp_pct, threshold);
        let all = told + more;
        lemma_entries_short(more);
        assert forall|i: int| 0 <= i < all.len() implies engine::of_ghost(#[trigger] all[i]) by {
            if i < told.len() {
                assert(all[i] == told[i]);
            } else {
                assert(all[i] == more[i - told.len()]);
            }
        }
    }
}

/// With no ghosts to come and nothing at stake, the next trade that is entered is real.
pub proof fn lemma_then_trades_are_real(
    v: TrackerView,
    input: Input,
    sl_pct: Num,
    tp_pct: Num,
    threshold: i32,
)
    requires
        v.ghost_remaining == 0,
        nothing_at_stake(v),
    ensures
        ({
            let (w, told) = after(v, input, sl_pct, tp_pct, threshold);
            forall|i: int|
                0 <= i < told.len() && (#[trigger] told[i]) is Entered ==> !engine::of_ghost(told[i])
        }),
{
    lemma_ghost_step(v, input, sl_pct, tp_pct, threshold);
}

/// A threshold of zero turns ghosts off: from a tracker without any, whatever bars and
/// quotes follow, no trade is ever a ghost.
pub proof fn lemma_no_ghosts_when_off(
    v: TrackerView,
    inputs: Seq<Input>,
    sl_pct: Num,
    tp_pct: Num,
    threshold: i32,
)
    requires
        threshold <= 0,
        v.ghost_remaining == 0,
        v.active_trade is Some ==> !v.active_trade->0.is_ghost,
    ensures
        ({
            let (w, told) = run(v, inputs, sl_pct, tp_pct, threshold);
            &&& forall|i: int| 0 <= i < told.len() ==> !engine::of_ghost(#[trigger] told[i])
            &&& w.ghost_remaining == 0
            &&& w.active_trade is Some ==> !w.active_trade->0.is_ghost
        }),
    decreases inputs.len(),
{
    if inputs.len() > 0 {
        let (w, told) = run(v, inputs.drop_last(), sl_pct, tp_pct, threshold);
        let (next, more) = after(w, inputs.last(), sl_pct, tp_pct, threshold);
        lemma_no_ghosts_when_off(v, inputs.drop_last(), sl_pct, tp_pct, threshold);
        let all = told + more;
        assert forall|i: int| 0 <= i < all.len() implies !engine::of_ghost(#[trigger] all[i]) by {
            if i < told.len() {
                assert(all[i] == told[i]);
            } else {
                assert(all[i] == more[i - told.len()]);
            }
        }
    }
}

/// A trade is entered only by a bar, when the alignment has changed to one that calls for
/// its direction, at the close of the bar.
pub proof fn lemma_enters_with_the_alignment(
    v: TrackerView,
    input: Input,
    sl_pct: Num,
    tp_pct: Num,
    threshold: i32,
)
    ensures
        ({
            let (w, told) = after(v, input, sl_pct, tp_pct, threshold);
            forall|i: int|
                0 <= i < told.len() && (#[trigger] told[i]) is Entered ==> {
                    &&& input is Bar
                    &&& w.alignment_changed
                    &&& score::called_for(w.alignment) == Some(told[i]->Entered_direction)
                    &&& told[i]->price == input->0.close
                    &&& (told[i]->sl, told[i]->tp) == market::bracket(
                        told[i]->Entered_direction.long(),
                        told[i]->price,
                        sl_pct,
                        tp_pct,
                    )
                    &&& w.active_trade is Some
                    &&& w.active_trade->0.direction == told[i]->Entered_direction
                }
        }),
{
}

/// A symbol that is added is tracked from its price as the base; all others stay as they
/// were. It cannot be added again.
pub proof fn lemma_added(e: EngineView, key: Seq<char>, price: Option<Num>, other: Seq<char>)
    requires
        e.wf(),
        e.accepts(key, price),
    ensures
        table::lookup(e.added(key, price).trackers, key) == Some(
            TrackerView::fresh(key, price->0),
        ),
        TrackerView::fresh(key, price->0).base_price == price->0,
        other != key ==> table::lookup(e.added(key, price).trackers, other) == table::lookup(
            e.trackers,
            other,
        ),
        e.added(key, price).subscribers == e.subscribers,
        forall|again: Option<Num>| !#[trigger] e.added(key, price).accepts(key, again),
{
    table::lemma_put_lookup(e.trackers, key, TrackerView::fresh(key, price->0), other);
    table::lemma_put_lookup(e.trackers, key, TrackerView::fresh(key, price->0), key);
}

/// A symbol that is removed is no longer tracked; all others stay as they were.
pub proof fn lemma_removed(e: EngineView, key: Seq<char>, other: Seq<char>)
    requires
        e.wf(),
    ensures
        table::lookup(e.removed(key).trackers, key) is None,
        other != key ==> table::lookup(e.removed(key).trackers, other) == table::lookup(
            e.trackers,
            other,
        ),
        e.removed(key).subscribers == e.subscribers,
{
    table::lemma_without_lookup(e.trackers, key, other);
    table::lemma_without_lookup(e.trackers, key, key);
}

/// A bar or a quote of a symbol that is not tracked changes nothing.
pub proof fn lemma_untracked(e: EngineView, symbol: Seq<char>, k: KlineData, bid: Num, ask: Num, now: Moment)
    requires
        table::lookup(e.trackers, symbol) is None,
    ensures
        e.after_bar(symbol, k) == (e, Seq::<ActionView>::empty()),
        e.after_quote(symbol, bid, ask, now) == (e, Seq::<ActionView>::empty()),
{
}

/// A bar or a quote of a symbol leaves the trackers of all others as they were, and the
/// subscribers too.
pub proof fn lemma_others_untouched(
    e: EngineView,
    symbol: Seq<char>,
    other: Seq<char>,
    k: KlineData,
    bid: Num,
    ask: Num,
    now: Moment,
)
    requires
        e.wf(),
        other != symbol,
    ensures
        table::lookup(e.after_bar(symbol, k).0.trackers, other) == table::lookup(e.trackers, other),
        table::lookup(e.after_quote(symbol, bid, ask, now).0.trackers, other) == table::lookup(
            e.trackers,
            other,
        ),
        e.after_bar(symbol, k).0.subscribers == e.subscribers,
        e.after_quote(symbol, bid, ask, now).0.subscribers == e.subscribers,
{
    if let Some(t) = table::lookup(e.trackers, symbol) {
        table::lemma_put_lookup(e.trackers, symbol, t.after_kline(k, e.sl_percent, e.tp_percent, e.ghost_threshold).0, other);
        table::lemma_put_lookup(e.trackers, symbol, t.after_quote(bid, ask, now).0, other);
    }
}

} // verus!
