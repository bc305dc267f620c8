//! What is asked of the alligator engine, and what it answers.
use vstd::prelude::*;
use crate::figures;
use crate::market::KlineData;
use crate::num::{num, Num};
use crate::roster;
use crate::routes as shared;
use crate::stream;
use crate::text;
use crate::william::engine::{EngineView, Subscriber};
use crate::william::routes;
use crate::william::score::AlligatorScoreView;
use crate::william::score;
use crate::william::tracker::TrackerView;

verus! {

/// Whether a parameter writes a 32-bit integer.
pub open spec fn counts(o: Option<Seq<char>>, n: int) -> bool {
    o is Some && text::parsed_integer(o->0, -0x8000_0000, 0x7fff_ffff) == Some(n)
}

/// A subscription under a number that is not negative puts that subscriber on the list with
/// the stake it writes, or a stake of five where it writes none; the others stay. Without
/// a number it goes under zero. One under a negative number changes nothing.
pub proof fn lemma_subscribed(
    e: EngineView,
    id: Option<Seq<char>>,
    size: Option<Seq<char>>,
    n: i32,
    stake: Num,
    other: i32,
)
    requires
        e.wf(),
        counts(id, n as int) || (n == 0 && forall|k: int| !#[trigger] counts(id, k)),
        stream::writes(size, stake) || (stake == num(figures::FIVE) && !stream::readable(size)),
    ensures
        ({
            let after = e.subscribed(id, size);
            &&& n < 0 ==> after == e
            &&& n >= 0 ==> roster::lookup(after.subscribers, n) == Some(
                (Subscriber { sub_id: n, size: stake }),
            )
            &&& n >= 0 && other != n ==> roster::lookup(after.subscribers, other)
                == roster::lookup(e.subscribers, other)
            &&& after == (EngineView { subscribers: after.subscribers, ..e })
        }),
{
    if id is Some {
        let read = text::parsed_integer(id->0, -0x8000_0000, 0x7fff_ffff);
        if read is Some {
            assert(counts(id, read->0));
        }
    }
    assert(shared::integer_or(id, 0) == n);
    if n >= 0 {
        roster::lemma_put_lookup(
            e.subscribers,
            n,
            Subscriber { sub_id: n, size: stake },
            other,
        );
    }
}

/// A subscriber is removed under the number that is written; the others stay. Without a
/// number, or under a negative one, nothing changes.
pub proof fn lemma_unsubscribed(e: EngineView, id: Option<Seq<char>>, n: i32, other: i32)
    requires
        e.wf(),
        counts(id, n as int) || (n == -1 && forall|k: int| !#[trigger] counts(id, k)),
    ensures
        ({
            let after = e.unsubscribed(id);
            &&& n < 0 ==> after == e
            &&& n >= 0 ==> roster::lookup(after.subscribers, n) is None
            &&& n >= 0 && other != n ==> roster::lookup(after.subscribers, other)
                == roster::lookup(e.subscribers, other)
            &&& after == (EngineView { subscribers: after.subscribers, ..e })
        }),
{
    if id is Some {
        let read = text::parsed_integer(id->0, -0x8000_0000, 0x7fff_ffff);
        if read is Some {
            assert(counts(id, read->0));
        }
    }
    assert(shared::integer_or(id, -1 as i32) == n);
    if n >= 0 {
        roster::lemma_without_lookup(e.subscribers, n, other);
    }
}

/// Of each symbol is told, in the order of the symbols, what its tracker holds.
pub proof fn lemma_vitals(e: EngineView, i: int)
    requires
        0 <= i < e.trackers.len(),
    ensures
        routes::all_vitals(e.trackers).len() == e.trackers.len(),
        ({
            let v = routes::all_vitals(e.trackers)[i];
            let t = e.trackers[i].1;
            &&& v.symbol == e.trackers[i].0
            &&& v.base_price == t.base_price
            &&& v.current_price == t.current_price
            &&& v.klines == t.klines.len()
            &&& v.closed_trades == t.closed_trades.len()
            &&& v.active is Some <==> t.active_trade is Some
            &&& v.active is Some ==> {
                &&& v.active->0.direction == t.active_trade->0.direction
                &&& v.active->0.entry_price == t.active_trade->0.entry_price
                &&& v.active->0.sl == t.active_trade->0.sl
                &&& v.active->0.tp == t.active_trade->0.tp
            }
        }),
{
}

/// A new tracker stands at its price, and has seen and done nothing: no bars, no trades, no
/// ghosts to come, no lines.
pub proof fn lemma_fresh(symbol: Seq<char>, price: Num)
    ensures
        ({
            let t = TrackerView::fresh(symbol, price);
            &&& t.symbol == symbol
            &&& t.base_price == price
            &&& t.current_price == Some(price)
            &&& t.active_trade is None
            &&& t.klines.len() == 0
            &&& t.close_prices.len() == 0
            &&& t.closed_trades.len() == 0
            &&& t.ghost_remaining == 0
            &&& !t.ghost_triggered
            &&& t.alignment is Mixed
            &&& t.prev_alignment is Mixed
            &&& !t.alignment_changed
            &&& t.jaw_values.len() == 0 && t.teeth_values.len() == 0 && t.lips_values.len() == 0
        }),
{
}

/// The score that a symbol gets under its name is that of its bars, with the stop and the
/// target that were given where there are any to give. Fewer than fifty bars count as none:
/// no trades, and a suitability of zero.
pub proof fn lemma_named(
    symbol: Seq<char>,
    klines: Seq<KlineData>,
    sl_pct: Num,
    tp_pct: Num,
)
    ensures
        routes::named_score(symbol, Some(klines), sl_pct, tp_pct).symbol == symbol,
        klines.len() >= 50 ==> (AlligatorScoreView {
            symbol: score::score(klines, sl_pct, tp_pct).symbol,
            ..routes::named_score(symbol, Some(klines), sl_pct, tp_pct)
        }) == score::score(klines, sl_pct, tp_pct),
        klines.len() < 50 ==> routes::named_score(symbol, Some(klines), sl_pct, tp_pct)
            == routes::named_score(symbol, None, sl_pct, tp_pct),
        ({
            let none = routes::named_score(symbol, None, sl_pct, tp_pct);
            &&& none.symbol == symbol
            &&& none.total_trades == 0 && none.wins == 0 && none.losses == 0
            &&& none.base_price == num(figures::ZERO)
            &&& none.total_pnl_pct == num(figures::ZERO)
            &&& none.win_rate == num(figures::ZERO)
            &&& none.suitability == num(figures::ZERO)
        }),
{
}

/// Whether some scores stand at these places of a list, no place twice.
pub open spec fn picked(scores: Seq<AlligatorScoreView>, some: Seq<AlligatorScoreView>, places: Seq<int>) -> bool {
    &&& places.len() == some.len()
    &&& forall|i: int| 0 <= i < places.len() ==> 0 <= #[trigger] places[i] < scores.len()
        && some[i] == scores[places[i]]
    &&& forall|i: int, j: int|
        0 <= i < j < places.len() ==> #[trigger] places[i] != #[trigger] places[j]
}

/// Whether a score is at none of these places and more suitable than one that is.
pub open spec fn overlooked(scores: Seq<AlligatorScoreView>, places: Seq<int>, k: int) -> bool {
    &&& 0 <= k < scores.len()
    &&& !places.contains(k)
    &&& exists|i: int|
        0 <= i < places.len() && (#[trigger] scores[places[i]]).suitability.below(
            scores[k].suitability,
        )
}

/// The recommended are different ones of the scores, twenty of them or all where there are
/// fewer; the more suitable come first, and none that is left out is more suitable.
pub proof fn lemma_recommendation(scores: Seq<AlligatorScoreView>)
    requires
        forall|i: int| 0 <= i < scores.len() ==> !(#[trigger] scores[i]).suitability.nan(),
    ensures
        routes::recommended(scores).len() == if scores.len() > 20 {
            20
        } else {
            scores.len()
        },
        exists|places: Seq<int>| #[trigger]
            picked(scores, routes::recommended(scores), places) && forall|k: int|
                !#[trigger] overlooked(scores, places, k),
        forall|i: int, j: int|
            0 <= i < j < routes::recommended(scores).len() ==> !(#[trigger] routes::recommended(
                scores,
            )[i]).suitability.below((#[trigger] routes::recommended(scores)[j]).suitability),
{
    let merits = Seq::new(scores.len(), |i: int| scores[i].suitability);
    let places = shared::best(merits);
    shared::lemma_best(merits);
    routes::lemma_recommended(scores);
    assert(picked(scores, routes::recommended(scores), places));
    assert forall|k: int| !#[trigger] overlooked(scores, places, k) by {
        if overlooked(scores, places, k) {
            let i = choose|i: int|
                0 <= i < places.len() && (#[trigger] scores[places[i]]).suitability.below(
                    scores[k].suitability,
                );
            assert(merits[places[i]] == scores[places[i]].suitability);
            assert(merits[k] == scores[k].suitability);
        }
    }
}

} // verus!
