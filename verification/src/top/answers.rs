//! What is asked of the one-sided engine, and what it answers.
use vstd::prelude::*;
use crate::figures;
use crate::num::{num, Num};
use crate::roster;
use crate::routes as shared;
use crate::stream;
use crate::text;
use crate::top::engine::{EngineView, Subscriber};
use crate::top::routes;
use crate::top::tracker::{Side, TrackerView};

verus! {

/// Whether a parameter writes a 32-bit integer.
pub open spec fn counts(o: Option<Seq<char>>, n: int) -> bool {
    o is Some && text::parsed_integer(o->0, -0x8000_0000, 0x7fff_ffff) == Some(n)
}

/// A subscription under a number that is not negative puts that subscriber on the list with
/// the stake it writes, or a stake of five where it writes none; the others stay. Without
/// a number it goes under zero. One under a negative number changes nothing.
pub proof fn lemma_subscribed(
    e: EngineView,
    side: Side,
    id: Option<Seq<char>>,
    size: Option<Seq<char>>,
    n: i32,
    stake: Num,
    other: i32,
)
    requires
        e.wf(),
        counts(id, n as int) || (n == 0 && forall|k: int| !#[trigger] counts(id, k)),
        stream::writes(size, stake) || (stake == num(figures::FIVE) && !stream::readable(size)),
    ensures
        ({
            let after = e.subscribed(side, id, size);
            &&& n < 0 ==> after == e
            &&& n >= 0 ==> roster::lookup(after.subscribers, n) == Some(
                (Subscriber { sub_id: n, side, size: stake }),
            )
            &&& n >= 0 && other != n ==> roster::lookup(after.subscribers, other)
                == roster::lookup(e.subscribers, other)
            &&& after == (EngineView { subscribers: after.subscribers, ..e })
        }),
{
    if id is Some {
        let read = text::parsed_integer(id->0, -0x8000_0000, 0x7fff_ffff);
        if read is Some {
            assert(counts(id, read->0));
        }
    }
    assert(shared::integer_or(id, 0) == n);
    if n >= 0 {
        roster::lemma_put_lookup(
            e.subscribers,
            n,
            Subscriber { sub_id: n, side, size: stake },
            other,
        );
    }
}

/// A subscriber is removed under the number that is written; the others stay. Without a
/// number, or under a negative one, nothing changes.
pub proof fn lemma_unsubscribed(e: EngineView, id: Option<Seq<char>>, n: i32, other: i32)
    requires
        e.wf(),
        counts(id, n as int) || (n == -1 && forall|k: int| !#[trigger] counts(id, k)),
    ensures
        ({
            let after = e.unsubscribed(id);
            &&& n < 0 ==> after == e
            &&& n >= 0 ==> roster::lookup(after.subscribers, n) is None
            &&& n >= 0 && other != n ==> roster::lookup(after.subscribers, other)
                == roster::lookup(e.subscribers, other)
            &&& after == (EngineView { subscribers: after.subscribers, ..e })
        }),
{
    if id is Some {
        let read = text::parsed_integer(id->0, -0x8000_0000, 0x7fff_ffff);
        if read is Some {
            assert(counts(id, read->0));
        }
    }
    assert(shared::integer_or(id, -1 as i32) == n);
    if n >= 0 {
        roster::lemma_without_lookup(e.subscribers, n, other);
    }
}

/// Of each symbol is told, in the order of the symbols, what its tracker holds.
pub proof fn lemma_vitals(e: EngineView, i: int)
    requires
        0 <= i < e.trackers.len(),
    ensures
        routes::all_vitals(e.trackers).len() == e.trackers.len(),
        ({
            let v = routes::all_vitals(e.trackers)[i];
            let t = e.trackers[i].1;
            &&& v.symbol == e.trackers[i].0
            &&& v.direction == t.direction
            &&& v.entry_price == t.entry_price
            &&& v.in_position == t.in_position
            &&& v.current_price == t.current_price
            &&& v.klines == t.klines.len()
            &&& v.closed_trades == t.closed_trades.len()
        }),
{
}

/// A new tracker is of the side that was asked for, in no position and waiting for none,
/// and has seen and done nothing.
pub proof fn lemma_fresh(symbol: Seq<char>, side: Side)
    ensures
        ({
            let t = TrackerView::fresh(symbol, side);
            &&& t.symbol == symbol
            &&& t.direction == side
            &&& t.entry_price is None && t.sl is None
            &&& t.current_price is None && t.current_bid is None && t.current_ask is None
            &&& t.active_trade is None
            &&& t.klines.len() == 0
            &&& t.closed_trades.len() == 0
            &&& !t.in_position
            &&& !t.waiting_for_reentry
        }),
{
}

} // verus!
