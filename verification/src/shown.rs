//! Words for what the pages show, in which their laws are stated.
use vstd::prelude::*;
use crate::figures;
use crate::num::{num, Num};
use crate::order;
use crate::page;
use crate::page::{Glyph, NumStyle};
use crate::text;
use crate::time::Moment;

verus! {

/// A price, to four decimals.
pub open spec fn price(n: Num) -> Seq<Glyph> {
    seq![Glyph::Number(NumStyle::Fixed(4), n)]
}

/// A price, to two decimals.
pub open spec fn rough(n: Num) -> Seq<Glyph> {
    seq![Glyph::Number(NumStyle::Fixed(2), n)]
}

/// A number as short as can be.
pub open spec fn number(n: Num) -> Seq<Glyph> {
    seq![Glyph::Number(NumStyle::Plain, n)]
}

/// A gain in percent, with its sign and two decimals.
pub open spec fn percent(n: Num) -> Seq<Glyph> {
    seq![Glyph::Number(NumStyle::Signed(2), n)]
}

/// A text.
pub open spec fn word(s: Seq<char>) -> Seq<Glyph> {
    page::plain(s)
}

/// A count.
pub open spec fn count(n: int) -> Seq<Glyph> {
    page::plain(text::decimal(n))
}

/// Whether a number counts as a gain: it is zero or above.
pub open spec fn gains(n: Num) -> bool {
    num(figures::ZERO).at_most(n)
}

/// The colour of a gain.
pub open spec fn tint(n: Num) -> Seq<char> {
    if gains(n) {
        "#4caf50"@
    } else {
        "#ef5350"@
    }
}

/// The class of a gain.
pub open spec fn mood(n: Num) -> Seq<char> {
    if gains(n) {
        "green"@
    } else {
        "red"@
    }
}

/// The name of a side.
pub open spec fn side(long: bool) -> Seq<char> {
    if long {
        "LONG"@
    } else {
        "SHORT"@
    }
}

/// The class of a side.
pub open spec fn side_mood(long: bool) -> Seq<char> {
    if long {
        "green"@
    } else {
        "red"@
    }
}

/// A number, or zero where there is none.
pub open spec fn or_zero(o: Option<Num>) -> Num {
    if o is Some {
        o->0
    } else {
        Num { bits: 0 }
    }
}

/// The digits of a number below a hundred.
pub open spec fn pair(n: int) -> Seq<char> {
    seq![text::digit((n / 10) as nat), text::digit((n % 10) as nat)]
}

/// The hour, the minute and the second of a moment.
pub open spec fn clock(t: Moment) -> Seq<Glyph> {
    let day = t.secs() % 86_400;
    word(
        pair(day / 3600) + seq![':'] + pair(day / 60 % 60) + seq![':'] + pair(day % 60),
    )
}

/// A time of day, or a dash.
pub open spec fn clock_or_dash(t: Option<Moment>) -> Seq<Glyph> {
    if t is Some {
        clock(t->0)
    } else {
        word("-"@)
    }
}

/// The whole seconds from a moment to a later one, in minutes and seconds; a dash without
/// the later one.
pub open spec fn span_or_dash(from: Moment, to: Option<Moment>) -> Seq<Glyph> {
    if to is Some {
        let nanos = to->0.stamp() - from.stamp();
        if nanos >= 0 {
            let secs = nanos / 1_000_000_000;
            word(text::decimal(secs / 60) + seq!['m'] + text::decimal(secs % 60) + seq!['s'])
        } else {
            let secs = (-nanos) / 1_000_000_000;
            word(text::decimal(-(secs / 60)) + seq!['m'] + text::decimal(-(secs % 60)) + seq!['s'])
        }
    } else {
        word("-"@)
    }
}

/// A price, or a dash.
pub open spec fn price_or_dash(o: Option<Num>) -> Seq<Glyph> {
    if o is Some {
        price(o->0)
    } else {
        word("-"@)
    }
}

/// A number, or that there is none.
pub open spec fn number_or_none(o: Option<Num>) -> Seq<Glyph> {
    if o is Some {
        number(o->0)
    } else {
        word("None"@)
    }
}

/// Yes or no.
pub open spec fn truth(b: bool) -> Seq<Glyph> {
    word(
        if b {
            "true"@
        } else {
            "false"@
        },
    )
}

/// Some part, or a text in its place.
pub open spec fn unless(none: bool, text: Seq<char>, part: Seq<Glyph>) -> Seq<Glyph> {
    if none {
        word(text)
    } else {
        part
    }
}

/// The share of wins in percent.
pub open spec fn rate(wins: u64, trades: u64) -> Num {
    if trades == 0 {
        Num { bits: 0 }
    } else {
        Num::from_u64(wins).over(Num::from_u64(trades)).times(num(figures::HUNDRED))
    }
}

/// A gain in percent in its colour.
pub open spec fn coloured(n: Num) -> Seq<Glyph> {
    page::filled(crate::parts::GAIN_SPAN@, seq![word(mood(n)), percent(n)])
}

/// Whether positions are those of the latest of some stamps, at most fifty, the latest
/// first and the earlier of equal ones first: none is named twice, and none that is left
/// out is later.
pub open spec fn latest(order: Seq<int>, stamps: Seq<int>) -> bool {
    &&& order.len() == if stamps.len() < 50 {
        stamps.len()
    } else {
        50
    }
    &&& forall|i: int| 0 <= i < order.len() ==> 0 <= #[trigger] order[i] < stamps.len()
    &&& forall|i: int, j: int|
        0 <= i < j < order.len() ==> stamps[#[trigger] order[i]] > stamps[#[trigger] order[j]] || (
        stamps[order[i]] == stamps[order[j]] && order[i] < order[j])
    &&& forall|i: int, k: int|
        0 <= i < order.len() && 0 <= k < stamps.len() && !order.contains(k) ==> stamps[#[trigger] order[i]]
            >= #[trigger] stamps[k]
}

/// The first fifty of a ranking are the latest.
pub proof fn lemma_latest(stamps: Seq<int>)
    ensures
        latest(
            if order::ranking(stamps).len() > 50 {
                order::ranking(stamps).take(50)
            } else {
                order::ranking(stamps)
            },
            stamps,
        ),
{
    let all = order::ranking(stamps);
    order::lemma_ranking(stamps);
    let chosen = if all.len() > 50 {
        all.take(50)
    } else {
        all
    };
    assert forall|i: int, k: int|
        0 <= i < chosen.len() && 0 <= k < stamps.len() && !chosen.contains(
            k,
        ) implies stamps[#[trigger] chosen[i]] >= #[trigger] stamps[k] by {
        order::lemma_ranked(stamps, k);
        let j = choose|j: int| 0 <= j < all.len() && all[j] == k;
        assert(chosen[i] == all[i]);
        if j < chosen.len() {
            assert(chosen[j] == k);
        }
        assert(stamps[all[i]] >= stamps[all[j]]);
    }
}

} // verus!
