//! What the pages of the alligator engine show.
use vstd::prelude::*;
use crate::arithmetic;
use crate::drawing;
use crate::figures;
use crate::market::{TradeDirection, TradeStatus};
use crate::market;
use crate::num::{num, Num};
use crate::page::NumStyle;
use crate::page;
use crate::parts::DashboardSummary;
use crate::parts;
use crate::shown;
use crate::time::Moment;
use crate::william::alligator::AlligatorAlignment;
use crate::william::chart;
use crate::william::engine::{EngineView, Subscriber};
use crate::william::pages;
use crate::william::tracker::{GridTradeView, TrackerView};
use crate::william::tracker;

verus! {

/// The gain of a closed trade in percent: what its price changed by from entry to exit, up
/// for a long trade and down for a short one. A trade that runs, and a ghost, has none.
pub open spec fn gained(t: GridTradeView) -> Num {
    if t.is_ghost || t.status == TradeStatus::Open || t.exit_price is None {
        Num { bits: 0 }
    } else {
        drawing::change(t.direction == TradeDirection::Long, t.entry_price, t.exit_price->0)
    }
}

/// The gain of a closed trade is that of its side: not below zero where the price has not
/// moved against it, and not above where it has not moved its way.
pub proof fn lemma_gained(t: GridTradeView)
    requires
        arithmetic::positive(t.entry_price),
        t.exit_price is Some,
        t.exit_price->0.finite(),
    ensures
        t.pnl() == gained(t),
        (t.direction == TradeDirection::Long && t.entry_price.at_most(t.exit_price->0)) || (t.direction != TradeDirection::Long
            && t.exit_price->0.at_most(t.entry_price)) ==> num(figures::ZERO).at_most(t.pnl()),
        (t.direction == TradeDirection::Long && t.exit_price->0.at_most(t.entry_price)) || (t.direction != TradeDirection::Long
            && t.entry_price.at_most(t.exit_price->0)) ==> t.pnl().at_most(num(figures::ZERO)),
{
    market::lemma_gain_sign(t.entry_price, t.exit_price->0);
}

/// The gain that is shown of an active trade is the one that it would have if it were
/// closed at the current price, were it no ghost; where there is none, at its entry.
pub proof fn lemma_live_gain(tr: TrackerView, t: GridTradeView, at: Moment)
    requires
        !t.is_ghost,
    ensures
        tr.current_price is Some ==> pages::live_gain(tr, t) == t.closed(
            tr.current_price->0,
            at,
        ).pnl(),
        tr.current_price is Some ==> pages::live_gain(tr, t) == drawing::change(
            t.direction == TradeDirection::Long,
            t.entry_price,
            tr.current_price->0,
        ),
        tr.current_price is None ==> pages::live_gain(tr, t) == drawing::change(
            t.direction == TradeDirection::Long,
            t.entry_price,
            t.entry_price,
        ),
{
}

/// The gain that is shown of an active trade has the sign of its side: where the price is
/// not above the entry it is not below zero for a short trade and not above for a long
/// one, and the other way where the price is not below.
pub proof fn lemma_live_sign(tr: TrackerView, t: GridTradeView)
    requires
        arithmetic::positive(t.entry_price),
        tr.current_price is Some,
        tr.current_price->0.finite(),
    ensures
        ({
            let now = tr.current_price->0;
            let zero = num(figures::ZERO);
            &&& now.at_most(t.entry_price) && t.direction == TradeDirection::Long ==> pages::live_gain(tr, t).at_most(
                zero,
            )
            &&& now.at_most(t.entry_price) && t.direction != TradeDirection::Long ==> zero.at_most(
                pages::live_gain(tr, t),
            )
            &&& t.entry_price.at_most(now) && t.direction == TradeDirection::Long ==> zero.at_most(
                pages::live_gain(tr, t),
            )
            &&& t.entry_price.at_most(now) && t.direction != TradeDirection::Long ==> pages::live_gain(tr, t).at_most(
                zero,
            )
        }),
{
    market::lemma_gain_sign(t.entry_price, tr.current_price->0);
}

/// How many of some trades were ghosts.
pub open spec fn ghosts(trades: Seq<GridTradeView>) -> nat {
    trades.filter(|t: GridTradeView| t.is_ghost).len()
}

/// The ghosts are counted one by one.
proof fn lemma_ghosts(trades: Seq<GridTradeView>)
    ensures
        tracker::ghosts(trades) == ghosts(trades),
    decreases trades.len(),
{
    let is = |t: GridTradeView| t.is_ghost;
    reveal(Seq::filter);
    if trades.len() > 0 {
        lemma_ghosts(trades.drop_last());
    }
}

/// How many trades were entered that are no ghosts.
pub open spec fn entered(tr: TrackerView) -> int {
    tr.closed_trades.len() - ghosts(tr.closed_trades) + if tr.active_trade is Some
        && !tr.active_trade->0.is_ghost {
        1int
    } else {
        0int
    }
}

/// The trades of a symbol are counted without ghosts.
pub proof fn lemma_entered(tr: TrackerView)
    ensures
        tr.attempts() == entered(tr),
{
    lemma_ghosts(tr.closed_trades);
    tracker::lemma_ghosts_bound(tr.closed_trades);
}

/// The name of the state of a symbol.
pub open spec fn state_word(active: bool) -> Seq<char> {
    if active {
        "IN"@
    } else {
        "flat"@
    }
}

/// The colour of the state of a symbol.
pub open spec fn state_tint(active: bool) -> Seq<char> {
    if active {
        "#4caf50"@
    } else {
        "#8b949e"@
    }
}

/// The state of a symbol on its own page, in its class, with the signal, the entry, the
/// stop and the target of its active trade.
pub proof fn lemma_view_state(tr: TrackerView)
    ensures
        tr.active_trade is None ==> pages::view_state(tr) == ("red"@, "FLAT"@)
            && pages::signal_glyphs(tr) == shown::word("-"@) && pages::active_levels(tr) == (
            None::<Num>,
            None::<Num>,
            None::<Num>,
        ),
        tr.active_trade is Some ==> {
            let t = tr.active_trade->0;
            &&& pages::view_state(tr) == if t.is_ghost {
                ("orange"@, "GHOST"@)
            } else {
                ("green"@, "IN POSITION"@)
            }
            &&& pages::signal_glyphs(tr) == shown::word(t.signal_label)
            &&& pages::active_levels(tr) == (Some(t.entry_price), Some(t.sl), Some(t.tp))
        },
{
}

/// The words and colours of an alignment.
pub proof fn lemma_alignment_words(a: AlligatorAlignment)
    ensures
        pages::alignment_label(a) == if a == AlligatorAlignment::Bullish {
            "🐂 BULL"@
        } else if a == AlligatorAlignment::Bearish {
            "🐻 BEAR"@
        } else {
            "— MIXED"@
        },
        pages::alignment_color(a) == if a == AlligatorAlignment::Bullish {
            "green"@
        } else if a == AlligatorAlignment::Bearish {
            "red"@
        } else {
            "#8b949e"@
        },
        a.name() == if a == AlligatorAlignment::Bullish {
            "BULLISH"@
        } else if a == AlligatorAlignment::Bearish {
            "BEARISH"@
        } else {
            "MIXED"@
        },
{
}

/// The mark of the reverse mode stands exactly where it is set.
pub proof fn lemma_reverse_mark(reversed: bool)
    ensures
        pages::reverse_mark(reversed) == if reversed {
            pages::REVERSED@
        } else {
            ""@
        },
{
}

/// The averages are shown once there is a jaw; the ghosts once there are any.
pub proof fn lemma_averages_and_ghosts(tr: TrackerView)
    ensures
        pages::averages_glyphs(tr) == if num(figures::ZERO).below(tr.jaw_val) {
            pages::known_averages_glyphs(tr)
        } else {
            shown::word("warming up..."@)
        },
        pages::ghost_suffix_glyphs(tr) == if ghosts(tr.closed_trades) > 0 {
            pages::ghost_number_glyphs(ghosts(tr.closed_trades))
        } else {
            Seq::empty()
        },
        pages::ghost_mark(true) == " [GHOST]"@,
        pages::ghost_mark(false) == ""@,
{
    lemma_ghosts(tr.closed_trades);
}

/// An active trade is shown in a row with its gain at the current price; a ghost in one
/// without.
pub proof fn lemma_active_part(tr: TrackerView)
    ensures
        pages::active_part_glyphs(tr) == match tr.active_trade {
            Some(t) => if t.is_ghost {
                pages::active_ghost_row_glyphs(t)
            } else {
                pages::active_row_glyphs(
                    t,
                    drawing::change(
                        t.direction == TradeDirection::Long,
                        t.entry_price,
                        if tr.current_price is Some {
                            tr.current_price->0
                        } else {
                            t.entry_price
                        },
                    ),
                )
            },
            None => Seq::empty(),
        },
        tr.active_trade is Some && tr.active_trade->0.is_ghost ==> pages::position_glyphs(tr)
            == pages::ghost_position_glyphs(tr.active_trade->0),
        tr.active_trade is Some && !tr.active_trade->0.is_ghost ==> pages::position_glyphs(tr)
            == pages::trade_position_glyphs(tr, tr.active_trade->0),
        tr.active_trade is None ==> pages::position_glyphs(tr) == shown::word(parts::FLAT@),
{
}

/// A closed trade is shown with its gain; a ghost without.
pub proof fn lemma_closed_part(t: GridTradeView, n: int)
    ensures
        pages::closed_row_glyphs(t) == if t.is_ghost {
            pages::closed_ghost_row_glyphs(t)
        } else {
            pages::closed_trade_row_glyphs(t)
        },
        pages::view_row_glyphs(n, t) == if t.is_ghost {
            pages::view_ghost_row_glyphs(n, t)
        } else {
            pages::view_trade_row_glyphs(n, t)
        },
{
}

/// The gain of a position is that of its trade at the current price, once there is one; the
/// state of a symbol is that of its active trade.
pub proof fn lemma_position_gain(tr: TrackerView, t: GridTradeView)
    ensures
        tr.current_price is Some ==> pages::position_gain_glyphs(tr, t) == shown::coloured(
            drawing::change(
                t.direction == TradeDirection::Long,
                t.entry_price,
                tr.current_price->0,
            ),
        ),
        tr.current_price is None ==> pages::position_gain_glyphs(tr, t) == shown::word(parts::FLAT@),
        pages::state_active_glyphs(tr) == match tr.active_trade {
            Some(x) => pages::state_trade_glyphs(x),
            None => shown::word("flat"@),
        },
{
}

/// One more symbol, one more subscriber or one more trade adds its own part behind the
/// others, and nothing else; without any there is nothing.
pub proof fn lemma_one_more(
    items: Seq<(Seq<char>, TrackerView)>,
    x: (Seq<char>, TrackerView),
    subs: Seq<(i32, Subscriber)>,
    sub: (i32, Subscriber),
    trades: Seq<GridTradeView>,
    t: GridTradeView,
)
    ensures
        pages::active_rows_glyphs(items.push(x)) == pages::active_rows_glyphs(items)
            + pages::active_part_glyphs(x.1),
        pages::active_rows_glyphs(Seq::empty()).len() == 0,
        pages::symbol_rows_glyphs(items.push(x)) == pages::symbol_rows_glyphs(items)
            + pages::symbol_row_glyphs(x.0, x.1),
        pages::symbol_rows_glyphs(Seq::empty()).len() == 0,
        pages::all_closed(items.push(x)) == pages::all_closed(items) + x.1.closed_trades,
        pages::all_closed(Seq::empty()).len() == 0,
        pages::subscriber_rows_glyphs(subs.push(sub)) == pages::subscriber_rows_glyphs(subs)
            + pages::subscriber_row_glyphs(sub.1),
        pages::subscriber_rows_glyphs(Seq::empty()).len() == 0,
        pages::view_rows_glyphs(trades.push(t)) == pages::view_rows_glyphs(trades)
            + pages::view_row_glyphs(trades.len() as int, t),
        pages::view_rows_glyphs(Seq::empty()).len() == 0,
{
    assert(items.push(x).drop_last() =~= items);
    assert(subs.push(sub).drop_last() =~= subs);
    assert(trades.push(t).drop_last() =~= trades);
}

/// The cards of the subscribers, the watched symbols and the states are those of each, in
/// their order.
pub proof fn lemma_each(
    items: Seq<(Seq<char>, TrackerView)>,
    subs: Seq<(i32, Subscriber)>,
    interval: i32, connected: bool,
)
    ensures
        pages::subscriber_cards_glyphs(subs) == page::joined(
            subs.map_values(|x: (i32, Subscriber)| pages::subscriber_card_glyphs(x.1)),
            "\n"@,
        ),
        pages::symbol_items_glyphs(items) == page::joined(
            items.map_values(
                |x: (Seq<char>, TrackerView)| pages::symbol_item_glyphs(x.0, x.1),
            ),
            "\n"@,
        ),
        pages::state_lines_glyphs(items, interval, connected) == page::joined(
            items.map_values(
                |x: (Seq<char>, TrackerView)| pages::state_line_glyphs(x.0, x.1, interval, connected),
            ),
            "<br>"@,
        ),
{
    assert(pages::subscriber_cards_parts(subs) =~= subs.map_values(
        |x: (i32, Subscriber)| pages::subscriber_card_glyphs(x.1),
    ));
    assert(pages::symbol_items_parts(items) =~= items.map_values(
        |x: (Seq<char>, TrackerView)| pages::symbol_item_glyphs(x.0, x.1),
    ));
    assert(pages::state_lines_parts(items, interval, connected) =~= items.map_values(
        |x: (Seq<char>, TrackerView)| pages::state_line_glyphs(x.0, x.1, interval, connected),
    ));
}

/// When a trade left; zero where it has not.
pub open spec fn left_at(t: GridTradeView) -> int {
    if t.exit_time is Some {
        t.exit_time->0.stamp()
    } else {
        0
    }
}

/// The closed trades that are shown are the fifty that left last, or all where there are
/// fewer, the last first; each is shown in its row.
pub proof fn lemma_latest_shown(trades: Seq<GridTradeView>)
    ensures
        shown::latest(
            pages::shown_order(trades),
            trades.map_values(|t: GridTradeView| left_at(t)),
        ),
        forall|order: Seq<int>, k: int|
            pages::ranked_rows_glyphs(#[trigger] order.push(k), trades) == pages::ranked_rows_glyphs(
                order,
                trades,
            ) + pages::closed_row_glyphs(trades[k]),
        pages::ranked_rows_glyphs(Seq::empty(), trades).len() == 0,
        pages::closed_rows_glyphs(trades) == pages::ranked_rows_glyphs(
            pages::shown_order(trades),
            trades,
        ),
{
    let stamps = trades.map_values(|t: GridTradeView| left_at(t));
    assert(Seq::new(trades.len(), |i: int| pages::exit_stamp(trades[i])) =~= stamps);
    shown::lemma_latest(stamps);
    assert forall|order: Seq<int>, k: int|
        pages::ranked_rows_glyphs(#[trigger] order.push(k), trades) == pages::ranked_rows_glyphs(
            order,
            trades,
        ) + pages::closed_row_glyphs(trades[k]) by {
        assert(order.push(k).drop_last() =~= order);
    }
}

/// The total of the gains of some trades: one more trade adds its gain, a ghost nothing.
pub proof fn lemma_total(trades: Seq<GridTradeView>, t: GridTradeView)
    ensures
        pages::total_gain(trades.push(t)) == if t.is_ghost {
            pages::total_gain(trades)
        } else {
            pages::total_gain(trades).plus(gained(t))
        },
        pages::total_gain(Seq::empty()).magnitude() == 0,
{
    assert(trades.push(t).drop_last() =~= trades);
}

/// What one more closed trade does to the sums of the dashboard: it is counted, as a win if
/// it gained and else as a loss, and its gain is added to the realized one; the rest stays.
/// A ghost changes nothing.
pub proof fn lemma_sum_of_closed(s: DashboardSummary, trades: Seq<GridTradeView>, t: GridTradeView)
    requires
        pages::tally_trades(s, trades).total_closed < u64::MAX,
        pages::tally_trades(s, trades).wins < u64::MAX,
        pages::tally_trades(s, trades).losses < u64::MAX,
    ensures
        ({
            let a = pages::tally_trades(s, trades);
            let b = pages::tally_trades(s, trades.push(t));
            let won = num(figures::ZERO).below(gained(t));
            if t.is_ghost {
                b == a
            } else {
                &&& b.total_closed == a.total_closed + 1
                &&& won ==> b.wins == a.wins + 1 && b.losses == a.losses
                &&& !won ==> b.wins == a.wins && b.losses == a.losses + 1
                &&& b.total_pnl == a.total_pnl.plus(gained(t))
                &&& b.active == a.active && b.unrealized_pnl == a.unrealized_pnl
            }
        }),
        pages::tally_trades(s, Seq::empty()) == s,
{
    assert(trades.push(t).drop_last() =~= trades);
}

/// What one more symbol does to the sums of the dashboard: its active trade is counted and
/// its gain at the current price added to the unrealized one, then its closed trades are
/// taken in. Without symbols all sums are zero.
pub proof fn lemma_sum_of_symbol(items: Seq<(Seq<char>, TrackerView)>, x: (Seq<char>, TrackerView))
    requires
        pages::tally(items).active < u64::MAX,
    ensures
        ({
            let a = pages::tally(items);
            let tr = x.1;
            pages::tally(items.push(x)) == pages::tally_trades(
                if tr.active_trade is Some && !tr.active_trade->0.is_ghost {
                    let t = tr.active_trade->0;
                    DashboardSummary {
                        active: (a.active + 1) as u64,
                        unrealized_pnl: a.unrealized_pnl.plus(
                            drawing::change(
                                t.direction == TradeDirection::Long,
                                t.entry_price,
                                if tr.current_price is Some {
                                    tr.current_price->0
                                } else {
                                    t.entry_price
                                },
                            ),
                        ),
                        ..a
                    }
                } else {
                    a
                },
                tr.closed_trades,
            )
        }),
        pages::tally(Seq::empty()) == (DashboardSummary {
            active: 0,
            total_closed: 0,
            wins: 0,
            losses: 0,
            total_pnl: Num { bits: 0 },
            unrealized_pnl: Num { bits: 0 },
        }),
{
    assert(items.push(x).drop_last() =~= items);
}

/// An alignment: colour and name.
pub proof fn lemma_alignment(a: AlligatorAlignment, name: Seq<char>)
    ensures
        pages::alignment_glyphs(a, name) == page::filled(
            pages::ALIGNMENT@,
            seq![
                shown::word(pages::alignment_color(a)),
                shown::word(name),
            ],
        ),
{
}

/// A row of an active ghost: symbol, label of the direction, time and price of the entry,
/// stop, target, symbol.
pub proof fn lemma_active_ghost_row(t: GridTradeView)
    ensures
        pages::active_ghost_row_glyphs(t) == page::filled(
            pages::ACTIVE_GHOST_ROW@,
            seq![
                shown::word(t.symbol),
                shown::word(shown::side(t.direction == TradeDirection::Long)),
                shown::clock(t.entry_time),
                shown::price(t.entry_price),
                shown::price(t.sl),
                shown::price(t.tp),
                shown::word(t.symbol),
            ],
        ),
{
}

/// A row of the active trades: symbol, colour and label of the direction, time and price
/// of the entry, stop, target, colour of the gain, gain, symbol.
pub proof fn lemma_active_row(t: GridTradeView, unrealized: Num)
    ensures
        pages::active_row_glyphs(t, unrealized) == page::filled(
            pages::ACTIVE_ROW@,
            seq![
                shown::word(t.symbol),
                shown::word(shown::side_mood(t.direction == TradeDirection::Long)),
                shown::word(shown::side(t.direction == TradeDirection::Long)),
                shown::clock(t.entry_time),
                shown::price(t.entry_price),
                shown::price(t.sl),
                shown::price(t.tp),
                shown::word(shown::tint(unrealized)),
                shown::percent(unrealized),
                shown::word(t.symbol),
            ],
        ),
{
}

/// A row of a closed ghost: symbol, label of the direction, times of entry and exit,
/// prices of entry and exit.
pub proof fn lemma_closed_ghost_row(t: GridTradeView)
    ensures
        pages::closed_ghost_row_glyphs(t) == page::filled(
            pages::CLOSED_GHOST_ROW@,
            seq![
                shown::word(t.symbol),
                shown::word(shown::side(t.direction == TradeDirection::Long)),
                shown::clock(t.entry_time),
                shown::clock_or_dash(t.exit_time),
                shown::price(t.entry_price),
                shown::number(shown::or_zero(t.exit_price)),
            ],
        ),
{
}

/// A row of the closed trades: symbol, colour and label of the direction, times of entry
/// and exit, prices of entry and exit, colour of the gain, gain.
pub proof fn lemma_closed_trade_row(t: GridTradeView)
    ensures
        pages::closed_trade_row_glyphs(t) == page::filled(
            pages::CLOSED_ROW@,
            seq![
                shown::word(t.symbol),
                shown::word(shown::side_mood(t.direction == TradeDirection::Long)),
                shown::word(shown::side(t.direction == TradeDirection::Long)),
                shown::clock(t.entry_time),
                shown::clock_or_dash(t.exit_time),
                shown::price(t.entry_price),
                shown::number(shown::or_zero(t.exit_price)),
                shown::word(shown::tint(gained(t))),
                shown::percent(gained(t)),
            ],
        ),
{
}

/// The card of a subscriber: number and stake.
pub proof fn lemma_subscriber_card(sub: Subscriber)
    ensures
        pages::subscriber_card_glyphs(sub) == page::filled(
            pages::SUBSCRIBER_CARD@,
            seq![
                shown::count(sub.sub_id as int),
                shown::number(sub.size),
            ],
        ),
{
}

/// The row of a subscriber: number, stake, number.
pub proof fn lemma_subscriber_row(sub: Subscriber)
    ensures
        pages::subscriber_row_glyphs(sub) == page::filled(
            pages::SUBSCRIBER_ROW@,
            seq![
                shown::count(sub.sub_id as int),
                shown::number(sub.size),
                shown::count(sub.sub_id as int),
            ],
        ),
{
}

/// The position of a symbol with a ghost: direction.
pub proof fn lemma_ghost_position(t: GridTradeView)
    ensures
        pages::ghost_position_glyphs(t) == page::filled(
            pages::GHOST_POSITION@,
            seq![
                shown::word(shown::side(t.direction == TradeDirection::Long)),
            ],
        ),
{
}

/// The position of a symbol: direction, gain.
pub proof fn lemma_trade_position(tr: TrackerView, t: GridTradeView)
    ensures
        pages::trade_position_glyphs(tr, t) == page::filled(
            pages::POSITION@,
            seq![
                shown::word(shown::side(t.direction == TradeDirection::Long)),
                pages::position_gain_glyphs(tr, t),
            ],
        ),
{
}

/// The number of ghosts, where there are some.
pub proof fn lemma_ghost_number(n: nat)
    ensures
        pages::ghost_number_glyphs(n) == page::filled(
            pages::GHOST_SUFFIX@,
            seq![
                shown::count(n as int),
            ],
        ),
{
}

/// The three averages.
pub proof fn lemma_known_averages(tr: TrackerView)
    ensures
        pages::known_averages_glyphs(tr) == page::filled(
            pages::AVERAGES@,
            seq![
                shown::rough(tr.jaw_val),
                shown::rough(tr.teeth_val),
                shown::rough(tr.lips_val),
            ],
        ),
{
}

/// A watched symbol: name, alignment, position, trades, ghosts, averages, name, name.
pub proof fn lemma_symbol_item(sym: Seq<char>, tr: TrackerView)
    ensures
        pages::symbol_item_glyphs(sym, tr) == page::filled(
            pages::SYMBOL_ITEM@,
            seq![
                shown::word(sym),
                pages::alignment_glyphs(tr.alignment, pages::alignment_label(tr.alignment)),
                pages::position_glyphs(tr),
                shown::count(entered(tr) as int),
                pages::ghost_suffix_glyphs(tr),
                pages::averages_glyphs(tr),
                shown::word(sym),
                shown::word(sym),
            ],
        ),
{
    lemma_entered(tr);
}

/// A watched symbol: name, name, base, alignment, colour and name of the state, trades,
/// name.
pub proof fn lemma_symbol_row(sym: Seq<char>, tr: TrackerView)
    ensures
        pages::symbol_row_glyphs(sym, tr) == page::filled(
            pages::SYMBOL_ROW@,
            seq![
                shown::word(sym),
                shown::word(sym),
                shown::rough(tr.base_price),
                pages::alignment_glyphs(tr.alignment, tr.alignment.name()),
                shown::word(state_tint(tr.active_trade is Some)),
                shown::word(state_word(tr.active_trade is Some)),
                shown::count(entered(tr) as int),
                shown::word(sym),
            ],
        ),
{
    lemma_entered(tr);
}

/// The dashboard: mark, interval, stop and target in percent, active, closed, wins,
/// losses, win rate, realized gain with its class before it, unrealized gain, total gain,
/// cards and rows of the subscribers, active trades, closed trades, watched symbols.
pub proof fn lemma_dashboard(e: EngineView)
    ensures
        ({
            let s = pages::tally(e.trackers);
            pages::dashboard_glyphs(e) == page::filled(
                pages::DASHBOARD@,
                seq![
                    shown::word(pages::reverse_mark(e.reverse_mode)),
                    shown::count(e.interval_minutes as int),
                    shown::number(e.sl_percent),
                    shown::number(e.tp_percent),
                    shown::count(s.active as int),
                    shown::count(s.total_closed as int),
                    shown::count(s.wins as int),
                    shown::count(s.losses as int),
                    page::figure(NumStyle::Fixed(1), shown::rate(s.wins, s.total_closed)),
                    shown::word(shown::mood(s.total_pnl)),
                    shown::percent(s.total_pnl),
                    shown::word(shown::mood(s.unrealized_pnl)),
                    shown::percent(s.unrealized_pnl),
                    shown::word(shown::mood(s.total_pnl.plus(s.unrealized_pnl))),
                    shown::percent(s.total_pnl.plus(s.unrealized_pnl)),
                    shown::unless(e.subscribers.len() == 0, parts::NO_SUBSCRIPTIONS_CARD@, pages::subscriber_cards_glyphs(e.subscribers)),
                    shown::unless(e.subscribers.len() == 0, pages::NO_SUBSCRIBERS@, pages::subscriber_rows_glyphs(e.subscribers)),
                    shown::unless(pages::none_active(e.trackers), pages::NO_ACTIVE@, pages::active_rows_glyphs(e.trackers)),
                    shown::unless(pages::all_closed(e.trackers).len() == 0, pages::NO_CLOSED@, pages::closed_rows_glyphs(pages::all_closed(e.trackers))),
                    shown::unless(e.trackers.len() == 0, parts::NO_SYMBOLS@, pages::symbol_items_glyphs(e.trackers)),
                ],
            )
        }),
{
}

/// The page to manage subscribers and symbols: number and rows of the subscribers,
/// number and rows of the symbols.
pub proof fn lemma_subs_page(e: EngineView)
    ensures
        pages::subs_page_glyphs(e) == page::filled(
            pages::SUBS_PAGE@,
            seq![
                shown::count(e.subscribers.len() as int),
                shown::unless(e.subscribers.len() == 0, pages::NO_SUBSCRIBERS_MANAGED@, pages::subscriber_rows_glyphs(e.subscribers)),
                shown::count(e.trackers.len() as int),
                shown::unless(e.trackers.len() == 0, pages::NO_SYMBOLS_MANAGED@, pages::symbol_rows_glyphs(e.trackers)),
            ],
        ),
{
}

/// A row of a closed ghost of one symbol: number, direction, times of entry and exit,
/// prices of entry and exit, duration, signal.
pub proof fn lemma_view_ghost_row(n: int, t: GridTradeView)
    ensures
        pages::view_ghost_row_glyphs(n, t) == page::filled(
            pages::VIEW_GHOST_ROW@,
            seq![
                shown::count(n + 1),
                shown::word(shown::side(t.direction == TradeDirection::Long)),
                shown::clock(t.entry_time),
                shown::clock_or_dash(t.exit_time),
                shown::price(t.entry_price),
                shown::price(shown::or_zero(t.exit_price)),
                shown::span_or_dash(t.entry_time, t.exit_time),
                shown::word(t.signal_label),
            ],
        ),
{
}

/// A row of the closed trades of one symbol: number, direction, times of entry and exit,
/// prices of entry and exit, class of the gain, gain, duration, signal.
pub proof fn lemma_view_trade_row(n: int, t: GridTradeView)
    ensures
        pages::view_trade_row_glyphs(n, t) == page::filled(
            pages::VIEW_ROW@,
            seq![
                shown::count(n + 1),
                shown::word(shown::side(t.direction == TradeDirection::Long)),
                shown::clock(t.entry_time),
                shown::clock_or_dash(t.exit_time),
                shown::price(t.entry_price),
                shown::price(shown::or_zero(t.exit_price)),
                shown::word(shown::mood(gained(t))),
                shown::percent(gained(t)),
                shown::span_or_dash(t.entry_time, t.exit_time),
                shown::word(t.signal_label),
            ],
        ),
{
}

/// The page of one symbol: name, name, base, alignment, class and name of the state,
/// signal, entry, stop, target, class of the gain, gain, ghosts, chart, closed trades.
pub proof fn lemma_view_page(sym: Seq<char>, tr: TrackerView)
    ensures
        pages::view_page_glyphs(sym, tr) == page::filled(
            pages::VIEW_PAGE@,
            seq![
                shown::word(sym),
                shown::word(sym),
                shown::price(tr.base_price),
                pages::alignment_glyphs(tr.alignment, pages::alignment_label(tr.alignment)),
                shown::word(pages::view_state(tr).0),
                shown::word(pages::view_state(tr).1),
                pages::signal_glyphs(tr),
                shown::price_or_dash(pages::active_levels(tr).0),
                shown::price_or_dash(pages::active_levels(tr).1),
                shown::price_or_dash(pages::active_levels(tr).2),
                shown::word(shown::mood(pages::total_gain(tr.closed_trades))),
                shown::percent(pages::total_gain(tr.closed_trades)),
                shown::count(ghosts(tr.closed_trades) as int),
                chart::chart_glyphs(tr),
                shown::unless(tr.closed_trades.len() == 0, pages::NO_CLOSED_VIEW@, pages::view_rows_glyphs(tr.closed_trades)),
            ],
        ),
{
    lemma_ghosts(tr.closed_trades);
}

/// The active trade of a symbol: direction, entry, stop, target, mark of a ghost.
pub proof fn lemma_state_trade(t: GridTradeView)
    ensures
        pages::state_trade_glyphs(t) == page::filled(
            pages::STATE_TRADE@,
            seq![
                shown::word(shown::side(t.direction == TradeDirection::Long)),
                shown::number(t.entry_price),
                shown::number(t.sl),
                shown::number(t.tp),
                shown::word(pages::ghost_mark(t.is_ghost)),
            ],
        ),
{
}

/// The state of a symbol: name, base, interval, alignment, three averages, price, active
/// trade, bars, closed trades, ghosts, ghosts to come, whether they were set off, stream.
pub proof fn lemma_state_line(sym: Seq<char>, tr: TrackerView, interval: i32, connected: bool)
    ensures
        pages::state_line_glyphs(sym, tr, interval, connected) == page::filled(
            pages::STATE_LINE@,
            seq![
                shown::word(sym),
                shown::price(tr.base_price),
                shown::count(interval as int),
                shown::word(tr.alignment.name()),
                shown::price(tr.jaw_val),
                shown::price(tr.teeth_val),
                shown::price(tr.lips_val),
                shown::number_or_none(tr.current_price),
                pages::state_active_glyphs(tr),
                shown::count(tr.klines.len() as int),
                shown::count(tr.closed_trades.len() as int),
                pages::ghost_suffix_glyphs(tr),
                shown::count(tr.ghost_remaining as int),
                shown::truth(tr.ghost_triggered),
                shown::truth(connected),
            ],
        ),
{
}

/// The page of the states has a line for each symbol, in their order, with the interval and the stream of the engine.
/// Without symbols it says so.
pub proof fn lemma_states(e: EngineView)
    ensures
        e.trackers.len() == 0 ==> pages::states_glyphs(e) == page::filled(
            parts::STATE_PAGE@,
            seq![shown::word("No trackers."@)],
        ),
        e.trackers.len() > 0 ==> pages::states_glyphs(e) == page::filled(
            parts::STATE_PAGE@,
            seq![
                page::joined(
                    Seq::new(
                        e.trackers.len(),
                        |i: int|
                            pages::state_line_glyphs(
                                e.trackers[i].0,
                                e.trackers[i].1,
                                e.interval_minutes,
                                e.connected,
                            ),
                    ),
                    "<br>"@,
                ),
            ],
        ),
{
    if e.trackers.len() > 0 {
        assert(pages::state_lines_parts(e.trackers, e.interval_minutes, e.connected) =~= Seq::new(
            e.trackers.len(),
            |i: int| pages::state_line_glyphs(e.trackers[i].0, e.trackers[i].1, e.interval_minutes, e.connected),
        ));
    }
}

} // verus!
