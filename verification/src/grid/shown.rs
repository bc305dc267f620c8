//! What the pages of the grid engine show.
use vstd::prelude::*;
use crate::arithmetic;
use crate::drawing;
use crate::figures;
use crate::grid::chart;
use crate::grid::engine::{EngineView, Subscriber};
use crate::grid::pages;
use crate::grid::tracker::{GridTradeView, TrackerView};
use crate::market::{TradeDirection, TradeStatus};
use crate::market;
use crate::num::{num, Num};
use crate::page::NumStyle;
use crate::page;
use crate::parts::DashboardSummary;
use crate::parts;
use crate::shown;
use crate::time::Moment;

verus! {

/// The gain of a closed trade in percent: what its price changed by from entry to exit, up
/// for a long trade and down for a short one. A trade that runs has none.
pub open spec fn gained(t: GridTradeView) -> Num {
    if t.status == TradeStatus::Open || t.exit_price is None {
        Num { bits: 0 }
    } else {
        drawing::change(t.direction == TradeDirection::Long, t.entry_price, t.exit_price->0)
    }
}

/// The gain of a closed trade is that of its side: not below zero where the price has not
/// moved against it, and not above where it has not moved its way.
pub proof fn lemma_gained(t: GridTradeView)
    requires
        arithmetic::positive(t.entry_price),
        t.exit_price is Some,
        t.exit_price->0.finite(),
    ensures
        t.pnl() == gained(t),
        (t.direction == TradeDirection::Long && t.entry_price.at_most(t.exit_price->0)) || (t.direction != TradeDirection::Long
            && t.exit_price->0.at_most(t.entry_price)) ==> num(figures::ZERO).at_most(t.pnl()),
        (t.direction == TradeDirection::Long && t.exit_price->0.at_most(t.entry_price)) || (t.direction != TradeDirection::Long
            && t.entry_price.at_most(t.exit_price->0)) ==> t.pnl().at_most(num(figures::ZERO)),
{
    market::lemma_gain_sign(t.entry_price, t.exit_price->0);
}

/// The gain that is shown of an active trade is the one that it would have if it were
/// closed at the current price; where there is none, at its entry.
pub proof fn lemma_live_gain(tr: TrackerView, t: GridTradeView, at: Moment)
    ensures
        tr.current_price is Some ==> pages::live_gain(tr, t) == t.closed(
            tr.current_price->0,
            at,
        ).pnl(),
        tr.current_price is Some ==> pages::live_gain(tr, t) == drawing::change(
            t.direction == TradeDirection::Long,
            t.entry_price,
            tr.current_price->0,
        ),
        tr.current_price is None ==> pages::live_gain(tr, t) == drawing::change(
            t.direction == TradeDirection::Long,
            t.entry_price,
            t.entry_price,
        ),
{
}

/// The gain that is shown of an active trade has the sign of its side: where the price is
/// not above the entry it is not below zero for a short trade and not above for a long
/// one, and the other way where the price is not below.
pub proof fn lemma_live_sign(tr: TrackerView, t: GridTradeView)
    requires
        arithmetic::positive(t.entry_price),
        tr.current_price is Some,
        tr.current_price->0.finite(),
    ensures
        ({
            let now = tr.current_price->0;
            let zero = num(figures::ZERO);
            &&& now.at_most(t.entry_price) && t.direction == TradeDirection::Long ==> pages::live_gain(tr, t).at_most(
                zero,
            )
            &&& now.at_most(t.entry_price) && t.direction != TradeDirection::Long ==> zero.at_most(
                pages::live_gain(tr, t),
            )
            &&& t.entry_price.at_most(now) && t.direction == TradeDirection::Long ==> zero.at_most(
                pages::live_gain(tr, t),
            )
            &&& t.entry_price.at_most(now) && t.direction != TradeDirection::Long ==> pages::live_gain(tr, t).at_most(
                zero,
            )
        }),
{
    market::lemma_gain_sign(t.entry_price, tr.current_price->0);
}

/// How many trades were entered.
pub open spec fn entered(tr: TrackerView) -> nat {
    if tr.active_trade is Some {
        tr.closed_trades.len() + 1
    } else {
        tr.closed_trades.len()
    }
}

/// The name of the state of a symbol.
pub open spec fn state_word(active: bool) -> Seq<char> {
    if active {
        "IN"@
    } else {
        "flat"@
    }
}

/// The colour of the state of a symbol.
pub open spec fn state_tint(active: bool) -> Seq<char> {
    if active {
        "#4caf50"@
    } else {
        "#8b949e"@
    }
}

/// The state of a symbol on its own page, in its class.
pub proof fn lemma_view_state(active: bool)
    ensures
        active ==> pages::view_state(active) == ("green"@, "IN POSITION"@),
        !active ==> pages::view_state(active) == ("red"@, "FLAT"@),
{
}

/// An active trade is shown in a row with its gain at the current price; the position of a
/// symbol is that of its active trade.
pub proof fn lemma_active_part(tr: TrackerView)
    ensures
        pages::active_part_glyphs(tr) == match tr.active_trade {
            Some(t) => pages::active_row_glyphs(
                t,
                drawing::change(
                    t.direction == TradeDirection::Long,
                    t.entry_price,
                    if tr.current_price is Some {
                        tr.current_price->0
                    } else {
                        t.entry_price
                    },
                ),
            ),
            None => Seq::empty(),
        },
        tr.active_trade is Some ==> pages::position_glyphs(tr) == pages::trade_position_glyphs(
            tr,
            tr.active_trade->0,
        ),
        tr.active_trade is None ==> pages::position_glyphs(tr) == shown::word(parts::FLAT@),
        tr.active_trade is Some ==> pages::entry_or_dash_glyphs(tr) == pages::entry_glyphs(
            tr.active_trade->0,
        ) && pages::active_stop(tr) == Some(tr.active_trade->0.sl) && pages::active_target(tr)
            == Some(tr.active_trade->0.tp),
        tr.active_trade is None ==> pages::entry_or_dash_glyphs(tr) == shown::word("-"@)
            && pages::active_stop(tr) is None && pages::active_target(tr) is None,
{
}

/// The gain of a position is that of its trade at the current price, once there is one; the
/// state of a symbol is that of its active trade.
pub proof fn lemma_position_gain(tr: TrackerView, t: GridTradeView)
    ensures
        tr.current_price is Some ==> pages::position_gain_glyphs(tr, t) == shown::coloured(
            drawing::change(
                t.direction == TradeDirection::Long,
                t.entry_price,
                tr.current_price->0,
            ),
        ),
        tr.current_price is None ==> pages::position_gain_glyphs(tr, t) == shown::word(parts::FLAT@),
        pages::state_active_glyphs(tr) == match tr.active_trade {
            Some(x) => pages::state_trade_glyphs(x),
            None => shown::word("flat"@),
        },
{
}

/// One more symbol, one more subscriber or one more trade adds its own part behind the
/// others, and nothing else; without any there is nothing.
pub proof fn lemma_one_more(
    items: Seq<(Seq<char>, TrackerView)>,
    x: (Seq<char>, TrackerView),
    subs: Seq<(i32, Subscriber)>,
    sub: (i32, Subscriber),
    trades: Seq<GridTradeView>,
    t: GridTradeView,
)
    ensures
        pages::active_rows_glyphs(items.push(x)) == pages::active_rows_glyphs(items)
            + pages::active_part_glyphs(x.1),
        pages::active_rows_glyphs(Seq::empty()).len() == 0,
        pages::symbol_rows_glyphs(items.push(x)) == pages::symbol_rows_glyphs(items)
            + pages::symbol_row_glyphs(x.0, x.1),
        pages::symbol_rows_glyphs(Seq::empty()).len() == 0,
        pages::all_closed(items.push(x)) == pages::all_closed(items) + x.1.closed_trades,
        pages::all_closed(Seq::empty()).len() == 0,
        pages::subscriber_rows_glyphs(subs.push(sub)) == pages::subscriber_rows_glyphs(subs)
            + pages::subscriber_row_glyphs(sub.1),
        pages::subscriber_rows_glyphs(Seq::empty()).len() == 0,
        pages::view_rows_glyphs(trades.push(t)) == pages::view_rows_glyphs(trades)
            + pages::view_row_glyphs(trades.len() as int, t),
        pages::view_rows_glyphs(Seq::empty()).len() == 0,
{
    assert(items.push(x).drop_last() =~= items);
    assert(subs.push(sub).drop_last() =~= subs);
    assert(trades.push(t).drop_last() =~= trades);
}

/// The cards of the subscribers, the watched symbols and the states are those of each, in
/// their order.
pub proof fn lemma_each(
    items: Seq<(Seq<char>, TrackerView)>,
    subs: Seq<(i32, Subscriber)>,
    connected: bool,
)
    ensures
        pages::subscriber_cards_glyphs(subs) == page::joined(
            subs.map_values(|x: (i32, Subscriber)| pages::subscriber_card_glyphs(x.1)),
            "\n"@,
        ),
        pages::symbol_items_glyphs(items) == page::joined(
            items.map_values(
                |x: (Seq<char>, TrackerView)| pages::symbol_item_glyphs(x.0, x.1),
            ),
            "\n"@,
        ),
        pages::state_lines_glyphs(items, connected) == page::joined(
            items.map_values(
                |x: (Seq<char>, TrackerView)| pages::state_line_glyphs(x.0, x.1, connected),
            ),
            "<br>"@,
        ),
{
    assert(pages::subscriber_cards_parts(subs) =~= subs.map_values(
        |x: (i32, Subscriber)| pages::subscriber_card_glyphs(x.1),
    ));
    assert(pages::symbol_items_parts(items) =~= items.map_values(
        |x: (Seq<char>, TrackerView)| pages::symbol_item_glyphs(x.0, x.1),
    ));
    assert(pages::state_lines_parts(items, connected) =~= items.map_values(
        |x: (Seq<char>, TrackerView)| pages::state_line_glyphs(x.0, x.1, connected),
    ));
}

/// When a trade left; zero where it has not.
pub open spec fn left_at(t: GridTradeView) -> int {
    if t.exit_time is Some {
        t.exit_time->0.stamp()
    } else {
        0
    }
}

/// The closed trades that are shown are the fifty that left last, or all where there are
/// fewer, the last first; each is shown in its row.
pub proof fn lemma_latest_shown(trades: Seq<GridTradeView>)
    ensures
        shown::latest(
            pages::shown_order(trades),
            trades.map_values(|t: GridTradeView| left_at(t)),
        ),
        forall|order: Seq<int>, k: int|
            pages::ranked_rows_glyphs(#[trigger] order.push(k), trades) == pages::ranked_rows_glyphs(
                order,
                trades,
            ) + pages::closed_row_glyphs(trades[k]),
        pages::ranked_rows_glyphs(Seq::empty(), trades).len() == 0,
        pages::closed_rows_glyphs(trades) == pages::ranked_rows_glyphs(
            pages::shown_order(trades),
            trades,
        ),
{
    let stamps = trades.map_values(|t: GridTradeView| left_at(t));
    assert(Seq::new(trades.len(), |i: int| pages::exit_stamp(trades[i])) =~= stamps);
    shown::lemma_latest(stamps);
    assert forall|order: Seq<int>, k: int|
        pages::ranked_rows_glyphs(#[trigger] order.push(k), trades) == pages::ranked_rows_glyphs(
            order,
            trades,
        ) + pages::closed_row_glyphs(trades[k]) by {
        assert(order.push(k).drop_last() =~= order);
    }
}

/// The total of the gains of some trades: one more trade adds its gain.
pub proof fn lemma_total(trades: Seq<GridTradeView>, t: GridTradeView)
    ensures
        pages::total_gain(trades.push(t)) == pages::total_gain(trades).plus(gained(t)),
        pages::total_gain(Seq::empty()).magnitude() == 0,
{
    assert(trades.push(t).drop_last() =~= trades);
}

/// What one more closed trade does to the sums of the dashboard: it is counted, as a win if
/// it gained and else as a loss, and its gain is added to the realized one; the rest stays.
pub proof fn lemma_sum_of_closed(s: DashboardSummary, trades: Seq<GridTradeView>, t: GridTradeView)
    requires
        pages::tally_trades(s, trades).total_closed < u64::MAX,
        pages::tally_trades(s, trades).wins < u64::MAX,
        pages::tally_trades(s, trades).losses < u64::MAX,
    ensures
        ({
            let a = pages::tally_trades(s, trades);
            let b = pages::tally_trades(s, trades.push(t));
            let won = num(figures::ZERO).below(gained(t));
            &&& b.total_closed == a.total_closed + 1
            &&& won ==> b.wins == a.wins + 1 && b.losses == a.losses
            &&& !won ==> b.wins == a.wins && b.losses == a.losses + 1
            &&& b.total_pnl == a.total_pnl.plus(gained(t))
            &&& b.active == a.active && b.unrealized_pnl == a.unrealized_pnl
        }),
        pages::tally_trades(s, Seq::empty()) == s,
{
    assert(trades.push(t).drop_last() =~= trades);
}

/// What one more symbol does to the sums of the dashboard: its active trade is counted and
/// its gain at the current price added to the unrealized one, then its closed trades are
/// taken in. Without symbols all sums are zero.
pub proof fn lemma_sum_of_symbol(items: Seq<(Seq<char>, TrackerView)>, x: (Seq<char>, TrackerView))
    requires
        pages::tally(items).active < u64::MAX,
    ensures
        ({
            let a = pages::tally(items);
            let tr = x.1;
            pages::tally(items.push(x)) == pages::tally_trades(
                if tr.active_trade is Some {
                    let t = tr.active_trade->0;
                    DashboardSummary {
                        active: (a.active + 1) as u64,
                        unrealized_pnl: a.unrealized_pnl.plus(
                            drawing::change(
                                t.direction == TradeDirection::Long,
                                t.entry_price,
                                if tr.current_price is Some {
                                    tr.current_price->0
                                } else {
                                    t.entry_price
                                },
                            ),
                        ),
                        ..a
                    }
                } else {
                    a
                },
                tr.closed_trades,
            )
        }),
        pages::tally(Seq::empty()) == (DashboardSummary {
            active: 0,
            total_closed: 0,
            wins: 0,
            losses: 0,
            total_pnl: Num { bits: 0 },
            unrealized_pnl: Num { bits: 0 },
        }),
{
    assert(items.push(x).drop_last() =~= items);
}

/// A row of the active trades: symbol, colour and label of the direction, level, time
/// and price of the entry, stop, target, colour of the gain, gain, symbol.
pub proof fn lemma_active_row(t: GridTradeView, unrealized: Num)
    ensures
        pages::active_row_glyphs(t, unrealized) == page::filled(
            pages::ACTIVE_ROW@,
            seq![
                shown::word(t.symbol),
                shown::word(shown::side_mood(t.direction == TradeDirection::Long)),
                shown::word(shown::side(t.direction == TradeDirection::Long)),
                shown::count(t.level as int),
                shown::clock(t.entry_time),
                shown::price(t.entry_price),
                shown::price(t.sl),
                shown::price(t.tp),
                shown::word(shown::tint(unrealized)),
                shown::percent(unrealized),
                shown::word(t.symbol),
            ],
        ),
{
}

/// A row of the closed trades: symbol, colour and label of the direction, level, times
/// of entry and exit, prices of entry and exit, colour of the gain, gain.
pub proof fn lemma_closed_row(t: GridTradeView)
    ensures
        pages::closed_row_glyphs(t) == page::filled(
            pages::CLOSED_ROW@,
            seq![
                shown::word(t.symbol),
                shown::word(shown::side_mood(t.direction == TradeDirection::Long)),
                shown::word(shown::side(t.direction == TradeDirection::Long)),
                shown::count(t.level as int),
                shown::clock(t.entry_time),
                shown::clock_or_dash(t.exit_time),
                shown::price(t.entry_price),
                shown::number(shown::or_zero(t.exit_price)),
                shown::word(shown::tint(gained(t))),
                shown::percent(gained(t)),
            ],
        ),
{
}

/// The card of a subscriber: number and stake.
pub proof fn lemma_subscriber_card(sub: Subscriber)
    ensures
        pages::subscriber_card_glyphs(sub) == page::filled(
            pages::SUBSCRIBER_CARD@,
            seq![
                shown::count(sub.sub_id as int),
                shown::number(sub.size),
            ],
        ),
{
}

/// The row of a subscriber: number, stake, number.
pub proof fn lemma_subscriber_row(sub: Subscriber)
    ensures
        pages::subscriber_row_glyphs(sub) == page::filled(
            pages::SUBSCRIBER_ROW@,
            seq![
                shown::count(sub.sub_id as int),
                shown::number(sub.size),
                shown::count(sub.sub_id as int),
            ],
        ),
{
}

/// The position of a symbol: direction, level, gain.
pub proof fn lemma_trade_position(tr: TrackerView, t: GridTradeView)
    ensures
        pages::trade_position_glyphs(tr, t) == page::filled(
            pages::POSITION@,
            seq![
                shown::word(shown::side(t.direction == TradeDirection::Long)),
                shown::count(t.level as int),
                pages::position_gain_glyphs(tr, t),
            ],
        ),
{
}

/// A watched symbol: name, base, step, position, trades, name, name.
pub proof fn lemma_symbol_item(sym: Seq<char>, tr: TrackerView)
    ensures
        pages::symbol_item_glyphs(sym, tr) == page::filled(
            pages::SYMBOL_ITEM@,
            seq![
                shown::word(sym),
                shown::rough(tr.base_price),
                page::figure(NumStyle::Fixed(3), num(figures::HALF)),
                pages::position_glyphs(tr),
                shown::count(entered(tr) as int),
                shown::word(sym),
                shown::word(sym),
            ],
        ),
{
}

/// A watched symbol: name, name, base, colour and name of the state, trades, name.
pub proof fn lemma_symbol_row(sym: Seq<char>, tr: TrackerView)
    ensures
        pages::symbol_row_glyphs(sym, tr) == page::filled(
            pages::SYMBOL_ROW@,
            seq![
                shown::word(sym),
                shown::word(sym),
                shown::rough(tr.base_price),
                shown::word(state_tint(tr.active_trade is Some)),
                shown::word(state_word(tr.active_trade is Some)),
                shown::count(entered(tr) as int),
                shown::word(sym),
            ],
        ),
{
}

/// The dashboard: active, closed, wins, losses, win rate, realized gain with its class
/// before it, unrealized gain, total gain, cards and rows of the subscribers, active
/// trades, closed trades, watched symbols.
pub proof fn lemma_dashboard(e: EngineView)
    ensures
        ({
            let s = pages::tally(e.trackers);
            pages::dashboard_glyphs(e) == page::filled(
                pages::DASHBOARD@,
                seq![
                    shown::count(s.active as int),
                    shown::count(s.total_closed as int),
                    shown::count(s.wins as int),
                    shown::count(s.losses as int),
                    page::figure(NumStyle::Fixed(1), shown::rate(s.wins, s.total_closed)),
                    shown::word(shown::mood(s.total_pnl)),
                    shown::percent(s.total_pnl),
                    shown::word(shown::mood(s.unrealized_pnl)),
                    shown::percent(s.unrealized_pnl),
                    shown::word(shown::mood(s.total_pnl.plus(s.unrealized_pnl))),
                    shown::percent(s.total_pnl.plus(s.unrealized_pnl)),
                    shown::unless(e.subscribers.len() == 0, parts::NO_SUBSCRIPTIONS_CARD@, pages::subscriber_cards_glyphs(e.subscribers)),
                    shown::unless(e.subscribers.len() == 0, pages::NO_SUBSCRIBERS@, pages::subscriber_rows_glyphs(e.subscribers)),
                    shown::unless(pages::none_active(e.trackers), pages::NO_ACTIVE@, pages::active_rows_glyphs(e.trackers)),
                    shown::unless(pages::all_closed(e.trackers).len() == 0, pages::NO_CLOSED@, pages::closed_rows_glyphs(pages::all_closed(e.trackers))),
                    shown::unless(e.trackers.len() == 0, parts::NO_SYMBOLS@, pages::symbol_items_glyphs(e.trackers)),
                ],
            )
        }),
{
}

/// The page to manage subscribers and symbols: number and rows of the subscribers,
/// number and rows of the symbols.
pub proof fn lemma_subs_page(e: EngineView)
    ensures
        pages::subs_page_glyphs(e) == page::filled(
            pages::SUBS_PAGE@,
            seq![
                shown::count(e.subscribers.len() as int),
                shown::unless(e.subscribers.len() == 0, pages::NO_SUBSCRIBERS_MANAGED@, pages::subscriber_rows_glyphs(e.subscribers)),
                shown::count(e.trackers.len() as int),
                shown::unless(e.trackers.len() == 0, pages::NO_SYMBOLS_MANAGED@, pages::symbol_rows_glyphs(e.trackers)),
            ],
        ),
{
}

/// A row of the closed trades of one symbol: number, direction, level, times of entry
/// and exit, prices of entry and exit, class of the gain, gain, duration.
pub proof fn lemma_view_row(n: int, t: GridTradeView)
    ensures
        pages::view_row_glyphs(n, t) == page::filled(
            pages::VIEW_ROW@,
            seq![
                shown::count(n + 1),
                shown::word(shown::side(t.direction == TradeDirection::Long)),
                shown::count(t.level as int),
                shown::clock(t.entry_time),
                shown::clock_or_dash(t.exit_time),
                shown::price(t.entry_price),
                shown::price(shown::or_zero(t.exit_price)),
                shown::word(shown::mood(gained(t))),
                shown::percent(gained(t)),
                shown::span_or_dash(t.entry_time, t.exit_time),
            ],
        ),
{
}

/// The entry of a trade: price and level.
pub proof fn lemma_entry(t: GridTradeView)
    ensures
        pages::entry_glyphs(t) == page::filled(
            pages::ENTRY@,
            seq![
                shown::price(t.entry_price),
                shown::count(t.level as int),
            ],
        ),
{
}

/// The page of one symbol: name, name, base, class and name of the state, entry, stop,
/// target, class of the gain, gain, chart, closed trades.
pub proof fn lemma_view_page(sym: Seq<char>, tr: TrackerView)
    ensures
        pages::view_page_glyphs(sym, tr) == page::filled(
            pages::VIEW_PAGE@,
            seq![
                shown::word(sym),
                shown::word(sym),
                shown::price(tr.base_price),
                shown::word(pages::view_state(tr.active_trade is Some).0),
                shown::word(pages::view_state(tr.active_trade is Some).1),
                pages::entry_or_dash_glyphs(tr),
                shown::price_or_dash(pages::active_stop(tr)),
                shown::price_or_dash(pages::active_target(tr)),
                shown::word(shown::mood(pages::total_gain(tr.closed_trades))),
                shown::percent(pages::total_gain(tr.closed_trades)),
                chart::chart_glyphs(tr),
                shown::unless(tr.closed_trades.len() == 0, pages::NO_CLOSED_VIEW@, pages::view_rows_glyphs(tr.closed_trades)),
            ],
        ),
{
}

/// The active trade of a symbol: level, direction, entry, stop, target.
pub proof fn lemma_state_trade(t: GridTradeView)
    ensures
        pages::state_trade_glyphs(t) == page::filled(
            pages::STATE_TRADE@,
            seq![
                shown::count(t.level as int),
                shown::word(shown::side(t.direction == TradeDirection::Long)),
                shown::number(t.entry_price),
                shown::number(t.sl),
                shown::number(t.tp),
            ],
        ),
{
}

/// The state of a symbol: name, base, price, active trade, bars, closed trades, stream.
pub proof fn lemma_state_line(sym: Seq<char>, tr: TrackerView, connected: bool)
    ensures
        pages::state_line_glyphs(sym, tr, connected) == page::filled(
            pages::STATE_LINE@,
            seq![
                shown::word(sym),
                shown::price(tr.base_price),
                shown::number_or_none(tr.current_price),
                pages::state_active_glyphs(tr),
                shown::count(tr.klines.len() as int),
                shown::count(tr.closed_trades.len() as int),
                shown::truth(connected),
            ],
        ),
{
}

/// The page of the states has a line for each symbol, in their order, with the stream of the engine.
/// Without symbols it says so.
pub proof fn lemma_states(e: EngineView)
    ensures
        e.trackers.len() == 0 ==> pages::states_glyphs(e) == page::filled(
            parts::STATE_PAGE@,
            seq![shown::word("No trackers."@)],
        ),
        e.trackers.len() > 0 ==> pages::states_glyphs(e) == page::filled(
            parts::STATE_PAGE@,
            seq![
                page::joined(
                    Seq::new(
                        e.trackers.len(),
                        |i: int|
                            pages::state_line_glyphs(
                                e.trackers[i].0,
                                e.trackers[i].1,
                                e.connected,
                            ),
                    ),
                    "<br>"@,
                ),
            ],
        ),
{
    if e.trackers.len() > 0 {
        assert(pages::state_lines_parts(e.trackers, e.connected) =~= Seq::new(
            e.trackers.len(),
            |i: int| pages::state_line_glyphs(e.trackers[i].0, e.trackers[i].1, e.connected),
        ));
    }
}

} // verus!
