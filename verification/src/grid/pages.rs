//! The pages of the grid engine.
use vstd::prelude::*;
use vstd::string::*;
use crate::figures;
use crate::grid::chart;
use crate::grid::engine::{EngineView, RealtimeEngine, Subscriber};
use crate::grid::tracker;
use crate::grid::tracker::{GridTrade, GridTradeView, SymbolTracker, TrackerView};
use crate::market;
use crate::num::{num, Num};
use crate::order;
use crate::page;
use crate::page::{Glyph, NumStyle, Page};
use crate::parts;
use crate::parts::DashboardSummary;
use crate::stream;
use crate::table;
use crate::time;

verus! {

/// A row of the active trades: symbol, colour and label of the direction, level, time
/// and price of the entry, stop, target, colour of the gain, gain, symbol.
pub const ACTIVE_ROW: &'static str = r#"<tr><td>{}</td><td class="{}">{}</td><td>L{}</td><td>{}</td><td>{}</td><td>{}</td><td>{}</td><td style="color:{}">{}%</td><td><a href="/viewtrades/{}">Chart</a></td></tr>
"#;

/// A row of the closed trades: symbol, colour and label of the direction, level, times
/// of entry and exit, prices of entry and exit, colour of the gain, gain.
pub const CLOSED_ROW: &'static str = r#"<tr><td>{}</td><td class="{}">{}</td><td>L{}</td><td>{}</td><td>{}</td><td>{}</td><td>{}</td><td style="color:{}">{}%</td></tr>
"#;

/// The card of a subscriber: number and stake.
pub const SUBSCRIBER_CARD: &'static str = r#"<span class="summary-card" style="padding:8px 16px;min-width:100px"><div class="num" style="font-size:1.2em">#{}</div><div class="lbl">{} USDT</div></span>"#;

/// The row of a subscriber: number, stake, number.
pub const SUBSCRIBER_ROW: &'static str = r#"<tr><td>#{}</td><td>{} USDT</td><td><a href="/removeSubscriber?subID={}" style="color:#ef5350">remove</a></td></tr>
"#;

/// The position of a symbol: direction, level, gain.
pub const POSITION: &'static str = "{} L{} {}";

/// A watched symbol: name, base, step, position, trades, name, name.
pub const SYMBOL_ITEM: &'static str = r#"<li><b>{}</b> base={} step={}% | pos: {} | trades: {} | <a href="/viewtrades/{}">chart</a> | <a href="/removeSymbol/{}" style="color:#ef5350;font-size:0.8em">remove</a></li>"#;

/// In place of the rows of subscribers on the dashboard.
pub const NO_SUBSCRIBERS: &'static str = r#"<tr><td colspan="3" style="text-align:center;color:#8b949e">No subscriptions active</td></tr>"#;

/// In place of the active trades.
pub const NO_ACTIVE: &'static str = r#"<tr><td colspan="10" style="text-align:center;color:#8b949e">No active trades</td></tr>"#;

/// In place of the closed trades.
pub const NO_CLOSED: &'static str = r#"<tr><td colspan="8" style="text-align:center;color:#8b949e">No closed trades</td></tr>"#;

/// The dashboard: active, closed, wins, losses, win rate, realized gain with its class
/// before it, unrealized gain, total gain, cards and rows of the subscribers, active
/// trades, closed trades, watched symbols.
pub const DASHBOARD: &'static str = r#"<!DOCTYPE html>
<html lang="en">
<head><meta charset="UTF-8"><meta http-equiv="refresh" content="5">
<title>Grid Trading Engine</title>
<style>
  * { box-sizing:border-box; margin:0; padding:0 }
  body { font-family:Segoe UI,sans-serif; background:#0d1117; color:#c9d1d9; padding:20px }
  h1,h2,h3 { color:#f0f6fc }
  .summary { display:flex; gap:16px; flex-wrap:wrap; margin:16px 0 24px }
  .summary-card { background:#161b22; border:1px solid #30363d; border-radius:8px; padding:14px 22px; min-width:120px }
  .summary-card .num { font-size:1.6em; font-weight:700 }
  .summary-card .lbl { font-size:0.8em; color:#8b949e }
  table { width:100%; border-collapse:collapse; margin:10px 0 24px; font-size:0.85em }
  th { background:#21262d; color:#8b949e; text-align:left; padding:8px 10px; border:1px solid #30363d }
  td { padding:6px 10px; border:1px solid #30363d }
  tr:hover td { background:#1c2128 }
  .green { color:#4caf50; font-weight:600 }
  .red { color:#ef5350; font-weight:600 }
  a { color:#58a6ff; text-decoration:none }
  a:hover { text-decoration:underline }
  form { display:inline }
  .actions { margin:16px 0; display:flex; gap:8px; flex-wrap:wrap }
  input,button { padding:6px 12px; border-radius:4px; border:1px solid #30363d; background:#21262d; color:#c9d1d9 }
  button { cursor:pointer; font-weight:600 }
  button:hover { background:#30363d }
  .btn-green { border-color:#4caf50; color:#4caf50 }
  .btn-red { border-color:#ef5350; color:#ef5350 }
  hr { border:none; border-top:1px solid #30363d; margin:24px 0 }
</style>
</head>
<body>
<h1>Grid Trading Engine &mdash; 1:3 R:R, 0.5% Grid</h1>

<div class="summary">
  <div class="summary-card"><div class="num">{}</div><div class="lbl">Active</div></div>
  <div class="summary-card"><div class="num">{}</div><div class="lbl">Closed</div></div>
  <div class="summary-card"><div class="num">{}</div><div class="lbl">Wins</div></div>
  <div class="summary-card"><div class="num">{}</div><div class="lbl">Losses</div></div>
  <div class="summary-card"><div class="num">{}%</div><div class="lbl">Win Rate</div></div>
  <div class="summary-card"><div class="num" style="color:{}">{}%</div><div class="lbl">Realized PnL</div></div>
  <div class="summary-card"><div class="num" style="color:{}">{}%</div><div class="lbl">Unrealized PnL</div></div>
  <div class="summary-card"><div class="num" style="color:{}">{}%</div><div class="lbl">Total</div></div>
</div>

<h3>Subscriptions</h3>
<div class="summary">{}</div>

<h3>Subscription Details</h3>
<table><thead><tr><th>ID</th><th>Size</th><th></th></tr></thead><tbody>
{}
</tbody></table>

<div class="actions" style="background:#161b22;border:1px solid #30363d;border-radius:8px;padding:14px 16px;margin:12px 0">
  <h4>Manage Subscriptions</h4>
  <form action="/subscribe" method="get">
    <input name="subID" placeholder="SubID" style="width:60px" required>
    <input name="size" placeholder="USDT" style="width:70px" value="5">
    <button type="submit" class="btn-green">Subscribe</button>
  </form>
  <form action="/removeSubscriber" method="get">
    <input name="subID" placeholder="SubID" style="width:60px" required>
    <button type="submit" style="color:#ef5350;border-color:#ef5350">Remove Sub</button>
  </form>
</div>

<div class="actions">
  <form action="/watch" method="get">
    <input name="symbol" placeholder="BTCUSDT" style="width:110px" required>
    <button type="submit" class="btn-green">+ Watch</button>
  </form>
  <a href="/clear"><button type="button" style="color:#ef5350;border-color:#ef5350">Clear All</button></a>
  <a href="/flush"><button type="button" style="color:#8b949e;border-color:#8b949e">Reset WS</button></a>
</div>

<h2>Active Trades</h2>
<table><thead><tr><th>Symbol</th><th>Dir</th><th>Level</th><th>Entry Time</th><th>Entry $</th><th>SL</th><th>TP</th><th>Unrealized</th><th>View</th></tr></thead><tbody>
{}
</tbody></table>

<h2>Closed Trades <span style="font-size:0.7em;color:#8b949e">(last 50)</span></h2>
<table><thead><tr><th>Symbol</th><th>Dir</th><th>Level</th><th>Entry</th><th>Exit</th><th>Entry $</th><th>Exit $</th><th>PnL</th></tr></thead><tbody>
{}
</tbody></table>

<hr>
<h3>Watched Symbols</h3>
<ul>
{}
</ul>
</body></html>"#;

/// A watched symbol: name, name, base, colour and name of the state, trades, name.
pub const SYMBOL_ROW: &'static str = r#"<tr><td><a href="/viewtrades/{}">{}</a></td><td>{}</td><td style="color:{}">{}</td><td>{} trades</td><td><a href="/removeSymbol/{}" style="color:#ef5350">remove</a></td></tr>
"#;

/// In place of the rows of subscribers on the page to manage them.
pub const NO_SUBSCRIBERS_MANAGED: &'static str = r#"<tr><td colspan="3" style="text-align:center;color:#8b949e">No subscriptions</td></tr>"#;

/// In place of the rows of symbols on the page to manage them.
pub const NO_SYMBOLS_MANAGED: &'static str = r#"<tr><td colspan="5" style="text-align:center;color:#8b949e">No symbols watched</td></tr>"#;

/// The page to manage subscribers and symbols: number and rows of the subscribers,
/// number and rows of the symbols.
pub const SUBS_PAGE: &'static str = r#"<!DOCTYPE html>
<html lang="en">
<head><meta charset="UTF-8"><title>Manage — Grid Engine</title>
<style>
  * { box-sizing:border-box; margin:0; padding:0 }
  body { font-family:Segoe UI,sans-serif; background:#0d1117; color:#c9d1d9; padding:30px; max-width:900px; margin:0 auto }
  h1,h2,h3 { color:#f0f6fc; margin:24px 0 12px }
  a { color:#58a6ff; text-decoration:none } a:hover { text-decoration:underline }
  table { width:100%; border-collapse:collapse; margin:10px 0 24px; font-size:0.9em }
  th { background:#21262d; color:#8b949e; text-align:left; padding:8px 12px; border:1px solid #30363d }
  td { padding:6px 12px; border:1px solid #30363d }
  tr:hover td { background:#1c2128 }
  .green { color:#4caf50; font-weight:600 }
  .red { color:#ef5350; font-weight:600 }
  .card { background:#161b22; border:1px solid #30363d; border-radius:8px; padding:16px 20px; margin:16px 0 }
  .card h3 { margin:0 0 12px }
  form { display:flex; gap:8px; align-items:center; flex-wrap:wrap; margin:8px 0 }
  input,button { padding:8px 14px; border-radius:6px; border:1px solid #30363d; background:#21262d; color:#c9d1d9; font-size:0.9em }
  button { cursor:pointer; font-weight:600; min-width:130px }
  button:hover { background:#30363d }
  .btn-green { border-color:#4caf50; color:#4caf50 }
  .btn-red { border-color:#ef5350; color:#ef5350 }
  .nav { display:flex; gap:16px; margin-bottom:20px }
  .nav a { padding:6px 0; border-bottom:2px solid transparent }
  .nav a.active { border-color:#58a6ff }
  .badge { background:#21262d; border-radius:10px; padding:1px 8px; font-size:0.8em; margin-left:6px }
</style>
</head>
<body>
<div class="nav">
  <a href="/">Dashboard</a>
  <a href="/subs" class="active">Manage</a>
  <a href="/state">State</a>
</div>
<h1>Manage Grid Engine</h1>

<div class="card">
  <h3>Subscribe to Signals <span class="badge">{} active</span></h3>
  <p style="color:#8b949e;font-size:0.85em;margin-bottom:12px">
    Subscribers follow all grid signals automatically (both Long and Short).
    When any watched symbol enters a grid position, all subscribers execute
    the same direction with their configured USDT size.
  </p>
  <form action="/subscribe" method="get">
    <input type="hidden" name="redirect" value="subs">
    <label>Sub ID:</label><input name="subID" placeholder="e.g. 1" style="width:70px" required>
    <label>USDT:</label><input name="size" placeholder="5" style="width:70px" value="5">
    <button type="submit" class="btn-green">Subscribe</button>
  </form>
  <form action="/removeSubscriber" method="get">
    <label>Sub ID:</label><input name="subID" placeholder="e.g. 1" style="width:70px" required>
    <button type="submit" style="color:#ef5350;border-color:#ef5350">Remove Subscriber</button>
  </form>
</div>

<h3>Active Subscriptions</h3>
<table><thead><tr><th>ID</th><th>Size</th><th></th></tr></thead><tbody>
{}
</tbody></table>

<div class="card">
  <h3>Watch Symbols <span class="badge">{} watching</span></h3>
  <p style="color:#8b949e;font-size:0.85em;margin-bottom:12px">
    Add symbols to watch. Price at subscription becomes the base level.
    Grid levels are spaced at 0.5% intervals. The engine opens 1:3 R:R trades
    when price crosses levels.
  </p>
  <form action="/watch" method="get">
    <label>Symbol:</label><input name="symbol" placeholder="BTCUSDT" style="width:120px" required>
    <button type="submit" class="btn-green">Watch</button>
  </form>
</div>

<h3>Watched Symbols</h3>
<table><thead><tr><th>Symbol</th><th>Base</th><th>State</th><th>Trades</th><th></th></tr></thead><tbody>
{}
</tbody></table>

<div class="card">
  <a href="/clear" style="color:#ef5350;font-weight:600">Clear All</a>
</div>
</body></html>"#;

/// The entry of a trade: price and level.
pub const ENTRY: &'static str = "{} (L{})";

/// A row of the closed trades of one symbol: number, direction, level, times of entry
/// and exit, prices of entry and exit, class of the gain, gain, duration.
pub const VIEW_ROW: &'static str = r#"<tr><td>{}</td><td>{}</td><td>L{}</td><td>{}</td><td>{}</td><td>{}</td><td>{}</td><td class="{}">{}%</td><td>{}</td></tr>
"#;

/// In place of the closed trades of one symbol.
pub const NO_CLOSED_VIEW: &'static str = r#"<tr><td colspan="9" style="color:#8b949e;text-align:center">No closed trades</td></tr>"#;

/// The page of one symbol: name, name, base, class and name of the state, entry, stop,
/// target, class of the gain, gain, chart, closed trades.
pub const VIEW_PAGE: &'static str = r#"<!DOCTYPE html>
<html><head><meta charset="UTF-8"><title>{} Grid Trades</title>
<style>
  body { font-family:Segoe UI,sans-serif; background:#0d1117; color:#c9d1d9; padding:20px }
  h1,h2 { color:#f0f6fc }
  table { border-collapse:collapse; margin:12px 0 }
  th,td { padding:6px 12px; border:1px solid #30363d; text-align:left }
  th { background:#21262d; color:#8b949e }
  .green { color:#4caf50 } .red { color:#ef5350 }
  a { color:#58a6ff }
</style></head><body>
<h1>{} &mdash; Grid Bot</h1>
<p>Base: {} | Step: 0.5% | State: <b class="{}">{}</b>
 | Active Entry: {}
 | SL: {}
 | TP: {}
 | Total Closed PnL: <span class="{}">{}%</span></p>

{}

<h2>Closed Trades</h2>
<table><thead><tr><th>#</th><th>Dir</th><th>Level</th><th>Entry Time</th><th>Exit Time</th><th>Entry</th><th>Exit</th><th>PnL</th><th>Duration</th></tr></thead><tbody>
{}
</tbody></table>
<p><a href="/">Back to dashboard</a></p>
</body></html>"#;

/// The active trade of a symbol: level, direction, entry, stop, target.
pub const STATE_TRADE: &'static str = "L{} {} EP={} SL={} TP={}";

/// The state of a symbol: name, base, price, active trade, bars, closed trades, stream.
pub const STATE_LINE: &'static str = "<b>{}</b> base={} step=0.5% | current={} | active: {} | klines={} | closed_trades={} | ws={}";

/// The fillings of [`active_row_glyphs`].
pub open spec fn active_row_slots(t: GridTradeView, unrealized: Num) -> Seq<Seq<Glyph>> {
    seq![
        page::plain(t.symbol),
        page::plain(market::direction_color(t.direction)),
        page::plain(t.direction.upper_name()),
        page::whole(t.level as int),
        parts::clock_glyphs(t.entry_time),
        page::figure(NumStyle::Fixed(4), t.entry_price),
        page::figure(NumStyle::Fixed(4), t.sl),
        page::figure(NumStyle::Fixed(4), t.tp),
        page::plain(market::pnl_color_code(unrealized)),
        page::figure(NumStyle::Signed(2), unrealized),
        page::plain(t.symbol),
    ]
}

/// A row of the active trades.
pub open spec fn active_row_glyphs(t: GridTradeView, unrealized: Num) -> Seq<Glyph> {
    page::filled(ACTIVE_ROW@, active_row_slots(t, unrealized))
}

/// See [`active_row_glyphs`].
fn active_row(t: &GridTrade, unrealized: Num) -> (p: Page)
    ensures
        p@ == active_row_glyphs(t@, unrealized),
{
    let slots: Vec<Page> = vec![
        Page::text(t.symbol.as_str()),
        Page::text(market::dir_color(t.direction)),
        Page::text(market::dir_label(t.direction)),
        Page::integer(t.level as i64),
        parts::clock(&t.entry_time),
        Page::fixed(4, t.entry_price),
        Page::fixed(4, t.sl),
        Page::fixed(4, t.tp),
        Page::text(market::pnl_color(unrealized)),
        Page::signed(2, unrealized),
        Page::text(t.symbol.as_str()),
    ];
    assert(page::views(slots@) =~= active_row_slots(t@, unrealized));
    page::fill(ACTIVE_ROW, &slots)
}

/// The fillings of [`closed_row_glyphs`].
pub open spec fn closed_row_slots(t: GridTradeView) -> Seq<Seq<Glyph>> {
    seq![
        page::plain(t.symbol),
        page::plain(market::direction_color(t.direction)),
        page::plain(t.direction.upper_name()),
        page::whole(t.level as int),
        parts::clock_glyphs(t.entry_time),
        parts::clock_or_dash_glyphs(t.exit_time),
        page::figure(NumStyle::Fixed(4), t.entry_price),
        page::figure(NumStyle::Plain, stream::or_zero(t.exit_price)),
        page::plain(market::pnl_color_code(t.pnl())),
        page::figure(NumStyle::Signed(2), t.pnl()),
    ]
}

/// A row of the closed trades.
pub open spec fn closed_row_glyphs(t: GridTradeView) -> Seq<Glyph> {
    page::filled(CLOSED_ROW@, closed_row_slots(t))
}

/// See [`closed_row_glyphs`].
fn closed_row(t: &GridTrade) -> (p: Page)
    ensures
        p@ == closed_row_glyphs(t@),
{
    let slots: Vec<Page> = vec![
        Page::text(t.symbol.as_str()),
        Page::text(market::dir_color(t.direction)),
        Page::text(market::dir_label(t.direction)),
        Page::integer(t.level as i64),
        parts::clock(&t.entry_time),
        parts::clock_or_dash(&t.exit_time),
        Page::fixed(4, t.entry_price),
        Page::shortest(stream::or_zero(t.exit_price)),
        Page::text(market::pnl_color(t.pnl_pct())),
        Page::signed(2, t.pnl_pct()),
    ];
    assert(page::views(slots@) =~= closed_row_slots(t@));
    page::fill(CLOSED_ROW, &slots)
}

/// The fillings of [`subscriber_card_glyphs`].
pub open spec fn subscriber_card_slots(sub: Subscriber) -> Seq<Seq<Glyph>> {
    seq![
        page::whole(sub.sub_id as int),
        page::figure(NumStyle::Plain, sub.size),
    ]
}

/// The card of a subscriber.
pub open spec fn subscriber_card_glyphs(sub: Subscriber) -> Seq<Glyph> {
    page::filled(SUBSCRIBER_CARD@, subscriber_card_slots(sub))
}

/// See [`subscriber_card_glyphs`].
pub fn subscriber_card(sub: Subscriber) -> (p: Page)
    ensures
        p@ == subscriber_card_glyphs(sub),
{
    let slots: Vec<Page> = vec![
        Page::integer(sub.sub_id as i64),
        Page::shortest(sub.size),
    ];
    assert(page::views(slots@) =~= subscriber_card_slots(sub));
    page::fill(SUBSCRIBER_CARD, &slots)
}

/// The fillings of [`subscriber_row_glyphs`].
pub open spec fn subscriber_row_slots(sub: Subscriber) -> Seq<Seq<Glyph>> {
    seq![
        page::whole(sub.sub_id as int),
        page::figure(NumStyle::Plain, sub.size),
        page::whole(sub.sub_id as int),
    ]
}

/// The row of a subscriber.
pub open spec fn subscriber_row_glyphs(sub: Subscriber) -> Seq<Glyph> {
    page::filled(SUBSCRIBER_ROW@, subscriber_row_slots(sub))
}

/// See [`subscriber_row_glyphs`].
pub fn subscriber_row(sub: Subscriber) -> (p: Page)
    ensures
        p@ == subscriber_row_glyphs(sub),
{
    let slots: Vec<Page> = vec![
        Page::integer(sub.sub_id as i64),
        Page::shortest(sub.size),
        Page::integer(sub.sub_id as i64),
    ];
    assert(page::views(slots@) =~= subscriber_row_slots(sub));
    page::fill(SUBSCRIBER_ROW, &slots)
}

/// The gain of the active trade of a symbol at its current price.
pub open spec fn live_gain(tr: TrackerView, t: GridTradeView) -> Num {
    market::gain(
        t.direction.long(),
        t.entry_price,
        market::or_else(tr.current_price, t.entry_price),
    )
}

/// See [`live_gain`].
fn gain_of(tr: &SymbolTracker, t: &GridTrade) -> (r: Num)
    ensures
        r == live_gain(tr@, t@),
{
    market::gain(
        t.direction.long(),
        t.entry_price,
        market::or_else(tr.current_price, t.entry_price),
    )
}

/// The row of the active trade of a symbol, if there is one.
pub open spec fn active_part_glyphs(tr: TrackerView) -> Seq<Glyph> {
    match tr.active_trade {
        Some(t) => active_row_glyphs(t, live_gain(tr, t)),
        None => Seq::empty(),
    }
}

/// See [`active_part_glyphs`].
fn active_part(tr: &SymbolTracker) -> (p: Page)
    ensures
        p@ == active_part_glyphs(tr@),
{
    match &tr.active_trade {
        Some(t) => active_row(t, gain_of(tr, t)),
        None => Page::new(),
    }
}

/// The gain of a position at the current price, or that there is none.
pub open spec fn position_gain_glyphs(tr: TrackerView, t: GridTradeView) -> Seq<Glyph> {
    match tr.current_price {
        Some(p) => parts::gain_span_glyphs(market::gain(t.direction.long(), t.entry_price, p)),
        None => page::plain(parts::FLAT@),
    }
}

/// See [`position_gain_glyphs`].
fn position_gain(tr: &SymbolTracker, t: &GridTrade) -> (p: Page)
    ensures
        p@ == position_gain_glyphs(tr@, t@),
{
    match tr.current_price {
        Some(p) => parts::gain_span(market::gain(t.direction.long(), t.entry_price, p)),
        None => Page::text(parts::FLAT),
    }
}

/// The fillings of [`trade_position_glyphs`].
pub open spec fn trade_position_slots(tr: TrackerView, t: GridTradeView) -> Seq<Seq<Glyph>> {
    seq![
        page::plain(t.direction.upper_name()),
        page::whole(t.level as int),
        position_gain_glyphs(tr, t),
    ]
}

/// The position of a symbol with an active trade.
pub open spec fn trade_position_glyphs(tr: TrackerView, t: GridTradeView) -> Seq<Glyph> {
    page::filled(POSITION@, trade_position_slots(tr, t))
}

/// See [`trade_position_glyphs`].
fn trade_position(tr: &SymbolTracker, t: &GridTrade) -> (p: Page)
    ensures
        p@ == trade_position_glyphs(tr@, t@),
{
    let slots: Vec<Page> = vec![
        Page::text(market::dir_label(t.direction)),
        Page::integer(t.level as i64),
        position_gain(tr, t),
    ];
    assert(page::views(slots@) =~= trade_position_slots(tr@, t@));
    page::fill(POSITION, &slots)
}

/// The position of a symbol.
pub open spec fn position_glyphs(tr: TrackerView) -> Seq<Glyph> {
    match tr.active_trade {
        Some(t) => trade_position_glyphs(tr, t),
        None => page::plain(parts::FLAT@),
    }
}

/// See [`position_glyphs`].
fn position(tr: &SymbolTracker) -> (p: Page)
    ensures
        p@ == position_glyphs(tr@),
{
    match &tr.active_trade {
        Some(t) => trade_position(tr, t),
        None => Page::text(parts::FLAT),
    }
}

/// The fillings of [`symbol_item_glyphs`].
pub open spec fn symbol_item_slots(sym: Seq<char>, tr: TrackerView) -> Seq<Seq<Glyph>> {
    seq![
        page::plain(sym),
        page::figure(NumStyle::Fixed(2), tr.base_price),
        page::figure(NumStyle::Fixed(3), num(figures::HALF)),
        position_glyphs(tr),
        page::whole(tr.attempts() as int),
        page::plain(sym),
        page::plain(sym),
    ]
}

/// A watched symbol.
pub open spec fn symbol_item_glyphs(sym: Seq<char>, tr: TrackerView) -> Seq<Glyph> {
    page::filled(SYMBOL_ITEM@, symbol_item_slots(sym, tr))
}

/// See [`symbol_item_glyphs`].
fn symbol_item(sym: &str, tr: &SymbolTracker) -> (p: Page)
    requires
        tr.closed_trades@.len() < usize::MAX,
    ensures
        p@ == symbol_item_glyphs(sym@, tr@),
{
    let slots: Vec<Page> = vec![
        Page::text(sym),
        Page::fixed(2, tr.base_price),
        Page::fixed(3, num(figures::HALF)),
        position(tr),
        Page::count(tr.total_attempts()),
        Page::text(sym),
        Page::text(sym),
    ];
    assert(page::views(slots@) =~= symbol_item_slots(sym@, tr@));
    page::fill(SYMBOL_ITEM, &slots)
}

/// The name of the state of a symbol.
pub open spec fn state_name(active: bool) -> Seq<char> {
    if active {
        "IN"@
    } else {
        "flat"@
    }
}

/// The colour of the state of a symbol.
pub open spec fn state_color(active: bool) -> Seq<char> {
    if active {
        "#4caf50"@
    } else {
        "#8b949e"@
    }
}

/// See [`state_name`] and [`state_color`].
fn state_of(active: bool) -> (r: (&'static str, &'static str))
    ensures
        r.0@ == state_name(active),
        r.1@ == state_color(active),
{
    if active {
        ("IN", "#4caf50")
    } else {
        ("flat", "#8b949e")
    }
}

/// The fillings of [`symbol_row_glyphs`].
pub open spec fn symbol_row_slots(sym: Seq<char>, tr: TrackerView) -> Seq<Seq<Glyph>> {
    seq![
        page::plain(sym),
        page::plain(sym),
        page::figure(NumStyle::Fixed(2), tr.base_price),
        page::plain(state_color(tr.active_trade is Some)),
        page::plain(state_name(tr.active_trade is Some)),
        page::whole(tr.attempts() as int),
        page::plain(sym),
    ]
}

/// A watched symbol on the page to manage them.
pub open spec fn symbol_row_glyphs(sym: Seq<char>, tr: TrackerView) -> Seq<Glyph> {
    page::filled(SYMBOL_ROW@, symbol_row_slots(sym, tr))
}

/// See [`symbol_row_glyphs`].
fn symbol_row(sym: &str, tr: &SymbolTracker) -> (p: Page)
    requires
        tr.closed_trades@.len() < usize::MAX,
    ensures
        p@ == symbol_row_glyphs(sym@, tr@),
{
    let state: (&'static str, &'static str) = state_of(tr.active_trade.is_some());
    let slots: Vec<Page> = vec![
        Page::text(sym),
        Page::text(sym),
        Page::fixed(2, tr.base_price),
        Page::text(state.1),
        Page::text(state.0),
        Page::count(tr.total_attempts()),
        Page::text(sym),
    ];
    assert(page::views(slots@) =~= symbol_row_slots(sym@, tr@));
    page::fill(SYMBOL_ROW, &slots)
}

/// The rows of all active trades.
pub open spec fn active_rows_glyphs(items: Seq<(Seq<char>, TrackerView)>) -> Seq<Glyph>
    decreases items.len(),
{
    if items.len() == 0 {
        Seq::empty()
    } else {
        active_rows_glyphs(items.drop_last()) + active_part_glyphs(items.last().1)
    }
}

/// See [`active_rows_glyphs`].
fn active_rows(items: &Vec<(String, SymbolTracker)>) -> (p: Page)
    ensures
        p@ == active_rows_glyphs(table::rows(items@)),
{
    let mut p: Page = Page::new();
    let mut i: usize = 0;
    let ghost all = table::rows(items@);
    while i < items.len()
        invariant
            i <= items@.len(),
            all == table::rows(items@),
            p@ == active_rows_glyphs(all.take(i as int)),
        decreases items@.len() - i,
    {
        assert(all.take(i + 1).drop_last() =~= all.take(i as int));
        assert(all.take(i + 1).last() == (items@[i as int].0@, items@[i as int].1@));
        p.append(&active_part(&items[i].1));
        i = i + 1;
    }
    assert(all.take(i as int) =~= all);
    p
}

/// The parts of [`subscriber_cards_glyphs`].
pub open spec fn subscriber_cards_parts(items: Seq<(i32, Subscriber)>) -> Seq<Seq<Glyph>> {
    Seq::new(items.len(), |i: int| subscriber_card_glyphs(items[i].1))
}

/// The cards of all subscribers.
pub open spec fn subscriber_cards_glyphs(items: Seq<(i32, Subscriber)>) -> Seq<Glyph> {
    page::joined(subscriber_cards_parts(items), "\n"@)
}

/// See [`subscriber_cards_glyphs`].
pub fn subscriber_cards(items: &Vec<(i32, Subscriber)>) -> (p: Page)
    ensures
        p@ == subscriber_cards_glyphs(items@),
{
    let mut parts: Vec<Page> = Vec::new();
    let mut i: usize = 0;
    let ghost wanted = subscriber_cards_parts(items@);
    while i < items.len()
        invariant
            i <= items@.len(),
            wanted == subscriber_cards_parts(items@),
            page::views(parts@) == wanted.take(i as int),
        decreases items@.len() - i,
    {
        let ghost before = parts@;
        let part: Page = subscriber_card(items[i].1);
        parts.push(part);
        assert(page::views(parts@) =~= page::views(before).push(part@));
        assert(wanted.take(i + 1) =~= wanted.take(i as int).push(wanted[i as int]));
        i = i + 1;
    }
    assert(wanted.take(i as int) =~= wanted);
    page::join(&parts, "\n")
}

/// The rows of all subscribers.
pub open spec fn subscriber_rows_glyphs(items: Seq<(i32, Subscriber)>) -> Seq<Glyph>
    decreases items.len(),
{
    if items.len() == 0 {
        Seq::empty()
    } else {
        subscriber_rows_glyphs(items.drop_last()) + subscriber_row_glyphs(items.last().1)
    }
}

/// See [`subscriber_rows_glyphs`].
pub fn subscriber_rows(items: &Vec<(i32, Subscriber)>) -> (p: Page)
    ensures
        p@ == subscriber_rows_glyphs(items@),
{
    let mut p: Page = Page::new();
    let mut i: usize = 0;
    let ghost all = items@;
    while i < items.len()
        invariant
            i <= items@.len(),
            all == items@,
            p@ == subscriber_rows_glyphs(all.take(i as int)),
        decreases items@.len() - i,
    {
        assert(all.take(i + 1).drop_last() =~= all.take(i as int));
        assert(all.take(i + 1).last() == items@[i as int]);
        p.append(&subscriber_row(items[i].1));
        i = i + 1;
    }
    assert(all.take(i as int) =~= all);
    p
}

/// The parts of [`symbol_items_glyphs`].
pub open spec fn symbol_items_parts(items: Seq<(Seq<char>, TrackerView)>) -> Seq<Seq<Glyph>> {
    Seq::new(items.len(), |i: int| symbol_item_glyphs(items[i].0, items[i].1))
}

/// All watched symbols.
pub open spec fn symbol_items_glyphs(items: Seq<(Seq<char>, TrackerView)>) -> Seq<Glyph> {
    page::joined(symbol_items_parts(items), "\n"@)
}

/// See [`symbol_items_glyphs`].
fn symbol_items(items: &Vec<(String, SymbolTracker)>) -> (p: Page)
    requires
        forall|i: int| 0 <= i < items@.len() ==> (#[trigger] items@[i]).1.closed_trades@.len() < usize::MAX,
    ensures
        p@ == symbol_items_glyphs(table::rows(items@)),
{
    let mut parts: Vec<Page> = Vec::new();
    let mut i: usize = 0;
    let ghost wanted = symbol_items_parts(table::rows(items@));
    while i < items.len()
        invariant
            i <= items@.len(),
            wanted == symbol_items_parts(table::rows(items@)),
            forall|i: int| 0 <= i < items@.len() ==> (#[trigger] items@[i]).1.closed_trades@.len() < usize::MAX,
            page::views(parts@) == wanted.take(i as int),
        decreases items@.len() - i,
    {
        let ghost before = parts@;
        assert(items@[i as int].1.closed_trades@.len() < usize::MAX);
        let part: Page = symbol_item(items[i].0.as_str(), &items[i].1);
        parts.push(part);
        assert(page::views(parts@) =~= page::views(before).push(part@));
        assert(wanted.take(i + 1) =~= wanted.take(i as int).push(wanted[i as int]));
        i = i + 1;
    }
    assert(wanted.take(i as int) =~= wanted);
    page::join(&parts, "\n")
}

/// All watched symbols on the page to manage them.
pub open spec fn symbol_rows_glyphs(items: Seq<(Seq<char>, TrackerView)>) -> Seq<Glyph>
    decreases items.len(),
{
    if items.len() == 0 {
        Seq::empty()
    } else {
        symbol_rows_glyphs(items.drop_last()) + symbol_row_glyphs(items.last().0, items.last().1)
    }
}

/// See [`symbol_rows_glyphs`].
fn symbol_rows(items: &Vec<(String, SymbolTracker)>) -> (p: Page)
    requires
        forall|i: int| 0 <= i < items@.len() ==> (#[trigger] items@[i]).1.closed_trades@.len() < usize::MAX,
    ensures
        p@ == symbol_rows_glyphs(table::rows(items@)),
{
    let mut p: Page = Page::new();
    let mut i: usize = 0;
    let ghost all = table::rows(items@);
    while i < items.len()
        invariant
            i <= items@.len(),
            all == table::rows(items@),
            forall|i: int| 0 <= i < items@.len() ==> (#[trigger] items@[i]).1.closed_trades@.len() < usize::MAX,
            p@ == symbol_rows_glyphs(all.take(i as int)),
        decreases items@.len() - i,
    {
        assert(all.take(i + 1).drop_last() =~= all.take(i as int));
        assert(all.take(i + 1).last() == (items@[i as int].0@, items@[i as int].1@));
        p.append(&symbol_row(items[i].0.as_str(), &items[i].1));
        i = i + 1;
    }
    assert(all.take(i as int) =~= all);
    p
}

/// All closed trades, in the order of their symbols.
pub open spec fn all_closed(items: Seq<(Seq<char>, TrackerView)>) -> Seq<GridTradeView>
    decreases items.len(),
{
    if items.len() == 0 {
        Seq::empty()
    } else {
        all_closed(items.drop_last()) + items.last().1.closed_trades
    }
}

/// The contents of some trades that stand elsewhere.
pub open spec fn ref_views(s: Seq<&GridTrade>) -> Seq<GridTradeView> {
    Seq::new(s.len(), |i: int| s[i]@)
}

/// See [`all_closed`].
fn collect_closed(items: &Vec<(String, SymbolTracker)>) -> (r: Vec<&GridTrade>)
    ensures
        ref_views(r@) == all_closed(table::rows(items@)),
{
    let mut r: Vec<&GridTrade> = Vec::new();
    let mut i: usize = 0;
    let ghost all = table::rows(items@);
    assert(ref_views(r@) =~= Seq::<GridTradeView>::empty());
    while i < items.len()
        invariant
            i <= items@.len(),
            all == table::rows(items@),
            ref_views(r@) == all_closed(all.take(i as int)),
        decreases items@.len() - i,
    {
        let trades: &Vec<GridTrade> = &items[i].1.closed_trades;
        let ghost start = ref_views(r@);
        let ghost more = tracker::trade_views(trades@);
        let mut j: usize = 0;
        assert(start + more.take(0) =~= start);
        while j < trades.len()
            invariant
                j <= trades@.len(),
                more == tracker::trade_views(trades@),
                ref_views(r@) == start + more.take(j as int),
            decreases trades@.len() - j,
        {
            let ghost before = r@;
            r.push(&trades[j]);
            assert(ref_views(r@) =~= ref_views(before).push(more[j as int]));
            assert((start + more.take(j as int)).push(more[j as int]) =~= start + more.take(j + 1));
            j = j + 1;
        }
        assert(more.take(j as int) =~= more);
        assert(all.take(i + 1).drop_last() =~= all.take(i as int));
        assert(all.take(i + 1).last() == (items@[i as int].0@, items@[i as int].1@));
        i = i + 1;
    }
    assert(all.take(i as int) =~= all);
    r
}

/// By what closed trades are ranked: when they were left, or the epoch.
pub open spec fn exit_stamp(t: GridTradeView) -> int {
    match t.exit_time {
        Some(m) => m.stamp(),
        None => 0,
    }
}

/// The positions of some trades, the one that was left last first.
pub open spec fn latest_first(trades: Seq<GridTradeView>) -> Seq<int> {
    order::ranking(Seq::new(trades.len(), |i: int| exit_stamp(trades[i])))
}

/// See [`latest_first`].
fn rank_trades(trades: &Vec<&GridTrade>) -> (r: Vec<usize>)
    ensures
        order::as_positions(r@) == latest_first(ref_views(trades@)),
        r@.len() == trades@.len(),
        forall|i: int| 0 <= i < r@.len() ==> (#[trigger] r@[i]) < trades@.len(),
{
    let mut keys: Vec<i128> = Vec::new();
    let mut i: usize = 0;
    let ghost all = ref_views(trades@);
    while i < trades.len()
        invariant
            i <= trades@.len(),
            all == ref_views(trades@),
            keys@.len() == i,
            forall|j: int| 0 <= j < i ==> #[trigger] keys@[j] == exit_stamp(all[j]),
        decreases trades@.len() - i,
    {
        let key: i128 = match &trades[i].exit_time {
            Some(m) => m.nanoseconds(),
            None => 0,
        };
        keys.push(key);
        i = i + 1;
    }
    assert(order::as_ints(keys@) =~= Seq::new(all.len(), |i: int| exit_stamp(all[i])));
    order::rank(&keys)
}

/// The rows of some trades, in a given order.
pub open spec fn ranked_rows_glyphs(items: Seq<int>, trades: Seq<GridTradeView>) -> Seq<Glyph>
    decreases items.len(),
{
    if items.len() == 0 {
        Seq::empty()
    } else {
        ranked_rows_glyphs(items.drop_last(), trades) + closed_row_glyphs(trades[items.last()])
    }
}

/// See [`ranked_rows_glyphs`].
fn ranked_rows(items: &Vec<usize>, trades: &Vec<&GridTrade>) -> (p: Page)
    requires
        forall|i: int| 0 <= i < items@.len() ==> (#[trigger] items@[i]) < trades@.len(),
    ensures
        p@ == ranked_rows_glyphs(order::as_positions(items@), ref_views(trades@)),
{
    let mut p: Page = Page::new();
    let mut i: usize = 0;
    let ghost all = order::as_positions(items@);
    while i < items.len()
        invariant
            i <= items@.len(),
            all == order::as_positions(items@),
            forall|j: int| 0 <= j < items@.len() ==> (#[trigger] items@[j]) < trades@.len(),
            p@ == ranked_rows_glyphs(all.take(i as int), ref_views(trades@)),
        decreases items@.len() - i,
    {
        assert(all.take(i + 1).drop_last() =~= all.take(i as int));
        assert(all.take(i + 1).last() == items@[i as int] as int);
        p.append(&closed_row(trades[items[i]]));
        i = i + 1;
    }
    assert(all.take(i as int) =~= all);
    p
}

/// The order in which closed trades are shown, as far as they are.
pub open spec fn shown_order(trades: Seq<GridTradeView>) -> Seq<int> {
    let all = latest_first(trades);
    if all.len() > parts::SHOWN {
        all.take(parts::SHOWN as int)
    } else {
        all
    }
}

/// The rows of the closed trades that were left last.
pub open spec fn closed_rows_glyphs(trades: Seq<GridTradeView>) -> Seq<Glyph> {
    ranked_rows_glyphs(shown_order(trades), trades)
}

/// See [`closed_rows_glyphs`].
fn closed_rows(trades: &Vec<&GridTrade>) -> (p: Page)
    ensures
        p@ == closed_rows_glyphs(ref_views(trades@)),
{
    let mut ranks: Vec<usize> = rank_trades(trades);
    let ghost all = ranks@;
    if ranks.len() > parts::SHOWN {
        ranks.truncate(parts::SHOWN);
    }
    assert(order::as_positions(ranks@) =~= shown_order(ref_views(trades@)));
    assert forall|i: int| 0 <= i < ranks@.len() implies (#[trigger] ranks@[i]) < trades@.len() by {
        assert(ranks@[i] == all[i]);
    }
    ranked_rows(&ranks, trades)
}

/// The sums with the closed trades of a symbol added.
pub open spec fn tally_trades(s: DashboardSummary, trades: Seq<GridTradeView>) -> DashboardSummary
    decreases trades.len(),
{
    if trades.len() == 0 {
        s
    } else {
        tally_trades(s, trades.drop_last()).with_closed(trades.last().pnl())
    }
}

/// The sums with the trades of a symbol added.
pub open spec fn tally_tracker(s: DashboardSummary, tr: TrackerView) -> DashboardSummary {
    let with_active = match tr.active_trade {
        Some(t) => s.with_active(live_gain(tr, t)),
        None => s,
    };
    tally_trades(with_active, tr.closed_trades)
}

/// The sums over all trades.
pub open spec fn tally(items: Seq<(Seq<char>, TrackerView)>) -> DashboardSummary
    decreases items.len(),
{
    if items.len() == 0 {
        DashboardSummary::nothing()
    } else {
        tally_tracker(tally(items.drop_last()), items.last().1)
    }
}

/// How many closed trades there are.
pub open spec fn closed_total(items: Seq<(Seq<char>, TrackerView)>) -> nat
    decreases items.len(),
{
    if items.len() == 0 {
        0
    } else {
        closed_total(items.drop_last()) + items.last().1.closed_trades.len()
    }
}

/// The number of closed trades grows with the symbols.
proof fn lemma_closed_total_grows(items: Seq<(Seq<char>, TrackerView)>, n: int)
    requires
        0 <= n <= items.len(),
    ensures
        closed_total(items.take(n)) <= closed_total(items),
    decreases items.len() - n,
{
    if n < items.len() {
        lemma_closed_total_grows(items, n + 1);
        assert(items.take(n + 1).drop_last() =~= items.take(n));
    } else {
        assert(items.take(n) =~= items);
    }
}

/// Closed trades that are added are each a win or a loss.
proof fn lemma_tally_trades_counts(s: DashboardSummary, trades: Seq<GridTradeView>)
    requires
        s.wins + s.losses == s.total_closed,
        s.total_closed + trades.len() <= u64::MAX,
    ensures
        tally_trades(s, trades).wins + tally_trades(s, trades).losses == tally_trades(
            s,
            trades,
        ).total_closed,
        tally_trades(s, trades).total_closed == s.total_closed + trades.len(),
        tally_trades(s, trades).active == s.active,
    decreases trades.len(),
{
    if trades.len() > 0 {
        lemma_tally_trades_counts(s, trades.drop_last());
    }
}

/// The dashboard counts every closed trade once, as a win or as a loss.
pub proof fn lemma_tally_counts(items: Seq<(Seq<char>, TrackerView)>)
    requires
        countable(items),
    ensures
        tally(items).total_closed == closed_total(items),
        tally(items).wins + tally(items).losses == tally(items).total_closed,
        tally(items).active <= items.len(),
    decreases items.len(),
{
    if items.len() > 0 {
        let n = items.len() - 1;
        assert(items.take(n) =~= items.drop_last());
        lemma_closed_total_grows(items, n);
        lemma_tally_counts(items.drop_last());
        let before = tally(items.drop_last());
        let tr = items.last().1;
        let with_active = match tr.active_trade {
            Some(t) => before.with_active(live_gain(tr, t)),
            None => before,
        };
        lemma_tally_trades_counts(with_active, tr.closed_trades);
    }
}

/// Whether the sums over all trades can be counted.
pub open spec fn countable(items: Seq<(Seq<char>, TrackerView)>) -> bool {
    items.len() <= i32::MAX && closed_total(items) <= i32::MAX
}

/// Adds the closed trades of a symbol.
fn add_trades(s: &mut DashboardSummary, trades: &Vec<GridTrade>)
    requires
        old(s).total_closed + trades@.len() <= i32::MAX,
        old(s).wins <= old(s).total_closed,
        old(s).losses <= old(s).total_closed,
    ensures
        *final(s) == tally_trades(*old(s), tracker::trade_views(trades@)),
        final(s).total_closed == old(s).total_closed + trades@.len(),
        final(s).wins <= final(s).total_closed,
        final(s).losses <= final(s).total_closed,
        final(s).active == old(s).active,
{
    let ghost start = *s;
    let ghost all = tracker::trade_views(trades@);
    let mut i: usize = 0;
    while i < trades.len()
        invariant
            i <= trades@.len(),
            all == tracker::trade_views(trades@),
            *s == tally_trades(start, all.take(i as int)),
            s.total_closed == start.total_closed + i,
            start.total_closed + trades@.len() <= i32::MAX,
            s.wins <= s.total_closed,
            s.losses <= s.total_closed,
            s.active == start.active,
        decreases trades@.len() - i,
    {
        assert(all.take(i + 1).drop_last() =~= all.take(i as int));
        assert(all.take(i + 1).last() == trades@[i as int]@);
        s.add_closed(trades[i].pnl_pct());
        i = i + 1;
    }
    assert(all.take(i as int) =~= all);
}

/// See [`tally`].
fn summarize(items: &Vec<(String, SymbolTracker)>) -> (s: DashboardSummary)
    requires
        countable(table::rows(items@)),
    ensures
        s == tally(table::rows(items@)),
{
    let mut s: DashboardSummary = DashboardSummary {
        active: 0,
        total_closed: 0,
        wins: 0,
        losses: 0,
        total_pnl: num(figures::ZERO),
        unrealized_pnl: num(figures::ZERO),
    };
    let ghost all = table::rows(items@);
    let mut i: usize = 0;
    while i < items.len()
        invariant
            i <= items@.len(),
            all == table::rows(items@),
            countable(all),
            s == tally(all.take(i as int)),
            s.active <= i,
            s.total_closed == closed_total(all.take(i as int)),
            s.wins <= s.total_closed,
            s.losses <= s.total_closed,
        decreases items@.len() - i,
    {
        proof {
            assert(all.take(i + 1).drop_last() =~= all.take(i as int));
            assert(all.take(i + 1).last() == (items@[i as int].0@, items@[i as int].1@));
            lemma_closed_total_grows(all, i + 1);
        }
        if let Some(t) = &items[i].1.active_trade {
            s.add_active(gain_of(&items[i].1, t));
        }
        add_trades(&mut s, &items[i].1.closed_trades);
        i = i + 1;
    }
    assert(all.take(i as int) =~= all);
    s
}

/// Whether no symbol has an active trade.
pub open spec fn none_active(items: Seq<(Seq<char>, TrackerView)>) -> bool {
    forall|i: int| 0 <= i < items.len() ==> (#[trigger] items[i]).1.active_trade is None
}

/// See [`none_active`].
fn is_none_active(items: &Vec<(String, SymbolTracker)>) -> (b: bool)
    ensures
        b == none_active(table::rows(items@)),
{
    let mut i: usize = 0;
    let ghost all = table::rows(items@);
    while i < items.len()
        invariant
            i <= items@.len(),
            all == table::rows(items@),
            forall|j: int| 0 <= j < i ==> (#[trigger] all[j]).1.active_trade is None,
        decreases items@.len() - i,
    {
        if items[i].1.active_trade.is_some() {
            assert(all[i as int].1.active_trade is Some);
            return false;
        }
        i = i + 1;
    }
    true
}

/// The fillings of [`dashboard_glyphs`].
pub open spec fn dashboard_slots(e: EngineView) -> Seq<Seq<Glyph>> {
    let s = tally(e.trackers);
    seq![
        page::whole(s.active as int),
        page::whole(s.total_closed as int),
        page::whole(s.wins as int),
        page::whole(s.losses as int),
        page::figure(NumStyle::Fixed(1), parts::win_rate(s.wins, s.total_closed)),
        page::plain(market::pnl_class_name(s.total_pnl)),
        page::figure(NumStyle::Signed(2), s.total_pnl),
        page::plain(market::pnl_class_name(s.unrealized_pnl)),
        page::figure(NumStyle::Signed(2), s.unrealized_pnl),
        page::plain(market::pnl_class_name(s.combined())),
        page::figure(NumStyle::Signed(2), s.combined()),
        parts::or_text(
            subscriber_cards_glyphs(e.subscribers),
            e.subscribers.len() == 0,
            parts::NO_SUBSCRIPTIONS_CARD@,
        ),
        parts::or_text(subscriber_rows_glyphs(e.subscribers), e.subscribers.len() == 0, NO_SUBSCRIBERS@),
        parts::or_text(active_rows_glyphs(e.trackers), none_active(e.trackers), NO_ACTIVE@),
        parts::or_text(
            closed_rows_glyphs(all_closed(e.trackers)),
            all_closed(e.trackers).len() == 0,
            NO_CLOSED@,
        ),
        parts::or_text(symbol_items_glyphs(e.trackers), e.trackers.len() == 0, parts::NO_SYMBOLS@),
    ]
}

/// The dashboard.
pub open spec fn dashboard_glyphs(e: EngineView) -> Seq<Glyph> {
    page::filled(DASHBOARD@, dashboard_slots(e))
}

/// See [`dashboard_glyphs`].
fn dashboard(e: &RealtimeEngine) -> (p: Page)
    requires
        countable(e@.trackers),
    ensures
        p@ == dashboard_glyphs(e@),
{
    let items: &Vec<(String, SymbolTracker)> = &e.trackers.entries;
    let subs: &Vec<(i32, Subscriber)> = &e.subscribers.entries;
    proof {
        lemma_small(e@.trackers, items@);
    }
    let s: DashboardSummary = summarize(items);
    let combined: Num = s.total_pnl.plus(s.unrealized_pnl);
    let cards: Page = if subs.len() == 0 {
        Page::text(parts::NO_SUBSCRIPTIONS_CARD)
    } else {
        subscriber_cards(subs)
    };
    let sub_rows: Page = if subs.len() == 0 {
        Page::text(NO_SUBSCRIBERS)
    } else {
        subscriber_rows(subs)
    };
    let active: Page = if is_none_active(items) {
        Page::text(NO_ACTIVE)
    } else {
        active_rows(items)
    };
    let trades: Vec<&GridTrade> = collect_closed(items);
    let closed: Page = if trades.len() == 0 {
        Page::text(NO_CLOSED)
    } else {
        closed_rows(&trades)
    };
    let symbols: Page = if items.len() == 0 {
        Page::text(parts::NO_SYMBOLS)
    } else {
        symbol_items(items)
    };
    let slots: Vec<Page> = vec![
        Page::total(s.active),
        Page::total(s.total_closed),
        Page::total(s.wins),
        Page::total(s.losses),
        Page::fixed(1, parts::win_rate(s.wins, s.total_closed)),
        Page::text(market::pnl_class(s.total_pnl)),
        Page::signed(2, s.total_pnl),
        Page::text(market::pnl_class(s.unrealized_pnl)),
        Page::signed(2, s.unrealized_pnl),
        Page::text(market::pnl_class(combined)),
        Page::signed(2, combined),
        cards,
        sub_rows,
        active,
        closed,
        symbols,
    ];
    assert(page::views(slots@) =~= dashboard_slots(e@));
    page::fill(DASHBOARD, &slots)
}

/// Where all trades can be counted, so can those of each symbol.
proof fn lemma_small(rows: Seq<(Seq<char>, TrackerView)>, items: Seq<(String, SymbolTracker)>)
    requires
        countable(rows),
        rows == table::rows(items),
    ensures
        forall|i: int| 0 <= i < items.len() ==> (#[trigger] items[i]).1.closed_trades@.len() < usize::MAX,
{
    assert forall|i: int| 0 <= i < items.len() implies (#[trigger] items[i]).1.closed_trades@.len()
        < usize::MAX by {
        lemma_closed_total_grows(rows, i + 1);
        assert(rows.take(i + 1).last() == rows[i]);
        assert(rows[i].1.closed_trades.len() == items[i].1.closed_trades@.len());
    }
}

/// Whether the trades of each symbol can be counted.
pub open spec fn listable(items: Seq<(Seq<char>, TrackerView)>) -> bool {
    forall|i: int| 0 <= i < items.len() ==> (#[trigger] items[i]).1.closed_trades.len() < usize::MAX
}

/// The fillings of [`subs_page_glyphs`].
pub open spec fn subs_page_slots(e: EngineView) -> Seq<Seq<Glyph>> {
    seq![
        page::whole(e.subscribers.len() as int),
        parts::or_text(
            subscriber_rows_glyphs(e.subscribers),
            e.subscribers.len() == 0,
            NO_SUBSCRIBERS_MANAGED@,
        ),
        page::whole(e.trackers.len() as int),
        parts::or_text(symbol_rows_glyphs(e.trackers), e.trackers.len() == 0, NO_SYMBOLS_MANAGED@),
    ]
}

/// The page to manage subscribers and symbols.
pub open spec fn subs_page_glyphs(e: EngineView) -> Seq<Glyph> {
    page::filled(SUBS_PAGE@, subs_page_slots(e))
}

/// See [`subs_page_glyphs`].
fn subs_page(e: &RealtimeEngine) -> (p: Page)
    requires
        listable(e@.trackers),
    ensures
        p@ == subs_page_glyphs(e@),
{
    let items: &Vec<(String, SymbolTracker)> = &e.trackers.entries;
    let subs: &Vec<(i32, Subscriber)> = &e.subscribers.entries;
    assert forall|i: int| 0 <= i < items@.len() implies (#[trigger] items@[i]).1.closed_trades@.len()
        < usize::MAX by {
        assert(e@.trackers[i].1.closed_trades.len() == items@[i].1.closed_trades@.len());
    }
    let sub_rows: Page = if subs.len() == 0 {
        Page::text(NO_SUBSCRIBERS_MANAGED)
    } else {
        subscriber_rows(subs)
    };
    let sym_rows: Page = if items.len() == 0 {
        Page::text(NO_SYMBOLS_MANAGED)
    } else {
        symbol_rows(items)
    };
    let slots: Vec<Page> = vec![
        Page::count(subs.len()),
        sub_rows,
        Page::count(items.len()),
        sym_rows,
    ];
    assert(page::views(slots@) =~= subs_page_slots(e@));
    page::fill(SUBS_PAGE, &slots)
}

/// The fillings of [`view_row_glyphs`].
pub open spec fn view_row_slots(n: int, t: GridTradeView) -> Seq<Seq<Glyph>> {
    seq![
        page::whole(n + 1),
        page::plain(t.direction.upper_name()),
        page::whole(t.level as int),
        parts::clock_glyphs(t.entry_time),
        parts::clock_or_dash_glyphs(t.exit_time),
        page::figure(NumStyle::Fixed(4), t.entry_price),
        page::figure(NumStyle::Fixed(4), stream::or_zero(t.exit_price)),
        page::plain(market::pnl_class_name(t.pnl())),
        page::figure(NumStyle::Signed(2), t.pnl()),
        parts::span_or_dash_glyphs(t.seconds()),
    ]
}

/// A row of the closed trades of one symbol.
pub open spec fn view_row_glyphs(n: int, t: GridTradeView) -> Seq<Glyph> {
    page::filled(VIEW_ROW@, view_row_slots(n, t))
}

/// See [`view_row_glyphs`].
fn view_row(n: usize, t: &GridTrade) -> (p: Page)
    requires
        n < usize::MAX,
    ensures
        p@ == view_row_glyphs(n as int, t@),
{
    let slots: Vec<Page> = vec![
        Page::count(n + 1),
        Page::text(market::dir_label(t.direction)),
        Page::integer(t.level as i64),
        parts::clock(&t.entry_time),
        parts::clock_or_dash(&t.exit_time),
        Page::fixed(4, t.entry_price),
        Page::fixed(4, stream::or_zero(t.exit_price)),
        Page::text(market::pnl_class(t.pnl_pct())),
        Page::signed(2, t.pnl_pct()),
        parts::span_or_dash(t.duration()),
    ];
    assert(page::views(slots@) =~= view_row_slots(n as int, t@));
    page::fill(VIEW_ROW, &slots)
}

/// The rows of the closed trades of one symbol.
pub open spec fn view_rows_glyphs(items: Seq<GridTradeView>) -> Seq<Glyph>
    decreases items.len(),
{
    if items.len() == 0 {
        Seq::empty()
    } else {
        view_rows_glyphs(items.drop_last()) + view_row_glyphs((items.len() - 1), items.last())
    }
}

/// See [`view_rows_glyphs`].
fn view_rows(items: &Vec<GridTrade>) -> (p: Page)
    ensures
        p@ == view_rows_glyphs(tracker::trade_views(items@)),
{
    let mut p: Page = Page::new();
    let mut i: usize = 0;
    let ghost all = tracker::trade_views(items@);
    while i < items.len()
        invariant
            i <= items@.len(),
            all == tracker::trade_views(items@),
            p@ == view_rows_glyphs(all.take(i as int)),
        decreases items@.len() - i,
    {
        assert(all.take(i + 1).drop_last() =~= all.take(i as int));
        assert(all.take(i + 1).last() == items@[i as int]@);
        p.append(&view_row(i, &items[i]));
        i = i + 1;
    }
    assert(all.take(i as int) =~= all);
    p
}

/// The sum of the gains of some trades; that of none is -0.
pub open spec fn total_gain(trades: Seq<GridTradeView>) -> Num
    decreases trades.len(),
{
    if trades.len() == 0 {
        num(figures::MINUS_ZERO)
    } else {
        total_gain(trades.drop_last()).plus(trades.last().pnl())
    }
}

/// See [`total_gain`].
fn sum_gains(trades: &Vec<GridTrade>) -> (r: Num)
    ensures
        r == total_gain(tracker::trade_views(trades@)),
{
    let mut r: Num = num(figures::MINUS_ZERO);
    let ghost all = tracker::trade_views(trades@);
    let mut i: usize = 0;
    while i < trades.len()
        invariant
            i <= trades@.len(),
            all == tracker::trade_views(trades@),
            r == total_gain(all.take(i as int)),
        decreases trades@.len() - i,
    {
        assert(all.take(i + 1).drop_last() =~= all.take(i as int));
        assert(all.take(i + 1).last() == trades@[i as int]@);
        r = r.plus(trades[i].pnl_pct());
        i = i + 1;
    }
    assert(all.take(i as int) =~= all);
    r
}

/// The fillings of [`entry_glyphs`].
pub open spec fn entry_slots(t: GridTradeView) -> Seq<Seq<Glyph>> {
    seq![
        page::figure(NumStyle::Fixed(4), t.entry_price),
        page::whole(t.level as int),
    ]
}

/// The entry of a trade.
pub open spec fn entry_glyphs(t: GridTradeView) -> Seq<Glyph> {
    page::filled(ENTRY@, entry_slots(t))
}

/// See [`entry_glyphs`].
fn entry(t: &GridTrade) -> (p: Page)
    ensures
        p@ == entry_glyphs(t@),
{
    let slots: Vec<Page> = vec![
        Page::fixed(4, t.entry_price),
        Page::integer(t.level as i64),
    ];
    assert(page::views(slots@) =~= entry_slots(t@));
    page::fill(ENTRY, &slots)
}

/// The entry of the active trade, or a dash.
pub open spec fn entry_or_dash_glyphs(tr: TrackerView) -> Seq<Glyph> {
    match tr.active_trade {
        Some(t) => entry_glyphs(t),
        None => page::plain("-"@),
    }
}

/// See [`entry_or_dash_glyphs`].
fn entry_or_dash(tr: &SymbolTracker) -> (p: Page)
    ensures
        p@ == entry_or_dash_glyphs(tr@),
{
    match &tr.active_trade {
        Some(t) => entry(t),
        None => Page::text("-"),
    }
}

/// The stop of the active trade.
pub open spec fn active_stop(tr: TrackerView) -> Option<Num> {
    match tr.active_trade {
        Some(t) => Some(t.sl),
        None => None,
    }
}

/// The target of the active trade.
pub open spec fn active_target(tr: TrackerView) -> Option<Num> {
    match tr.active_trade {
        Some(t) => Some(t.tp),
        None => None,
    }
}

/// See [`active_stop`] and [`active_target`].
fn stop_and_target(tr: &SymbolTracker) -> (r: (Option<Num>, Option<Num>))
    ensures
        r == (active_stop(tr@), active_target(tr@)),
{
    match &tr.active_trade {
        Some(t) => (Some(t.sl), Some(t.tp)),
        None => (None, None),
    }
}

/// The class and the name of the state on the page of a symbol.
pub open spec fn view_state(active: bool) -> (Seq<char>, Seq<char>) {
    if active {
        ("green"@, "IN POSITION"@)
    } else {
        ("red"@, "FLAT"@)
    }
}

/// See [`view_state`].
fn view_state_of(active: bool) -> (r: (&'static str, &'static str))
    ensures
        (r.0@, r.1@) == view_state(active),
{
    if active {
        ("green", "IN POSITION")
    } else {
        ("red", "FLAT")
    }
}

/// The fillings of [`view_page_glyphs`].
pub open spec fn view_page_slots(sym: Seq<char>, tr: TrackerView) -> Seq<Seq<Glyph>> {
    seq![
        page::plain(sym),
        page::plain(sym),
        page::figure(NumStyle::Fixed(4), tr.base_price),
        page::plain(view_state(tr.active_trade is Some).0),
        page::plain(view_state(tr.active_trade is Some).1),
        entry_or_dash_glyphs(tr),
        parts::fixed_or_dash_glyphs(active_stop(tr)),
        parts::fixed_or_dash_glyphs(active_target(tr)),
        page::plain(market::pnl_class_name(total_gain(tr.closed_trades))),
        page::figure(NumStyle::Signed(2), total_gain(tr.closed_trades)),
        chart::chart_glyphs(tr),
        parts::or_text(view_rows_glyphs(tr.closed_trades), tr.closed_trades.len() == 0, NO_CLOSED_VIEW@),
    ]
}

/// The page of one symbol.
pub open spec fn view_page_glyphs(sym: Seq<char>, tr: TrackerView) -> Seq<Glyph> {
    page::filled(VIEW_PAGE@, view_page_slots(sym, tr))
}

/// See [`view_page_glyphs`].
fn view_page(sym: &str, tr: &SymbolTracker) -> (p: Page)
    ensures
        p@ == view_page_glyphs(sym@, tr@),
{
    let state: (&'static str, &'static str) = view_state_of(tr.active_trade.is_some());
    let levels: (Option<Num>, Option<Num>) = stop_and_target(tr);
    let total: Num = sum_gains(&tr.closed_trades);
    let closed: Page = if tr.closed_trades.len() == 0 {
        Page::text(NO_CLOSED_VIEW)
    } else {
        view_rows(&tr.closed_trades)
    };
    let slots: Vec<Page> = vec![
        Page::text(sym),
        Page::text(sym),
        Page::fixed(4, tr.base_price),
        Page::text(state.0),
        Page::text(state.1),
        entry_or_dash(tr),
        parts::fixed_or_dash(levels.0),
        parts::fixed_or_dash(levels.1),
        Page::text(market::pnl_class(total)),
        Page::signed(2, total),
        chart::generate_chart_svg(tr),
        closed,
    ];
    assert(page::views(slots@) =~= view_page_slots(sym@, tr@));
    page::fill(VIEW_PAGE, &slots)
}

/// The fillings of [`state_trade_glyphs`].
pub open spec fn state_trade_slots(t: GridTradeView) -> Seq<Seq<Glyph>> {
    seq![
        page::whole(t.level as int),
        page::plain(t.direction.upper_name()),
        page::figure(NumStyle::Plain, t.entry_price),
        page::figure(NumStyle::Plain, t.sl),
        page::figure(NumStyle::Plain, t.tp),
    ]
}

/// The active trade of a symbol.
pub open spec fn state_trade_glyphs(t: GridTradeView) -> Seq<Glyph> {
    page::filled(STATE_TRADE@, state_trade_slots(t))
}

/// See [`state_trade_glyphs`].
fn state_trade(t: &GridTrade) -> (p: Page)
    ensures
        p@ == state_trade_glyphs(t@),
{
    let slots: Vec<Page> = vec![
        Page::integer(t.level as i64),
        Page::text(t.direction.upper()),
        Page::shortest(t.entry_price),
        Page::shortest(t.sl),
        Page::shortest(t.tp),
    ];
    assert(page::views(slots@) =~= state_trade_slots(t@));
    page::fill(STATE_TRADE, &slots)
}

/// The active trade of a symbol, or that there is none.
pub open spec fn state_active_glyphs(tr: TrackerView) -> Seq<Glyph> {
    match tr.active_trade {
        Some(t) => state_trade_glyphs(t),
        None => page::plain("flat"@),
    }
}

/// See [`state_active_glyphs`].
fn state_active(tr: &SymbolTracker) -> (p: Page)
    ensures
        p@ == state_active_glyphs(tr@),
{
    match &tr.active_trade {
        Some(t) => state_trade(t),
        None => Page::text("flat"),
    }
}

/// The fillings of [`state_line_glyphs`].
pub open spec fn state_line_slots(sym: Seq<char>, tr: TrackerView, connected: bool) -> Seq<Seq<Glyph>> {
    seq![
        page::plain(sym),
        page::figure(NumStyle::Fixed(4), tr.base_price),
        parts::number_or_none_glyphs(tr.current_price),
        state_active_glyphs(tr),
        page::whole(tr.klines.len() as int),
        page::whole(tr.closed_trades.len() as int),
        page::plain(parts::truth(connected)),
    ]
}

/// The state of a symbol.
pub open spec fn state_line_glyphs(sym: Seq<char>, tr: TrackerView, connected: bool) -> Seq<Glyph> {
    page::filled(STATE_LINE@, state_line_slots(sym, tr, connected))
}

/// See [`state_line_glyphs`].
fn state_line(sym: &str, tr: &SymbolTracker, connected: bool) -> (p: Page)
    ensures
        p@ == state_line_glyphs(sym@, tr@, connected),
{
    let slots: Vec<Page> = vec![
        Page::text(sym),
        Page::fixed(4, tr.base_price),
        parts::number_or_none(tr.current_price),
        state_active(tr),
        Page::count(tr.klines.len()),
        Page::count(tr.closed_trades.len()),
        Page::text(parts::truth_text(connected)),
    ];
    assert(page::views(slots@) =~= state_line_slots(sym@, tr@, connected));
    page::fill(STATE_LINE, &slots)
}

/// The parts of [`state_lines_glyphs`].
pub open spec fn state_lines_parts(items: Seq<(Seq<char>, TrackerView)>, connected: bool) -> Seq<Seq<Glyph>> {
    Seq::new(items.len(), |i: int| state_line_glyphs(items[i].0, items[i].1, connected))
}

/// The states of all symbols.
pub open spec fn state_lines_glyphs(items: Seq<(Seq<char>, TrackerView)>, connected: bool) -> Seq<Glyph> {
    page::joined(state_lines_parts(items, connected), "<br>"@)
}

/// See [`state_lines_glyphs`].
fn state_lines(items: &Vec<(String, SymbolTracker)>, connected: bool) -> (p: Page)
    ensures
        p@ == state_lines_glyphs(table::rows(items@), connected),
{
    let mut parts: Vec<Page> = Vec::new();
    let mut i: usize = 0;
    let ghost wanted = state_lines_parts(table::rows(items@), connected);
    while i < items.len()
        invariant
            i <= items@.len(),
            wanted == state_lines_parts(table::rows(items@), connected),
            page::views(parts@) == wanted.take(i as int),
        decreases items@.len() - i,
    {
        let ghost before = parts@;
        let part: Page = state_line(items[i].0.as_str(), &items[i].1, connected);
        parts.push(part);
        assert(page::views(parts@) =~= page::views(before).push(part@));
        assert(wanted.take(i + 1) =~= wanted.take(i as int).push(wanted[i as int]));
        i = i + 1;
    }
    assert(wanted.take(i as int) =~= wanted);
    page::join(&parts, "<br>")
}

/// The page of the states of an engine.
pub open spec fn states_glyphs(e: EngineView) -> Seq<Glyph> {
    parts::state_page_glyphs(
        parts::or_text(
            state_lines_glyphs(e.trackers, e.connected),
            e.trackers.len() == 0,
            "No trackers."@,
        ),
    )
}

impl RealtimeEngine {
    /// Whether the dashboard can count all trades.
    pub fn is_countable(&self) -> (b: bool)
        ensures
            b == countable(self@.trackers),
    {
        let items: &Vec<(String, SymbolTracker)> = &self.trackers.entries;
        let ghost all = table::rows(items@);
        if items.len() > i32::MAX as usize {
            return false;
        }
        let mut n: u64 = 0;
        let mut i: usize = 0;
        while i < items.len()
            invariant
                i <= items@.len(),
                all == table::rows(items@),
                n == closed_total(all.take(i as int)),
                n <= i32::MAX,
                all == self@.trackers,
            decreases items@.len() - i,
        {
            proof {
                assert(all.take(i + 1).drop_last() =~= all.take(i as int));
                assert(all.take(i + 1).last() == (items@[i as int].0@, items@[i as int].1@));
                lemma_closed_total_grows(all, i + 1);
            }
            let more: usize = items[i].1.closed_trades.len();
            if more > i32::MAX as usize || n + more as u64 > i32::MAX as u64 {
                return false;
            }
            n = n + more as u64;
            i = i + 1;
        }
        assert(all.take(i as int) =~= all);
        true
    }

    /// Whether the trades of each symbol can be counted.
    pub fn is_listable(&self) -> (b: bool)
        ensures
            b == listable(self@.trackers),
    {
        let items: &Vec<(String, SymbolTracker)> = &self.trackers.entries;
        let mut i: usize = 0;
        while i < items.len()
            invariant
                i <= items@.len(),
                self@.trackers == table::rows(items@),
                forall|j: int|
                    0 <= j < i ==> (#[trigger] self@.trackers[j]).1.closed_trades.len() < usize::MAX,
            decreases items@.len() - i,
        {
            assert(self@.trackers[i as int].1.closed_trades.len()
                == items@[i as int].1.closed_trades@.len());
            if items[i].1.closed_trades.len() == usize::MAX {
                return false;
            }
            i = i + 1;
        }
        true
    }

    /// The dashboard.
    pub fn generate_dashboard(&self) -> (p: Page)
        requires
            countable(self@.trackers),
        ensures
            p@ == dashboard_glyphs(self@),
    {
        dashboard(self)
    }

    /// The page to manage subscribers and symbols.
    pub fn generate_subs_page(&self) -> (p: Page)
        requires
            listable(self@.trackers),
        ensures
            p@ == subs_page_glyphs(self@),
    {
        subs_page(self)
    }

    /// The page of one symbol, if it is tracked.
    pub fn generate_view_trades_page(&self, symbol: &str) -> (p: Option<Page>)
        ensures
            p is Some <==> table::lookup(self@.trackers, symbol@) is Some,
            p is Some ==> p->0@ == view_page_glyphs(
                symbol@,
                table::lookup(self@.trackers, symbol@)->0,
            ),
    {
        match self.get_tracker(symbol) {
            Some(tr) => Some(view_page(symbol, tr)),
            None => None,
        }
    }

    /// The page of the states.
    pub fn generate_state_page(&self) -> (p: Page)
        ensures
            p@ == states_glyphs(self@),
            p@ == parts::state_page_glyphs(
                parts::or_text(
                    state_lines_glyphs(self@.trackers, self@.connected),
                    self@.trackers.len() == 0,
                    "No trackers."@,
                ),
            ),
    {
        let lines: Page = if self.trackers.entries.len() == 0 {
            Page::text("No trackers.")
        } else {
            state_lines(&self.trackers.entries, self.connected)
        };
        parts::state_page(lines)
    }
}

} // verus!
