//! The chart of the grid engine.
use vstd::prelude::*;
use vstd::string::*;
use crate::drawing;
use crate::drawing::{Frame, Shape};
use crate::figures;
use crate::grid::tracker;
use crate::grid::tracker::{GridTrade, GridTradeView, SymbolTracker, TrackerView};
use crate::market;
use crate::market::{KlineData, TradeDirection};
use crate::num::{num, Num};
use crate::page;
use crate::page::{Glyph, NumStyle, Page};
use crate::parts;

verus! {

/// The start of the chart: its width and height.
pub const HEADER: &'static str = r#"<svg xmlns="http://www.w3.org/2000/svg" viewBox="0 0 {} {}" style="width:100%;max-width:900px;background:#0d1117;border-radius:6px">
<style>
  .candle-up { fill:#26a69a;stroke:#26a69a }
  .candle-dn { fill:#ef5350;stroke:#ef5350 }
  .wick-up { stroke:#26a69a }
  .wick-dn { stroke:#ef5350 }
  .grid-line { stroke:#30363d;stroke-width:0.5 }
  .grid-base { stroke:#f0f6fc;stroke-width:1;stroke-dasharray:6,3 }
  .grid-level { stroke:#30363d;stroke-width:0.5;stroke-dasharray:2,4 }
  .marker-entry-long { fill:#4caf50;stroke:#000;stroke-width:0.5 }
  .marker-entry-short { fill:#ef5350;stroke:#000;stroke-width:0.5 }
  .marker-exit { fill:#f0883e;stroke:#000;stroke-width:0.5 }
  .pnl-line { fill:none;stroke:#c9d1d9;stroke-width:1 }
  .pnl-fill-p { fill:rgba(76,175,80,0.3) }
  .pnl-fill-n { fill:rgba(239,83,80,0.3) }
  .axis-text { fill:#8b949e;font-size:10px;font-family:monospace }
</style>
"#;

/// A line at a time: both ends.
pub const TIME_LINE: &'static str = r#"<line x1="{}" y1="{}" x2="{}" y2="{}" class="grid-line"/>"#;

/// A line at a price: both ends.
pub const PRICE_LINE: &'static str = r#"<line x1="{}" y1="{}" x2="{}" y2="{}" class="grid-line"/>"#;

/// The cross of an exit: the ends of its two lines.
pub const EXIT_CROSS: &'static str = r#"<line x1="{}" y1="{}" x2="{}" y2="{}" class="marker-exit" stroke-width="1.5"/>
<line x1="{}" y1="{}" x2="{}" y2="{}" class="marker-exit" stroke-width="1.5"/>"#;

/// A line at a level: both ends and the class.
pub const LEVEL_LINE: &'static str = r#"<line x1="{}" y1="{}" x2="{}" y2="{}" class="{}"/>"#;

/// The label of a level: place and level.
pub const LEVEL_LABEL: &'static str = r##"<text x="{}" y="{}" fill="#8b949e" font-size="8" font-family="monospace" text-anchor="start" dominant-baseline="middle">L{}</text>"##;

/// The first and the last bar that a closed trade ran over.
pub open spec fn closed_stretch(klines: Seq<KlineData>, t: GridTradeView) -> (int, int) {
    let n = klines.len() as int;
    let from = drawing::first_at(klines, t.entry_time);
    let to = match t.exit_time {
        Some(x) => drawing::first_at(klines, x),
        None => n,
    };
    (
        if from < n {
            from
        } else {
            0
        },
        if to < n {
            to
        } else {
            n - 1
        },
    )
}

/// A line of gains with those of closed trades painted over it.
pub open spec fn with_closed(line: Seq<Num>, klines: Seq<KlineData>, trades: Seq<GridTradeView>) -> Seq<Num>
    decreases trades.len(),
{
    if trades.len() == 0 {
        line
    } else {
        let t = trades.last();
        let (from, to) = closed_stretch(klines, t);
        drawing::painted(
            with_closed(line, klines, trades.drop_last()),
            klines,
            t.direction.long(),
            t.entry_price,
            from,
            to,
        )
    }
}

/// A line of gains with those of the active trade painted over it.
pub open spec fn with_active(line: Seq<Num>, klines: Seq<KlineData>, active: Option<GridTradeView>) -> Seq<Num> {
    match active {
        Some(t) => {
            let n = klines.len() as int;
            let from = drawing::first_at(klines, t.entry_time);
            drawing::painted(
                line,
                klines,
                t.direction.long(),
                t.entry_price,
                if from < n {
                    from
                } else {
                    n - 1
                },
                n - 1,
            )
        },
        None => line,
    }
}

/// The gain at each bar: that of the trade that ran, or zero.
pub open spec fn gain_curve(tr: TrackerView) -> Seq<Num> {
    with_active(
        with_closed(
            Seq::new(tr.klines.len(), |i: int| num(figures::ZERO)),
            tr.klines,
            tr.closed_trades,
        ),
        tr.klines,
        tr.active_trade,
    )
}

/// See [`gain_curve`].
fn curve(tr: &SymbolTracker) -> (line: Vec<Num>)
    requires
        tr.klines@.len() >= 1,
    ensures
        line@ == gain_curve(tr@),
        line@.len() == tr.klines@.len(),
{
    let n: usize = tr.klines.len();
    let mut line: Vec<Num> = Vec::new();
    let mut i: usize = 0;
    while i < n
        invariant
            i <= n,
            line@.len() == i,
            forall|j: int| 0 <= j < i ==> #[trigger] line@[j] == num(figures::ZERO),
        decreases n - i,
    {
        line.push(num(figures::ZERO));
        i = i + 1;
    }
    let ghost flat = Seq::new(tr@.klines.len(), |i: int| num(figures::ZERO));
    assert(line@ =~= flat);
    let ghost all = tr@.closed_trades;
    let mut j: usize = 0;
    while j < tr.closed_trades.len()
        invariant
            j <= tr.closed_trades@.len(),
            n == tr.klines@.len(),
            n >= 1,
            line@.len() == n,
            all == tracker::trade_views(tr.closed_trades@),
            line@ == with_closed(flat, tr.klines@, all.take(j as int)),
        decreases tr.closed_trades@.len() - j,
    {
        let t: &GridTrade = &tr.closed_trades[j];
        assert(all.take(j + 1).drop_last() =~= all.take(j as int));
        assert(all.take(j + 1).last() == t@);
        let from: usize = drawing::find_at(&tr.klines, &t.entry_time);
        let to: usize = match &t.exit_time {
            Some(x) => drawing::find_at(&tr.klines, x),
            None => n,
        };
        drawing::paint(
            &mut line,
            &tr.klines,
            t.direction.long(),
            t.entry_price,
            if from < n {
                from
            } else {
                0
            },
            if to < n {
                to
            } else {
                n - 1
            },
        );
        j = j + 1;
    }
    assert(all.take(j as int) =~= all);
    if let Some(t) = &tr.active_trade {
        let from: usize = drawing::find_at(&tr.klines, &t.entry_time);
        drawing::paint(
            &mut line,
            &tr.klines,
            t.direction.long(),
            t.entry_price,
            if from < n {
                from
            } else {
                n - 1
            },
            n - 1,
        );
    }
    line
}

/// The triangle at the entry of a closed trade.
pub open spec fn spec_entry_shape(up: bool) -> Shape {
    Shape {
        up,
        tip: num(figures::SEVEN),
        base: num(figures::TWO),
        half: num(figures::FIVE),
    }
}

/// The triangle at the entry of a closed trade.
#[verifier::when_used_as_spec(spec_entry_shape)]
pub fn entry_shape(up: bool) -> (r: Shape)
    ensures
        r == spec_entry_shape(up),
{
    Shape {
        up,
        tip: num(figures::SEVEN),
        base: num(figures::TWO),
        half: num(figures::FIVE),
    }
}

/// The triangle at the entry of the active trade.
pub open spec fn spec_active_shape(up: bool) -> Shape {
    Shape {
        up,
        tip: num(figures::NINE),
        base: num(figures::THREE),
        half: num(figures::SIX),
    }
}

/// The triangle at the entry of the active trade.
#[verifier::when_used_as_spec(spec_active_shape)]
pub fn active_shape(up: bool) -> (r: Shape)
    ensures
        r == spec_active_shape(up),
{
    Shape {
        up,
        tip: num(figures::NINE),
        base: num(figures::THREE),
        half: num(figures::SIX),
    }
}

/// The class of the triangle of a trade.
pub open spec fn marker_class(t: GridTradeView) -> Seq<char> {
    match t.direction {
        TradeDirection::Long => "marker-entry-long"@,
        TradeDirection::Short => "marker-entry-short"@,
    }
}

/// See [`marker_class`].
fn marker_class_of(t: &GridTrade) -> (r: &'static str)
    ensures
        r@ == marker_class(t@),
{
    match t.direction {
        TradeDirection::Long => "marker-entry-long",
        TradeDirection::Short => "marker-entry-short",
    }
}

/// The triangle at the entry of a trade, if there is a bar for it.
pub open spec fn entry_marker_glyphs(
    f: Frame,
    klines: Seq<KlineData>,
    t: GridTradeView,
    shape: Shape,
    template: Seq<char>,
) -> Seq<Glyph> {
    let i = drawing::first_at(klines, t.entry_time);
    if i < klines.len() {
        drawing::triangle_glyphs(
            shape,
            f.spec_to_x(i as usize),
            f.to_y(t.entry_price),
            marker_class(t),
            template,
        )
    } else {
        Seq::empty()
    }
}

/// See [`entry_marker_glyphs`].
fn entry_marker(
    f: Frame,
    klines: &Vec<KlineData>,
    t: &GridTrade,
    shape: Shape,
    template: &str,
) -> (p: Page)
    requires
        f.count >= 2,
    ensures
        p@ == entry_marker_glyphs(f, klines@, t@, shape, template@),
{
    let i: usize = drawing::find_at(klines, &t.entry_time);
    if i < klines.len() {
        drawing::triangle(
            shape,
            f.to_x(i),
            f.to_y(t.entry_price),
            marker_class_of(t),
            template,
        )
    } else {
        Page::new()
    }
}

/// The cross at the exit of a trade, if there is a bar for it.
pub open spec fn exit_marker_glyphs(f: Frame, klines: Seq<KlineData>, t: GridTradeView) -> Seq<Glyph> {
    match t.exit_time {
        Some(x) => {
            let i = drawing::first_at(klines, x);
            if i < klines.len() {
                drawing::cross_glyphs(
                    f.spec_to_x(i as usize),
                    f.to_y(market::or_else(t.exit_price, t.entry_price)),
                    EXIT_CROSS@,
                )
            } else {
                Seq::empty()
            }
        },
        None => Seq::empty(),
    }
}

/// See [`exit_marker_glyphs`].
fn exit_marker(f: Frame, klines: &Vec<KlineData>, t: &GridTrade) -> (p: Page)
    requires
        f.count >= 2,
    ensures
        p@ == exit_marker_glyphs(f, klines@, t@),
{
    match &t.exit_time {
        Some(x) => {
            let i: usize = drawing::find_at(klines, x);
            if i < klines.len() {
                drawing::cross(
                    f.to_x(i),
                    f.to_y(market::or_else(t.exit_price, t.entry_price)),
                    EXIT_CROSS,
                )
            } else {
                Page::new()
            }
        },
        None => Page::new(),
    }
}

/// The markers of a closed trade.
pub open spec fn trade_markers_glyphs(f: Frame, klines: Seq<KlineData>, t: GridTradeView) -> Seq<Glyph> {
    entry_marker_glyphs(f, klines, t, entry_shape(t.direction.long()), drawing::MARKER@)
        + exit_marker_glyphs(f, klines, t)
}

/// See [`trade_markers_glyphs`].
fn trade_markers(f: Frame, klines: &Vec<KlineData>, t: &GridTrade) -> (p: Page)
    requires
        f.count >= 2,
    ensures
        p@ == trade_markers_glyphs(f, klines@, t@),
{
    let mut p: Page = entry_marker(
        f,
        klines,
        t,
        entry_shape(t.direction.long()),
        drawing::MARKER,
    );
    p.append(&exit_marker(f, klines, t));
    p
}

/// The marker of the active trade.
pub open spec fn active_marker_glyphs(f: Frame, tr: TrackerView) -> Seq<Glyph> {
    match tr.active_trade {
        Some(t) => entry_marker_glyphs(
            f,
            tr.klines,
            t,
            active_shape(t.direction.long()),
            drawing::STRONG_MARKER@,
        ),
        None => Seq::empty(),
    }
}

/// See [`active_marker_glyphs`].
fn active_marker(f: Frame, tr: &SymbolTracker) -> (p: Page)
    requires
        f.count >= 2,
    ensures
        p@ == active_marker_glyphs(f, tr@),
{
    match &tr.active_trade {
        Some(t) => entry_marker(
            f,
            &tr.klines,
            t,
            active_shape(t.direction.long()),
            drawing::STRONG_MARKER,
        ),
        None => Page::new(),
    }
}

/// The markers of all closed trades.
pub open spec fn markers_glyphs(items: Seq<GridTradeView>, f: Frame, klines: Seq<KlineData>) -> Seq<Glyph>
    decreases items.len(),
{
    if items.len() == 0 {
        Seq::empty()
    } else {
        markers_glyphs(items.drop_last(), f, klines) + trade_markers_glyphs(f, klines, items.last())
    }
}

/// See [`markers_glyphs`].
fn markers(items: &Vec<GridTrade>, f: Frame, klines: &Vec<KlineData>) -> (p: Page)
    requires
        f.count >= 2,
    ensures
        p@ == markers_glyphs(tracker::trade_views(items@), f, klines@),
{
    let mut p: Page = Page::new();
    let mut i: usize = 0;
    let ghost all = tracker::trade_views(items@);
    while i < items.len()
        invariant
            i <= items@.len(),
            all == tracker::trade_views(items@),
            f.count >= 2,
            p@ == markers_glyphs(all.take(i as int), f, klines@),
        decreases items@.len() - i,
    {
        assert(all.take(i + 1).drop_last() =~= all.take(i as int));
        assert(all.take(i + 1).last() == items@[i as int]@);
        p.append(&trade_markers(f, klines, &items[i]));
        i = i + 1;
    }
    assert(all.take(i as int) =~= all);
    p
}

/// The class of the line of a level.
pub open spec fn level_class(level: i32) -> Seq<char> {
    if level == 0 {
        "grid-base"@
    } else {
        "grid-level"@
    }
}

/// See [`level_class`].
fn level_class_of(level: i32) -> (r: &'static str)
    ensures
        r@ == level_class(level),
{
    if level == 0 {
        "grid-base"
    } else {
        "grid-level"
    }
}

/// The fillings of [`level_line_glyphs`].
pub open spec fn level_line_slots(f: Frame, y: Num, level: i32) -> Seq<Seq<Glyph>> {
    seq![
        page::figure(NumStyle::Plain, f.margin_l),
        page::figure(NumStyle::Plain, y),
        page::figure(NumStyle::Plain, f.right()),
        page::figure(NumStyle::Plain, y),
        page::plain(level_class(level)),
    ]
}

/// The line of a level.
pub open spec fn level_line_glyphs(f: Frame, y: Num, level: i32) -> Seq<Glyph> {
    page::filled(LEVEL_LINE@, level_line_slots(f, y, level))
}

/// See [`level_line_glyphs`].
fn level_line(f: Frame, y: Num, level: i32) -> (p: Page)
    ensures
        p@ == level_line_glyphs(f, y, level),
{
    let slots: Vec<Page> = vec![
        Page::shortest(f.margin_l),
        Page::shortest(y),
        Page::shortest(f.right()),
        Page::shortest(y),
        Page::text(level_class_of(level)),
    ];
    assert(page::views(slots@) =~= level_line_slots(f, y, level));
    page::fill(LEVEL_LINE, &slots)
}

/// The fillings of [`level_label_glyphs`].
pub open spec fn level_label_slots(f: Frame, y: Num, level: i32) -> Seq<Seq<Glyph>> {
    seq![
        page::figure(NumStyle::Plain, f.right().plus(num(figures::THREE))),
        page::figure(NumStyle::Plain, y),
        page::whole(level as int),
    ]
}

/// The label of a level.
pub open spec fn level_label_glyphs(f: Frame, y: Num, level: i32) -> Seq<Glyph> {
    page::filled(LEVEL_LABEL@, level_label_slots(f, y, level))
}

/// See [`level_label_glyphs`].
fn level_label(f: Frame, y: Num, level: i32) -> (p: Page)
    ensures
        p@ == level_label_glyphs(f, y, level),
{
    let slots: Vec<Page> = vec![
        Page::shortest(f.right().plus(num(figures::THREE))),
        Page::shortest(y),
        Page::integer(level as i64),
    ];
    assert(page::views(slots@) =~= level_label_slots(f, y, level));
    page::fill(LEVEL_LABEL, &slots)
}

/// The line and the label of a level, if its price lies in the frame.
pub open spec fn level_mark_glyphs(f: Frame, base: Num, level: i32) -> Seq<Glyph> {
    let price = tracker::price_for_level(level, base);
    if price.below(f.min_price) || f.max_price.below(price) {
        Seq::empty()
    } else {
        level_line_glyphs(f, f.to_y(price), level) + level_label_glyphs(f, f.to_y(price), level)
    }
}

/// See [`level_mark_glyphs`].
fn level_mark(f: Frame, base: Num, level: i32) -> (p: Page)
    ensures
        p@ == level_mark_glyphs(f, base, level),
{
    let price: Num = tracker::price_for_level(level, base);
    if price.below(f.min_price) || f.max_price.below(price) {
        return Page::new();
    }
    let y: Num = f.to_y(price);
    let mut p: Page = level_line(f, y, level);
    p.append(&level_label(f, y, level));
    p
}

/// The levels from -100 up to below `to`.
pub open spec fn levels_glyphs(f: Frame, base: Num, to: int) -> Seq<Glyph>
    decreases to + 100,
{
    if to <= -100 {
        Seq::empty()
    } else {
        levels_glyphs(f, base, to - 1) + level_mark_glyphs(f, base, (to - 1) as i32)
    }
}

/// The levels from -100 to 100.
fn levels(f: Frame, base: Num) -> (p: Page)
    ensures
        p@ == levels_glyphs(f, base, 101),
{
    let mut p: Page = Page::new();
    let mut i: i32 = -100;
    while i <= 100
        invariant
            -100 <= i <= 101,
            p@ == levels_glyphs(f, base, i as int),
        decreases 101 - i,
    {
        p.append(&level_mark(f, base, i));
        i = i + 1;
    }
    p
}

/// The chart of a symbol with two or more bars.
pub open spec fn drawn_glyphs(tr: TrackerView) -> Seq<Glyph> {
    let line = gain_curve(tr);
    let f = drawing::frame_for(num(figures::SEVENTY), tr.klines, line);
    drawing::header_glyphs(HEADER@) + drawing::time_lines_glyphs(f, 0, TIME_LINE@)
        + drawing::price_axis_glyphs(f, PRICE_LINE@) + levels_glyphs(f, tr.base_price, 101)
        + drawing::bars_glyphs(tr.klines, f, num(figures::SIX)) + markers_glyphs(
        tr.closed_trades,
        f,
        tr.klines,
    ) + active_marker_glyphs(f, tr) + drawing::gain_panel_glyphs(f, line) + page::plain("</svg>"@)
}

/// The chart of a symbol.
pub open spec fn chart_glyphs(tr: TrackerView) -> Seq<Glyph> {
    if tr.klines.len() < 2 {
        page::plain(parts::NO_CHART@)
    } else {
        drawn_glyphs(tr)
    }
}

/// The chart of a symbol: bars, trades and gains.
pub fn generate_chart_svg(tr: &SymbolTracker) -> (p: Page)
    ensures
        p@ == chart_glyphs(tr@),
{
    if tr.klines.len() < 2 {
        return Page::text(parts::NO_CHART);
    }
    let line: Vec<Num> = curve(tr);
    let f: Frame = drawing::make_frame(num(figures::SEVENTY), &tr.klines, &line);
    let mut p: Page = drawing::header(HEADER);
    p.append(&drawing::time_lines(f, TIME_LINE));
    p.append(&drawing::price_axis(f, PRICE_LINE));
    p.append(&levels(f, tr.base_price));
    p.append(&drawing::bars(&tr.klines, f, num(figures::SIX)));
    p.append(&markers(&tr.closed_trades, f, &tr.klines));
    p.append(&active_marker(f, tr));
    p.append(&drawing::gain_panel(f, &line));
    p.push_text("</svg>");
    p
}

/// Without trades the line of gains is zero at every bar.
pub proof fn lemma_line_without_trades(tr: TrackerView, i: int)
    requires
        tr.closed_trades.len() == 0,
        tr.active_trade is None,
        0 <= i < tr.klines.len(),
    ensures
        gain_curve(tr).len() == tr.klines.len(),
        gain_curve(tr)[i].bits == 0,
{
}

/// The active trade is drawn from the first bar at or after its entry on, and at the last
/// bar in any case: there the line of gains is the gain of the trade at the close of the
/// bar. At every other bar the line is what it is without the trade.
pub proof fn lemma_line_of_active(tr: TrackerView, i: int)
    requires
        tr.active_trade is Some,
        0 <= i < tr.klines.len(),
    ensures
        ({
            let t = tr.active_trade->0;
            let line = gain_curve(tr);
            let without = gain_curve((TrackerView { active_trade: None, ..tr }));
            &&& line.len() == without.len()
            &&& line.len() == tr.klines.len()
            &&& line[i] == if drawing::come_by(tr.klines, t.entry_time, i) || i == tr.klines.len() - 1 {
                drawing::change(
                    t.direction == TradeDirection::Long,
                    t.entry_price,
                    tr.klines[i].close,
                )
            } else {
                without[i]
            }
        }),
{
    lemma_line_length(tr.klines, tr.closed_trades);
    drawing::lemma_come_by(tr.klines, tr.active_trade->0.entry_time, i);
    drawing::lemma_first_at(tr.klines, tr.active_trade->0.entry_time);
}

/// The line has a gain for each bar.
proof fn lemma_line_length(klines: Seq<KlineData>, trades: Seq<GridTradeView>)
    ensures
        with_closed(Seq::new(klines.len(), |i: int| num(figures::ZERO)), klines, trades).len()
            == klines.len(),
    decreases trades.len(),
{
    if trades.len() > 0 {
        lemma_line_length(klines, trades.drop_last());
    }
}

/// A closed trade is drawn from the first bar at or after its entry, or the first of all
/// where there is none, to the first bar at or after its exit, or the last of all: there
/// the line of gains is the gain of the trade at the close of the bar. At every other bar
/// the line is what it is without the trade, which is drawn over the ones before.
pub proof fn lemma_line_of_closed(tr: TrackerView, t: GridTradeView, i: int)
    requires
        tr.active_trade is None,
        0 <= i < tr.klines.len(),
    ensures
        ({
            let line = gain_curve((TrackerView { closed_trades: tr.closed_trades.push(t), ..tr }));
            let without = gain_curve(tr);
            let started = drawing::come_by(tr.klines, t.entry_time, i) || !drawing::come_by(
                tr.klines,
                t.entry_time,
                tr.klines.len() as int,
            );
            let ended = t.exit_time is Some && drawing::come_by(tr.klines, t.exit_time->0, i - 1);
            &&& line.len() == tr.klines.len()
            &&& line[i] == if started && !ended {
                drawing::change(
                    t.direction == TradeDirection::Long,
                    t.entry_price,
                    tr.klines[i].close,
                )
            } else {
                without[i]
            }
        }),
{
    let n = tr.klines.len() as int;
    assert(tr.closed_trades.push(t).drop_last() =~= tr.closed_trades);
    lemma_line_length(tr.klines, tr.closed_trades);
    drawing::lemma_come_by(tr.klines, t.entry_time, i);
    drawing::lemma_come_by(tr.klines, t.entry_time, n - 1);
    drawing::lemma_first_at(tr.klines, t.entry_time);
    assert(drawing::come_by(tr.klines, t.entry_time, n) == drawing::come_by(
        tr.klines,
        t.entry_time,
        n - 1,
    ));
    if let Some(x) = t.exit_time {
        drawing::lemma_first_at(tr.klines, x);
        if i > 0 {
            drawing::lemma_come_by(tr.klines, x, i - 1);
        }
    }
}

/// The entry of a trade is marked at the first bar at or after it, at the height of its
/// price, and nowhere where there is no such bar; so is its exit.
pub proof fn lemma_marks(f: Frame, klines: Seq<KlineData>, t: GridTradeView, shape: Shape, template: Seq<char>, i: usize)
    requires
        i < klines.len(),
    ensures
        !drawing::come_by(klines, t.entry_time, klines.len() as int) ==> entry_marker_glyphs(
            f,
            klines,
            t,
            shape,
            template,
        ).len() == 0,
        drawing::come_by(klines, t.entry_time, i as int) && !drawing::come_by(
            klines,
            t.entry_time,
            i - 1,
        ) ==> entry_marker_glyphs(f, klines, t, shape, template) == drawing::triangle_glyphs(
            shape,
            f.spec_to_x(i),
            f.to_y(t.entry_price),
            if t.direction == TradeDirection::Long {
            "marker-entry-long"@
        } else {
            "marker-entry-short"@
        },
            template,
        ),
        t.exit_time is None || !drawing::come_by(klines, t.exit_time->0, klines.len() as int)
            ==> exit_marker_glyphs(f, klines, t).len() == 0,
        t.exit_time is Some && t.exit_price is Some && drawing::come_by(
            klines,
            t.exit_time->0,
            i as int,
        ) && !drawing::come_by(klines, t.exit_time->0, i - 1) ==> exit_marker_glyphs(f, klines, t)
            == drawing::cross_glyphs(f.spec_to_x(i), f.to_y(t.exit_price->0), EXIT_CROSS@),
{
    let n = klines.len() as int;
    lemma_first_of(klines, t.entry_time, i as int);
    if let Some(x) = t.exit_time {
        lemma_first_of(klines, x, i as int);
    }
}

/// The bar by which a moment has come first.
proof fn lemma_first_of(klines: Seq<KlineData>, x: crate::time::Moment, i: int)
    requires
        0 <= i < klines.len(),
    ensures
        drawing::come_by(klines, x, i) && !drawing::come_by(klines, x, i - 1)
            ==> drawing::first_at(klines, x) == i,
        !drawing::come_by(klines, x, klines.len() as int) ==> drawing::first_at(klines, x)
            == klines.len(),
{
    drawing::lemma_first_at(klines, x);
    drawing::lemma_come_by(klines, x, i);
    if i > 0 {
        drawing::lemma_come_by(klines, x, i - 1);
    }
    let first = drawing::first_at(klines, x);
    if first < klines.len() {
        assert(klines[first].datetime.stamp() >= x.stamp());
        assert(drawing::come_by(klines, x, klines.len() as int));
    }
}

} // verus!
