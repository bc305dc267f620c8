//! The chart of the one-sided engine.
use vstd::prelude::*;
use vstd::string::*;
use crate::drawing;
use crate::drawing::{Frame, Shape};
use crate::figures;
use crate::market;
use crate::market::KlineData;
use crate::num::{num, Num};
use crate::page;
use crate::page::{Glyph, NumStyle, Page};
use crate::parts;
use crate::top::tracker::{Side, SymbolTracker, TrackerView};

verus! {

/// The start of the chart: its width and height.
pub const HEADER: &'static str = r#"<svg xmlns="http://www.w3.org/2000/svg" viewBox="0 0 {} {}" style="width:100%;max-width:900px;background:#0d1117;border-radius:6px">
<style>
  .candle-up { fill:#26a69a;stroke:#26a69a }
  .candle-dn { fill:#ef5350;stroke:#ef5350 }
  .wick-up { stroke:#26a69a }
  .wick-dn { stroke:#ef5350 }
  .line-entry { stroke:#2196f3;stroke-dasharray:4,3;stroke-width:1 }
  .line-sl { stroke:#ff9800;stroke-dasharray:4,3;stroke-width:1 }
  .marker-entry { fill:#4caf50;stroke:#000;stroke-width:0.5 }
  .marker-entry-s { fill:#ef5350;stroke:#000;stroke-width:0.5 }
  .marker-stop { fill:#ef5350;stroke:#000;stroke-width:0.5 }
  .pnl-line { fill:none;stroke:#c9d1d9;stroke-width:1 }
  .pnl-fill-p { fill:rgba(76,175,80,0.3) }
  .pnl-fill-n { fill:rgba(239,83,80,0.3) }
  .axis-text { fill:#8b949e;font-size:10px;font-family:monospace }
</style>
"#;

/// A line at a time: both ends.
pub const TIME_LINE: &'static str = r##"<line x1="{}" y1="{}" x2="{}" y2="{}" stroke="#30363d" stroke-width="0.5"/>"##;

/// A line at a price: both ends.
pub const PRICE_LINE: &'static str = r##"<line x1="{}" y1="{}" x2="{}" y2="{}" stroke="#30363d" stroke-width="0.5"/>"##;

/// The line at the entry price: both ends.
pub const ENTRY_LINE: &'static str = r#"<line x1="{}" y1="{}" x2="{}" y2="{}" class="line-entry"/>"#;

/// The label of the entry price: place and price.
pub const ENTRY_LABEL: &'static str = r##"<text x="{}" y="{}" fill="#2196f3" font-size="9" font-family="monospace" dominant-baseline="hanging">{}</text>"##;

/// The line at the stop: both ends.
pub const STOP_LINE: &'static str = r#"<line x1="{}" y1="{}" x2="{}" y2="{}" class="line-sl"/>"#;

/// The cross of a stop: the ends of its two lines.
pub const STOP_CROSS: &'static str = r#"<line x1="{}" y1="{}" x2="{}" y2="{}" class="marker-stop" stroke-width="1.5"/>
<line x1="{}" y1="{}" x2="{}" y2="{}" class="marker-stop" stroke-width="1.5"/>"#;

/// Where a side stands after a bar of the chart.
#[derive(Clone, Copy)]
pub struct Step {
    /// Whether it is in a trade.
    pub inside: bool,
    /// Whether it was stopped out and waits.
    pub waiting: bool,
    /// The last entry price.
    pub entry: Num,
    /// The stop of the last entry.
    pub stop: Num,
    /// Whether it entered at this bar.
    pub entered: bool,
    /// Whether it was stopped out at this bar.
    pub stopped: bool,
}

/// The price of a bar that is worst for a side.
pub open spec fn spec_worst(side: Side, k: KlineData) -> Num {
    match side {
        Side::Long => k.low,
        Side::Short => k.high,
    }
}

/// The price of a bar that is worst for a side.
#[verifier::when_used_as_spec(spec_worst)]
pub fn worst(side: Side, k: KlineData) -> (r: Num)
    ensures
        r == spec_worst(side, k),
{
    match side {
        Side::Long => k.low,
        Side::Short => k.high,
    }
}

/// One bar further: a side that is out enters at the close, after a stop only once the
/// close has passed the last entry; then it may be stopped out within the same bar.
pub open spec fn spec_stepped(side: Side, s: Step, k: KlineData) -> Step {
    let entered = !s.inside && (!s.waiting || side.passed(k.close, s.entry));
    let inside = s.inside || entered;
    let entry = if entered {
        k.close
    } else {
        s.entry
    };
    let stop = if entered {
        side.stop_for(k.close)
    } else {
        s.stop
    };
    let stopped = inside && side.stopped(worst(side, k), stop);
    Step {
        inside: inside && !stopped,
        waiting: stopped || (s.waiting && !entered),
        entry,
        stop,
        entered,
        stopped,
    }
}

/// See [`spec_stepped`].
#[verifier::when_used_as_spec(spec_stepped)]
pub fn stepped(side: Side, s: Step, k: KlineData) -> (r: Step)
    ensures
        r == spec_stepped(side, s, k),
{
    let entered: bool = !s.inside && (!s.waiting || side.passed(k.close, s.entry));
    let inside: bool = s.inside || entered;
    let entry: Num = if entered {
        k.close
    } else {
        s.entry
    };
    let stop: Num = if entered {
        side.stop_for(k.close)
    } else {
        s.stop
    };
    let stopped: bool = inside && side.stopped(worst(side, k), stop);
    Step {
        inside: inside && !stopped,
        waiting: stopped || (s.waiting && !entered),
        entry,
        stop,
        entered,
        stopped,
    }
}

/// Where a side stands before the first bar, whose close is given.
pub open spec fn spec_outset(side: Side, close: Num) -> Step {
    Step {
        inside: false,
        waiting: false,
        entry: close,
        stop: side.stop_for(close),
        entered: false,
        stopped: false,
    }
}

/// Where a side stands before the first bar, whose close is given.
#[verifier::when_used_as_spec(spec_outset)]
pub fn outset(side: Side, close: Num) -> (r: Step)
    ensures
        r == spec_outset(side, close),
{
    Step {
        inside: false,
        waiting: false,
        entry: close,
        stop: side.stop_for(close),
        entered: false,
        stopped: false,
    }
}

/// Where a side stands after the first `n` bars.
pub open spec fn walk(side: Side, klines: Seq<KlineData>, n: int) -> Step
    decreases n,
{
    if n <= 0 {
        outset(side, klines[0].close)
    } else {
        stepped(side, walk(side, klines, n - 1), klines[n - 1])
    }
}

/// Where a side stands after each bar.
pub open spec fn steps(side: Side, klines: Seq<KlineData>) -> Seq<Step> {
    Seq::new(klines.len(), |i: int| walk(side, klines, i + 1))
}

/// See [`steps`].
fn all_steps(side: Side, klines: &Vec<KlineData>) -> (r: Vec<Step>)
    requires
        klines@.len() >= 1,
    ensures
        r@ == steps(side, klines@),
{
    let mut r: Vec<Step> = Vec::new();
    let mut last: Step = outset(side, klines[0].close);
    let mut i: usize = 0;
    while i < klines.len()
        invariant
            i <= klines@.len(),
            last == walk(side, klines@, i as int),
            r@ == steps(side, klines@).take(i as int),
        decreases klines@.len() - i,
    {
        last = stepped(side, last, klines[i]);
        r.push(last);
        i = i + 1;
        assert(r@ =~= steps(side, klines@).take(i as int));
    }
    assert(steps(side, klines@).take(i as int) =~= steps(side, klines@));
    r
}

/// The gain at each of the first `n` bars: against a fixed entry price while in a
/// trade, and the last gain while out of one.
pub open spec fn gain_curve(side: Side, klines: Seq<KlineData>, entry: Num, n: int) -> Seq<Num>
    decreases n,
{
    if n <= 0 {
        Seq::empty()
    } else {
        let before = gain_curve(side, klines, entry, n - 1);
        before.push(
            if walk(side, klines, n).inside {
                market::gain(side.long(), entry, klines[n - 1].close)
            } else if n == 1 {
                num(figures::ZERO)
            } else {
                before[n - 2]
            },
        )
    }
}

/// The curve has a gain for each bar.
pub proof fn lemma_gain_curve_length(side: Side, klines: Seq<KlineData>, entry: Num, n: int)
    requires
        n >= 0,
    ensures
        gain_curve(side, klines, entry, n).len() == n,
    decreases n,
{
    if n > 0 {
        lemma_gain_curve_length(side, klines, entry, n - 1);
    }
}

/// See [`gain_curve`].
fn curve(side: Side, klines: &Vec<KlineData>, walked: &Vec<Step>, entry: Num) -> (line: Vec<Num>)
    requires
        walked@ == steps(side, klines@),
    ensures
        line@ == gain_curve(side, klines@, entry, klines@.len() as int),
        line@.len() == klines@.len(),
{
    let mut line: Vec<Num> = Vec::new();
    let mut i: usize = 0;
    while i < klines.len()
        invariant
            i <= klines@.len(),
            walked@ == steps(side, klines@),
            line@.len() == i,
            line@ == gain_curve(side, klines@, entry, i as int),
        decreases klines@.len() - i,
    {
        let p: Num = if walked[i].inside {
            market::gain(side.long(), entry, klines[i].close)
        } else if i == 0 {
            num(figures::ZERO)
        } else {
            line[i - 1]
        };
        line.push(p);
        i = i + 1;
    }
    line
}

/// The fillings of [`entry_label_glyphs`].
pub open spec fn entry_label_slots(f: Frame, price: Num) -> Seq<Seq<Glyph>> {
    seq![
        page::figure(NumStyle::Plain, f.right().plus(num(figures::THREE))),
        page::figure(NumStyle::Plain, f.to_y(price)),
        page::figure(NumStyle::Fixed(2), price),
    ]
}

/// The label of the entry price.
pub open spec fn entry_label_glyphs(f: Frame, price: Num) -> Seq<Glyph> {
    page::filled(ENTRY_LABEL@, entry_label_slots(f, price))
}

/// See [`entry_label_glyphs`].
fn entry_label(f: Frame, price: Num) -> (p: Page)
    ensures
        p@ == entry_label_glyphs(f, price),
{
    let slots: Vec<Page> = vec![
        Page::shortest(f.right().plus(num(figures::THREE))),
        Page::shortest(f.to_y(price)),
        Page::fixed(2, price),
    ];
    assert(page::views(slots@) =~= entry_label_slots(f, price));
    page::fill(ENTRY_LABEL, &slots)
}

/// The class of the triangle of an entry.
pub open spec fn marker_class(side: Side) -> Seq<char> {
    match side {
        Side::Long => "marker-entry"@,
        Side::Short => "marker-entry-s"@,
    }
}

/// See [`marker_class`].
fn marker_class_of(side: Side) -> (r: &'static str)
    ensures
        r@ == marker_class(side),
{
    match side {
        Side::Long => "marker-entry",
        Side::Short => "marker-entry-s",
    }
}

/// The triangle of an entry.
pub open spec fn spec_entry_shape(up: bool) -> Shape {
    Shape {
        up,
        tip: num(figures::EIGHT),
        base: num(figures::TWO),
        half: num(figures::FIVE),
    }
}

/// The triangle of an entry.
#[verifier::when_used_as_spec(spec_entry_shape)]
pub fn entry_shape(up: bool) -> (r: Shape)
    ensures
        r == spec_entry_shape(up),
{
    Shape {
        up,
        tip: num(figures::EIGHT),
        base: num(figures::TWO),
        half: num(figures::FIVE),
    }
}

/// The triangle at a bar, if the side entered there.
pub open spec fn entry_marker_glyphs(f: Frame, side: Side, i: usize, close: Num, s: Step) -> Seq<Glyph> {
    if s.entered {
        drawing::triangle_glyphs(
            entry_shape(side.long()),
            f.spec_to_x(i),
            f.to_y(close),
            marker_class(side),
            drawing::MARKER@,
        )
    } else {
        Seq::empty()
    }
}

/// See [`entry_marker_glyphs`].
fn entry_marker(f: Frame, side: Side, i: usize, close: Num, s: Step) -> (p: Page)
    requires
        f.count >= 2,
    ensures
        p@ == entry_marker_glyphs(f, side, i, close, s),
{
    if s.entered {
        drawing::triangle(
            entry_shape(side.long()),
            f.to_x(i),
            f.to_y(close),
            marker_class_of(side),
            drawing::MARKER,
        )
    } else {
        Page::new()
    }
}

/// The cross at a bar, if the side was stopped out there.
pub open spec fn stop_marker_glyphs(f: Frame, i: usize, stop: Num, s: Step) -> Seq<Glyph> {
    if s.stopped {
        drawing::cross_glyphs(f.spec_to_x(i), f.to_y(stop), STOP_CROSS@)
    } else {
        Seq::empty()
    }
}

/// See [`stop_marker_glyphs`].
fn stop_marker(f: Frame, i: usize, stop: Num, s: Step) -> (p: Page)
    requires
        f.count >= 2,
    ensures
        p@ == stop_marker_glyphs(f, i, stop, s),
{
    if s.stopped {
        drawing::cross(f.to_x(i), f.to_y(stop), STOP_CROSS)
    } else {
        Page::new()
    }
}

/// The triangles at all entries.
pub open spec fn entry_markers_glyphs(items: Seq<Step>, f: Frame, side: Side, klines: Seq<KlineData>) -> Seq<Glyph>
    decreases items.len(),
{
    if items.len() == 0 {
        Seq::empty()
    } else {
        entry_markers_glyphs(items.drop_last(), f, side, klines) + entry_marker_glyphs(f, side, (items.len() - 1) as usize, klines[(items.len() - 1)].close, items.last())
    }
}

/// See [`entry_markers_glyphs`].
fn entry_markers(items: &Vec<Step>, f: Frame, side: Side, klines: &Vec<KlineData>) -> (p: Page)
    requires
        f.count >= 2,
        items@.len() == klines@.len(),
    ensures
        p@ == entry_markers_glyphs(items@, f, side, klines@),
{
    let mut p: Page = Page::new();
    let mut i: usize = 0;
    let ghost all = items@;
    while i < items.len()
        invariant
            i <= items@.len(),
            all == items@,
            f.count >= 2,
            items@.len() == klines@.len(),
            p@ == entry_markers_glyphs(all.take(i as int), f, side, klines@),
        decreases items@.len() - i,
    {
        assert(all.take(i + 1).drop_last() =~= all.take(i as int));
        assert(all.take(i + 1).last() == items@[i as int]);
        p.append(&entry_marker(f, side, i, klines[i].close, items[i]));
        i = i + 1;
    }
    assert(all.take(i as int) =~= all);
    p
}

/// The crosses at all stops, at the height of one price.
pub open spec fn stop_markers_glyphs(items: Seq<Step>, f: Frame, stop: Num) -> Seq<Glyph>
    decreases items.len(),
{
    if items.len() == 0 {
        Seq::empty()
    } else {
        stop_markers_glyphs(items.drop_last(), f, stop) + stop_marker_glyphs(f, (items.len() - 1) as usize, stop, items.last())
    }
}

/// See [`stop_markers_glyphs`].
fn stop_markers(items: &Vec<Step>, f: Frame, stop: Num) -> (p: Page)
    requires
        f.count >= 2,
    ensures
        p@ == stop_markers_glyphs(items@, f, stop),
{
    let mut p: Page = Page::new();
    let mut i: usize = 0;
    let ghost all = items@;
    while i < items.len()
        invariant
            i <= items@.len(),
            all == items@,
            f.count >= 2,
            p@ == stop_markers_glyphs(all.take(i as int), f, stop),
        decreases items@.len() - i,
    {
        assert(all.take(i + 1).drop_last() =~= all.take(i as int));
        assert(all.take(i + 1).last() == items@[i as int]);
        p.append(&stop_marker(f, i, stop, items[i]));
        i = i + 1;
    }
    assert(all.take(i as int) =~= all);
    p
}

/// The chart of a symbol with two or more bars.
pub open spec fn drawn_glyphs(tr: TrackerView) -> Seq<Glyph> {
    let side = tr.direction;
    let n = tr.klines.len() as int;
    let entry = market::or_else(tr.entry_price, tr.klines[0].close);
    let walked = steps(side, tr.klines);
    let line = gain_curve(side, tr.klines, entry, n);
    let f = drawing::frame_for(num(figures::SIXTY), tr.klines, line);
    drawing::header_glyphs(HEADER@) + drawing::time_lines_glyphs(f, 0, TIME_LINE@)
        + drawing::price_axis_glyphs(f, PRICE_LINE@) + drawing::bars_glyphs(
        tr.klines,
        f,
        num(figures::TEN),
    ) + drawing::level_line_glyphs(f, f.to_y(entry), ENTRY_LINE@) + entry_label_glyphs(f, entry)
        + drawing::level_line_glyphs(f, f.to_y(side.stop_for(entry)), STOP_LINE@)
        + entry_markers_glyphs(walked, f, side, tr.klines) + stop_markers_glyphs(
        walked,
        f,
        walk(side, tr.klines, n).stop,
    ) + drawing::gain_panel_glyphs(f, line) + page::plain("</svg>"@)
}

/// The chart of a symbol.
pub open spec fn chart_glyphs(tr: TrackerView) -> Seq<Glyph> {
    if tr.klines.len() < 2 {
        page::plain(parts::NO_CHART@)
    } else {
        drawn_glyphs(tr)
    }
}

/// The chart of a symbol: bars, entries, stops and gains.
pub fn generate_chart_svg(tr: &SymbolTracker) -> (p: Page)
    ensures
        p@ == chart_glyphs(tr@),
{
    let n: usize = tr.klines.len();
    if n < 2 {
        return Page::text(parts::NO_CHART);
    }
    let side: Side = tr.direction;
    let entry: Num = market::or_else(tr.entry_price, tr.klines[0].close);
    let walked: Vec<Step> = all_steps(side, &tr.klines);
    let line: Vec<Num> = curve(side, &tr.klines, &walked, entry);
    let f: Frame = drawing::make_frame(num(figures::SIXTY), &tr.klines, &line);
    let mut p: Page = drawing::header(HEADER);
    p.append(&drawing::time_lines(f, TIME_LINE));
    p.append(&drawing::price_axis(f, PRICE_LINE));
    p.append(&drawing::bars(&tr.klines, f, num(figures::TEN)));
    p.append(&drawing::level_line(f, f.to_y(entry), ENTRY_LINE));
    p.append(&entry_label(f, entry));
    p.append(&drawing::level_line(f, f.to_y(side.stop_for(entry)), STOP_LINE));
    p.append(&entry_markers(&walked, f, side, &tr.klines));
    p.append(&stop_markers(&walked, f, walked[n - 1].stop));
    p.append(&drawing::gain_panel(f, &line));
    p.push_text("</svg>");
    p
}

/// While the side is in a trade the line is the gain of the bar's close against the entry
/// price; while it is out the line stays where it was, and is zero at the first bar.
pub proof fn lemma_line(side: Side, klines: Seq<KlineData>, entry: Num, i: int)
    requires
        0 <= i < klines.len(),
    ensures
        ({
            let line = gain_curve(side, klines, entry, klines.len() as int);
            &&& line.len() == klines.len()
            &&& line[i] == if steps(side, klines)[i].inside {
                drawing::change(side == Side::Long, entry, klines[i].close)
            } else if i == 0 {
                num(0)
            } else {
                line[i - 1]
            }
        }),
{
    let n = klines.len() as int;
    lemma_gain_curve_length(side, klines, entry, n);
    lemma_line_prefix(side, klines, entry, i + 1, n);
    lemma_gain_curve_length(side, klines, entry, i);
    lemma_gain_curve_length(side, klines, entry, i + 1);
}

/// More bars do not change the line before them.
proof fn lemma_line_prefix(side: Side, klines: Seq<KlineData>, entry: Num, m: int, n: int)
    requires
        0 <= m <= n,
    ensures
        forall|i: int|
            0 <= i < m ==> #[trigger] gain_curve(side, klines, entry, n)[i] == gain_curve(
                side,
                klines,
                entry,
                m,
            )[i],
    decreases n,
{
    if m < n {
        lemma_line_prefix(side, klines, entry, m, n - 1);
        lemma_gain_curve_length(side, klines, entry, n - 1);
    }
}

/// What is drawn of a bar: a side that is out enters at the first close, and after a stop
/// at one that has passed its last entry; it is stopped out where the worst price of the
/// bar has come half a percent against its last entry.
pub proof fn lemma_drawn_step(side: Side, klines: Seq<KlineData>, i: int)
    requires
        0 <= i < klines.len(),
    ensures
        ({
            let now = steps(side, klines)[i];
            let k = klines[i];
            let out = i == 0 || !steps(side, klines)[i - 1].inside;
            let passed = if side == Side::Long {
                steps(side, klines)[i - 1].entry.below(k.close)
            } else {
                k.close.below(steps(side, klines)[i - 1].entry)
            };
            &&& now.entered <==> out && (i == 0 || passed)
            &&& now.entry == if now.entered {
                k.close
            } else {
                steps(side, klines)[i - 1].entry
            }
            &&& now.stop == now.entry.times(
                num(
                    if side == Side::Long {
                        figures::DOWN_HALF_PERCENT
                    } else {
                        figures::UP_HALF_PERCENT
                    },
                ),
            )
            &&& now.stopped <==> (now.entered || !out) && if side == Side::Long {
                k.low.at_most(now.stop)
            } else {
                now.stop.at_most(k.high)
            }
            &&& now.inside <==> (now.entered || !out) && !now.stopped
        }),
{
    lemma_out_waits(side, klines, i + 1);
    lemma_out_waits(side, klines, i);
    if i == 0 {
        assert(walk(side, klines, 0) == outset(side, klines[0].close));
    }
}

/// After the first bar a side is in a trade or waits, and its stop is that of its entry.
proof fn lemma_out_waits(side: Side, klines: Seq<KlineData>, n: int)
    ensures
        n > 0 ==> walk(side, klines, n).inside != walk(side, klines, n).waiting,
        walk(side, klines, n).stop == side.stop_for(walk(side, klines, n).entry),
    decreases n,
{
    if n > 0 {
        lemma_out_waits(side, klines, n - 1);
    }
}

} // verus!
