//! Drawing of price charts as SVG: the frame, the bars, and the gains below them.
use vstd::prelude::*;
use vstd::string::*;
use crate::figures;
use crate::market;
use crate::market::KlineData;
use crate::num::{num, Num};
use crate::page;
use crate::page::{Glyph, NumStyle, Page};
use crate::time::Moment;

verus! {

/// A label of the price axis: place and price.
pub const PRICE_LABEL: &'static str = r#"<text x="{}" y="{}" class="axis-text" text-anchor="end" dominant-baseline="middle">{}</text>"#;

/// The wick of a bar: both ends, and the class of the bar.
pub const WICK: &'static str = r#"<line x1="{}" y1="{}" x2="{}" y2="{}" class="wick-{}" stroke-width="0.8"/>"#;

/// The body of a bar: place, size, and the class of the bar.
pub const BODY: &'static str = r#"<rect x="{}" y="{}" width="{}" height="{}" class="candle-{}"/>"#;

/// A triangle: its corners and its class.
pub const MARKER: &'static str = r#"<polygon points="{},{} {},{} {},{}" class="{}"/>"#;

/// A triangle with a strong border: its corners and its class.
pub const STRONG_MARKER: &'static str = r##"<polygon points="{},{} {},{} {},{}" class="{}" stroke-width="1.5" stroke="#fff"/>"##;

/// The line of no gain: both ends.
pub const ZERO_LINE: &'static str = r##"<line x1="{}" y1="{}" x2="{}" y2="{}" stroke="#30363d" stroke-width="0.5"/>"##;

/// The area of the gain between two bars: its corners and its class.
pub const GAIN_AREA: &'static str = r#"<polygon points="{},{} {},{} {},{} {},{}" class="{}"/>"#;

/// A point of a line.
pub const POINT: &'static str = "{},{}";

/// The line of gains: its points.
pub const GAIN_LINE: &'static str = r#"<polyline points="{}" class="pnl-line"/>"#;

/// A label of the axis of gains: place and gain.
pub const GAIN_LABEL: &'static str = r#"<text x="{}" y="{}" class="axis-text" text-anchor="end" dominant-baseline="middle">{}%</text>"#;

/// Where a chart draws what: its left margin, the prices at the lower and upper edge, the
/// number of bars, and the gains at the lower and upper edge of the panel below.
#[derive(Clone, Copy, Debug)]
pub struct Frame {
    pub margin_l: Num,
    pub min_price: Num,
    pub max_price: Num,
    pub count: usize,
    pub pnl_min: Num,
    pub pnl_max: Num,
}

/// The lowest price of some bars.
pub open spec fn lowest(klines: Seq<KlineData>) -> Num
    decreases klines.len(),
{
    if klines.len() == 0 {
        num(figures::LARGEST)
    } else {
        let m = lowest(klines.drop_last());
        if klines.last().low.below(m) {
            klines.last().low
        } else {
            m
        }
    }
}

/// The highest price of some bars.
pub open spec fn highest(klines: Seq<KlineData>) -> Num
    decreases klines.len(),
{
    if klines.len() == 0 {
        num(figures::LOWEST)
    } else {
        let m = highest(klines.drop_last());
        if m.below(klines.last().high) {
            klines.last().high
        } else {
            m
        }
    }
}

/// The prices at the edges: a twentieth of the range beyond the bars, and never the
/// same price twice.
pub open spec fn edges(low: Num, high: Num) -> (Num, Num) {
    let pad = high.minus(low).times(num(figures::TWENTIETH));
    let bottom = low.minus(pad);
    let top = high.plus(pad);
    if top.minus(bottom).absolute().below(num(figures::HAIR)) {
        (bottom, bottom.plus(num(figures::ONE)))
    } else {
        (bottom, top)
    }
}

/// The prices at the edges of a chart of some bars.
pub fn price_edges(klines: &Vec<KlineData>) -> (r: (Num, Num))
    ensures
        r == edges(lowest(klines@), highest(klines@)),
{
    let mut low: Num = num(figures::LARGEST);
    let mut high: Num = num(figures::LOWEST);
    let mut i: usize = 0;
    while i < klines.len()
        invariant
            i <= klines@.len(),
            low == lowest(klines@.take(i as int)),
            high == highest(klines@.take(i as int)),
        decreases klines@.len() - i,
    {
        assert(klines@.take(i + 1).drop_last() =~= klines@.take(i as int));
        if klines[i].low.below(low) {
            low = klines[i].low;
        }
        if high.below(klines[i].high) {
            high = klines[i].high;
        }
        i = i + 1;
    }
    assert(klines@.take(i as int) =~= klines@);
    let pad: Num = high.minus(low).times(num(figures::TWENTIETH));
    let bottom: Num = low.minus(pad);
    let top: Num = high.plus(pad);
    if top.minus(bottom).absolute().below(num(figures::HAIR)) {
        (bottom, bottom.plus(num(figures::ONE)))
    } else {
        (bottom, top)
    }
}

/// The least of some numbers.
pub open spec fn least(line: Seq<Num>) -> Num
    decreases line.len(),
{
    if line.len() == 0 {
        num(figures::LARGEST)
    } else {
        least(line.drop_last()).smaller(line.last())
    }
}

/// The greatest of some numbers.
pub open spec fn greatest(line: Seq<Num>) -> Num
    decreases line.len(),
{
    if line.len() == 0 {
        num(figures::LOWEST)
    } else {
        greatest(line.drop_last()).larger(line.last())
    }
}

/// The gains at the edges: a tenth of the range beyond them.
pub open spec fn gain_edges(line: Seq<Num>) -> (Num, Num) {
    let low = least(line);
    let high = greatest(line);
    let pad = high.minus(low).larger(num(figures::TENTH)).times(num(figures::TENTH));
    (low.minus(pad), high.plus(pad))
}

/// See [`gain_edges`].
pub fn pnl_edges(line: &Vec<Num>) -> (r: (Num, Num))
    ensures
        r == gain_edges(line@),
{
    let mut low: Num = num(figures::LARGEST);
    let mut high: Num = num(figures::LOWEST);
    let mut i: usize = 0;
    while i < line.len()
        invariant
            i <= line@.len(),
            low == least(line@.take(i as int)),
            high == greatest(line@.take(i as int)),
        decreases line@.len() - i,
    {
        assert(line@.take(i + 1).drop_last() =~= line@.take(i as int));
        low = low.smaller(line[i]);
        high = high.larger(line[i]);
        i = i + 1;
    }
    assert(line@.take(i as int) =~= line@);
    let pad: Num = high.minus(low).larger(num(figures::TENTH)).times(num(figures::TENTH));
    (low.minus(pad), high.plus(pad))
}

/// The frame for some bars and gains.
pub open spec fn frame_for(margin_l: Num, klines: Seq<KlineData>, line: Seq<Num>) -> Frame {
    let (min_price, max_price) = edges(lowest(klines), highest(klines));
    let (pnl_min, pnl_max) = gain_edges(line);
    Frame { margin_l, min_price, max_price, count: klines.len() as usize, pnl_min, pnl_max }
}

/// See [`frame_for`].
pub fn make_frame(margin_l: Num, klines: &Vec<KlineData>, line: &Vec<Num>) -> (f: Frame)
    ensures
        f == frame_for(margin_l, klines@, line@),
        f.count == klines@.len(),
{
    let (min_price, max_price): (Num, Num) = price_edges(klines);
    let (pnl_min, pnl_max): (Num, Num) = pnl_edges(line);
    Frame { margin_l, min_price, max_price, count: klines.len(), pnl_min, pnl_max }
}

impl Frame {
    pub open spec fn spec_plot_w(self) -> Num {
        num(figures::EIGHT_HUNDRED).minus(self.margin_l).minus(num(figures::TWENTY))
    }

    /// The width of the plot.
    #[verifier::when_used_as_spec(spec_plot_w)]
    pub fn plot_w(self) -> (r: Num)
        ensures
            r == self.spec_plot_w(),
    {
        num(figures::EIGHT_HUNDRED).minus(self.margin_l).minus(num(figures::TWENTY))
    }

    pub open spec fn spec_plot_h(self) -> Num {
        num(figures::THREE_HUNDRED_FIFTY).minus(num(figures::THIRTY)).minus(num(figures::THIRTY))
    }

    /// The height of the plot.
    #[verifier::when_used_as_spec(spec_plot_h)]
    pub fn plot_h(self) -> (r: Num)
        ensures
            r == self.spec_plot_h(),
    {
        num(figures::THREE_HUNDRED_FIFTY).minus(num(figures::THIRTY)).minus(num(figures::THIRTY))
    }

    pub open spec fn spec_right(self) -> Num {
        self.margin_l.plus(self.plot_w())
    }

    /// The right edge of the plot.
    #[verifier::when_used_as_spec(spec_right)]
    pub fn right(self) -> (r: Num)
        ensures
            r == self.spec_right(),
    {
        self.margin_l.plus(self.plot_w())
    }

    pub open spec fn spec_bottom(self) -> Num {
        num(figures::THIRTY).plus(self.plot_h())
    }

    /// The lower edge of the plot.
    #[verifier::when_used_as_spec(spec_bottom)]
    pub fn bottom(self) -> (r: Num)
        ensures
            r == self.spec_bottom(),
    {
        num(figures::THIRTY).plus(self.plot_h())
    }

    pub open spec fn spec_label_x(self) -> Num {
        self.margin_l.minus(num(figures::FIVE))
    }

    /// Where labels of the axes end.
    #[verifier::when_used_as_spec(spec_label_x)]
    pub fn label_x(self) -> (r: Num)
        ensures
            r == self.spec_label_x(),
    {
        self.margin_l.minus(num(figures::FIVE))
    }

    pub open spec fn spec_to_y(self, price: Num) -> Num {
        num(figures::THIRTY).plus(
            self.plot_h().times(
                num(figures::ONE).minus(
                    price.minus(self.min_price).over(self.max_price.minus(self.min_price)),
                ),
            ),
        )
    }

    /// The height of a price.
    #[verifier::when_used_as_spec(spec_to_y)]
    pub fn to_y(self, price: Num) -> (r: Num)
        ensures
            r == self.spec_to_y(price),
    {
        num(figures::THIRTY).plus(
            self.plot_h().times(
                num(figures::ONE).minus(
                    price.minus(self.min_price).over(self.max_price.minus(self.min_price)),
                ),
            ),
        )
    }

    pub open spec fn spec_pnl_to_y(self, p: Num) -> Num {
        num(figures::THREE_HUNDRED_FIFTY).plus(num(figures::TWENTY)).plus(
            num(figures::ONE_HUNDRED_THIRTY).times(
                num(figures::ONE).minus(p.minus(self.pnl_min).over(self.pnl_max.minus(self.pnl_min))),
            ),
        )
    }

    /// The height of a gain.
    #[verifier::when_used_as_spec(spec_pnl_to_y)]
    pub fn pnl_to_y(self, p: Num) -> (r: Num)
        ensures
            r == self.spec_pnl_to_y(p),
    {
        num(figures::THREE_HUNDRED_FIFTY).plus(num(figures::TWENTY)).plus(
            num(figures::ONE_HUNDRED_THIRTY).times(
                num(figures::ONE).minus(p.minus(self.pnl_min).over(self.pnl_max.minus(self.pnl_min))),
            ),
        )
    }

    pub open spec fn spec_bar_width(self, widest: Num) -> Num {
        self.plot_w().over(Num::from_u64(self.count as u64)).times(num(figures::THREE_FIFTHS)).larger(
            num(figures::ONE),
        ).smaller(widest)
    }

    /// The width of the body of a bar.
    #[verifier::when_used_as_spec(spec_bar_width)]
    pub fn bar_width(self, widest: Num) -> (r: Num)
        ensures
            r == self.spec_bar_width(widest),
    {
        self.plot_w().over(Num::from_u64(self.count as u64)).times(num(figures::THREE_FIFTHS)).larger(
            num(figures::ONE),
        ).smaller(widest)
    }

    pub open spec fn spec_to_x(self, i: usize) -> Num {
        self.margin_l.plus(
            Num::from_u64(i as u64).over(Num::from_u64((self.count - 1) as u64)).times(self.plot_w()),
        )
    }

    /// Where bar `i` stands.
    pub fn to_x(self, i: usize) -> (r: Num)
        requires
            self.count >= 2,
        ensures
            r == self.spec_to_x(i),
    {
        self.margin_l.plus(
            Num::from_u64(i as u64).over(Num::from_u64((self.count - 1) as u64)).times(self.plot_w()),
        )
    }
}

/// The fillings of [`time_line_glyphs`].
pub open spec fn time_line_slots(f: Frame, i: usize) -> Seq<Seq<Glyph>> {
    seq![
        page::figure(NumStyle::Plain, f.spec_to_x(i)),
        page::figure(NumStyle::Plain, num(figures::THIRTY)),
        page::figure(NumStyle::Plain, f.spec_to_x(i)),
        page::figure(NumStyle::Plain, f.bottom()),
    ]
}

/// A line at the time of a bar.
pub open spec fn time_line_glyphs(f: Frame, i: usize, template: Seq<char>) -> Seq<Glyph> {
    page::filled(template, time_line_slots(f, i))
}

/// See [`time_line_glyphs`].
pub fn time_line(f: Frame, i: usize, template: &str) -> (p: Page)
    requires
        f.count >= 2,
    ensures
        p@ == time_line_glyphs(f, i, template@),
{
    let slots: Vec<Page> = vec![
        Page::shortest(f.to_x(i)),
        Page::shortest(num(figures::THIRTY)),
        Page::shortest(f.to_x(i)),
        Page::shortest(f.bottom()),
    ];
    assert(page::views(slots@) =~= time_line_slots(f, i));
    page::fill(template, &slots)
}

/// How many bars there are from one line to the next.
pub open spec fn spec_line_step(count: usize) -> usize {
    if count / 10 > 1 {
        (count / 10) as usize
    } else {
        1
    }
}

/// How many bars there are from one line to the next.
#[verifier::when_used_as_spec(spec_line_step)]
pub fn line_step(count: usize) -> (r: usize)
    ensures
        r == spec_line_step(count),
        r >= 1,
{
    if count / 10 > 1 {
        count / 10
    } else {
        1
    }
}

/// The lines at regular times, from bar `i` on.
pub open spec fn time_lines_glyphs(f: Frame, i: int, template: Seq<char>) -> Seq<Glyph>
    decreases
        (if i < f.count {
            f.count - i
        } else {
            0
        }),
{
    if 0 <= i < f.count {
        time_line_glyphs(f, i as usize, template) + time_lines_glyphs(
            f,
            i + line_step(f.count),
            template,
        )
    } else {
        Seq::empty()
    }
}

/// The lines at regular times.
pub fn time_lines(f: Frame, template: &str) -> (p: Page)
    requires
        f.count >= 2,
    ensures
        p@ == time_lines_glyphs(f, 0, template@),
{
    let step: usize = line_step(f.count);
    let mut p: Page = Page::new();
    let mut i: usize = 0;
    let ghost all = time_lines_glyphs(f, 0, template@);
    assert(p@ + all =~= all);
    while i < f.count
        invariant
            f.count >= 2,
            step == line_step(f.count),
            step >= 1,
            all == time_lines_glyphs(f, 0, template@),
            p@ + time_lines_glyphs(f, i as int, template@) == all,
        decreases f.count - i,
    {
        let ghost before = p@;
        p.append(&time_line(f, i, template));
        assert((before + time_line_glyphs(f, i, template@)) + time_lines_glyphs(
            f,
            i + step,
            template@,
        ) =~= before + (time_line_glyphs(f, i, template@) + time_lines_glyphs(
            f,
            i + step,
            template@,
        )));
        if step >= f.count - i {
            proof {
                assert(time_lines_glyphs(f, i + step, template@) =~= Seq::<Glyph>::empty());
                assert(p@ + Seq::<Glyph>::empty() =~= p@);
            }
            return p;
        }
        i = i + step;
    }
    assert(p@ + Seq::<Glyph>::empty() =~= p@);
    p
}

/// The fillings of [`level_line_glyphs`].
pub open spec fn level_line_slots(f: Frame, y: Num) -> Seq<Seq<Glyph>> {
    seq![
        page::figure(NumStyle::Plain, f.margin_l),
        page::figure(NumStyle::Plain, y),
        page::figure(NumStyle::Plain, f.right()),
        page::figure(NumStyle::Plain, y),
    ]
}

/// A line across the plot.
pub open spec fn level_line_glyphs(f: Frame, y: Num, template: Seq<char>) -> Seq<Glyph> {
    page::filled(template, level_line_slots(f, y))
}

/// See [`level_line_glyphs`].
pub fn level_line(f: Frame, y: Num, template: &str) -> (p: Page)
    ensures
        p@ == level_line_glyphs(f, y, template@),
{
    let slots: Vec<Page> = vec![
        Page::shortest(f.margin_l),
        Page::shortest(y),
        Page::shortest(f.right()),
        Page::shortest(y),
    ];
    assert(page::views(slots@) =~= level_line_slots(f, y));
    page::fill(template, &slots)
}

/// The fillings of [`price_label_glyphs`].
pub open spec fn price_label_slots(f: Frame, price: Num) -> Seq<Seq<Glyph>> {
    seq![
        page::figure(NumStyle::Plain, f.label_x()),
        page::figure(NumStyle::Plain, f.to_y(price)),
        page::figure(NumStyle::Fixed(2), price),
    ]
}

/// A label of the price axis.
pub open spec fn price_label_glyphs(f: Frame, price: Num) -> Seq<Glyph> {
    page::filled(PRICE_LABEL@, price_label_slots(f, price))
}

/// See [`price_label_glyphs`].
pub fn price_label(f: Frame, price: Num) -> (p: Page)
    ensures
        p@ == price_label_glyphs(f, price),
{
    let slots: Vec<Page> = vec![
        Page::shortest(f.label_x()),
        Page::shortest(f.to_y(price)),
        Page::fixed(2, price),
    ];
    assert(page::views(slots@) =~= price_label_slots(f, price));
    page::fill(PRICE_LABEL, &slots)
}

/// The price at a part of the height.
pub open spec fn spec_price_at(f: Frame, part: Num) -> Num {
    f.min_price.plus(f.max_price.minus(f.min_price).times(part))
}

/// The price at a part of the height.
#[verifier::when_used_as_spec(spec_price_at)]
pub fn price_at(f: Frame, part: Num) -> (r: Num)
    ensures
        r == spec_price_at(f, part),
{
    f.min_price.plus(f.max_price.minus(f.min_price).times(part))
}

/// A line and a label of the price axis.
pub open spec fn price_mark_glyphs(f: Frame, part: Num, template: Seq<char>) -> Seq<Glyph> {
    let price = price_at(f, part);
    level_line_glyphs(f, f.to_y(price), template) + price_label_glyphs(f, price)
}

/// See [`price_mark_glyphs`].
fn price_mark(f: Frame, part: Num, template: &str) -> (p: Page)
    ensures
        p@ == price_mark_glyphs(f, part, template@),
{
    let price: Num = price_at(f, part);
    let mut p: Page = level_line(f, f.to_y(price), template);
    p.append(&price_label(f, price));
    p
}

/// The price axis: five lines and labels.
pub open spec fn price_axis_glyphs(f: Frame, template: Seq<char>) -> Seq<Glyph> {
    price_mark_glyphs(f, num(figures::ZERO), template) + price_mark_glyphs(
        f,
        num(figures::QUARTER),
        template,
    ) + price_mark_glyphs(f, num(figures::HALF), template) + price_mark_glyphs(
        f,
        num(figures::THREE_QUARTERS),
        template,
    ) + price_mark_glyphs(f, num(figures::ONE), template)
}

/// See [`price_axis_glyphs`].
pub fn price_axis(f: Frame, template: &str) -> (p: Page)
    ensures
        p@ == price_axis_glyphs(f, template@),
{
    let mut p: Page = price_mark(f, num(figures::ZERO), template);
    p.append(&price_mark(f, num(figures::QUARTER), template));
    p.append(&price_mark(f, num(figures::HALF), template));
    p.append(&price_mark(f, num(figures::THREE_QUARTERS), template));
    p.append(&price_mark(f, num(figures::ONE), template));
    p
}

/// The class of a bar: whether it closed at or above its opening.
pub open spec fn bar_class(k: KlineData) -> Seq<char> {
    if k.open.at_most(k.close) {
        "up"@
    } else {
        "dn"@
    }
}

/// See [`bar_class`].
fn bar_class_of(k: &KlineData) -> (r: &'static str)
    ensures
        r@ == bar_class(*k),
{
    if k.open.at_most(k.close) {
        "up"
    } else {
        "dn"
    }
}

/// The fillings of [`wick_glyphs`].
pub open spec fn wick_slots(f: Frame, i: usize, k: KlineData) -> Seq<Seq<Glyph>> {
    seq![
        page::figure(NumStyle::Plain, f.spec_to_x(i)),
        page::figure(NumStyle::Plain, f.to_y(k.high)),
        page::figure(NumStyle::Plain, f.spec_to_x(i)),
        page::figure(NumStyle::Plain, f.to_y(k.low)),
        page::plain(bar_class(k)),
    ]
}

/// The wick of a bar.
pub open spec fn wick_glyphs(f: Frame, i: usize, k: KlineData) -> Seq<Glyph> {
    page::filled(WICK@, wick_slots(f, i, k))
}

/// See [`wick_glyphs`].
fn wick(f: Frame, i: usize, k: &KlineData) -> (p: Page)
    requires
        f.count >= 2,
    ensures
        p@ == wick_glyphs(f, i, *k),
{
    let slots: Vec<Page> = vec![
        Page::shortest(f.to_x(i)),
        Page::shortest(f.to_y(k.high)),
        Page::shortest(f.to_x(i)),
        Page::shortest(f.to_y(k.low)),
        Page::text(bar_class_of(k)),
    ];
    assert(page::views(slots@) =~= wick_slots(f, i, *k));
    page::fill(WICK, &slots)
}

/// The fillings of [`body_glyphs`].
pub open spec fn body_slots(f: Frame, widest: Num, i: usize, k: KlineData) -> Seq<Seq<Glyph>> {
    seq![
        page::figure(NumStyle::Plain, f.spec_to_x(i).minus(f.bar_width(widest).over(num(figures::TWO)))),
        page::figure(NumStyle::Plain, f.to_y(k.open).smaller(f.to_y(k.close))),
        page::figure(NumStyle::Plain, f.bar_width(widest)),
        page::figure(NumStyle::Plain, f.to_y(k.open).larger(f.to_y(k.close)).minus(f.to_y(k.open).smaller(f.to_y(k.close))).larger(
            num(figures::ONE),
        )),
        page::plain(bar_class(k)),
    ]
}

/// The body of a bar.
pub open spec fn body_glyphs(f: Frame, widest: Num, i: usize, k: KlineData) -> Seq<Glyph> {
    page::filled(BODY@, body_slots(f, widest, i, k))
}

/// See [`body_glyphs`].
fn body(f: Frame, widest: Num, i: usize, k: &KlineData) -> (p: Page)
    requires
        f.count >= 2,
    ensures
        p@ == body_glyphs(f, widest, i, *k),
{
    let slots: Vec<Page> = vec![
        Page::shortest(f.to_x(i).minus(f.bar_width(widest).over(num(figures::TWO)))),
        Page::shortest(f.to_y(k.open).smaller(f.to_y(k.close))),
        Page::shortest(f.bar_width(widest)),
        Page::shortest(f.to_y(k.open).larger(f.to_y(k.close)).minus(f.to_y(k.open).smaller(f.to_y(k.close))).larger(
            num(figures::ONE),
        )),
        Page::text(bar_class_of(k)),
    ];
    assert(page::views(slots@) =~= body_slots(f, widest, i, *k));
    page::fill(BODY, &slots)
}

/// A bar.
pub open spec fn bar_glyphs(f: Frame, widest: Num, i: usize, k: KlineData) -> Seq<Glyph> {
    wick_glyphs(f, i, k) + body_glyphs(f, widest, i, k)
}

/// See [`bar_glyphs`].
fn bar(f: Frame, widest: Num, i: usize, k: &KlineData) -> (p: Page)
    requires
        f.count >= 2,
    ensures
        p@ == bar_glyphs(f, widest, i, *k),
{
    let mut p: Page = wick(f, i, k);
    p.append(&body(f, widest, i, k));
    p
}

/// All bars.
pub open spec fn bars_glyphs(items: Seq<KlineData>, f: Frame, widest: Num) -> Seq<Glyph>
    decreases items.len(),
{
    if items.len() == 0 {
        Seq::empty()
    } else {
        bars_glyphs(items.drop_last(), f, widest) + bar_glyphs(f, widest, (items.len() - 1) as usize, items.last())
    }
}

/// See [`bars_glyphs`].
pub fn bars(items: &Vec<KlineData>, f: Frame, widest: Num) -> (p: Page)
    requires
        f.count >= 2,
    ensures
        p@ == bars_glyphs(items@, f, widest),
{
    let mut p: Page = Page::new();
    let mut i: usize = 0;
    let ghost all = items@;
    while i < items.len()
        invariant
            i <= items@.len(),
            all == items@,
            f.count >= 2,
            p@ == bars_glyphs(all.take(i as int), f, widest),
        decreases items@.len() - i,
    {
        assert(all.take(i + 1).drop_last() =~= all.take(i as int));
        assert(all.take(i + 1).last() == items@[i as int]);
        p.append(&bar(f, widest, i, &items[i]));
        i = i + 1;
    }
    assert(all.take(i as int) =~= all);
    p
}

/// The first bar at or after a moment; the number of bars if there is none.
pub open spec fn first_at(klines: Seq<KlineData>, t: Moment) -> int
    decreases klines.len(),
{
    if klines.len() == 0 {
        0
    } else {
        let before = first_at(klines.drop_last(), t);
        if before < klines.len() - 1 || klines.last().datetime.stamp() >= t.stamp() {
            before
        } else {
            klines.len() as int
        }
    }
}

/// See [`first_at`].
pub fn find_at(klines: &Vec<KlineData>, t: &Moment) -> (r: usize)
    ensures
        r == first_at(klines@, *t),
        r <= klines@.len(),
{
    let mut r: usize = 0;
    let mut i: usize = 0;
    while i < klines.len()
        invariant
            i <= klines@.len(),
            r == first_at(klines@.take(i as int), *t),
            r <= i,
        decreases klines@.len() - i,
    {
        assert(klines@.take(i + 1).drop_last() =~= klines@.take(i as int));
        if r == i && !klines[i].datetime.at_or_after(t) {
            r = i + 1;
        }
        i = i + 1;
    }
    assert(klines@.take(i as int) =~= klines@);
    r
}

/// A line of gains with those of a trade painted over a stretch of bars.
pub open spec fn painted(
    line: Seq<Num>,
    klines: Seq<KlineData>,
    long: bool,
    entry: Num,
    from: int,
    to: int,
) -> Seq<Num> {
    Seq::new(
        line.len(),
        |i: int|
            if from <= i <= to {
                market::gain(long, entry, klines[i].close)
            } else {
                line[i]
            },
    )
}

/// See [`painted`].
pub fn paint(
    line: &mut Vec<Num>,
    klines: &Vec<KlineData>,
    long: bool,
    entry: Num,
    from: usize,
    to: usize,
)
    requires
        old(line)@.len() == klines@.len(),
        to < klines@.len(),
    ensures
        final(line)@ == painted(old(line)@, klines@, long, entry, from as int, to as int),
        final(line)@.len() == old(line)@.len(),
{
    let ghost before = line@;
    let count: usize = klines.len();
    let mut i: usize = from;
    while i <= to
        invariant
            line@.len() == before.len(),
            before.len() == klines@.len(),
            count == klines@.len(),
            to < count,
            from <= i,
            from <= to ==> i <= to + 1,
            from > to ==> i == from,
            forall|j: int|
                0 <= j < before.len() ==> #[trigger] line@[j] == if from <= j < i {
                    market::gain(long, entry, klines@[j].close)
                } else {
                    before[j]
                },
        decreases to + 1 - i,
    {
        line.set(i, market::gain(long, entry, klines[i].close));
        i = i + 1;
    }
    let ghost wanted = painted(before, klines@, long, entry, from as int, to as int);
    assert(line@ =~= wanted);
}

/// The shape of a triangle: whether it points up, how far its tip and its base are from
/// its place, and half its width.
#[derive(Clone, Copy, Debug)]
pub struct Shape {
    pub up: bool,
    pub tip: Num,
    pub base: Num,
    pub half: Num,
}

impl Shape {
    pub open spec fn spec_tip_y(self, y: Num) -> Num {
        if self.up {
            y.minus(self.tip)
        } else {
            y.plus(self.tip)
        }
    }

    /// The height of the tip.
    #[verifier::when_used_as_spec(spec_tip_y)]
    pub fn tip_y(self, y: Num) -> (r: Num)
        ensures
            r == self.spec_tip_y(y),
    {
        if self.up {
            y.minus(self.tip)
        } else {
            y.plus(self.tip)
        }
    }

    pub open spec fn spec_base_y(self, y: Num) -> Num {
        if self.up {
            y.plus(self.base)
        } else {
            y.minus(self.base)
        }
    }

    /// The height of the base.
    #[verifier::when_used_as_spec(spec_base_y)]
    pub fn base_y(self, y: Num) -> (r: Num)
        ensures
            r == self.spec_base_y(y),
    {
        if self.up {
            y.plus(self.base)
        } else {
            y.minus(self.base)
        }
    }
}

/// The fillings of [`triangle_glyphs`].
pub open spec fn triangle_slots(shape: Shape, x: Num, y: Num, class: Seq<char>) -> Seq<Seq<Glyph>> {
    seq![
        page::figure(NumStyle::Plain, x),
        page::figure(NumStyle::Plain, shape.tip_y(y)),
        page::figure(NumStyle::Plain, x.minus(shape.half)),
        page::figure(NumStyle::Plain, shape.base_y(y)),
        page::figure(NumStyle::Plain, x.plus(shape.half)),
        page::figure(NumStyle::Plain, shape.base_y(y)),
        page::plain(class),
    ]
}

/// A triangle at a place.
pub open spec fn triangle_glyphs(shape: Shape, x: Num, y: Num, class: Seq<char>, template: Seq<char>) -> Seq<Glyph> {
    page::filled(template, triangle_slots(shape, x, y, class))
}

/// See [`triangle_glyphs`].
pub fn triangle(shape: Shape, x: Num, y: Num, class: &str, template: &str) -> (p: Page)
    ensures
        p@ == triangle_glyphs(shape, x, y, class@, template@),
{
    let slots: Vec<Page> = vec![
        Page::shortest(x),
        Page::shortest(shape.tip_y(y)),
        Page::shortest(x.minus(shape.half)),
        Page::shortest(shape.base_y(y)),
        Page::shortest(x.plus(shape.half)),
        Page::shortest(shape.base_y(y)),
        Page::text(class),
    ];
    assert(page::views(slots@) =~= triangle_slots(shape, x, y, class@));
    page::fill(template, &slots)
}

/// The fillings of [`cross_glyphs`].
pub open spec fn cross_slots(x: Num, y: Num) -> Seq<Seq<Glyph>> {
    seq![
        page::figure(NumStyle::Plain, x.minus(num(figures::FOUR))),
        page::figure(NumStyle::Plain, y.minus(num(figures::FOUR))),
        page::figure(NumStyle::Plain, x.plus(num(figures::FOUR))),
        page::figure(NumStyle::Plain, y.plus(num(figures::FOUR))),
        page::figure(NumStyle::Plain, x.plus(num(figures::FOUR))),
        page::figure(NumStyle::Plain, y.minus(num(figures::FOUR))),
        page::figure(NumStyle::Plain, x.minus(num(figures::FOUR))),
        page::figure(NumStyle::Plain, y.plus(num(figures::FOUR))),
    ]
}

/// A cross at a place.
pub open spec fn cross_glyphs(x: Num, y: Num, template: Seq<char>) -> Seq<Glyph> {
    page::filled(template, cross_slots(x, y))
}

/// See [`cross_glyphs`].
pub fn cross(x: Num, y: Num, template: &str) -> (p: Page)
    ensures
        p@ == cross_glyphs(x, y, template@),
{
    let slots: Vec<Page> = vec![
        Page::shortest(x.minus(num(figures::FOUR))),
        Page::shortest(y.minus(num(figures::FOUR))),
        Page::shortest(x.plus(num(figures::FOUR))),
        Page::shortest(y.plus(num(figures::FOUR))),
        Page::shortest(x.plus(num(figures::FOUR))),
        Page::shortest(y.minus(num(figures::FOUR))),
        Page::shortest(x.minus(num(figures::FOUR))),
        Page::shortest(y.plus(num(figures::FOUR))),
    ];
    assert(page::views(slots@) =~= cross_slots(x, y));
    page::fill(template, &slots)
}

/// The fillings of [`zero_line_glyphs`].
pub open spec fn zero_line_slots(f: Frame) -> Seq<Seq<Glyph>> {
    seq![
        page::figure(NumStyle::Plain, f.margin_l),
        page::figure(NumStyle::Plain, f.pnl_to_y(num(figures::ZERO))),
        page::figure(NumStyle::Plain, f.right()),
        page::figure(NumStyle::Plain, f.pnl_to_y(num(figures::ZERO))),
    ]
}

/// The line of no gain.
pub open spec fn zero_line_glyphs(f: Frame) -> Seq<Glyph> {
    page::filled(ZERO_LINE@, zero_line_slots(f))
}

/// See [`zero_line_glyphs`].
fn zero_line(f: Frame) -> (p: Page)
    ensures
        p@ == zero_line_glyphs(f),
{
    let slots: Vec<Page> = vec![
        Page::shortest(f.margin_l),
        Page::shortest(f.pnl_to_y(num(figures::ZERO))),
        Page::shortest(f.right()),
        Page::shortest(f.pnl_to_y(num(figures::ZERO))),
    ];
    assert(page::views(slots@) =~= zero_line_slots(f));
    page::fill(ZERO_LINE, &slots)
}

/// The class of the area of a gain.
pub open spec fn area_class(p: Num) -> Seq<char> {
    if num(figures::ZERO).at_most(p) {
        "pnl-fill-p"@
    } else {
        "pnl-fill-n"@
    }
}

/// See [`area_class`].
fn area_class_of(p: Num) -> (r: &'static str)
    ensures
        r@ == area_class(p),
{
    if num(figures::ZERO).at_most(p) {
        "pnl-fill-p"
    } else {
        "pnl-fill-n"
    }
}

/// The fillings of [`gain_area_glyphs`].
pub open spec fn gain_area_slots(f: Frame, i: usize, a: Num, b: Num) -> Seq<Seq<Glyph>> {
    seq![
        page::figure(NumStyle::Plain, f.spec_to_x(i)),
        page::figure(NumStyle::Plain, f.pnl_to_y(a)),
        page::figure(NumStyle::Plain, f.spec_to_x((i + 1) as usize)),
        page::figure(NumStyle::Plain, f.pnl_to_y(b)),
        page::figure(NumStyle::Plain, f.spec_to_x((i + 1) as usize)),
        page::figure(NumStyle::Plain, f.pnl_to_y(num(figures::ZERO))),
        page::figure(NumStyle::Plain, f.spec_to_x(i)),
        page::figure(NumStyle::Plain, f.pnl_to_y(num(figures::ZERO))),
        page::plain(area_class(a)),
    ]
}

/// The area of the gain between a bar and the next.
pub open spec fn gain_area_glyphs(f: Frame, i: usize, a: Num, b: Num) -> Seq<Glyph> {
    page::filled(GAIN_AREA@, gain_area_slots(f, i, a, b))
}

/// See [`gain_area_glyphs`].
fn gain_area(f: Frame, i: usize, a: Num, b: Num) -> (p: Page)
    requires
        f.count >= 2,
        i < usize::MAX,
    ensures
        p@ == gain_area_glyphs(f, i, a, b),
{
    let slots: Vec<Page> = vec![
        Page::shortest(f.to_x(i)),
        Page::shortest(f.pnl_to_y(a)),
        Page::shortest(f.to_x(i + 1)),
        Page::shortest(f.pnl_to_y(b)),
        Page::shortest(f.to_x(i + 1)),
        Page::shortest(f.pnl_to_y(num(figures::ZERO))),
        Page::shortest(f.to_x(i)),
        Page::shortest(f.pnl_to_y(num(figures::ZERO))),
        Page::text(area_class_of(a)),
    ];
    assert(page::views(slots@) =~= gain_area_slots(f, i, a, b));
    page::fill(GAIN_AREA, &slots)
}

/// The areas of the gains between the first `n + 1` bars.
pub open spec fn gain_areas_glyphs(f: Frame, line: Seq<Num>, n: int) -> Seq<Glyph>
    decreases n,
{
    if n <= 0 {
        Seq::empty()
    } else {
        gain_areas_glyphs(f, line, n - 1) + gain_area_glyphs(f, (n - 1) as usize, line[n - 1], line[n])
    }
}

/// See [`gain_areas_glyphs`].
fn gain_areas(f: Frame, line: &Vec<Num>) -> (p: Page)
    requires
        f.count >= 2,
        line@.len() >= 1,
    ensures
        p@ == gain_areas_glyphs(f, line@, line@.len() - 1),
{
    let mut p: Page = Page::new();
    let mut i: usize = 0;
    while i < line.len() - 1
        invariant
            f.count >= 2,
            1 <= line@.len(),
            i <= line@.len() - 1,
            p@ == gain_areas_glyphs(f, line@, i as int),
        decreases line@.len() - i,
    {
        p.append(&gain_area(f, i, line[i], line[i + 1]));
        i = i + 1;
    }
    p
}

/// The fillings of [`point_glyphs`].
pub open spec fn point_slots(f: Frame, i: usize, p: Num) -> Seq<Seq<Glyph>> {
    seq![
        page::figure(NumStyle::Plain, f.spec_to_x(i)),
        page::figure(NumStyle::Plain, f.pnl_to_y(p)),
    ]
}

/// A point of the line of gains.
pub open spec fn point_glyphs(f: Frame, i: usize, p: Num) -> Seq<Glyph> {
    page::filled(POINT@, point_slots(f, i, p))
}

/// See [`point_glyphs`].
fn point(f: Frame, i: usize, p: Num) -> (r: Page)
    requires
        f.count >= 2,
    ensures
        r@ == point_glyphs(f, i, p),
{
    let slots: Vec<Page> = vec![
        Page::shortest(f.to_x(i)),
        Page::shortest(f.pnl_to_y(p)),
    ];
    assert(page::views(slots@) =~= point_slots(f, i, p));
    page::fill(POINT, &slots)
}

/// The parts of [`points_glyphs`].
pub open spec fn points_parts(items: Seq<Num>, f: Frame) -> Seq<Seq<Glyph>> {
    Seq::new(items.len(), |i: int| point_glyphs(f, i as usize, items[i]))
}

/// The points of the line of gains.
pub open spec fn points_glyphs(items: Seq<Num>, f: Frame) -> Seq<Glyph> {
    page::joined(points_parts(items, f), " "@)
}

/// See [`points_glyphs`].
fn points(items: &Vec<Num>, f: Frame) -> (p: Page)
    requires
        f.count >= 2,
    ensures
        p@ == points_glyphs(items@, f),
{
    let mut parts: Vec<Page> = Vec::new();
    let mut i: usize = 0;
    let ghost wanted = points_parts(items@, f);
    while i < items.len()
        invariant
            i <= items@.len(),
            wanted == points_parts(items@, f),
            f.count >= 2,
            page::views(parts@) == wanted.take(i as int),
        decreases items@.len() - i,
    {
        let ghost before = parts@;
        let part: Page = point(f, i, items[i]);
        parts.push(part);
        assert(page::views(parts@) =~= page::views(before).push(part@));
        assert(wanted.take(i + 1) =~= wanted.take(i as int).push(wanted[i as int]));
        i = i + 1;
    }
    assert(wanted.take(i as int) =~= wanted);
    page::join(&parts, " ")
}

/// The fillings of [`gain_line_glyphs`].
pub open spec fn gain_line_slots(f: Frame, line: Seq<Num>) -> Seq<Seq<Glyph>> {
    seq![
        points_glyphs(line, f),
    ]
}

/// The line of gains.
pub open spec fn gain_line_glyphs(f: Frame, line: Seq<Num>) -> Seq<Glyph> {
    page::filled(GAIN_LINE@, gain_line_slots(f, line))
}

/// See [`gain_line_glyphs`].
fn gain_line(f: Frame, line: &Vec<Num>) -> (p: Page)
    requires
        f.count >= 2,
    ensures
        p@ == gain_line_glyphs(f, line@),
{
    let slots: Vec<Page> = vec![
        points(line, f),
    ];
    assert(page::views(slots@) =~= gain_line_slots(f, line@));
    page::fill(GAIN_LINE, &slots)
}

/// The gain at a part of the height.
pub open spec fn spec_gain_at(f: Frame, part: Num) -> Num {
    f.pnl_min.plus(f.pnl_max.minus(f.pnl_min).times(part))
}

/// The gain at a part of the height.
#[verifier::when_used_as_spec(spec_gain_at)]
pub fn gain_at(f: Frame, part: Num) -> (r: Num)
    ensures
        r == spec_gain_at(f, part),
{
    f.pnl_min.plus(f.pnl_max.minus(f.pnl_min).times(part))
}

/// The fillings of [`gain_label_glyphs`].
pub open spec fn gain_label_slots(f: Frame, part: Num) -> Seq<Seq<Glyph>> {
    seq![
        page::figure(NumStyle::Plain, f.label_x()),
        page::figure(NumStyle::Plain, f.pnl_to_y(gain_at(f, part))),
        page::figure(NumStyle::Signed(1), gain_at(f, part)),
    ]
}

/// A label of the axis of gains.
pub open spec fn gain_label_glyphs(f: Frame, part: Num) -> Seq<Glyph> {
    page::filled(GAIN_LABEL@, gain_label_slots(f, part))
}

/// See [`gain_label_glyphs`].
fn gain_label(f: Frame, part: Num) -> (p: Page)
    ensures
        p@ == gain_label_glyphs(f, part),
{
    let slots: Vec<Page> = vec![
        Page::shortest(f.label_x()),
        Page::shortest(f.pnl_to_y(gain_at(f, part))),
        Page::signed(1, gain_at(f, part)),
    ];
    assert(page::views(slots@) =~= gain_label_slots(f, part));
    page::fill(GAIN_LABEL, &slots)
}

/// The axis of gains: five labels.
pub open spec fn gain_axis_glyphs(f: Frame) -> Seq<Glyph> {
    gain_label_glyphs(f, num(figures::ZERO)) + gain_label_glyphs(f, num(figures::QUARTER))
        + gain_label_glyphs(f, num(figures::HALF)) + gain_label_glyphs(
        f,
        num(figures::THREE_QUARTERS),
    ) + gain_label_glyphs(f, num(figures::ONE))
}

/// See [`gain_axis_glyphs`].
fn gain_axis(f: Frame) -> (p: Page)
    ensures
        p@ == gain_axis_glyphs(f),
{
    let mut p: Page = gain_label(f, num(figures::ZERO));
    p.append(&gain_label(f, num(figures::QUARTER)));
    p.append(&gain_label(f, num(figures::HALF)));
    p.append(&gain_label(f, num(figures::THREE_QUARTERS)));
    p.append(&gain_label(f, num(figures::ONE)));
    p
}

/// The panel of gains below the bars.
pub open spec fn gain_panel_glyphs(f: Frame, line: Seq<Num>) -> Seq<Glyph> {
    zero_line_glyphs(f) + gain_areas_glyphs(f, line, line.len() - 1) + gain_line_glyphs(f, line)
        + gain_axis_glyphs(f)
}

/// See [`gain_panel_glyphs`].
pub fn gain_panel(f: Frame, line: &Vec<Num>) -> (p: Page)
    requires
        f.count >= 2,
        line@.len() >= 1,
    ensures
        p@ == gain_panel_glyphs(f, line@),
{
    let mut p: Page = zero_line(f);
    p.append(&gain_areas(f, line));
    p.append(&gain_line(f, line));
    p.append(&gain_axis(f));
    p
}

/// The start of a chart: its width and height.
pub open spec fn header_glyphs(template: Seq<char>) -> Seq<Glyph> {
    page::filled(
        template,
        seq![
            page::figure(
                NumStyle::Plain,
                num(figures::EIGHT_HUNDRED).plus(num(figures::FIFTY)),
            ),
            page::figure(
                NumStyle::Plain,
                num(figures::THREE_HUNDRED_FIFTY).plus(num(figures::ONE_HUNDRED_THIRTY)).plus(
                    num(figures::FIFTY),
                ),
            ),
        ],
    )
}

/// See [`header_glyphs`].
pub fn header(template: &str) -> (p: Page)
    ensures
        p@ == header_glyphs(template@),
{
    let width: Num = num(figures::EIGHT_HUNDRED).plus(num(figures::FIFTY));
    let height: Num = num(figures::THREE_HUNDRED_FIFTY).plus(num(figures::ONE_HUNDRED_THIRTY)).plus(
        num(figures::FIFTY),
    );
    let slots: Vec<Page> = vec![Page::shortest(width), Page::shortest(height)];
    assert(page::views(slots@) =~= seq![
        page::figure(NumStyle::Plain, width),
        page::figure(NumStyle::Plain, height),
    ]);
    page::fill(template, &slots)
}

/// All bars before the first at or after a moment are before it, and that bar is not.
pub proof fn lemma_first_at(klines: Seq<KlineData>, t: Moment)
    ensures
        0 <= first_at(klines, t) <= klines.len(),
        forall|i: int|
            0 <= i < first_at(klines, t) ==> (#[trigger] klines[i]).datetime.stamp() < t.stamp(),
        first_at(klines, t) < klines.len() ==> klines[first_at(klines, t)].datetime.stamp()
            >= t.stamp(),
    decreases klines.len(),
{
    if klines.len() > 0 {
        let rest = klines.drop_last();
        lemma_first_at(rest, t);
        assert forall|i: int| 0 <= i < first_at(klines, t) implies (
        #[trigger] klines[i]).datetime.stamp() < t.stamp() by {
            if i < rest.len() {
                assert(rest[i] == klines[i]);
            }
        }
        if first_at(klines, t) < rest.len() {
            assert(rest[first_at(klines, t)] == klines[first_at(klines, t)]);
        }
    }
}

/// Whether a moment has come by a bar: some bar up to it is at or after the moment.
pub open spec fn come_by(klines: Seq<KlineData>, t: Moment, i: int) -> bool {
    exists|j: int| 0 <= j <= i && j < klines.len() && (#[trigger] klines[j]).datetime.stamp() >= t.stamp()
}

/// A moment has come by the first bar at or after it, and by none before.
pub proof fn lemma_come_by(klines: Seq<KlineData>, t: Moment, i: int)
    requires
        0 <= i < klines.len(),
    ensures
        come_by(klines, t, i) <==> first_at(klines, t) <= i,
{
    lemma_first_at(klines, t);
    if first_at(klines, t) <= i {
        assert(klines[first_at(klines, t)].datetime.stamp() >= t.stamp());
    }
}

/// The change from a price to another in percent, up or down.
pub open spec fn change(up: bool, from: Num, to: Num) -> Num {
    let hundred = num(figures::HUNDRED);
    if up {
        to.minus(from).over(from).times(hundred)
    } else {
        from.minus(to).over(from).times(hundred)
    }
}

} // verus!
