//! Parts that the pages of the engines share.
use vstd::prelude::*;
use crate::figures;
use crate::market;
use crate::num::{num, Num};
use crate::page;
use crate::page::{Glyph, NumStyle, Page};
use crate::time;
use crate::time::Moment;

verus! {

/// In place of the cards of subscribers.
pub const NO_SUBSCRIPTIONS_CARD: &'static str = r#"<span style="color:#8b949e;font-size:0.9em;padding:8px 0">No subscriptions</span>"#;

/// The position of a symbol without one.
pub const FLAT: &'static str = r#"<span style="color:#8b949e">flat</span>"#;

/// A gain in percent: its class and itself.
pub const GAIN_SPAN: &'static str = r#"<span class="{}">{}%</span>"#;

/// In place of the watched symbols.
pub const NO_SYMBOLS: &'static str = r#"<li style="color:#8b949e">None</li>"#;

/// The page of the states: its lines.
pub const STATE_PAGE: &'static str = r#"<html><body style="font-family:monospace;background:#0d1117;color:#c9d1d9;padding:20px">{}</body></html>"#;

/// In place of a chart.
pub const NO_CHART: &'static str = r#"<p style="color:gray">Not enough data yet.</p>"#;

/// The time of day of a moment.
pub open spec fn clock_glyphs(t: Moment) -> Seq<Glyph> {
    page::plain(time::clock(t.secs()))
}

/// See [`clock_glyphs`].
pub fn clock(t: &Moment) -> (p: Page)
    ensures
        p@ == clock_glyphs(*t),
{
    Page::text(time::clock_text(t).as_str())
}

/// The time of day of a moment, or a dash where there is none.
pub open spec fn clock_or_dash_glyphs(t: Option<Moment>) -> Seq<Glyph> {
    match t {
        Some(t) => clock_glyphs(t),
        None => page::plain("-"@),
    }
}

/// See [`clock_or_dash_glyphs`].
pub fn clock_or_dash(t: &Option<Moment>) -> (p: Page)
    ensures
        p@ == clock_or_dash_glyphs(*t),
{
    match t {
        Some(t) => clock(t),
        None => Page::text("-"),
    }
}

/// A span of seconds, or a dash where there is none.
pub open spec fn span_or_dash_glyphs(secs: Option<int>) -> Seq<Glyph> {
    match secs {
        Some(s) => page::plain(time::span(s)),
        None => page::plain("-"@),
    }
}

/// See [`span_or_dash_glyphs`].
pub fn span_or_dash(secs: Option<i64>) -> (p: Page)
    requires
        secs is Some ==> secs->0 > i64::MIN,
    ensures
        p@ == span_or_dash_glyphs(
            match secs {
                Some(s) => Some(s as int),
                None => None,
            },
        ),
{
    match secs {
        Some(s) => Page::text(time::span_text(s).as_str()),
        None => Page::text("-"),
    }
}

/// A number with four decimals, or a dash where there is none.
pub open spec fn fixed_or_dash_glyphs(n: Option<Num>) -> Seq<Glyph> {
    match n {
        Some(n) => page::figure(NumStyle::Fixed(4), n),
        None => page::plain("-"@),
    }
}

/// See [`fixed_or_dash_glyphs`].
pub fn fixed_or_dash(n: Option<Num>) -> (p: Page)
    ensures
        p@ == fixed_or_dash_glyphs(n),
{
    match n {
        Some(n) => Page::fixed(4, n),
        None => Page::text("-"),
    }
}

/// A number, or `None` where there is none.
pub open spec fn number_or_none_glyphs(n: Option<Num>) -> Seq<Glyph> {
    match n {
        Some(n) => page::figure(NumStyle::Plain, n),
        None => page::plain("None"@),
    }
}

/// See [`number_or_none_glyphs`].
pub fn number_or_none(n: Option<Num>) -> (p: Page)
    ensures
        p@ == number_or_none_glyphs(n),
{
    match n {
        Some(n) => Page::shortest(n),
        None => Page::text("None"),
    }
}

/// The name of a truth value.
pub open spec fn truth(b: bool) -> Seq<char> {
    if b {
        "true"@
    } else {
        "false"@
    }
}

/// See [`truth`].
pub fn truth_text(b: bool) -> (r: &'static str)
    ensures
        r@ == truth(b),
{
    if b {
        "true"
    } else {
        "false"
    }
}

/// The share of wins among some trades in percent; zero where there are none.
pub open spec fn spec_win_rate(wins: u64, trades: u64) -> Num {
    if trades > 0 {
        Num::from_u64(wins).over(Num::from_u64(trades)).times(num(figures::HUNDRED))
    } else {
        num(figures::ZERO)
    }
}

/// The share of wins among some trades in percent; zero where there are none.
#[verifier::when_used_as_spec(spec_win_rate)]
pub fn win_rate(wins: u64, trades: u64) -> (r: Num)
    ensures
        r == spec_win_rate(wins, trades),
{
    if trades > 0 {
        Num::from_u64(wins).over(Num::from_u64(trades)).times(num(figures::HUNDRED))
    } else {
        num(figures::ZERO)
    }
}

/// The sums over all trades that a dashboard shows.
#[derive(Clone, Copy, Debug)]
pub struct DashboardSummary {
    pub active: u64,
    pub total_closed: u64,
    pub wins: u64,
    pub losses: u64,
    pub total_pnl: Num,
    pub unrealized_pnl: Num,
}

impl DashboardSummary {
    /// The sums over nothing.
    pub open spec fn nothing() -> DashboardSummary {
        DashboardSummary {
            active: 0,
            total_closed: 0,
            wins: 0,
            losses: 0,
            total_pnl: num(figures::ZERO),
            unrealized_pnl: num(figures::ZERO),
        }
    }

    /// The sums with one more active trade.
    pub open spec fn with_active(self, unrealized: Num) -> DashboardSummary {
        DashboardSummary {
            active: (self.active + 1) as u64,
            unrealized_pnl: self.unrealized_pnl.plus(unrealized),
            ..self
        }
    }

    /// The sums with one more closed trade: a win if it gained, else a loss.
    pub open spec fn with_closed(self, pnl: Num) -> DashboardSummary {
        let won = num(figures::ZERO).below(pnl);
        DashboardSummary {
            total_closed: (self.total_closed + 1) as u64,
            wins: if won {
                (self.wins + 1) as u64
            } else {
                self.wins
            },
            losses: if won {
                self.losses
            } else {
                (self.losses + 1) as u64
            },
            total_pnl: self.total_pnl.plus(pnl),
            ..self
        }
    }

    /// The gains of closed and active trades together.
    pub open spec fn combined(self) -> Num {
        self.total_pnl.plus(self.unrealized_pnl)
    }

    /// Adds an active trade.
    pub fn add_active(&mut self, unrealized: Num)
        requires
            old(self).active < u64::MAX,
        ensures
            *final(self) == old(self).with_active(unrealized),
    {
        self.active = self.active + 1;
        self.unrealized_pnl = self.unrealized_pnl.plus(unrealized);
    }

    /// Adds a closed trade.
    pub fn add_closed(&mut self, pnl: Num)
        requires
            old(self).total_closed < u64::MAX,
            old(self).wins < u64::MAX,
            old(self).losses < u64::MAX,
        ensures
            *final(self) == old(self).with_closed(pnl),
    {
        self.total_closed = self.total_closed + 1;
        if num(figures::ZERO).below(pnl) {
            self.wins = self.wins + 1;
        } else {
            self.losses = self.losses + 1;
        }
        self.total_pnl = self.total_pnl.plus(pnl);
    }
}

/// The fillings of [`gain_span_glyphs`].
pub open spec fn gain_span_slots(pnl: Num) -> Seq<Seq<Glyph>> {
    seq![
        page::plain(market::pnl_class_name(pnl)),
        page::figure(NumStyle::Signed(2), pnl),
    ]
}

/// A gain in percent, coloured.
pub open spec fn gain_span_glyphs(pnl: Num) -> Seq<Glyph> {
    page::filled(GAIN_SPAN@, gain_span_slots(pnl))
}

/// See [`gain_span_glyphs`].
pub fn gain_span(pnl: Num) -> (p: Page)
    ensures
        p@ == gain_span_glyphs(pnl),
{
    let slots: Vec<Page> = vec![
        Page::text(market::pnl_class(pnl)),
        Page::signed(2, pnl),
    ];
    assert(page::views(slots@) =~= gain_span_slots(pnl));
    page::fill(GAIN_SPAN, &slots)
}

/// The fillings of [`state_page_glyphs`].
pub open spec fn state_page_slots(lines: Seq<Glyph>) -> Seq<Seq<Glyph>> {
    seq![
        lines,
    ]
}

/// The page of the states.
pub open spec fn state_page_glyphs(lines: Seq<Glyph>) -> Seq<Glyph> {
    page::filled(STATE_PAGE@, state_page_slots(lines))
}

/// See [`state_page_glyphs`].
pub fn state_page(lines: Page) -> (p: Page)
    ensures
        p@ == state_page_glyphs(lines@),
{
    let slots: Vec<Page> = vec![
        lines,
    ];
    assert(page::views(slots@) =~= state_page_slots(lines@));
    page::fill(STATE_PAGE, &slots)
}

/// How many closed trades a dashboard shows.
pub const SHOWN: usize = 50;

/// Some elements, or a text where there are none of what they show.
pub open spec fn or_text(shown: Seq<Glyph>, none: bool, text: Seq<char>) -> Seq<Glyph> {
    if none {
        page::plain(text)
    } else {
        shown
    }
}

} // verus!
