use std::collections::VecDeque;
use trading_engines::link::{Link, LinkAction, LinkEvent};
use trading_engines::market::{KlineData, TradeDirection, TradeStatus};
use trading_engines::num::{num, Num};
use trading_engines::page::{NumStyle, Page, Piece};
use trading_engines::routes::Answer;
use trading_engines::stream;
use trading_engines::time::Moment;
use trading_engines::william::alligator;
use trading_engines::william::alligator::AlligatorAlignment;
use trading_engines::william::chart;
use trading_engines::william::engine::{Action, RealtimeEngine, WsCommand};
use trading_engines::william::pages;
use trading_engines::william::routes;
use trading_engines::william::tracker::{SymbolTracker, TrackerEvent};

fn n(x: f64) -> Num {
    num(x.to_bits())
}

fn f(x: Num) -> f64 {
    f64::from_bits(x.bits)
}

/// A page as text.
fn render(p: &Page) -> String {
    let mut s = String::new();
    for piece in &p.pieces {
        match piece {
            Piece::Text(t) => s.push_str(t),
            Piece::Number(NumStyle::Plain, x) => s.push_str(&format!("{}", f(*x))),
            Piece::Number(NumStyle::Fixed(d), x) => s.push_str(&format!("{:.*}", *d, f(*x))),
            Piece::Number(NumStyle::Signed(d), x) => s.push_str(&format!("{:+.*}", *d, f(*x))),
        }
    }
    s
}

fn bar(ts: i64, open: f64, high: f64, low: f64, close: f64) -> KlineData {
    KlineData {
        ts,
        datetime: stream::bar_time(ts),
        open: n(open),
        high: n(high),
        low: n(low),
        close: n(close),
        volume: n(1.0),
    }
}

/// A walk of prices.
struct Walk {
    state: u64,
    price: f64,
    ts: i64,
}

impl Walk {
    fn new(seed: u64) -> Walk {
        Walk { state: seed, price: 100.0, ts: 1_700_000_000_000 }
    }

    fn next(&mut self) -> f64 {
        self.state ^= self.state << 13;
        self.state ^= self.state >> 7;
        self.state ^= self.state << 17;
        (self.state % 2001) as f64 / 1000.0 - 1.0
    }

    fn bar(&mut self) -> KlineData {
        let open = self.price;
        let close = open * (1.0 + self.next() * 0.008);
        let high = open.max(close) * (1.0 + self.next().abs() * 0.006);
        let low = open.min(close) * (1.0 - self.next().abs() * 0.006);
        self.price = close;
        self.ts += 60_000;
        bar(self.ts, open, high, low, close)
    }
}

/// What all charts have in common, drawn with hardware floats.
struct Drawing {
    s: String,
    ml: f64,
    lo: f64,
    hi: f64,
    count: usize,
    pmin: f64,
    pmax: f64,
}

impl Drawing {
    fn new(ml: f64, klines: &[KlineData], line: &[f64], header: &str) -> Drawing {
        let mut lo = f64::MAX;
        let mut hi = f64::MIN;
        for k in klines {
            if f(k.low) < lo {
                lo = f(k.low);
            }
            if f(k.high) > hi {
                hi = f(k.high);
            }
        }
        let pad = (hi - lo) * 0.05;
        lo -= pad;
        hi += pad;
        if (hi - lo).abs() < 1e-10 {
            hi = lo + 1.0;
        }
        let pmin = line.iter().cloned().fold(f64::MAX, f64::min);
        let pmax = line.iter().cloned().fold(f64::MIN, f64::max);
        let pad = (pmax - pmin).max(0.1) * 0.1;
        let mut s = String::new();
        let filled = header.replacen("{}", "850", 1).replacen("{}", "530", 1);
        s.push_str(&filled);
        Drawing { s, ml, lo, hi, count: klines.len(), pmin: pmin - pad, pmax: pmax + pad }
    }

    fn w(&self) -> f64 {
        800.0 - self.ml - 20.0
    }

    fn x(&self, i: usize) -> f64 {
        self.ml + (i as f64 / (self.count - 1) as f64) * self.w()
    }

    fn y(&self, price: f64) -> f64 {
        30.0 + 290.0 * (1.0 - (price - self.lo) / (self.hi - self.lo))
    }

    fn py(&self, p: f64) -> f64 {
        350.0 + 20.0 + 130.0 * (1.0 - (p - self.pmin) / (self.pmax - self.pmin))
    }

    fn grid(&mut self, style: &str) {
        let step = (self.count / 10).max(1);
        for i in (0..self.count).step_by(step) {
            let x = self.x(i);
            self.s += &format!(r#"<line x1="{x}" y1="30" x2="{x}" y2="320" {style}/>"#);
        }
        for pct in [0.0, 0.25, 0.5, 0.75, 1.0] {
            let price = self.lo + (self.hi - self.lo) * pct;
            let y = self.y(price);
            let (ml, mr, tx) = (self.ml, self.ml + self.w(), self.ml - 5.0);
            self.s += &format!(r#"<line x1="{ml}" y1="{y}" x2="{mr}" y2="{y}" {style}/>"#);
            self.s += &format!(r#"<text x="{tx}" y="{y}" class="axis-text" text-anchor="end" dominant-baseline="middle">{price:.2}</text>"#);
        }
    }

    fn bars(&mut self, klines: &[KlineData], widest: f64) {
        let bw = ((self.w() / self.count as f64) * 0.6).max(1.0).min(widest);
        for (i, k) in klines.iter().enumerate() {
            let x = self.x(i);
            let cls = if f(k.close) >= f(k.open) { "up" } else { "dn" };
            let (top, bottom) = (self.y(f(k.high)), self.y(f(k.low)));
            let (a, b) = (self.y(f(k.open)), self.y(f(k.close)));
            let (from, to) = (a.min(b), a.max(b));
            let h = (to - from).max(1.0);
            let rx = x - bw / 2.0;
            self.s += &format!(r#"<line x1="{x}" y1="{top}" x2="{x}" y2="{bottom}" class="wick-{cls}" stroke-width="0.8"/>"#);
            self.s += &format!(r#"<rect x="{rx}" y="{from}" width="{bw}" height="{h}" class="candle-{cls}"/>"#);
        }
    }

    fn triangle(&mut self, x: f64, y: f64, up: bool, size: (f64, f64, f64), tail: &str) {
        let (tip, base, half) = size;
        let (y1, y2) = if up { (y - tip, y + base) } else { (y + tip, y - base) };
        let (xl, xr) = (x - half, x + half);
        self.s += &format!(r#"<polygon points="{x},{y1} {xl},{y2} {xr},{y2}" {tail}/>"#);
    }

    fn cross(&mut self, x: f64, y: f64, cls: &str) {
        let (x1, y1, x2, y2) = (x - 4.0, y - 4.0, x + 4.0, y + 4.0);
        self.s += &format!("<line x1=\"{x1}\" y1=\"{y1}\" x2=\"{x2}\" y2=\"{y2}\" class=\"{cls}\" stroke-width=\"1.5\"/>\n<line x1=\"{x2}\" y1=\"{y1}\" x2=\"{x1}\" y2=\"{y2}\" class=\"{cls}\" stroke-width=\"1.5\"/>");
    }

    fn panel(&mut self, line: &[f64]) {
        let zy = self.py(0.0);
        let (ml, mr, tx) = (self.ml, self.ml + self.w(), self.ml - 5.0);
        self.s += &format!(r##"<line x1="{ml}" y1="{zy}" x2="{mr}" y2="{zy}" stroke="#30363d" stroke-width="0.5"/>"##);
        for i in 0..self.count - 1 {
            let (x1, x2) = (self.x(i), self.x(i + 1));
            let (y1, y2) = (self.py(line[i]), self.py(line[i + 1]));
            let cls = if line[i] >= 0.0 { "pnl-fill-p" } else { "pnl-fill-n" };
            self.s += &format!(r#"<polygon points="{x1},{y1} {x2},{y2} {x2},{zy} {x1},{zy}" class="{cls}"/>"#);
        }
        let points: Vec<String> = line.iter().enumerate().map(|(i, &p)| format!("{},{}", self.x(i), self.py(p))).collect();
        self.s += &format!(r#"<polyline points="{}" class="pnl-line"/>"#, points.join(" "));
        for pct in [0.0, 0.25, 0.5, 0.75, 1.0] {
            let p = self.pmin + (self.pmax - self.pmin) * pct;
            let y = self.py(p);
            self.s += &format!(r#"<text x="{tx}" y="{y}" class="axis-text" text-anchor="end" dominant-baseline="middle">{p:+.1}%</text>"#);
        }
    }
}

fn moved(long: bool, entry: f64, price: f64) -> f64 {
    if long {
        (price - entry) / entry * 100.0
    } else {
        (entry - price) / entry * 100.0
    }
}

fn plain_smma(values: &[f64], period: usize) -> Vec<f64> {
    if values.len() < period {
        return Vec::new();
    }
    let mut r = vec![values[..period].iter().fold(0.0, |a, b| a + b) / period as f64];
    for v in &values[period..] {
        let before = r[r.len() - 1];
        r.push((before * (period as f64 - 1.0) + v) / period as f64);
    }
    r
}

/// The displaced jaw, teeth and lips of some closes, if there are enough of them.
fn plain_lines(closes: &[f64]) -> Option<(f64, f64, f64)> {
    if closes.len() < 21 {
        return None;
    }
    let at = |period: usize, back: usize| {
        let v = plain_smma(closes, period);
        v[v.len() - 1 - back]
    };
    Some((at(13, 8), at(8, 5), at(5, 3)))
}

fn plain_alignment(lines: (f64, f64, f64)) -> i32 {
    let (jaw, teeth, lips) = lines;
    if lips > teeth && teeth > jaw {
        1
    } else if lips < teeth && teeth < jaw {
        -1
    } else {
        0
    }
}

fn sign(a: AlligatorAlignment) -> i32 {
    match a {
        AlligatorAlignment::Bullish => 1,
        AlligatorAlignment::Bearish => -1,
        AlligatorAlignment::Mixed => 0,
    }
}

#[test]
fn averages_are_as_those_with_hardware_floats() {
    let mut w = Walk::new(42);
    let values: Vec<f64> = (0..60).map(|_| f(w.bar().close)).collect();
    for len in [0, 4, 5, 13, 14, 60] {
        let deque: VecDeque<Num> = values[..len].iter().map(|v| n(*v)).collect();
        for period in [5, 8, 13] {
            let ours: Vec<f64> = alligator::calc_smma(&deque, period).iter().map(|v| f(*v)).collect();
            assert_eq!(ours, plain_smma(&values[..len], period));
        }
    }
    let three: VecDeque<Num> = [1.0, 2.0, 3.0].iter().map(|v| n(*v)).collect();
    assert_eq!(alligator::get_displaced(&three, 0).map(f), Some(3.0));
    assert_eq!(alligator::get_displaced(&three, 2).map(f), Some(1.0));
    assert!(alligator::get_displaced(&three, 3).is_none());
    assert_eq!(sign(alligator::determine_alignment(n(3.0), n(2.0), n(1.0))), 1);
    assert_eq!(sign(alligator::determine_alignment(n(1.0), n(2.0), n(3.0))), -1);
    assert_eq!(sign(alligator::determine_alignment(n(2.0), n(2.0), n(1.0))), 0);
    assert_eq!(AlligatorAlignment::Mixed.as_str(), "MIXED");
}

/// The tracker, kept with hardware floats.
struct Plain {
    closes: Vec<f64>,
    alignment: i32,
    changed: bool,
    label: String,
    active: Option<(bool, f64, f64, f64, bool)>,
    closed: Vec<(bool, f64, f64, bool)>,
    ghosts: i32,
    triggered: bool,
    told: Vec<String>,
}

impl Plain {
    fn new() -> Plain {
        Plain {
            closes: Vec::new(),
            alignment: 0,
            changed: false,
            label: String::new(),
            active: None,
            closed: Vec::new(),
            ghosts: 0,
            triggered: false,
            told: Vec::new(),
        }
    }

    fn leave(&mut self, price: f64, threshold: Option<i32>) {
        let (long, entry, _, _, ghost) = self.active.take().unwrap();
        if let (false, Some(threshold)) = (ghost, threshold) {
            let lost = if long { price < entry } else { price > entry };
            if threshold > 0 && lost && !self.triggered {
                self.ghosts = threshold;
                self.triggered = true;
            } else if !lost {
                self.ghosts = 0;
                self.triggered = false;
            }
        }
        self.closed.push((long, entry, price, ghost));
        self.told.push(format!("exit {long} {ghost}"));
    }

    fn brackets(&mut self, low: f64, high: f64, threshold: Option<i32>) {
        if let Some((long, _, sl, tp, _)) = self.active {
            if long && low <= sl {
                self.leave(low, threshold);
            } else if !long && high >= sl {
                self.leave(high, threshold);
            } else if (long && high >= tp) || (!long && low <= tp) {
                self.leave(tp, threshold);
            }
        }
    }

    fn kline(&mut self, k: &KlineData, sl_pct: f64, tp_pct: f64, threshold: i32) {
        self.told.clear();
        let close = f(k.close);
        self.closes.push(close);
        if self.closes.len() > 500 {
            self.closes.remove(0);
        }
        self.brackets(f(k.low), f(k.high), Some(threshold));
        if let Some(lines) = plain_lines(&self.closes) {
            let now = plain_alignment(lines);
            self.changed = now != self.alignment;
            let name = |a: i32| ["BEARISH", "MIXED", "BULLISH"][(a + 1) as usize];
            self.label = format!("{}→{}", name(self.alignment), name(now));
            self.alignment = now;
        }
        if !self.changed {
            return;
        }
        if let Some((long, ..)) = self.active {
            if self.alignment != if long { 1 } else { -1 } {
                self.leave(close, Some(threshold));
            }
        }
        if self.active.is_none() && self.alignment != 0 {
            let long = self.alignment == 1;
            let ghost = self.ghosts > 0;
            if ghost {
                self.ghosts -= 1;
            }
            let (sl, tp) = if long {
                (close * (1.0 - sl_pct / 100.0), close * (1.0 + tp_pct / 100.0))
            } else {
                (close * (1.0 + sl_pct / 100.0), close * (1.0 - tp_pct / 100.0))
            };
            self.active = Some((long, close, sl, tp, ghost));
            self.told.push(format!("enter {long} {ghost} {close} {sl} {tp}"));
        }
    }

    fn quote(&mut self, bid: f64, ask: f64) {
        self.told.clear();
        if let Some((long, ..)) = self.active {
            let p = if long { bid } else { ask };
            self.brackets(p, p, None);
        }
    }
}

fn tell(events: &[TrackerEvent]) -> Vec<String> {
    events
        .iter()
        .map(|e| match e {
            TrackerEvent::Entered { direction, price, sl, tp, is_ghost, .. } => format!(
                "enter {} {is_ghost} {} {} {}",
                *direction == TradeDirection::Long,
                f(*price),
                f(*sl),
                f(*tp)
            ),
            TrackerEvent::Exited { direction, is_ghost, .. } => {
                format!("exit {} {is_ghost}", *direction == TradeDirection::Long)
            }
        })
        .collect()
}

/// Runs a tracker and its plain counterpart over a walk.
fn walk(seed: u64, steps: usize, quotes: bool, sl: f64, tp: f64, threshold: i32) -> SymbolTracker {
    let mut w = Walk::new(seed);
    let mut t = SymbolTracker::new("BTCUSDT".to_string(), n(100.0));
    let mut p = Plain::new();
    for i in 0..steps {
        let events = if quotes && i % 4 == 3 {
            let bid = w.price * (1.0 + w.next() * 0.006);
            let ask = bid * 1.0002;
            p.quote(bid, ask);
            t.update_ticker(n(bid), n(ask), n(sl), n(tp), false, threshold, stream::bar_time(w.ts + 1000))
        } else {
            let k = w.bar();
            p.kline(&k, sl, tp, threshold);
            t.process_kline(&k, n(sl), n(tp), false, threshold)
        };
        assert_eq!(tell(&events), p.told);
        assert_eq!(sign(t.alignment), p.alignment);
        assert_eq!((t.ghost_remaining, t.ghost_triggered), (p.ghosts, p.triggered));
        assert_eq!(t.active_trade.is_some(), p.active.is_some());
        assert_eq!(t.closed_trades.len(), p.closed.len());
        assert_eq!(t.close_prices.len(), p.closes.len());
        if let Some(lines) = plain_lines(&p.closes) {
            assert_eq!((f(t.jaw_val), f(t.teeth_val), f(t.lips_val)), lines);
        }
        if let (Some(a), true) = (&t.active_trade, p.told.iter().any(|s| s.starts_with("enter"))) {
            assert_eq!(a.signal_label, p.label);
            assert!(a.status == TradeStatus::Open && a.duration().is_none());
        }
    }
    let real = p.closed.iter().filter(|c| !c.3).count();
    let open = p.active.map(|a| !a.4 as usize).unwrap_or(0);
    assert_eq!(t.total_attempts(), real + open);
    for (a, b) in t.closed_trades.iter().zip(&p.closed) {
        assert_eq!((f(a.entry_price), a.exit_price.map(f), a.is_ghost), (b.1, Some(b.2), b.3));
        assert_eq!(f(a.pnl_pct()), if b.3 { 0.0 } else { moved(b.0, b.1, b.2) });
    }
    t
}

#[test]
fn an_alligator_tracker_does_as_one_with_hardware_floats() {
    let (mut closed, mut ghosts) = (0, 0);
    for seed in 1..9u64 {
        for (sl, tp, threshold) in [(1.5, 0.5, 3), (0.4, 1.0, 2), (1.0, 1.0, 0), (0.3, 5.0, 1)] {
            let t = walk(seed * 7717, 200, seed % 2 == 0, sl, tp, threshold);
            closed += t.closed_trades.len();
            let of_them = t.closed_trades.iter().filter(|c| c.is_ghost).count();
            if threshold == 0 {
                assert_eq!(of_them, 0);
            }
            ghosts += of_them;
        }
    }
    assert!(closed > 100 && ghosts > 10);
}

#[test]
fn old_closes_are_dropped() {
    let t = walk(31, 520, false, 1.5, 0.5, 3);
    assert_eq!((t.close_prices.len(), t.klines.len()), (500, 520));
}

/// Closes that rise for a while, then fall, and so on.
fn zigzag(t: &mut SymbolTracker, turns: usize, threshold: i32) -> Vec<String> {
    let mut told = Vec::new();
    let mut price = 100.0;
    for i in 0..turns {
        for _ in 0..30 {
            price *= if i % 2 == 0 { 1.001 } else { 1.0 / 1.001 };
            let k = bar(t.klines.len() as i64 * 60_000, price, price, price, price);
            told.extend(tell(&t.process_kline(&k, n(50.0), n(50.0), false, threshold)));
        }
    }
    told
}

#[test]
fn a_loss_is_followed_by_ghosts() {
    let mut t = SymbolTracker::new("X".to_string(), n(100.0));
    zigzag(&mut t, 10, 2);
    let kinds: Vec<bool> = t.closed_trades.iter().map(|c| c.is_ghost).collect();
    let first_loss = t.closed_trades.iter().position(|c| f(c.pnl_pct()) < 0.0).unwrap();
    assert_eq!(kinds[first_loss + 1..first_loss + 3], [true, true]);
    assert!(!kinds[first_loss + 3]);
    assert_eq!(f(t.closed_trades[first_loss + 1].pnl_pct()), 0.0);
    let mut t = SymbolTracker::new("X".to_string(), n(100.0));
    zigzag(&mut t, 10, 0);
    assert!(t.closed_trades.len() > 4 && t.closed_trades.iter().all(|c| !c.is_ghost));
}

#[test]
fn trades_follow_the_alignment() {
    let mut t = SymbolTracker::new("X".to_string(), n(100.0));
    let told = zigzag(&mut t, 4, 0);
    assert!(told[0].starts_with("enter true false"));
    for pair in told.windows(2) {
        assert_ne!(pair[0].starts_with("enter"), pair[1].starts_with("enter"));
    }
    assert!(told.iter().any(|s| s.starts_with("enter false")));
}

/// The chart of a tracker, drawn with hardware floats.
fn plain_chart(t: &SymbolTracker) -> String {
    let klines = &t.klines;
    let len = klines.len();
    let at = |m: Moment| klines.iter().position(|k| k.datetime.at_or_after(&m));
    let is_long = |d: TradeDirection| d == TradeDirection::Long;
    let mut line = vec![0.0; len];
    for c in &t.closed_trades {
        let from = at(c.entry_time).unwrap_or(0);
        let to = c.exit_time.and_then(at).unwrap_or(len - 1);
        for i in from..=to {
            line[i] = moved(is_long(c.direction), f(c.entry_price), f(klines[i].close));
        }
    }
    if let Some(c) = &t.active_trade {
        for i in at(c.entry_time).unwrap_or(len - 1)..len {
            line[i] = moved(is_long(c.direction), f(c.entry_price), f(klines[i].close));
        }
    }
    let mut d = Drawing::new(70.0, klines, &line, chart::HEADER);
    d.grid("class=\"grid-line\"");
    d.bars(klines, 6.0);
    let closes: Vec<f64> = t.close_prices.iter().map(|c| f(*c)).collect();
    for (period, back, name) in [(13, 8, "jaw"), (8, 5, "teeth"), (5, 3, "lips")] {
        let v = plain_smma(&closes, period);
        let mut points = Vec::new();
        for i in 0..v.len().saturating_sub(back) {
            let y = d.y(v[i + back]);
            if y >= 30.0 && y <= 320.0 {
                points.push(format!("{},{y}", d.x(len - closes.len() + i)));
            }
        }
        if !points.is_empty() {
            d.s += &format!(r#"<polyline points="{}" class="smma-{name}"/>"#, points.join(" "));
        }
    }
    let class = |ghost: bool, long: bool| match (ghost, long) {
        (true, _) => "marker-ghost",
        (_, true) => "marker-entry-long",
        _ => "marker-entry-short",
    };
    for c in &t.closed_trades {
        let long = is_long(c.direction);
        if let Some(i) = at(c.entry_time) {
            let (x, y) = (d.x(i), d.y(f(c.entry_price)));
            d.triangle(x, y, long, (7.0, 2.0, 5.0), &format!("class=\"{}\"", class(c.is_ghost, long)));
        }
        if let Some(i) = c.exit_time.and_then(at) {
            let (x, y) = (d.x(i), d.y(f(c.exit_price.unwrap())));
            d.cross(x, y, "marker-exit");
        }
    }
    if let Some(c) = &t.active_trade {
        let long = is_long(c.direction);
        if let Some(i) = at(c.entry_time) {
            let (x, y) = (d.x(i), d.y(f(c.entry_price)));
            let tail = format!("class=\"{}\" stroke-width=\"1.5\" stroke=\"#fff\"", class(c.is_ghost, long));
            d.triangle(x, y, long, (9.0, 3.0, 6.0), &tail);
        }
    }
    d.panel(&line);
    d.s += r##"<g transform="translate(80,40)">
  <rect x="0" y="0" width="140" height="58" rx="4" fill="#161b22" fill-opacity="0.9" stroke="#30363d" stroke-width="0.5"/>
  <text x="10" y="16" fill="#8b949e" font-size="9" font-family="monospace">Jaw (13)</text>
  <line x1="80" y1="12" x2="130" y2="12" stroke="#2196f3" stroke-width="2"/>
  <text x="10" y="32" fill="#8b949e" font-size="9" font-family="monospace">Teeth (8)</text>
  <line x1="80" y1="28" x2="130" y2="28" stroke="#f44336" stroke-width="2"/>
  <text x="10" y="48" fill="#8b949e" font-size="9" font-family="monospace">Lips (5)</text>
  <line x1="80" y1="44" x2="130" y2="44" stroke="#4caf50" stroke-width="2"/>
</g>"##;
    d.s + "</svg>"
}

#[test]
fn an_alligator_chart_is_as_one_drawn_with_hardware_floats() {
    for seed in [11u64, 2222, 31337] {
        for (steps, threshold) in [(2, 3), (30, 3), (160, 1), (505, 2)] {
            let t = walk(seed, steps, false, 0.4, 1.0, threshold);
            assert_eq!(render(&chart::generate_chart_svg(&t)), plain_chart(&t));
        }
    }
    let t = SymbolTracker::new("X".to_string(), n(1.0));
    assert_eq!(render(&chart::generate_chart_svg(&t)), "<p style=\"color:gray\">Not enough data yet.</p>");
}

/// The score of some bars, taken with hardware floats.
fn plain_score(klines: &[KlineData], sl_pct: f64, tp_pct: f64) -> [f64; 8] {
    let (mut trades, mut wins, mut losses) = (0, 0, 0);
    let (mut pnl, mut peak, mut drawdown) = (0.0, 0.0, 0.0);
    let mut active: Option<(bool, f64, f64, f64)> = None;
    let mut now = 0;
    let mut closes: Vec<f64> = Vec::new();
    for k in klines {
        let (high, low, close) = (f(k.high), f(k.low), f(k.close));
        closes.push(close);
        if closes.len() > 500 {
            closes.remove(0);
        }
        let lines = match plain_lines(&closes) {
            Some(l) => l,
            None => continue,
        };
        let before = now;
        now = plain_alignment(lines);
        if let Some((long, entry, sl, tp)) = active {
            let (hit_sl, hit_tp) = if long { (low <= sl, high >= tp) } else { (high >= sl, low <= tp) };
            let turned = before != now && now != if long { 1 } else { -1 };
            if hit_sl || hit_tp || turned {
                let x = if hit_sl { if long { low } else { high } } else if hit_tp { tp } else { close };
                if hit_tp { wins += 1 } else { losses += 1 }
                pnl += moved(long, entry, x);
                if pnl > peak {
                    peak = pnl;
                }
                if peak - pnl > drawdown {
                    drawdown = peak - pnl;
                }
                active = None;
            }
        }
        if active.is_none() && before != now && now != 0 {
            let long = now == 1;
            active = Some(if long {
                (true, close, close * (1.0 - sl_pct / 100.0), close * (1.0 + tp_pct / 100.0))
            } else {
                (false, close, close * (1.0 + sl_pct / 100.0), close * (1.0 - tp_pct / 100.0))
            });
            trades += 1;
        }
    }
    let rate = if trades > 0 { wins as f64 / trades as f64 * 100.0 } else { 0.0 };
    let busy = (trades as f64 / klines.len() as f64 * 100.0).min(100.0);
    let gain = (pnl + 20.0f64).max(0.0).min(100.0);
    let calm = (1.0 - (drawdown / 30.0f64).min(1.0)) * 100.0;
    let suit = busy * 0.25 + rate * 0.30 + gain * 0.25 + calm * 0.20;
    [f(klines[0].close), trades as f64, wins as f64, losses as f64, pnl, rate, drawdown, suit]
}

#[test]
fn an_alligator_score_is_as_one_taken_with_hardware_floats() {
    for seed in 1..10u64 {
        let mut w = Walk::new(seed * 15485863);
        let klines: Vec<KlineData> = (0..(20 + seed as usize * 20)).map(|_| w.bar()).collect();
        for (sl, tp) in [(1.5, 0.5), (0.5, 2.0)] {
            let s = RealtimeEngine::score_symbol_with_config(&klines, n(sl), n(tp));
            let ours = [
                f(s.base_price),
                s.total_trades as f64,
                s.wins as f64,
                s.losses as f64,
                f(s.total_pnl_pct),
                f(s.win_rate),
                f(s.max_drawdown_pct),
                f(s.suitability),
            ];
            assert_eq!(ours, plain_score(&klines, sl, tp));
            assert_eq!(s.total_signals, s.total_trades);
            assert!(s.total_trades - s.wins - s.losses <= 1);
        }
        let a = RealtimeEngine::score_symbol(&klines);
        assert_eq!(f(a.suitability), plain_score(&klines, 1.5, 0.5)[7]);
    }
    let few = vec![bar(0, 1.0, 1.0, 1.0, 1.0); 20];
    let s = RealtimeEngine::score_symbol(&few);
    assert_eq!((f(s.base_price), f(s.suitability)), (0.0, 0.0));
    let flat = vec![bar(0, 1.0, 1.0, 1.0, 1.0); 21];
    assert_eq!(f(RealtimeEngine::score_symbol(&flat).suitability), 25.0);
}

fn message(topic: &str, data: &str) -> String {
    format!(r#"{{"topic":"{topic}","type":"snapshot","data":{data}}}"#)
}

fn now() -> Moment {
    Moment::at(1_700_000_000, 0).unwrap()
}

fn kline_message(symbol: &str, ts: i64, price: f64) -> String {
    let data = format!(r#"{{"start":{ts},"open":"{price}","high":"{price}","low":"{price}","close":"{price}","confirm":true}}"#);
    message(&format!("kline.5.{symbol}"), &data)
}

/// An engine whose symbol rose until it was entered, with the actions of that.
fn risen() -> (RealtimeEngine, Vec<Action>, f64) {
    let mut e = RealtimeEngine::new();
    e.add_tracker("btcusdt", Some(n(100.0)));
    e.add_subscriber(2, n(50.0));
    e.add_subscriber(1, n(10.0));
    let mut price = 100.0;
    for i in 0..40 {
        price += 0.25;
        let actions = e.handle_message(&kline_message("BTCUSDT", i * 60_000, price), now());
        if !actions.is_empty() {
            return (e, actions, price);
        }
    }
    panic!("not entered");
}

#[test]
fn subscribers_act_on_real_trades() {
    let (mut e, actions, price) = risen();
    assert_eq!(actions.len(), 2);
    match &actions[0] {
        Action::Open { sub_id: 1, symbol, direction, qty, price: p, sl, tp } => {
            assert_eq!(symbol, "BTCUSDT");
            assert!(*direction == TradeDirection::Long);
            assert_eq!((f(*qty), f(*p)), (10.0 / price, price));
            assert_eq!((f(*sl), f(*tp)), (price * (1.0 - 1.5 / 100.0), price * (1.0 + 0.5 / 100.0)));
        }
        other => panic!("{other:?}"),
    }
    let quote = message("tickers.BTCUSDT", r#"{"bid1Price":"50","ask1Price":"50.5"}"#);
    let actions = e.handle_message(&quote, now());
    assert!(matches!(&actions[0], Action::CancelOld { sub_id: 1, symbol } if symbol == "BTCUSDT"));
    assert!(matches!(&actions[1], Action::CancelOld { sub_id: 2, .. }));
    assert_eq!(e.get_tracker("BTCUSDT").unwrap().current_price.map(f), Some(50.25));
    assert!(e.handle_message(&quote, now()).is_empty());
    assert!(e.handle_message(&message("tickers.BTCUSDT", r#"{"markPrice":"5"}"#), now()).is_empty());
    assert!(e.handle_message(&message("kline.5", r#"{"confirm":true}"#), now()).is_empty());
}

#[test]
fn subscribers_do_not_act_on_ghosts() {
    let (mut e, _, _) = risen();
    let quote = message("tickers.BTCUSDT", r#"{"bid1Price":"110","ask1Price":"110.5"}"#);
    assert_eq!(e.handle_message(&quote, now()).len(), 2);
    let (mut told, mut ghosts) = (0, 0);
    let mut price = 110.0;
    for i in 0..400 {
        price *= if (i / 30) % 2 == 0 { 0.999 } else { 1.001 };
        told += e.handle_message(&kline_message("BTCUSDT", (100 + i) * 60_000, price), now()).len();
        let t = e.get_tracker("BTCUSDT").unwrap();
        ghosts = t.closed_trades.iter().filter(|c| c.is_ghost).count();
    }
    let t = e.get_tracker("BTCUSDT").unwrap();
    let real = t.closed_trades.len() - ghosts;
    let open = t.active_trade.as_ref().map(|c| !c.is_ghost as usize).unwrap_or(0);
    assert_eq!(told, 2 * (2 * (real - 1) + open));
    let state = render(&e.generate_state_page());
    assert!(state.contains("| interval=1m |"));
    assert_eq!(state.contains(" ghost)"), ghosts > 0);
}

#[test]
fn the_engine_is_configured() {
    let mut e = RealtimeEngine::new();
    let (sl, tp, reversed, ghosts, interval) = e.get_config();
    assert_eq!((f(sl), f(tp), reversed, ghosts, interval), (1.5, 0.5, false, 3, 1));
    e.set_config(n(2.0), n(3.0));
    e.set_reverse_mode(true);
    e.set_ghost_threshold(0);
    e.connect();
    e.set_interval(5);
    assert!(e.take_commands().is_empty());
    assert!(e.add_tracker("b", Some(n(1.0))) && e.add_tracker("a", Some(n(1.0))));
    e.set_interval(15);
    e.remove_tracker("b");
    let commands = e.take_commands();
    assert!(matches!(&commands[0], WsCommand::Subscribe(s, 5) if s == "B"));
    assert!(matches!(&commands[2], WsCommand::ResubscribeAll(l, 15) if l.len() == 2));
    assert_eq!(
        commands[2].request_text(),
        r#"{"args":["kline.15.A","tickers.A","kline.15.B","tickers.B"],"op":"subscribe"}"#
    );
    assert!(matches!(&commands[3], WsCommand::Unsubscribe(s, 15) if s == "B"));
    assert_eq!(e.resubscription().unwrap(), r#"{"args":["kline.15.A","tickers.A"],"op":"subscribe"}"#);
    let (sl, tp, reversed, ghosts, interval) = e.get_config();
    assert_eq!((f(sl), f(tp), reversed, ghosts, interval), (2.0, 3.0, true, 0, 15));
    assert!(!e.add_tracker("A", Some(n(1.0))) && !e.add_tracker("c", None));
    assert!(e.track("C".to_string(), Some(n(1.0))) && e.untrack("C".to_string()));
    e.clear();
    assert!(e.all_trackers().is_empty());
    e.stop();
    assert!(!e.running);
}

#[test]
fn alligator_requests_are_read_and_answered() {
    let mut e = RealtimeEngine::new();
    let some = |s: &str| Some(s.to_string());
    assert!(matches!(e.watch(&None, None, &None), Answer::Json(s) if s == r#"{"error":"No symbol provided"}"#));
    assert!(matches!(e.watch(&some("btcusdc"), Some(n(3.0)), &some("xml")), Answer::Dashboard));
    assert!(matches!(e.watch_path("eth", None, &some("json")), Answer::Json(s) if s == r#"{"added":false,"original":"eth","symbol":"ETHUSDT"}"#));
    assert!(matches!(e.subscribe(&some("4"), &some("1e1"), &None), Answer::Dashboard));
    assert!(matches!(e.subscribe(&some("-4"), &None, &None), Answer::Json(_)));
    let subs = e.get_subscribers();
    assert_eq!((subs.len(), subs[0].sub_id, f(subs[0].size)), (1, 4, 10.0));
    assert_eq!(e.unsubscribe(&some("4")), Some(4));
    assert!(!e.remove_subscriber(4));
    let v = e.vitals();
    assert_eq!((v.len(), v[0].symbol.as_str(), f(v[0].base_price)), (1, "BTCUSDC", 3.0));
    assert!(v[0].active.is_none());
    let (e, _, price) = risen();
    let v = e.vitals();
    assert_eq!(f(v[0].active.unwrap().entry_price), price);
}

#[test]
fn the_best_alligators_are_recommended() {
    let mut scores = Vec::new();
    for seed in 1..26u64 {
        let mut w = Walk::new(seed * 97);
        let klines: Vec<KlineData> = (0..50).map(|_| w.bar()).collect();
        scores.push(routes::score_named(format!("S{seed}"), &Some(klines), n(1.5), n(0.5)));
    }
    scores.push(routes::score_named("FEW".to_string(), &Some(vec![bar(0, 1.0, 1.0, 1.0, 1.0); 49]), n(1.5), n(0.5)));
    scores.push(routes::score_named("NONE".to_string(), &None, n(1.5), n(0.5)));
    assert_eq!((f(scores[25].suitability), f(scores[26].suitability)), (0.0, 0.0));
    let best = routes::recommend(&scores);
    assert_eq!(best.len(), 20);
    for pair in best.windows(2) {
        assert!(f(pair[0].suitability) >= f(pair[1].suitability));
    }
    let least = f(best[19].suitability);
    assert!(scores.iter().filter(|s| f(s.suitability) > least).count() <= 19);
}

#[test]
fn the_alligator_pages_show_the_engine() {
    let empty = RealtimeEngine::new();
    assert!(empty.is_countable());
    assert!(render(&empty.generate_dashboard()).contains(pages::NO_ACTIVE));
    assert!(render(&empty.generate_state_page()).contains("No trackers."));
    let (mut e, _, price) = risen();
    let state = render(&e.generate_state_page());
    let active = format!(
        "active: LONG EP={price} SL={} TP={} |",
        price * (1.0 - 1.5 / 100.0),
        price * (1.0 + 0.5 / 100.0)
    );
    assert!(state.contains(&active) && state.contains("alligator=BULLISH"));
    e.handle_message(&message("tickers.BTCUSDT", r#"{"bid1Price":"200","ask1Price":"200"}"#), now());
    let gain = f(e.get_tracker("BTCUSDT").unwrap().closed_trades[0].pnl_pct());
    let page = render(&e.generate_dashboard());
    assert!(page.contains(&format!("{gain:+.2}%")));
    let view = render(&e.generate_view_trades_page("BTCUSDT").unwrap());
    assert!(view.contains("<svg") && view.contains("MIXED→BULLISH"));
    assert!(e.generate_view_trades_page("X").is_none());
    assert!(e.is_listable());
    assert!(render(&e.generate_subs_page()).contains("BTCUSDT"));
    assert_eq!(pages::align_label(AlligatorAlignment::Bullish).is_empty(), false);
    assert_ne!(pages::align_color(AlligatorAlignment::Bullish), pages::align_color(AlligatorAlignment::Bearish));
}
#[test]
fn alligator_scores_are_percentages_whatever_the_prices() {
    let odd = [0.0, -0.0, 1.0, -3.0, 1e300, -1e300, 1e-320, f64::INFINITY, f64::NEG_INFINITY, f64::NAN];
    for seed in 1..40u64 {
        let mut w = Walk::new(seed * 7919);
        let klines: Vec<KlineData> = (0..60)
            .map(|i| {
                let mut k = w.bar();
                if i % 7 == 3 {
                    k.high = n(odd[((w.next() + 1.0) * 4.999) as usize]);
                    k.close = n(odd[((w.next() + 1.0) * 4.999) as usize]);
                }
                k
            })
            .collect();
        let s = RealtimeEngine::score_symbol(&klines);
        assert!((0.0..=100.0).contains(&f(s.suitability)));
        assert!((0.0..=100.0).contains(&f(s.win_rate)));
        assert!(f(s.max_drawdown_pct) >= 0.0);
    }
}

#[test]
fn a_flush_forgets_and_reconnects_alligator() {
    let mut e = RealtimeEngine::new();
    assert!(e.add_tracker("a", Some(n(1.0))));
    assert!(e.add_subscriber(1, n(2.0)));
    e.connect();
    let mut link = Link::new();
    for _ in 0..4 {
        link.follow(LinkEvent::Lost, true);
    }
    assert_eq!(link.pause, 16);
    assert!(matches!(e.flush(&mut link), LinkAction::Reconnect));
    assert_eq!(link.pause, 1);
    assert!(e.all_trackers().is_empty() && e.get_subscribers().is_empty());
    assert!(e.connected && e.running && e.resubscription().is_none());
    link.follow(LinkEvent::Lost, true);
    e.stop();
    assert!(matches!(e.flush(&mut link), LinkAction::Stop));
    assert_eq!(link.pause, 2);
}

#[test]
fn a_chart_of_one_bar_needs_no_closes() {
    let mut t = SymbolTracker::new("X".to_string(), n(1.0));
    t.close_prices.push_back(n(1.0));
    t.close_prices.push_back(n(2.0));
    assert_eq!(render(&chart::generate_chart_svg(&t)), "<p style=\"color:gray\">Not enough data yet.</p>");
}

#[test]
fn doubled_prices_have_the_same_alligator_score() {
    let twice = |x: Num| n(2.0 * f(x));
    let mut trades = 0;
    for seed in 1..16u64 {
        for unit in [1e-300, 1e-6, 1.0, 1e280] {
            let mut w = Walk::new(seed * 611953);
            let klines: Vec<KlineData> = (0..(15 + seed as usize * 20))
                .map(|_| {
                    let k = w.bar();
                    bar(k.ts, f(k.open) * unit, f(k.high) * unit, f(k.low) * unit, f(k.close) * unit)
                })
                .collect();
            let doubled: Vec<KlineData> = klines
                .iter()
                .map(|k| KlineData {
                    open: twice(k.open),
                    high: twice(k.high),
                    low: twice(k.low),
                    close: twice(k.close),
                    ..*k
                })
                .collect();
            for (sl, tp) in [(1.5, 0.5), (50.0, -50.0), (0.1, 37.7)] {
                let a = RealtimeEngine::score_symbol_with_config(&klines, n(sl), n(tp));
                let b = RealtimeEngine::score_symbol_with_config(&doubled, n(sl), n(tp));
                assert_eq!(f(b.base_price), 2.0 * f(a.base_price));
                assert_eq!((b.total_signals, b.total_trades), (a.total_signals, a.total_trades));
                assert_eq!((b.wins, b.losses), (a.wins, a.losses));
                assert_eq!(b.total_pnl_pct.bits, a.total_pnl_pct.bits);
                assert_eq!(b.max_drawdown_pct.bits, a.max_drawdown_pct.bits);
                assert_eq!((b.win_rate.bits, b.suitability.bits), (a.win_rate.bits, a.suitability.bits));
                trades += a.total_trades;
            }
        }
    }
    assert!(trades > 100);
}

#[test]
fn the_gains_of_no_alligator_trades_add_up_to_minus_zero() {
    let mut e = RealtimeEngine::new();
    assert!(e.add_tracker("BTCUSDT", Some(n(100.0))));
    assert!(e.get_tracker("BTCUSDT").unwrap().closed_trades.is_empty());
    let view = render(&e.generate_view_trades_page("BTCUSDT").unwrap());
    assert!(view.contains("-0.00%") && !view.contains("+0.00%"));
}

#[test]
fn an_average_of_minus_zeros_is_minus_zero() {
    for (mixed, last) in [(-0.0f64, -0.0f64), (0.0, 0.0), (-0.0, 0.0)] {
        let mut values = vec![-0.0f64; 4];
        values.push(mixed);
        let mut expected = vec![values.iter().sum::<f64>() / 5.0];
        values.push(last);
        expected.push((expected[0] * 4.0 + last) / 5.0);
        let closes: VecDeque<Num> = values.iter().map(|x| n(*x)).collect();
        let got: Vec<u64> = alligator::calc_smma(&closes, 5).iter().map(|x| x.bits).collect();
        assert_eq!(got, expected.iter().map(|x| x.to_bits()).collect::<Vec<u64>>());
    }
}

#[test]
fn averages_over_no_values_are_no_numbers() {
    let closes: VecDeque<Num> = [1.0, 2.0, 3.0].iter().map(|x| n(*x)).collect();
    let got = alligator::calc_smma(&closes, 0);
    assert_eq!(got.len(), 4);
    assert!(got.iter().all(|x| f(*x).is_nan()));
}
