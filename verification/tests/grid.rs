use trading_engines::grid::chart;
use trading_engines::grid::engine::{Action, RealtimeEngine, WsCommand};
use trading_engines::grid::pages;
use trading_engines::grid::routes;
use trading_engines::grid::tracker::{level_of, price_for_level, SymbolTracker, TrackerEvent};
use trading_engines::link::{Link, LinkAction, LinkEvent};
use trading_engines::market::{KlineData, TradeDirection, TradeStatus};
use trading_engines::num::{num, Num};
use trading_engines::page::{NumStyle, Page, Piece};
use trading_engines::routes::Answer;
use trading_engines::stream;
use trading_engines::time::Moment;

fn n(x: f64) -> Num {
    num(x.to_bits())
}

fn f(x: Num) -> f64 {
    f64::from_bits(x.bits)
}

/// A page as text.
fn render(p: &Page) -> String {
    let mut s = String::new();
    for piece in &p.pieces {
        match piece {
            Piece::Text(t) => s.push_str(t),
            Piece::Number(NumStyle::Plain, x) => s.push_str(&format!("{}", f(*x))),
            Piece::Number(NumStyle::Fixed(d), x) => s.push_str(&format!("{:.*}", *d, f(*x))),
            Piece::Number(NumStyle::Signed(d), x) => s.push_str(&format!("{:+.*}", *d, f(*x))),
        }
    }
    s
}

fn bar(ts: i64, open: f64, high: f64, low: f64, close: f64) -> KlineData {
    KlineData {
        ts,
        datetime: stream::bar_time(ts),
        open: n(open),
        high: n(high),
        low: n(low),
        close: n(close),
        volume: n(1.0),
    }
}

/// A walk of prices.
struct Walk {
    state: u64,
    price: f64,
    ts: i64,
}

impl Walk {
    fn new(seed: u64) -> Walk {
        Walk { state: seed, price: 100.0, ts: 1_700_000_000_000 }
    }

    fn next(&mut self) -> f64 {
        self.state ^= self.state << 13;
        self.state ^= self.state >> 7;
        self.state ^= self.state << 17;
        (self.state % 2001) as f64 / 1000.0 - 1.0
    }

    fn bar(&mut self) -> KlineData {
        let open = self.price;
        let close = open * (1.0 + self.next() * 0.008);
        let high = open.max(close) * (1.0 + self.next().abs() * 0.006);
        let low = open.min(close) * (1.0 - self.next().abs() * 0.006);
        self.price = close;
        self.ts += 60_000;
        bar(self.ts, open, high, low, close)
    }
}

/// What all charts have in common, drawn with hardware floats.
struct Drawing {
    s: String,
    ml: f64,
    lo: f64,
    hi: f64,
    count: usize,
    pmin: f64,
    pmax: f64,
}

impl Drawing {
    fn new(ml: f64, klines: &[KlineData], line: &[f64], header: &str) -> Drawing {
        let mut lo = f64::MAX;
        let mut hi = f64::MIN;
        for k in klines {
            if f(k.low) < lo {
                lo = f(k.low);
            }
            if f(k.high) > hi {
                hi = f(k.high);
            }
        }
        let pad = (hi - lo) * 0.05;
        lo -= pad;
        hi += pad;
        if (hi - lo).abs() < 1e-10 {
            hi = lo + 1.0;
        }
        let pmin = line.iter().cloned().fold(f64::MAX, f64::min);
        let pmax = line.iter().cloned().fold(f64::MIN, f64::max);
        let pad = (pmax - pmin).max(0.1) * 0.1;
        let mut s = String::new();
        let filled = header.replacen("{}", "850", 1).replacen("{}", "530", 1);
        s.push_str(&filled);
        Drawing { s, ml, lo, hi, count: klines.len(), pmin: pmin - pad, pmax: pmax + pad }
    }

    fn w(&self) -> f64 {
        800.0 - self.ml - 20.0
    }

    fn x(&self, i: usize) -> f64 {
        self.ml + (i as f64 / (self.count - 1) as f64) * self.w()
    }

    fn y(&self, price: f64) -> f64 {
        30.0 + 290.0 * (1.0 - (price - self.lo) / (self.hi - self.lo))
    }

    fn py(&self, p: f64) -> f64 {
        350.0 + 20.0 + 130.0 * (1.0 - (p - self.pmin) / (self.pmax - self.pmin))
    }

    fn grid(&mut self, style: &str) {
        let step = (self.count / 10).max(1);
        for i in (0..self.count).step_by(step) {
            let x = self.x(i);
            self.s += &format!(r#"<line x1="{x}" y1="30" x2="{x}" y2="320" {style}/>"#);
        }
        for pct in [0.0, 0.25, 0.5, 0.75, 1.0] {
            let price = self.lo + (self.hi - self.lo) * pct;
            let y = self.y(price);
            let (ml, mr, tx) = (self.ml, self.ml + self.w(), self.ml - 5.0);
            self.s += &format!(r#"<line x1="{ml}" y1="{y}" x2="{mr}" y2="{y}" {style}/>"#);
            self.s += &format!(r#"<text x="{tx}" y="{y}" class="axis-text" text-anchor="end" dominant-baseline="middle">{price:.2}</text>"#);
        }
    }

    fn bars(&mut self, klines: &[KlineData], widest: f64) {
        let bw = ((self.w() / self.count as f64) * 0.6).max(1.0).min(widest);
        for (i, k) in klines.iter().enumerate() {
            let x = self.x(i);
            let cls = if f(k.close) >= f(k.open) { "up" } else { "dn" };
            let (top, bottom) = (self.y(f(k.high)), self.y(f(k.low)));
            let (a, b) = (self.y(f(k.open)), self.y(f(k.close)));
            let (from, to) = (a.min(b), a.max(b));
            let h = (to - from).max(1.0);
            let rx = x - bw / 2.0;
            self.s += &format!(r#"<line x1="{x}" y1="{top}" x2="{x}" y2="{bottom}" class="wick-{cls}" stroke-width="0.8"/>"#);
            self.s += &format!(r#"<rect x="{rx}" y="{from}" width="{bw}" height="{h}" class="candle-{cls}"/>"#);
        }
    }

    fn triangle(&mut self, x: f64, y: f64, up: bool, size: (f64, f64, f64), tail: &str) {
        let (tip, base, half) = size;
        let (y1, y2) = if up { (y - tip, y + base) } else { (y + tip, y - base) };
        let (xl, xr) = (x - half, x + half);
        self.s += &format!(r#"<polygon points="{x},{y1} {xl},{y2} {xr},{y2}" {tail}/>"#);
    }

    fn cross(&mut self, x: f64, y: f64, cls: &str) {
        let (x1, y1, x2, y2) = (x - 4.0, y - 4.0, x + 4.0, y + 4.0);
        self.s += &format!("<line x1=\"{x1}\" y1=\"{y1}\" x2=\"{x2}\" y2=\"{y2}\" class=\"{cls}\" stroke-width=\"1.5\"/>\n<line x1=\"{x2}\" y1=\"{y1}\" x2=\"{x1}\" y2=\"{y2}\" class=\"{cls}\" stroke-width=\"1.5\"/>");
    }

    fn panel(&mut self, line: &[f64]) {
        let zy = self.py(0.0);
        let (ml, mr, tx) = (self.ml, self.ml + self.w(), self.ml - 5.0);
        self.s += &format!(r##"<line x1="{ml}" y1="{zy}" x2="{mr}" y2="{zy}" stroke="#30363d" stroke-width="0.5"/>"##);
        for i in 0..self.count - 1 {
            let (x1, x2) = (self.x(i), self.x(i + 1));
            let (y1, y2) = (self.py(line[i]), self.py(line[i + 1]));
            let cls = if line[i] >= 0.0 { "pnl-fill-p" } else { "pnl-fill-n" };
            self.s += &format!(r#"<polygon points="{x1},{y1} {x2},{y2} {x2},{zy} {x1},{zy}" class="{cls}"/>"#);
        }
        let points: Vec<String> = line.iter().enumerate().map(|(i, &p)| format!("{},{}", self.x(i), self.py(p))).collect();
        self.s += &format!(r#"<polyline points="{}" class="pnl-line"/>"#, points.join(" "));
        for pct in [0.0, 0.25, 0.5, 0.75, 1.0] {
            let p = self.pmin + (self.pmax - self.pmin) * pct;
            let y = self.py(p);
            self.s += &format!(r#"<text x="{tx}" y="{y}" class="axis-text" text-anchor="end" dominant-baseline="middle">{p:+.1}%</text>"#);
        }
    }
}

fn moved(long: bool, entry: f64, price: f64) -> f64 {
    if long {
        (price - entry) / entry * 100.0
    } else {
        (entry - price) / entry * 100.0
    }
}

/// The tracker, kept with hardware floats.
struct Plain {
    base: f64,
    last: Option<i32>,
    active: Option<(bool, i32, f64, f64, f64)>,
    closed: Vec<(bool, f64, f64)>,
    events: Vec<String>,
}

impl Plain {
    fn level(&self, price: f64) -> i32 {
        ((price / self.base - 1.0) / 0.005).round() as i32
    }

    fn leave(&mut self, low: f64, high: f64) {
        if let Some((long, level, entry, sl, tp)) = self.active {
            let exit = if long {
                if low <= sl { Some(low) } else if high >= tp { Some(tp) } else { None }
            } else if high >= sl {
                Some(high)
            } else if low <= tp {
                Some(tp)
            } else {
                None
            };
            if let Some(x) = exit {
                self.closed.push((long, entry, x));
                self.active = None;
                self.events.push(format!("exit {long} {level}"));
            }
        }
    }

    fn enter(&mut self, long: bool, level: i32, price: f64) {
        let (sl, tp) = if long { (price * 0.985, price * 1.005) } else { (price * 1.015, price * 0.995) };
        self.active = Some((long, level, price, sl, tp));
        self.events.push(format!("enter {long} {level} {price} {sl} {tp}"));
    }

    fn kline(&mut self, k: &KlineData) {
        let close = f(k.close);
        let level = self.level(close);
        let previous = self.last.unwrap_or(level);
        self.leave(f(k.low), f(k.high));
        self.last = Some(level);
        if self.active.is_none() && level != previous {
            self.enter(level < previous, level, close);
        }
    }

    fn quote(&mut self, bid: f64, ask: f64) {
        let mid = (bid + ask) / 2.0;
        if let Some((long, ..)) = self.active {
            let p = if long { bid } else { ask };
            self.leave(p, p);
        }
        if self.active.is_none() {
            let level = self.level(mid);
            match self.last {
                None => self.last = Some(level),
                Some(previous) => {
                    if level > previous {
                        self.last = Some(level);
                        self.enter(false, level, bid);
                    } else if level < previous {
                        self.last = Some(level);
                        self.enter(true, level, ask);
                    }
                }
            }
        }
    }
}

fn tell(events: &[TrackerEvent]) -> Vec<String> {
    events
        .iter()
        .map(|e| match e {
            TrackerEvent::Entered { direction, price, level, sl, tp, .. } => format!(
                "enter {} {level} {} {} {}",
                *direction == TradeDirection::Long,
                f(*price),
                f(*sl),
                f(*tp)
            ),
            TrackerEvent::Exited { direction, level, .. } => {
                format!("exit {} {level}", *direction == TradeDirection::Long)
            }
        })
        .collect()
}

/// Runs a tracker and its plain counterpart over a walk.
fn walk(seed: u64, steps: usize) -> SymbolTracker {
    let mut w = Walk::new(seed);
    let mut t = SymbolTracker::new("BTCUSDT".to_string(), n(100.0));
    let mut p = Plain { base: 100.0, last: None, active: None, closed: Vec::new(), events: Vec::new() };
    for i in 0..steps {
        p.events.clear();
        let events = if i % 3 == 2 {
            let bid = w.price * (1.0 + w.next() * 0.004);
            let ask = bid * 1.0002;
            p.quote(bid, ask);
            t.update_ticker(n(bid), n(ask), stream::bar_time(w.ts + 1000))
        } else {
            let k = w.bar();
            p.kline(&k);
            t.process_kline(&k)
        };
        assert_eq!(tell(&events), p.events);
        assert!(events.len() <= 2);
        assert_eq!(t.last_close_level, p.last);
        assert_eq!(t.active_trade.is_some(), p.active.is_some());
        assert_eq!(t.closed_trades.len(), p.closed.len());
        assert_eq!(t.total_attempts(), p.closed.len() + p.active.is_some() as usize);
        for (a, b) in t.closed_trades.iter().zip(&p.closed) {
            assert_eq!(a.direction == TradeDirection::Long, b.0);
            assert_eq!(f(a.entry_price), b.1);
            assert_eq!(a.exit_price.map(f), Some(b.2));
            assert_eq!(f(a.pnl_pct()), moved(b.0, b.1, b.2));
            assert!(a.status == TradeStatus::Closed);
        }
    }
    assert!(t.closed_trades.len() > 3);
    t
}

#[test]
fn a_tracker_does_as_one_with_hardware_floats() {
    for seed in 1..12u64 {
        walk(seed * 7919, 250);
    }
}

#[test]
fn levels_are_half_a_percent_apart() {
    for base in [100.0, 27123.45, 0.00012345] {
        for level in -150..150 {
            let price = price_for_level(level, n(base));
            assert_eq!(f(price), base * (1.0 + level as f64 * 0.005));
            assert_eq!(level_of(price, n(base)), level);
        }
        assert_eq!(level_of(n(base), n(base)), 0);
        assert_eq!(f(price_for_level(0, n(base))), base);
    }
    assert_eq!(level_of(n(1.0), n(0.0)), i32::MAX);
    assert_eq!(level_of(n(0.0), n(0.0)), 0);
    let t = SymbolTracker::new("X".to_string(), n(200.0));
    assert_eq!(f(t.level_to_price(2)), 202.0);
    assert_eq!(t.price_to_level(n(203.0)), 3);
    assert_eq!(f(t.level_step), 1.0);
}

#[test]
fn levels_rise_with_the_price() {
    let mut before = i32::MIN;
    for i in 0..2000 {
        let level = level_of(n(50.0 + i as f64 * 0.05), n(100.0));
        assert!(level >= before);
        before = level;
    }
}

#[test]
fn a_crossed_level_is_traded_against_the_move() {
    let mut t = SymbolTracker::new("BTCUSDT".to_string(), n(100.0));
    assert!(t.process_kline(&bar(0, 100.0, 100.1, 99.9, 100.0)).is_empty());
    let told = t.process_kline(&bar(60_000, 100.0, 100.7, 100.0, 100.6));
    assert_eq!(tell(&told), [format!("enter false 1 100.6 {} {}", 100.6 * 1.015, 100.6 * 0.995)]);
    let active = t.active_trade.as_ref().unwrap();
    assert_eq!(active.level, 1);
    assert!(active.exit_price.is_none() && active.duration().is_none());
    assert_eq!(f(active.pnl_pct()), 0.0);
    let told = t.process_kline(&bar(120_000, 100.6, 100.6, 100.0, 100.5));
    assert_eq!(tell(&told), ["exit false 1"]);
    assert_eq!(t.closed_trades[0].exit_price.map(f), Some(100.6 * 0.995));
    assert_eq!(t.closed_trades[0].duration(), Some(60));
    let told = t.process_kline(&bar(180_000, 100.5, 100.5, 99.0, 99.4));
    assert_eq!(tell(&told), [format!("enter true -1 99.4 {} {}", 99.4 * 0.985, 99.4 * 1.005)]);
    let told = t.process_kline(&bar(240_000, 99.4, 101.0, 90.0, 95.0));
    assert_eq!(tell(&told)[0], "exit true -1");
    assert_eq!(t.closed_trades[1].exit_price.map(f), Some(90.0));
    assert!(tell(&told)[1].starts_with("enter true -10 95"));
}

#[test]
fn an_unchanged_level_is_quiet() {
    let mut t = SymbolTracker::new("X".to_string(), n(100.0));
    t.process_kline(&bar(0, 100.0, 100.0, 100.0, 100.0));
    for i in 1..20 {
        assert!(t.process_kline(&bar(i * 60_000, 100.0, 100.2, 99.8, 100.1)).is_empty());
        assert!(t.update_ticker(n(100.1), n(100.2), Moment::epoch()).is_empty());
    }
    assert_eq!(t.total_attempts(), 0);
}

#[test]
fn old_bars_are_dropped() {
    let mut t = SymbolTracker::new("X".to_string(), n(100.0));
    for i in 0..5003 {
        t.process_kline(&bar(i * 60_000, 100.0, 100.0, 100.0, 100.0));
    }
    assert_eq!(t.klines.len(), 5000);
    assert_eq!(t.klines[0].ts, 180_000);
}

/// The chart of a tracker, drawn with hardware floats.
fn plain_chart(t: &SymbolTracker) -> String {
    let klines = &t.klines;
    let len = klines.len();
    let at = |m: Moment| klines.iter().position(|k| k.datetime.at_or_after(&m));
    let mut line = vec![0.0; len];
    for c in &t.closed_trades {
        let from = at(c.entry_time).unwrap_or(0);
        let to = c.exit_time.and_then(at).unwrap_or(len - 1);
        for i in from..=to {
            line[i] = moved(c.direction == TradeDirection::Long, f(c.entry_price), f(klines[i].close));
        }
    }
    if let Some(c) = &t.active_trade {
        for i in at(c.entry_time).unwrap_or(len - 1)..len {
            line[i] = moved(c.direction == TradeDirection::Long, f(c.entry_price), f(klines[i].close));
        }
    }
    let mut d = Drawing::new(70.0, klines, &line, chart::HEADER);
    d.grid("class=\"grid-line\"");
    for level in -100..=100 {
        let price = f(t.base_price) * (1.0 + level as f64 * 0.005);
        if price < d.lo || price > d.hi {
            continue;
        }
        let y = d.y(price);
        let cls = if level == 0 { "grid-base" } else { "grid-level" };
        let (ml, mr, tx) = (d.ml, d.ml + d.w(), d.ml + d.w() + 3.0);
        d.s += &format!(r#"<line x1="{ml}" y1="{y}" x2="{mr}" y2="{y}" class="{cls}"/>"#);
        d.s += &format!(r##"<text x="{tx}" y="{y}" fill="#8b949e" font-size="8" font-family="monospace" text-anchor="start" dominant-baseline="middle">L{level}</text>"##);
    }
    d.bars(klines, 6.0);
    for c in &t.closed_trades {
        let long = c.direction == TradeDirection::Long;
        let cls = if long { "marker-entry-long" } else { "marker-entry-short" };
        if let Some(i) = at(c.entry_time) {
            let (x, y) = (d.x(i), d.y(f(c.entry_price)));
            d.triangle(x, y, long, (7.0, 2.0, 5.0), &format!("class=\"{cls}\""));
        }
        if let Some(i) = c.exit_time.and_then(at) {
            let (x, y) = (d.x(i), d.y(f(c.exit_price.unwrap())));
            d.cross(x, y, "marker-exit");
        }
    }
    if let Some(c) = &t.active_trade {
        let long = c.direction == TradeDirection::Long;
        let cls = if long { "marker-entry-long" } else { "marker-entry-short" };
        if let Some(i) = at(c.entry_time) {
            let (x, y) = (d.x(i), d.y(f(c.entry_price)));
            let tail = format!("class=\"{cls}\" stroke-width=\"1.5\" stroke=\"#fff\"");
            d.triangle(x, y, long, (9.0, 3.0, 6.0), &tail);
        }
    }
    d.panel(&line);
    d.s + "</svg>"
}

#[test]
fn a_chart_is_as_one_drawn_with_hardware_floats() {
    for seed in [3u64, 99, 1234, 777777] {
        for steps in [20, 33, 150] {
            let t = {
                let mut w = Walk::new(seed);
                let mut t = SymbolTracker::new("BTCUSDT".to_string(), n(100.0));
                for _ in 0..steps {
                    t.process_kline(&w.bar());
                }
                t
            };
            assert_eq!(render(&chart::generate_chart_svg(&t)), plain_chart(&t));
        }
    }
}

#[test]
fn a_flat_chart_can_be_drawn() {
    let mut t = SymbolTracker::new("X".to_string(), n(5.0));
    assert_eq!(render(&chart::generate_chart_svg(&t)), "<p style=\"color:gray\">Not enough data yet.</p>");
    t.process_kline(&bar(0, 5.0, 5.0, 5.0, 5.0));
    t.process_kline(&bar(60_000, 5.0, 5.0, 5.0, 5.0));
    let s = render(&chart::generate_chart_svg(&t));
    assert_eq!(s, plain_chart(&t));
    assert!(s.contains(">L0<") && !s.contains("NaN"));
}

/// The score of some bars, taken with hardware floats.
fn plain_score(klines: &[KlineData]) -> (f64, f64, u32, f64, u32, u32, u32, f64, f64, f64) {
    let base = f(klines[0].close);
    let high = klines.iter().map(|k| f(k.high)).fold(f64::MIN, f64::max);
    let low = klines.iter().map(|k| f(k.low)).fold(f64::MAX, f64::min);
    let range = (high - low) / base * 100.0;
    let level = |p: f64| ((p / base - 1.0) / 0.005).round() as i32;
    let (mut crosses, mut turns, mut dir, mut last) = (0u32, 0u32, 0i32, level(base));
    for k in &klines[1..] {
        let now = level(f(k.close));
        if now != last {
            crosses += 1;
            let d = (now - last).signum();
            if d != dir && dir != 0 {
                turns += 1;
            }
            dir = d;
        }
        last = now;
    }
    let osc = if crosses > 0 { (turns as f64 / crosses as f64) * 100.0 } else { 0.0 };
    let (mut trades, mut wins, mut losses, mut pnl) = (0u32, 0u32, 0u32, 0.0);
    let mut active: Option<(bool, f64, f64, f64)> = None;
    let mut previous = level(base);
    for k in &klines[1..] {
        let (high, low, close) = (f(k.high), f(k.low), f(k.close));
        let now = level(close);
        if let Some((long, entry, sl, tp)) = active {
            let (hit_sl, hit_tp) = if long { (low <= sl, high >= tp) } else { (high >= sl, low <= tp) };
            if hit_sl || hit_tp {
                let x = if hit_sl { if long { low } else { high } } else { tp };
                if hit_tp { wins += 1 } else { losses += 1 }
                pnl += moved(long, entry, x);
                active = None;
            }
        }
        if active.is_none() && now != previous {
            let long = now < previous;
            active = Some(if long { (true, close, close * 0.985, close * 1.005) } else { (false, close, close * 1.015, close * 0.995) });
            trades += 1;
        }
        previous = now;
    }
    let rate = if trades > 0 { wins as f64 / trades as f64 * 100.0 } else { 0.0 };
    let cross = (crosses as f64 / klines.len() as f64 * 100.0).min(100.0);
    let suit = osc.min(100.0) * 0.40 + cross * 0.20 + range.min(100.0) * 0.20 + (pnl + 10.0).max(0.0).min(100.0) * 0.20;
    (base, range, crosses, osc, trades, wins, losses, pnl, rate, suit)
}

#[test]
fn a_score_is_as_one_taken_with_hardware_floats() {
    for seed in 1..20u64 {
        let mut w = Walk::new(seed * 104729);
        let klines: Vec<KlineData> = (0..(10 + seed as usize * 30)).map(|_| w.bar()).collect();
        let s = RealtimeEngine::score_symbol_grid(&klines);
        let p = plain_score(&klines);
        assert_eq!(
            (f(s.base_price), f(s.price_range_pct), s.level_crosses, f(s.oscillation_score), s.total_trades),
            (p.0, p.1, p.2, p.3, p.4)
        );
        assert_eq!(
            (s.wins, s.losses, f(s.total_pnl_pct), f(s.win_rate), f(s.suitability)),
            (p.5, p.6, p.7, p.8, p.9)
        );
        assert!(s.total_trades - s.wins - s.losses <= 1);
        assert_eq!(s.symbol, "");
    }
    let none = RealtimeEngine::score_symbol_grid(&[]);
    assert_eq!((none.total_trades, f(none.suitability), f(none.base_price)), (0, 0.0, 0.0));
}

fn message(topic: &str, data: &str) -> String {
    format!(r#"{{"topic":"{topic}","type":"snapshot","data":{data}}}"#)
}

fn kline_message(symbol: &str, ts: i64, high: f64, low: f64, close: f64, confirm: bool) -> String {
    message(
        &format!("kline.1.{symbol}"),
        &format!(r#"{{"start":{ts},"open":"{close}","high":"{high}","low":"{low}","close":"{close}","volume":"7","confirm":{confirm}}}"#),
    )
}

fn started() -> RealtimeEngine {
    let mut e = RealtimeEngine::new();
    assert!(e.add_tracker("btcusdt", Some(n(100.0))));
    assert!(e.add_subscriber(2, n(50.0)));
    assert!(e.add_subscriber(1, n(10.0)));
    e
}

#[test]
fn every_subscriber_acts_on_a_trade() {
    let mut e = started();
    let now = Moment::at(1_700_000_000, 0).unwrap();
    assert!(e.handle_message(&kline_message("BTCUSDT", 0, 100.0, 100.0, 100.0, true), now).is_empty());
    let actions = e.handle_message(&kline_message("BTCUSDT", 60_000, 100.7, 100.0, 100.6, true), now);
    assert_eq!(actions.len(), 2);
    for (a, (id, size)) in actions.iter().zip([(1, 10.0), (2, 50.0)]) {
        match a {
            Action::Open { sub_id, symbol, direction, qty, price, sl, tp } => {
                assert_eq!((*sub_id, symbol.as_str()), (id, "BTCUSDT"));
                assert!(*direction == TradeDirection::Short);
                assert_eq!(f(*qty), size / 100.6);
                assert_eq!((f(*price), f(*sl), f(*tp)), (100.6, 100.6 * 1.015, 100.6 * 0.995));
            }
            other => panic!("{other:?}"),
        }
    }
    let quote = message("tickers.BTCUSDT", r#"{"bid1Price":"99.0","ask1Price":"99.1"}"#);
    let actions = e.handle_message(&quote, now);
    assert!(matches!(&actions[0], Action::CancelOld { sub_id: 1, symbol } if symbol == "BTCUSDT"));
    assert!(matches!(&actions[1], Action::CancelOld { sub_id: 2, .. }));
    assert!(matches!(&actions[2], Action::Open { sub_id: 1, direction: TradeDirection::Long, .. }));
    assert_eq!(actions.len(), 4);
}

#[test]
fn messages_that_are_not_market_data_change_nothing() {
    let mut e = started();
    let now = Moment::epoch();
    for raw in [
        "",
        "not json",
        "[]",
        "{}",
        r#"{"success":false,"ret_msg":"no"}"#,
        r#"{"type":"other","topic":"kline.1.BTCUSDT","data":{}}"#,
        r#"{"type":"snapshot","topic":"kline.1.BTCUSDT","data":[]}"#,
        r#"{"type":"snapshot","topic":"kline.1.BTCUSDT"}"#,
        r#"{"type":"delta","topic":"orders.BTCUSDT","data":{}}"#,
        r#"{"type":"delta","topic":"tickers.BTCUSDT","data":{"bid1Price":"1"}}"#,
        r#"{"type":"delta","topic":"tickers.BTCUSDT","data":{"bid1Price":"1","ask1Price":"x"}}"#,
        r#"{"type":"delta","topic":"kline.1.BTCUSDT","data":{"confirm":true,"start":1,"open":"1","high":"1","low":"1"}}"#,
        r#"{"success":false,"type":"delta","topic":"tickers.BTCUSDT","data":{"bid1Price":"1","ask1Price":"1"}}"#,
    ] {
        assert!(e.handle_message(raw, now).is_empty(), "{raw}");
    }
    assert!(e.handle_message(&kline_message("BTCUSDT", 0, 1.0, 1.0, 1.0, false), now).is_empty());
    assert!(e.handle_message(&kline_message("ETHUSDT", 0, 1.0, 1.0, 1.0, true), now).is_empty());
    let t = e.get_tracker("BTCUSDT").unwrap();
    assert_eq!((t.klines.len(), t.current_price.map(f)), (0, Some(100.0)));
}

#[test]
fn symbols_are_added_once_and_removed() {
    let mut e = RealtimeEngine::new();
    assert!(!e.add_tracker("btcusdt", None));
    assert!(!e.add_tracker("btcusdt", Some(n(0.0))));
    assert!(!e.add_tracker("btcusdt", Some(n(f64::NAN))));
    assert!(e.add_tracker("btcusdt", Some(n(100.0))));
    assert!(!e.add_tracker("BTCUSDT", Some(n(101.0))));
    assert!(e.track("ETHUSDT".to_string(), Some(n(5.0))));
    assert_eq!(f(e.get_tracker("BTCUSDT").unwrap().base_price), 100.0);
    let names: Vec<&str> = e.all_trackers().iter().map(|t| t.0.as_str()).collect();
    assert_eq!(names, ["BTCUSDT", "ETHUSDT"]);
    assert!(e.remove_tracker("btcusdt"));
    assert!(e.get_tracker("BTCUSDT").is_none());
    assert!(e.get_tracker("ETHUSDT").is_some());
    assert!(e.untrack("ETHUSDT".to_string()));
    assert!(e.all_trackers().is_empty());
}

#[test]
fn commands_are_kept_only_for_a_stream() {
    let mut e = started();
    assert!(e.take_commands().is_empty());
    e.connect();
    e.add_tracker("eth", Some(n(5.0)));
    e.remove_tracker("btcusdt");
    let commands = e.take_commands();
    assert_eq!(commands.len(), 2);
    assert!(matches!(&commands[0], WsCommand::Subscribe(s) if s == "ETH"));
    assert!(matches!(&commands[1], WsCommand::Unsubscribe(s) if s == "BTCUSDT"));
    assert!(commands[0].request_text().contains("\"kline.1.ETH\""));
    assert!(e.take_commands().is_empty());
    assert!(e.resubscription().unwrap().contains("tickers.ETH"));
    e.clear();
    assert!(e.resubscription().is_none());
    assert!(e.running);
    e.stop();
    assert!(!e.running);
}

#[test]
fn subscribers_are_replaced_and_removed() {
    let mut e = started();
    e.add_subscriber(2, n(7.0));
    let subs = e.get_subscribers();
    assert_eq!(subs.iter().map(|s| (s.sub_id, f(s.size))).collect::<Vec<_>>(), [(1, 10.0), (2, 7.0)]);
    assert!(e.remove_subscriber(1));
    assert!(!e.remove_subscriber(1));
    assert_eq!(e.get_subscribers().len(), 1);
}

#[test]
fn requests_are_read_and_answered() {
    let mut e = RealtimeEngine::new();
    let some = |s: &str| Some(s.to_string());
    match e.watch(&some("  "), Some(n(1.0)), &None) {
        Answer::Json(s) => assert_eq!(s, r#"{"error":"No symbol provided"}"#),
        other => panic!("{other:?}"),
    }
    assert!(matches!(e.watch(&some(" btc "), Some(n(1.0)), &None), Answer::Dashboard));
    match e.watch_path("btc", Some(n(1.0)), &some("json")) {
        Answer::Json(s) => assert_eq!(s, r#"{"added":false,"original":"btc","symbol":"BTCUSDT"}"#),
        other => panic!("{other:?}"),
    }
    assert!(matches!(e.subscribe(&some("3"), &some("2.5"), &some("subs")), Answer::Manage));
    assert!(matches!(e.subscribe(&None, &None, &None), Answer::Dashboard));
    assert!(matches!(e.subscribe(&some("-4"), &None, &None), Answer::Json(s) if s == r#"{"error":"Invalid subID"}"#));
    let subs: Vec<(i32, f64)> = e.get_subscribers().iter().map(|s| (s.sub_id, f(s.size))).collect();
    assert_eq!(subs, [(0, 5.0), (3, 2.5)]);
    assert_eq!(e.unsubscribe(&some("3")), Some(3));
    assert_eq!(e.unsubscribe(&some("x")), None);
    assert_eq!(e.unsubscribe(&None), None);
    assert_eq!(e.get_subscribers().len(), 1);
}

#[test]
fn vitals_tell_of_each_symbol() {
    let mut e = started();
    let now = Moment::epoch();
    e.handle_message(&kline_message("BTCUSDT", 0, 100.0, 100.0, 100.0, true), now);
    e.handle_message(&kline_message("BTCUSDT", 60_000, 99.0, 98.0, 99.0, true), now);
    let v = e.vitals();
    assert_eq!(v.len(), 1);
    assert_eq!((v[0].symbol.as_str(), v[0].klines, v[0].closed_trades), ("BTCUSDT", 2, 0));
    assert_eq!(v[0].current_price.map(f), Some(99.0));
    let a = v[0].active.unwrap();
    assert_eq!((a.level, f(a.entry_price), f(a.sl), f(a.tp)), (-2, 99.0, 99.0 * 0.985, 99.0 * 1.005));
}

#[test]
fn the_best_scores_are_recommended() {
    let mut scores = Vec::new();
    for seed in 1..30u64 {
        let mut w = Walk::new(seed * 31);
        let klines: Vec<KlineData> = (0..60).map(|_| w.bar()).collect();
        scores.push(routes::score_named(format!("S{seed}"), &Some(klines)));
    }
    scores.push(routes::score_named("NONE".to_string(), &None));
    scores.push(routes::score_named("FEW".to_string(), &Some(vec![bar(0, 1.0, 1.0, 1.0, 1.0); 49])));
    assert_eq!(f(scores[29].suitability), 0.0);
    assert_eq!(f(scores[30].suitability), 0.0);
    let best = routes::recommend(&scores);
    assert_eq!(best.len(), 20);
    for pair in best.windows(2) {
        assert!(f(pair[0].suitability) >= f(pair[1].suitability));
    }
    let least = f(best[19].suitability);
    assert!(scores.iter().filter(|s| f(s.suitability) > least).count() <= 19);
}

#[test]
fn the_pages_show_the_engine() {
    let mut e = started();
    assert!(e.is_countable());
    let page = render(&e.generate_dashboard());
    assert!(page.starts_with("<!DOCTYPE html>"));
    assert!(page.contains("No active trades") && page.contains("No closed trades"));
    assert!(page.contains("#1</div>") && page.contains("10 USDT"));
    assert!(page.contains(pages::NO_ACTIVE));
    let now = Moment::at(1_700_000_000, 0).unwrap();
    let closes = [100.0, 100.6, 100.0, 99.4, 98.0, 101.0];
    for (i, c) in closes.iter().enumerate() {
        e.handle_message(&kline_message("BTCUSDT", i as i64 * 60_000, c + 0.1, c - 0.1, *c, true), now);
    }
    let t = e.get_tracker("BTCUSDT").unwrap();
    let gains: Vec<f64> = t.closed_trades.iter().map(|c| f(c.pnl_pct())).collect();
    assert!(gains.len() >= 2);
    let total: f64 = gains.iter().fold(0.0, |a, b| a + b);
    let wins = gains.iter().filter(|g| **g > 0.0).count();
    let page = render(&e.generate_dashboard());
    assert!(page.contains(&format!("<div class=\"num\">{}</div><div class=\"lbl\">Closed</div>", gains.len())));
    assert!(page.contains(&format!("<div class=\"num\">{wins}</div><div class=\"lbl\">Wins</div>")));
    assert!(page.contains(&format!("{total:+.2}%</div><div class=\"lbl\">Realized PnL</div>")));
    let view = render(&e.generate_view_trades_page("BTCUSDT").unwrap());
    assert!(view.contains("<svg") && view.contains(&format!("{total:+.2}%")));
    assert!(view.contains("<td>1m0s</td>"));
    assert!(e.generate_view_trades_page("ETHUSDT").is_none());
    assert!(e.is_listable());
    let manage = render(&e.generate_subs_page());
    assert!(manage.contains("2 active") && manage.contains("1 watching"));
    let state = render(&e.generate_state_page());
    assert!(state.contains("<b>BTCUSDT</b> base=100.0000") && state.contains("klines=6"));
    e.clear();
    assert!(render(&e.generate_state_page()).contains("No trackers."));
    assert!(render(&e.generate_dashboard()).contains("No subscriptions"));
}

/// Bars of numbers of every kind.
fn odd_bars(seed: u64) -> Vec<KlineData> {
    let odd = [0.0, -0.0, 1.0, -3.0, 1e300, -1e300, 1e-320, f64::INFINITY, f64::NEG_INFINITY, f64::NAN];
    let mut w = Walk::new(seed);
    let mut pick = move || odd[((w.next() + 1.0) * 4.999) as usize];
    (0..60).map(|i| bar(i * 60_000, pick(), pick(), pick(), pick())).collect()
}

#[test]
fn scores_are_numbers_whatever_the_prices() {
    for seed in 1..60u64 {
        let s = RealtimeEngine::score_symbol_grid(&odd_bars(seed * 7919));
        assert!(f(s.suitability) <= 100.0);
        if !(f(s.price_range_pct) < 0.0) {
            assert!(f(s.suitability) >= 0.0);
        }
        assert!((0.0..=100.0).contains(&f(s.win_rate)));
        assert!((0.0..=100.0).contains(&f(s.oscillation_score)));
    }
}

#[test]
fn the_latest_closed_trades_are_shown_first() {
    let mut e = started();
    let mut w = Walk::new(20240611);
    for i in 0..600 {
        let k = w.bar();
        let raw = kline_message("BTCUSDT", i * 61_000, f(k.high), f(k.low), f(k.close), true);
        e.handle_message(&raw, Moment::epoch());
    }
    let t = e.get_tracker("BTCUSDT").unwrap();
    let closed = &t.closed_trades;
    assert!(closed.len() > 50);
    let page = render(&e.generate_dashboard());
    let rows: Vec<&str> = page.matches("<tr><td>BTCUSDT</td>").collect();
    assert_eq!(rows.len(), 50 + t.active_trade.is_some() as usize);
    let clock = |m: &Option<Moment>| trading_engines::time::clock_text(&m.unwrap());
    let shown: Vec<String> = page
        .split("<tr><td>BTCUSDT</td>")
        .skip(1 + t.active_trade.is_some() as usize)
        .map(|row| row.split("<td>").nth(3).unwrap().split('<').next().unwrap().to_string())
        .collect();
    let expected: Vec<String> = closed.iter().rev().take(50).map(|c| clock(&c.exit_time)).collect();
    assert_eq!(shown, expected);
}

#[test]
fn a_flush_forgets_and_reconnects() {
    let mut e = RealtimeEngine::new();
    assert!(e.add_tracker("a", Some(n(1.0))));
    assert!(e.add_subscriber(1, n(2.0)));
    e.connect();
    let mut link = Link::new();
    for _ in 0..4 {
        link.follow(LinkEvent::Lost, true);
    }
    assert_eq!(link.pause, 16);
    assert!(matches!(e.flush(&mut link), LinkAction::Reconnect));
    assert_eq!(link.pause, 1);
    assert!(e.all_trackers().is_empty() && e.get_subscribers().is_empty());
    assert!(e.connected && e.running && e.resubscription().is_none());
    link.follow(LinkEvent::Lost, true);
    e.stop();
    assert!(matches!(e.flush(&mut link), LinkAction::Stop));
    assert_eq!(link.pause, 2);
}

#[test]
fn doubled_prices_have_the_same_score() {
    let twice = |x: Num| n(2.0 * f(x));
    for seed in 1..20u64 {
        for unit in [1e-6, 1.0, 1e7, -3.0] {
            let mut w = Walk::new(seed * 611953);
            let klines: Vec<KlineData> = (0..(5 + seed as usize * 11))
                .map(|_| {
                    let k = w.bar();
                    bar(k.ts, f(k.open) * unit, f(k.high) * unit, f(k.low) * unit, f(k.close) * unit)
                })
                .collect();
            let doubled: Vec<KlineData> = klines
                .iter()
                .map(|k| KlineData {
                    open: twice(k.open),
                    high: twice(k.high),
                    low: twice(k.low),
                    close: twice(k.close),
                    ..*k
                })
                .collect();
            let a = RealtimeEngine::score_symbol_grid(&klines);
            let b = RealtimeEngine::score_symbol_grid(&doubled);
            assert_eq!(f(b.base_price), 2.0 * f(a.base_price));
            assert_eq!((b.level_crosses, b.total_trades, b.wins, b.losses), (a.level_crosses, a.total_trades, a.wins, a.losses));
            assert_eq!(b.price_range_pct.bits, a.price_range_pct.bits);
            assert_eq!(b.oscillation_score.bits, a.oscillation_score.bits);
            assert_eq!(b.total_pnl_pct.bits, a.total_pnl_pct.bits);
            assert_eq!((b.win_rate.bits, b.suitability.bits), (a.win_rate.bits, a.suitability.bits));
        }
    }
}

#[test]
fn the_gains_of_no_trades_add_up_to_minus_zero() {
    let mut e = RealtimeEngine::new();
    assert!(e.add_tracker("BTCUSDT", Some(n(100.0))));
    assert!(e.get_tracker("BTCUSDT").unwrap().closed_trades.is_empty());
    let none: [f64; 0] = [];
    let total: f64 = none.iter().sum();
    assert_eq!(format!("{total:+.2}%"), "-0.00%");
    let view = render(&e.generate_view_trades_page("BTCUSDT").unwrap());
    assert!(view.contains("-0.00%") && !view.contains("+0.00%"));
}
