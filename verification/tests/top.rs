use trading_engines::link::{Link, LinkAction, LinkEvent};
use trading_engines::market::{KlineData, TradeStatus};
use trading_engines::num::{num, Num};
use trading_engines::page::{NumStyle, Page, Piece};
use trading_engines::routes::Answer;
use trading_engines::stream;
use trading_engines::time::Moment;
use trading_engines::top::chart;
use trading_engines::top::engine::{Action, RealtimeEngine, WsCommand};
use trading_engines::top::pages;
use trading_engines::top::tracker::{Side, SymbolTracker, TrackerEvent};

fn n(x: f64) -> Num {
    num(x.to_bits())
}

fn f(x: Num) -> f64 {
    f64::from_bits(x.bits)
}

/// A page as text.
fn render(p: &Page) -> String {
    let mut s = String::new();
    for piece in &p.pieces {
        match piece {
            Piece::Text(t) => s.push_str(t),
            Piece::Number(NumStyle::Plain, x) => s.push_str(&format!("{}", f(*x))),
            Piece::Number(NumStyle::Fixed(d), x) => s.push_str(&format!("{:.*}", *d, f(*x))),
            Piece::Number(NumStyle::Signed(d), x) => s.push_str(&format!("{:+.*}", *d, f(*x))),
        }
    }
    s
}

fn bar(ts: i64, open: f64, high: f64, low: f64, close: f64) -> KlineData {
    KlineData {
        ts,
        datetime: stream::bar_time(ts),
        open: n(open),
        high: n(high),
        low: n(low),
        close: n(close),
        volume: n(1.0),
    }
}

/// A walk of prices.
struct Walk {
    state: u64,
    price: f64,
    ts: i64,
}

impl Walk {
    fn new(seed: u64) -> Walk {
        Walk { state: seed, price: 100.0, ts: 1_700_000_000_000 }
    }

    fn next(&mut self) -> f64 {
        self.state ^= self.state << 13;
        self.state ^= self.state >> 7;
        self.state ^= self.state << 17;
        (self.state % 2001) as f64 / 1000.0 - 1.0
    }

    fn bar(&mut self) -> KlineData {
        let open = self.price;
        let close = open * (1.0 + self.next() * 0.008);
        let high = open.max(close) * (1.0 + self.next().abs() * 0.006);
        let low = open.min(close) * (1.0 - self.next().abs() * 0.006);
        self.price = close;
        self.ts += 60_000;
        bar(self.ts, open, high, low, close)
    }
}

/// What all charts have in common, drawn with hardware floats.
struct Drawing {
    s: String,
    ml: f64,
    lo: f64,
    hi: f64,
    count: usize,
    pmin: f64,
    pmax: f64,
}

impl Drawing {
    fn new(ml: f64, klines: &[KlineData], line: &[f64], header: &str) -> Drawing {
        let mut lo = f64::MAX;
        let mut hi = f64::MIN;
        for k in klines {
            if f(k.low) < lo {
                lo = f(k.low);
            }
            if f(k.high) > hi {
                hi = f(k.high);
            }
        }
        let pad = (hi - lo) * 0.05;
        lo -= pad;
        hi += pad;
        if (hi - lo).abs() < 1e-10 {
            hi = lo + 1.0;
        }
        let pmin = line.iter().cloned().fold(f64::MAX, f64::min);
        let pmax = line.iter().cloned().fold(f64::MIN, f64::max);
        let pad = (pmax - pmin).max(0.1) * 0.1;
        let mut s = String::new();
        let filled = header.replacen("{}", "850", 1).replacen("{}", "530", 1);
        s.push_str(&filled);
        Drawing { s, ml, lo, hi, count: klines.len(), pmin: pmin - pad, pmax: pmax + pad }
    }

    fn w(&self) -> f64 {
        800.0 - self.ml - 20.0
    }

    fn x(&self, i: usize) -> f64 {
        self.ml + (i as f64 / (self.count - 1) as f64) * self.w()
    }

    fn y(&self, price: f64) -> f64 {
        30.0 + 290.0 * (1.0 - (price - self.lo) / (self.hi - self.lo))
    }

    fn py(&self, p: f64) -> f64 {
        350.0 + 20.0 + 130.0 * (1.0 - (p - self.pmin) / (self.pmax - self.pmin))
    }

    fn grid(&mut self, style: &str) {
        let step = (self.count / 10).max(1);
        for i in (0..self.count).step_by(step) {
            let x = self.x(i);
            self.s += &format!(r#"<line x1="{x}" y1="30" x2="{x}" y2="320" {style}/>"#);
        }
        for pct in [0.0, 0.25, 0.5, 0.75, 1.0] {
            let price = self.lo + (self.hi - self.lo) * pct;
            let y = self.y(price);
            let (ml, mr, tx) = (self.ml, self.ml + self.w(), self.ml - 5.0);
            self.s += &format!(r#"<line x1="{ml}" y1="{y}" x2="{mr}" y2="{y}" {style}/>"#);
            self.s += &format!(r#"<text x="{tx}" y="{y}" class="axis-text" text-anchor="end" dominant-baseline="middle">{price:.2}</text>"#);
        }
    }

    fn bars(&mut self, klines: &[KlineData], widest: f64) {
        let bw = ((self.w() / self.count as f64) * 0.6).max(1.0).min(widest);
        for (i, k) in klines.iter().enumerate() {
            let x = self.x(i);
            let cls = if f(k.close) >= f(k.open) { "up" } else { "dn" };
            let (top, bottom) = (self.y(f(k.high)), self.y(f(k.low)));
            let (a, b) = (self.y(f(k.open)), self.y(f(k.close)));
            let (from, to) = (a.min(b), a.max(b));
            let h = (to - from).max(1.0);
            let rx = x - bw / 2.0;
            self.s += &format!(r#"<line x1="{x}" y1="{top}" x2="{x}" y2="{bottom}" class="wick-{cls}" stroke-width="0.8"/>"#);
            self.s += &format!(r#"<rect x="{rx}" y="{from}" width="{bw}" height="{h}" class="candle-{cls}"/>"#);
        }
    }

    fn triangle(&mut self, x: f64, y: f64, up: bool, size: (f64, f64, f64), tail: &str) {
        let (tip, base, half) = size;
        let (y1, y2) = if up { (y - tip, y + base) } else { (y + tip, y - base) };
        let (xl, xr) = (x - half, x + half);
        self.s += &format!(r#"<polygon points="{x},{y1} {xl},{y2} {xr},{y2}" {tail}/>"#);
    }

    fn cross(&mut self, x: f64, y: f64, cls: &str) {
        let (x1, y1, x2, y2) = (x - 4.0, y - 4.0, x + 4.0, y + 4.0);
        self.s += &format!("<line x1=\"{x1}\" y1=\"{y1}\" x2=\"{x2}\" y2=\"{y2}\" class=\"{cls}\" stroke-width=\"1.5\"/>\n<line x1=\"{x2}\" y1=\"{y1}\" x2=\"{x1}\" y2=\"{y2}\" class=\"{cls}\" stroke-width=\"1.5\"/>");
    }

    fn panel(&mut self, line: &[f64]) {
        let zy = self.py(0.0);
        let (ml, mr, tx) = (self.ml, self.ml + self.w(), self.ml - 5.0);
        self.s += &format!(r##"<line x1="{ml}" y1="{zy}" x2="{mr}" y2="{zy}" stroke="#30363d" stroke-width="0.5"/>"##);
        for i in 0..self.count - 1 {
            let (x1, x2) = (self.x(i), self.x(i + 1));
            let (y1, y2) = (self.py(line[i]), self.py(line[i + 1]));
            let cls = if line[i] >= 0.0 { "pnl-fill-p" } else { "pnl-fill-n" };
            self.s += &format!(r#"<polygon points="{x1},{y1} {x2},{y2} {x2},{zy} {x1},{zy}" class="{cls}"/>"#);
        }
        let points: Vec<String> = line.iter().enumerate().map(|(i, &p)| format!("{},{}", self.x(i), self.py(p))).collect();
        self.s += &format!(r#"<polyline points="{}" class="pnl-line"/>"#, points.join(" "));
        for pct in [0.0, 0.25, 0.5, 0.75, 1.0] {
            let p = self.pmin + (self.pmax - self.pmin) * pct;
            let y = self.py(p);
            self.s += &format!(r#"<text x="{tx}" y="{y}" class="axis-text" text-anchor="end" dominant-baseline="middle">{p:+.1}%</text>"#);
        }
    }
}

fn moved(long: bool, entry: f64, price: f64) -> f64 {
    if long {
        (price - entry) / entry * 100.0
    } else {
        (entry - price) / entry * 100.0
    }
}

/// The tracker, kept with hardware floats.
struct Plain {
    long: bool,
    first: Option<f64>,
    sl: f64,
    inside: bool,
    waiting: bool,
    bid: Option<f64>,
    ask: Option<f64>,
    entry: f64,
    closed: Vec<(f64, f64)>,
    told: String,
}

impl Plain {
    fn new(long: bool) -> Plain {
        Plain {
            long,
            first: None,
            sl: 0.0,
            inside: false,
            waiting: false,
            bid: None,
            ask: None,
            entry: 0.0,
            closed: Vec::new(),
            told: String::new(),
        }
    }

    fn enter(&mut self, price: f64) {
        self.inside = true;
        self.waiting = false;
        self.entry = price;
        self.told = format!("enter {price}");
    }

    fn first_entry(&mut self, price: f64) {
        self.first = Some(price);
        self.sl = price * if self.long { 0.995 } else { 1.005 };
        self.enter(price);
    }

    fn stop(&mut self, price: f64) -> bool {
        let hit = self.inside && if self.long { price <= self.sl } else { price >= self.sl };
        if hit {
            self.inside = false;
            self.waiting = true;
            self.closed.push((self.entry, self.sl));
            self.told = "exit".to_string();
        }
        hit
    }

    fn reenter(&mut self, price: f64) {
        let first = self.first.unwrap();
        if !self.inside && self.waiting && (if self.long { price > first } else { price < first }) {
            self.enter(price);
        }
    }

    fn kline(&mut self, k: &KlineData) {
        self.told = String::new();
        let close = f(k.close);
        let entry = if self.long { self.ask.unwrap_or(close) } else { self.bid.unwrap_or(close) };
        if self.first.is_none() {
            self.first_entry(entry);
            return;
        }
        let exit = if self.long { self.bid.unwrap_or(f(k.low)) } else { self.ask.unwrap_or(f(k.high)) };
        self.reenter(entry);
        self.stop(exit);
    }

    fn quote(&mut self, bid: f64, ask: f64) {
        self.told = String::new();
        self.bid = Some(bid);
        self.ask = Some(ask);
        let (entry, exit) = if self.long { (ask, bid) } else { (bid, ask) };
        if self.first.is_none() {
            self.first_entry(entry);
        }
        if !self.stop(exit) {
            self.reenter(entry);
        }
    }
}

fn tell(e: &TrackerEvent) -> String {
    match e {
        TrackerEvent::Entered { price, .. } => format!("enter {}", f(*price)),
        TrackerEvent::Exited { .. } => "exit".to_string(),
        TrackerEvent::Nothing => String::new(),
    }
}

/// Runs a tracker and its plain counterpart over a walk, with quotes in between or without.
fn walk(seed: u64, side: Side, quotes: bool) -> SymbolTracker {
    let long = side == Side::Long;
    let mut w = Walk::new(seed);
    let mut t = SymbolTracker::new("BTCUSDT".to_string(), side);
    let mut p = Plain::new(long);
    for i in 0..300 {
        let event = if quotes && i % 3 == 1 {
            let bid = w.price * (1.0 + w.next() * 0.004);
            let ask = bid * 1.0002;
            p.quote(bid, ask);
            t.update_ticker(n(bid), n(ask), stream::bar_time(w.ts + 1000))
        } else {
            let k = w.bar();
            p.kline(&k);
            t.process_kline(&k)
        };
        assert_eq!(tell(&event), p.told);
        assert_eq!(t.entry_price.map(f), p.first);
        assert_eq!(t.sl.map(f), p.first.map(|_| p.sl));
        assert_eq!((t.in_position, t.waiting_for_reentry), (p.inside, p.waiting));
        assert_eq!(t.active_trade.is_some(), p.inside);
        assert_eq!(t.total_attempts(), p.closed.len() + p.inside as usize);
        for (a, b) in t.closed_trades.iter().zip(&p.closed) {
            assert_eq!((f(a.entry_price), a.exit_price.map(f)), (b.0, Some(b.1)));
            assert_eq!(f(a.pnl_pct()), moved(long, b.0, b.1));
            assert!(a.status == TradeStatus::Closed && a.direction == side);
        }
        let price = t.current_price.map(f);
        let expected = match (price, p.inside) {
            (Some(c), true) => Some(moved(long, p.first.unwrap(), c)),
            _ => None,
        };
        assert_eq!(t.unrealized_pnl().map(f), expected);
    }
    t
}

#[test]
fn a_one_sided_tracker_does_as_one_with_hardware_floats() {
    let mut closed = 0;
    for seed in 1..12u64 {
        for side in [Side::Long, Side::Short] {
            closed += walk(seed * 6271, side, true).closed_trades.len();
            closed += walk(seed * 6271, side, false).closed_trades.len();
        }
    }
    assert!(closed > 50);
}

#[test]
fn sides_have_names_and_prices() {
    assert_eq!((Side::Long.as_str(), Side::Long.upper()), ("long", "LONG"));
    assert_eq!((Side::Short.as_str(), Side::Short.upper()), ("short", "SHORT"));
    assert_eq!(f(Side::Long.entry_price(n(1.0), n(2.0))), 2.0);
    assert_eq!(f(Side::Short.entry_price(n(1.0), n(2.0))), 1.0);
    assert_eq!(f(Side::Long.exit_price(n(1.0), n(2.0))), 1.0);
    assert_eq!(f(Side::Short.exit_price(n(1.0), n(2.0))), 2.0);
    assert_eq!(f(Side::Long.stop_for(n(200.0))), 200.0 * 0.995);
    assert_eq!(f(Side::Short.stop_for(n(200.0))), 200.0 * 1.005);
    assert_ne!(pages::side_color("LONG"), pages::side_color("SHORT"));
}

#[test]
fn a_stopped_symbol_is_entered_again_past_the_first_entry() {
    let now = Moment::at(1_700_000_000, 0).unwrap();
    let mut t = SymbolTracker::new("X".to_string(), Side::Long);
    assert_eq!(tell(&t.update_ticker(n(99.9), n(100.0), now)), "enter 100");
    assert_eq!(tell(&t.update_ticker(n(99.6), n(99.7), now)), "");
    assert_eq!(tell(&t.update_ticker(n(99.5), n(99.6), now)), "exit");
    assert_eq!(t.closed_trades[0].exit_price.map(f), Some(99.5));
    assert_eq!(tell(&t.update_ticker(n(99.9), n(100.0), now)), "");
    assert!(t.waiting_for_reentry && !t.in_position);
    assert_eq!(tell(&t.update_ticker(n(100.1), n(100.2), now)), "enter 100.2");
    assert_eq!((t.entry_price.map(f), t.sl.map(f)), (Some(100.0), Some(99.5)));
    let later = Moment::at(1_700_000_065, 0).unwrap();
    assert_eq!(tell(&t.update_ticker(n(90.0), n(90.1), later)), "exit");
    assert_eq!(t.closed_trades[1].duration(), Some(65));
    assert_eq!(f(t.closed_trades[1].pnl_pct()), (99.5 - 100.2) / 100.2 * 100.0);
}

#[test]
fn a_reentry_that_is_stopped_in_its_bar_tells_of_the_exit() {
    let mut t = SymbolTracker::new("X".to_string(), Side::Short);
    assert_eq!(tell(&t.process_kline(&bar(0, 100.0, 100.0, 100.0, 100.0))), "enter 100");
    assert_eq!(tell(&t.process_kline(&bar(60_000, 100.0, 101.0, 100.0, 100.5))), "exit");
    assert_eq!(tell(&t.process_kline(&bar(120_000, 100.5, 101.0, 99.0, 99.5))), "exit");
    assert_eq!(t.closed_trades.len(), 2);
    assert_eq!(f(t.closed_trades[1].entry_price), 99.5);
}

/// The chart of a tracker, drawn with hardware floats.
fn plain_chart(t: &SymbolTracker) -> String {
    let klines = &t.klines;
    let long = t.direction == Side::Long;
    let part = if long { 0.995 } else { 1.005 };
    let first = t.entry_price.map(f).unwrap_or(f(klines[0].close));
    let (mut entries, mut stops, mut line) = (Vec::new(), Vec::new(), Vec::new());
    let (mut inside, mut waiting) = (false, false);
    let mut ep = f(klines[0].close);
    let mut sl = ep * part;
    for (i, k) in klines.iter().enumerate() {
        let close = f(k.close);
        let past = if long { close > ep } else { close < ep };
        if i == 0 || (!inside && (!waiting || past)) {
            if i > 0 && waiting {
                waiting = false;
            }
            inside = true;
            entries.push(i);
            ep = close;
            sl = ep * part;
        }
        if inside && (if long { f(k.low) <= sl } else { f(k.high) >= sl }) {
            inside = false;
            waiting = true;
            stops.push(i);
        }
        let before = *line.last().unwrap_or(&0.0);
        line.push(if inside { moved(long, first, close) } else { before });
    }
    let mut d = Drawing::new(60.0, klines, &line, chart::HEADER);
    d.grid("stroke=\"#30363d\" stroke-width=\"0.5\"");
    d.bars(klines, 10.0);
    let (ml, mr, tx) = (d.ml, d.ml + d.w(), d.ml + d.w() + 3.0);
    let (ey, sy) = (d.y(first), d.y(first * part));
    d.s += &format!(r#"<line x1="{ml}" y1="{ey}" x2="{mr}" y2="{ey}" class="line-entry"/>"#);
    d.s += &format!(r##"<text x="{tx}" y="{ey}" fill="#2196f3" font-size="9" font-family="monospace" dominant-baseline="hanging">{first:.2}</text>"##);
    d.s += &format!(r#"<line x1="{ml}" y1="{sy}" x2="{mr}" y2="{sy}" class="line-sl"/>"#);
    for i in entries {
        let (x, y) = (d.x(i), d.y(f(klines[i].close)));
        let tail = if long { "class=\"marker-entry\"" } else { "class=\"marker-entry-s\"" };
        d.triangle(x, y, long, (8.0, 2.0, 5.0), tail);
    }
    for i in stops {
        let (x, y) = (d.x(i), d.y(sl));
        d.cross(x, y, "marker-stop");
    }
    d.panel(&line);
    d.s + "</svg>"
}

#[test]
fn a_one_sided_chart_is_as_one_drawn_with_hardware_floats() {
    for seed in [5u64, 77, 4321, 88888] {
        for side in [Side::Long, Side::Short] {
            for steps in [2, 21, 130] {
                let mut w = Walk::new(seed);
                let mut t = SymbolTracker::new("BTCUSDT".to_string(), side);
                for _ in 0..steps {
                    t.process_kline(&w.bar());
                }
                assert_eq!(render(&chart::generate_chart_svg(&t)), plain_chart(&t));
            }
        }
    }
    let t = SymbolTracker::new("X".to_string(), Side::Long);
    assert_eq!(render(&chart::generate_chart_svg(&t)), "<p style=\"color:gray\">Not enough data yet.</p>");
}

fn message(topic: &str, data: &str) -> String {
    format!(r#"{{"topic":"{topic}","type":"snapshot","data":{data}}}"#)
}

fn started() -> RealtimeEngine {
    let mut e = RealtimeEngine::new();
    assert!(e.add_subscriber(2, Side::Short, n(50.0)));
    assert!(e.add_subscriber(1, Side::Long, n(10.0)));
    e
}

fn now() -> Moment {
    Moment::at(1_700_000_000, 0).unwrap()
}

#[test]
fn only_subscribers_of_the_side_open() {
    let mut e = started();
    let (added, actions) = e.add_tracker("btcusdt", Side::Long, Some((n(99.0), n(100.0))), now());
    assert!(added);
    assert_eq!(actions.len(), 1);
    match &actions[0] {
        Action::Open { sub_id, symbol, side, qty } => {
            assert_eq!((*sub_id, symbol.as_str(), *side == Side::Long), (1, "BTCUSDT", true));
            assert_eq!(f(*qty), 10.0 / 99.0);
        }
        other => panic!("{other:?}"),
    }
    let t = e.get_tracker("BTCUSDT").unwrap();
    assert_eq!((t.klines.len(), t.in_position, t.entry_price.map(f)), (1, true, Some(100.0)));
    assert_eq!(t.klines[0].ts, 1_700_000_000_000);
}

#[test]
fn every_subscriber_closes() {
    let mut e = started();
    e.add_tracker("BTCUSDT", Side::Long, Some((n(99.9), n(100.0))), now());
    let quote = message("tickers.BTCUSDT", r#"{"bid1Price":"99.5","ask1Price":"99.6"}"#);
    let actions = e.handle_message(&quote, now());
    assert_eq!(actions.len(), 2);
    assert!(matches!(&actions[0], Action::CloseAll { sub_id: 1, symbol } if symbol == "BTCUSDT"));
    assert!(matches!(&actions[1], Action::CloseAll { sub_id: 2, .. }));
    assert!(e.handle_message(&quote, now()).is_empty());
    let mark = message("tickers.BTCUSDT", r#"{"bid1Price":"101","markPrice":"102"}"#);
    let actions = e.handle_message(&mark, now());
    assert!(matches!(&actions[0], Action::Open { sub_id: 1, qty, .. } if f(*qty) == 10.0 / 102.0));
    assert!(e.handle_message(&message("tickers.BTCUSDT", r#"{"bid1Price":"101"}"#), now()).is_empty());
}

#[test]
fn bars_of_other_intervals_are_not_read() {
    let mut e = started();
    e.add_tracker("X", Side::Short, None, now());
    let data = r#"{"start":0,"open":"5","high":"5","low":"5","close":"5","confirm":true}"#;
    assert!(e.handle_message(&message("kline.5.X", data), now()).is_empty());
    let actions = e.handle_message(&message("kline.1.X", data), now());
    assert!(matches!(&actions[0], Action::Open { sub_id: 2, qty, .. } if f(*qty) == 10.0));
    assert_eq!(f(e.get_tracker("X").unwrap().klines[0].volume), 0.0);
}

#[test]
fn a_symbol_is_tracked_for_one_side_at_a_time() {
    let mut e = started();
    assert!(e.add_tracker("x", Side::Long, None, now()).0);
    assert!(!e.add_tracker("X", Side::Long, Some((n(1.0), n(1.0))), now()).0);
    assert!(e.get_tracker("X").unwrap().entry_price.is_none());
    assert!(e.track("X".to_string(), Side::Short, Some((n(1.0), n(2.0))), now()).0);
    let t = e.get_tracker("X").unwrap();
    assert!(t.direction == Side::Short && t.entry_price.map(f) == Some(1.0));
    assert!(e.add_tracker("y", Side::Long, Some((n(0.0), n(2.0))), now()).1.is_empty());
    let names: Vec<&str> = e.all_trackers().iter().map(|t| t.0.as_str()).collect();
    assert_eq!(names, ["X", "Y"]);
    assert!(e.remove_tracker("x"));
    assert!(e.get_tracker("X").is_none() && e.get_tracker("Y").is_some());
    assert!(e.untrack("Z".to_string()));
}

#[test]
fn the_stream_is_told_of_symbols() {
    let mut e = started();
    e.add_tracker("a", Side::Long, None, now());
    assert!(e.take_commands().is_empty());
    e.connect();
    e.add_tracker("b", Side::Long, None, now());
    e.remove_tracker("a");
    let commands = e.take_commands();
    assert!(matches!(&commands[0], WsCommand::Subscribe(s) if s == "B"));
    assert!(matches!(&commands[1], WsCommand::Unsubscribe(s) if s == "A"));
    assert_eq!(commands[1].request_text(), r#"{"args":["kline.1.A","tickers.A"],"op":"unsubscribe"}"#);
    assert_eq!(e.resubscription().unwrap(), r#"{"args":["kline.1.B","tickers.B"],"op":"subscribe"}"#);
    let all = WsCommand::ResubscribeAll(vec!["A".to_string(), "B".to_string()]);
    assert!(all.request_text().contains(r#""tickers.A","kline.1.B""#));
    e.clear();
    assert!(e.resubscription().is_none() && e.get_subscribers().is_empty());
    e.stop();
    assert!(!e.running);
}

#[test]
fn one_sided_requests_are_read_and_answered() {
    let mut e = RealtimeEngine::new();
    let some = |s: &str| Some(s.to_string());
    let quote = Some((n(1.0), n(2.0)));
    let (answer, actions) = e.watch(&None, Side::Long, quote, now(), &None);
    assert!(matches!(answer, Answer::Json(s) if s == r#"{"error":"No symbol provided"}"#));
    assert!(actions.is_empty());
    assert!(matches!(e.subscribe(Side::Long, &some("7"), &some("x"), &None), Answer::Dashboard));
    assert!(matches!(e.subscribe(Side::Short, &some("-1"), &None, &some("subs")), Answer::Json(_)));
    assert!(matches!(e.subscribe(Side::Short, &some("8"), &some("3"), &some("subs")), Answer::Manage));
    let (answer, actions) = e.watch(&some(" sol "), Side::Long, quote, now(), &some("json"));
    assert!(matches!(answer, Answer::Json(s) if s == r#"{"added":true,"original":"SOL","symbol":"SOLUSDT"}"#));
    assert!(matches!(&actions[..], [Action::Open { sub_id: 7, qty, .. }] if f(*qty) == 5.0));
    let (answer, _) = e.watch_path("sol", Side::Long, quote, now(), &some("json"));
    assert!(matches!(answer, Answer::Json(s) if s == r#"{"added":false,"original":"sol","symbol":"SOLUSDT"}"#));
    assert_eq!(e.unsubscribe(&some("8")), Some(8));
    assert_eq!(e.unsubscribe(&some("-8")), None);
    let subs = e.get_subscribers();
    assert_eq!((subs.len(), subs[0].sub_id, subs[0].side == Side::Long), (1, 7, true));
    let v = e.vitals();
    assert_eq!((v[0].symbol.as_str(), v[0].entry_price.map(f), v[0].in_position), ("SOLUSDT", Some(2.0), true));
    assert_eq!((v[0].current_price.map(f), v[0].klines, v[0].closed_trades), (Some(1.0), 1, 0));
}

#[test]
fn the_one_sided_pages_show_the_engine() {
    let mut e = started();
    assert!(e.is_countable());
    let page = render(&e.generate_dashboard());
    assert!(page.starts_with("<!DOCTYPE html>") && page.contains(pages::NO_ACTIVE));
    e.add_tracker("BTCUSDT", Side::Long, Some((n(99.9), n(100.0))), now());
    e.connect();
    let state = render(&e.generate_state_page());
    let expected = format!(
        "<b>BTCUSDT</b> (LONG) | entry=100 | current=99.9 | sl={} | in_pos=true | waiting=false | klines=1 | closed_trades=0 | ws_connected=true",
        100.0 * 0.995
    );
    assert_eq!(state, format!("<html><body style=\"font-family:monospace;background:#0d1117;color:#c9d1d9;padding:20px\">{expected}</body></html>"));
    for (bid, ask) in [(99.0, 99.1), (100.5, 100.6), (99.4, 99.5)] {
        let data = format!(r#"{{"bid1Price":"{bid}","ask1Price":"{ask}"}}"#);
        e.handle_message(&message("tickers.BTCUSDT", &data), now());
    }
    let t = e.get_tracker("BTCUSDT").unwrap();
    assert_eq!(t.closed_trades.len(), 2);
    let total: f64 = t.closed_trades.iter().fold(0.0, |a, c| a + f(c.pnl_pct()));
    let page = render(&e.generate_dashboard());
    assert!(page.contains(&format!("{total:+.2}%")));
    let view = render(&e.generate_view_trades_page("BTCUSDT").unwrap());
    assert!(view.contains(&format!("{total:+.2}%")) && view.contains("Not enough data yet."));
    assert!(e.generate_view_trades_page("X").is_none());
    assert!(e.is_listable());
    let manage = render(&e.generate_subs_page());
    assert!(manage.contains("LONG") && manage.contains("SHORT") && manage.contains("BTCUSDT"));
}

#[test]
fn a_flush_forgets_and_reconnects_one_sided() {
    let mut e = RealtimeEngine::new();
    assert!(e.add_tracker("a", Side::Long, None, now()).0);
    assert!(e.add_subscriber(1, Side::Long, n(2.0)));
    e.connect();
    let mut link = Link::new();
    for _ in 0..4 {
        link.follow(LinkEvent::Lost, true);
    }
    assert_eq!(link.pause, 16);
    assert!(matches!(e.flush(&mut link), LinkAction::Reconnect));
    assert_eq!(link.pause, 1);
    assert!(e.all_trackers().is_empty() && e.get_subscribers().is_empty());
    assert!(e.connected && e.running && e.resubscription().is_none());
    link.follow(LinkEvent::Lost, true);
    e.stop();
    assert!(matches!(e.flush(&mut link), LinkAction::Stop));
    assert_eq!(link.pause, 2);
}

#[test]
fn the_gains_of_no_one_sided_trades_add_up_to_minus_zero() {
    let mut e = RealtimeEngine::new();
    assert!(e.add_tracker("BTCUSDT", Side::Long, Some((n(100.0), n(100.1))), now()).0);
    assert!(e.get_tracker("BTCUSDT").unwrap().closed_trades.is_empty());
    let view = render(&e.generate_view_trades_page("BTCUSDT").unwrap());
    assert!(view.contains("-0.00%") && !view.contains("+0.00%"));
}
