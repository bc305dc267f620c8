//! The market data stream: what its messages say, and how it is asked for more.
use vstd::prelude::*;
use vstd::string::*;
use crate::figures;
use crate::json;
use crate::market::KlineData;
use crate::num::{num, Num};
use crate::numeral;
use crate::text;
use crate::time;
use crate::time::Moment;

verus! {

/// A message of the stream, as far as the engines read it.
#[derive(Debug)]
pub struct StreamMessage {
    /// A request was answered with a refusal.
    pub refused: bool,
    /// What a refusal says.
    pub reason: String,
    /// The kind of message.
    pub kind: String,
    /// The message carries an object with data.
    pub has_data: bool,
    /// What the data is about.
    pub topic: String,
    /// The bar is closed.
    pub confirmed: bool,
    pub start: Option<i64>,
    pub open: Option<String>,
    pub high: Option<String>,
    pub low: Option<String>,
    pub close: Option<String>,
    pub volume: Option<String>,
    pub bid: Option<String>,
    pub ask: Option<String>,
    pub mark: Option<String>,
}

/// The contents of a [`StreamMessage`].
#[verifier::ext_equal]
pub struct MessageView {
    pub refused: bool,
    pub reason: Seq<char>,
    pub kind: Seq<char>,
    pub has_data: bool,
    pub topic: Seq<char>,
    pub confirmed: bool,
    pub start: Option<i64>,
    pub open: Option<Seq<char>>,
    pub high: Option<Seq<char>>,
    pub low: Option<Seq<char>>,
    pub close: Option<Seq<char>>,
    pub volume: Option<Seq<char>>,
    pub bid: Option<Seq<char>>,
    pub ask: Option<Seq<char>>,
    pub mark: Option<Seq<char>>,
}

impl View for StreamMessage {
    type V = MessageView;

    open spec fn view(&self) -> MessageView {
        MessageView {
            refused: self.refused,
            reason: self.reason@,
            kind: self.kind@,
            has_data: self.has_data,
            topic: self.topic@,
            confirmed: self.confirmed,
            start: self.start,
            open: json::chars(self.open),
            high: json::chars(self.high),
            low: json::chars(self.low),
            close: json::chars(self.close),
            volume: json::chars(self.volume),
            bid: json::chars(self.bid),
            ask: json::chars(self.ask),
            mark: json::chars(self.mark),
        }
    }
}

/// A text, or nothing where there is none.
pub open spec fn or_empty(o: Option<Seq<char>>) -> Seq<char> {
    match o {
        Some(s) => s,
        None => Seq::empty(),
    }
}

/// A text, or an empty one where there is none.
pub fn text_or_empty(o: Option<String>) -> (r: String)
    ensures
        r@ == or_empty(json::chars(o)),
{
    match o {
        Some(s) => s,
        None => String::new(),
    }
}

/// What a document says as a message of the stream.
pub open spec fn message_in(v: serde_json::Value) -> MessageView {
    MessageView {
        refused: json::at(json::flags(v), "/success"@) == Some(false),
        reason: or_empty(json::at(json::texts(v), "/ret_msg"@)),
        kind: or_empty(json::at(json::texts(v), "/type"@)),
        has_data: json::objects(v).contains("/data"@),
        topic: or_empty(json::at(json::texts(v), "/topic"@)),
        confirmed: json::at(json::flags(v), "/data/confirm"@) == Some(true),
        start: json::at(json::integers(v), "/data/start"@),
        open: json::at(json::texts(v), "/data/open"@),
        high: json::at(json::texts(v), "/data/high"@),
        low: json::at(json::texts(v), "/data/low"@),
        close: json::at(json::texts(v), "/data/close"@),
        volume: json::at(json::texts(v), "/data/volume"@),
        bid: json::at(json::texts(v), "/data/bid1Price"@),
        ask: json::at(json::texts(v), "/data/ask1Price"@),
        mark: json::at(json::texts(v), "/data/markPrice"@),
    }
}

/// The message that a text writes, if it is a document at all.
pub open spec fn message_of(raw: Seq<char>) -> Option<MessageView> {
    match json::document(raw) {
        Ok(v) => Some(message_in(v)),
        Err(_) => None,
    }
}

/// See [`message_of`].
pub fn read_message(raw: &str) -> (r: Option<StreamMessage>)
    ensures
        r is Some <==> message_of(raw@) is Some,
        r is Some ==> Some(r->0@) == message_of(raw@),
{
    let v: serde_json::Value = match json::parse(raw) {
        Ok(v) => v,
        Err(_) => {
            return None;
        },
    };
    let refused: bool = match json::flag_at(&v, "/success") {
        Some(b) => !b,
        None => false,
    };
    let confirmed: bool = match json::flag_at(&v, "/data/confirm") {
        Some(b) => b,
        None => false,
    };
    let m: StreamMessage = StreamMessage {
        refused,
        reason: text_or_empty(json::text_at(&v, "/ret_msg")),
        kind: text_or_empty(json::text_at(&v, "/type")),
        has_data: json::object_at(&v, "/data"),
        topic: text_or_empty(json::text_at(&v, "/topic")),
        confirmed,
        start: json::integer_at(&v, "/data/start"),
        open: json::text_at(&v, "/data/open"),
        high: json::text_at(&v, "/data/high"),
        low: json::text_at(&v, "/data/low"),
        close: json::text_at(&v, "/data/close"),
        volume: json::text_at(&v, "/data/volume"),
        bid: json::text_at(&v, "/data/bid1Price"),
        ask: json::text_at(&v, "/data/ask1Price"),
        mark: json::text_at(&v, "/data/markPrice"),
    };
    assert(m@ =~= message_in(v));
    Some(m)
}

/// The number in a text, if there is a text and it is one.
pub open spec fn number_in(o: Option<Seq<char>>) -> Option<Num> {
    match o {
        Some(s) => numeral::number_of(s),
        None => None,
    }
}

/// See [`number_in`].
pub fn read_number(o: &Option<String>) -> (r: Option<Num>)
    ensures
        r == number_in(json::chars(*o)),
{
    match o {
        Some(s) => numeral::parse_number(s.as_str()),
        None => None,
    }
}

/// A number, or zero where there is none.
pub open spec fn spec_or_zero(o: Option<Num>) -> Num {
    match o {
        Some(n) => n,
        None => num(figures::ZERO),
    }
}

/// A number, or zero where there is none.
#[verifier::when_used_as_spec(spec_or_zero)]
pub fn or_zero(o: Option<Num>) -> (r: Num)
    ensures
        r == spec_or_zero(o),
{
    match o {
        Some(n) => n,
        None => num(figures::ZERO),
    }
}

/// The moment for a number of milliseconds since the epoch. It is the epoch itself
/// where there is no such moment, and where the milliseconds within the second are
/// negative.
pub open spec fn time_of(ts: int) -> Moment {
    if time::representable(ts / 1000, 0) && (ts >= 0 || ts % 1000 == 0) {
        time::moment(ts / 1000, ts % 1000 * 1_000_000)
    } else {
        time::moment(0, 0)
    }
}

/// See [`time_of`].
pub fn bar_time(ts: i64) -> (t: Moment)
    ensures
        t == time_of(ts as int),
{
    let secs: i64 = if ts >= 0 {
        ts / 1000
    } else {
        (-((-(ts as i128)) / 1000)) as i64
    };
    let rest: i64 = (ts as i128 - secs as i128 * 1000) as i64;
    if rest < 0 {
        return Moment::epoch();
    }
    match Moment::at(secs, (rest * 1_000_000) as u32) {
        Some(t) => t,
        None => Moment::epoch(),
    }
}

/// The bar that a message carries: all its prices must be there and be numbers; a
/// missing volume counts as zero.
pub open spec fn bar_of(m: MessageView) -> Option<KlineData> {
    match (m.start, number_in(m.open), number_in(m.high), number_in(m.low), number_in(m.close)) {
        (Some(ts), Some(open), Some(high), Some(low), Some(close)) => Some(
            KlineData {
                ts,
                datetime: time_of(ts as int),
                open,
                high,
                low,
                close,
                volume: or_zero(number_in(m.volume)),
            },
        ),
        _ => None,
    }
}

/// See [`bar_of`].
pub fn parse_kline(m: &StreamMessage) -> (r: Option<KlineData>)
    ensures
        r == bar_of(m@),
{
    let ts: i64 = match m.start {
        Some(ts) => ts,
        None => {
            return None;
        },
    };
    let open: Option<Num> = read_number(&m.open);
    let high: Option<Num> = read_number(&m.high);
    let low: Option<Num> = read_number(&m.low);
    let close: Option<Num> = read_number(&m.close);
    let volume: Num = or_zero(read_number(&m.volume));
    match (open, high, low, close) {
        (Some(open), Some(high), Some(low), Some(close)) => Some(
            KlineData { ts, datetime: bar_time(ts), open, high, low, close, volume },
        ),
        _ => None,
    }
}

/// Whether a message is one that carries market data.
pub open spec fn carries_data(m: MessageView) -> bool {
    !m.refused && (m.kind == "snapshot"@ || m.kind == "delta"@) && m.has_data
}

/// See [`carries_data`].
pub fn is_data(m: &StreamMessage) -> (b: bool)
    ensures
        b == carries_data(m@),
{
    !m.refused && (text::same(m.kind.as_str(), "snapshot") || text::same(m.kind.as_str(), "delta"))
        && m.has_data
}

/// What is behind a prefix of a text.
pub open spec fn behind(s: Seq<char>, prefix: Seq<char>) -> Option<Seq<char>> {
    if text::begins(s, prefix) {
        Some(s.skip(prefix.len() as int))
    } else {
        None
    }
}

/// See [`behind`].
pub fn strip_prefix(s: &str, prefix: &str) -> (r: Option<String>)
    ensures
        json::chars(r) == behind(s@, prefix@),
{
    if text::begins_with(s, prefix) {
        Some(text::without_first(s, prefix.unicode_len()))
    } else {
        None
    }
}

/// The symbol of a topic of bars of any interval: what is behind the second point.
pub open spec fn bar_symbol(topic: Seq<char>) -> Option<Seq<char>> {
    match behind(topic, "kline."@) {
        Some(rest) => {
            let i = text::first_from(rest, 0, '.');
            if i < rest.len() {
                Some(rest.skip(i + 1))
            } else {
                None
            }
        },
        None => None,
    }
}

/// See [`bar_symbol`].
pub fn read_bar_symbol(topic: &str) -> (r: Option<String>)
    ensures
        json::chars(r) == bar_symbol(topic@),
{
    match strip_prefix(topic, "kline.") {
        Some(rest) => {
            let v: Vec<char> = text::chars_of(rest.as_str());
            let i: usize = text::find_from(&v, 0, '.');
            if i < v.len() {
                Some(text::without_first(rest.as_str(), i + 1))
            } else {
                None
            }
        },
        None => None,
    }
}

/// The topic of the bars of a symbol, for an interval in minutes.
pub open spec fn bar_topic(interval: int, symbol: Seq<char>) -> Seq<char> {
    "kline."@ + text::decimal(interval) + "."@ + symbol
}

/// The topic of the quotes of a symbol.
pub open spec fn quote_topic(symbol: Seq<char>) -> Seq<char> {
    "tickers."@ + symbol
}

/// The topics of some symbols, for each the bars and then the quotes.
pub open spec fn topics(interval: int, symbols: Seq<Seq<char>>) -> Seq<Seq<char>>
    decreases symbols.len(),
{
    if symbols.len() == 0 {
        Seq::empty()
    } else {
        topics(interval, symbols.drop_last()).push(bar_topic(interval, symbols.last())).push(
            quote_topic(symbols.last()),
        )
    }
}

/// See [`topics`].
pub fn topic_list(interval: i32, symbols: &Vec<String>) -> (r: Vec<String>)
    ensures
        json::all_chars(r@) == topics(interval as int, json::all_chars(symbols@)),
{
    let mut r: Vec<String> = Vec::new();
    let mut i: usize = 0;
    let ghost all = json::all_chars(symbols@);
    assert(json::all_chars(r@) =~= Seq::<Seq<char>>::empty());
    while i < symbols.len()
        invariant
            i <= symbols@.len(),
            all == json::all_chars(symbols@),
            json::all_chars(r@) == topics(interval as int, all.take(i as int)),
        decreases symbols@.len() - i,
    {
        let ghost before = r@;
        let number: String = text::decimal_text(interval as i64);
        let bars: String = text::concat(
            text::concat(text::concat("kline.", number.as_str()).as_str(), ".").as_str(),
            symbols[i].as_str(),
        );
        let quotes: String = text::concat("tickers.", symbols[i].as_str());
        r.push(bars);
        r.push(quotes);
        proof {
            assert(all.take(i + 1).drop_last() =~= all.take(i as int));
            assert(all.take(i + 1).last() == symbols@[i as int]@);
            assert(json::all_chars(r@) =~= json::all_chars(before).push(bars@).push(quotes@));
        }
        i = i + 1;
    }
    assert(all.take(i as int) =~= all);
    r
}

/// The text of a request on some symbols.
pub open spec fn request(op: Seq<char>, interval: int, symbols: Seq<Seq<char>>) -> Seq<char> {
    json::object_text(
        seq![
            ("op"@, json::FieldView::Text(op)),
            ("args"@, json::FieldView::List(topics(interval, symbols))),
        ],
    )
}

/// See [`request`].
pub fn request_text(op: &str, interval: i32, symbols: &Vec<String>) -> (r: String)
    ensures
        r@ == request(op@, interval as int, json::all_chars(symbols@)),
{
    let mut fields: Vec<(String, json::Field)> = Vec::new();
    fields.push(("op".to_owned(), json::Field::Text(op.to_owned())));
    fields.push(("args".to_owned(), json::Field::List(topic_list(interval, symbols))));
    assert(json::field_views(fields@) =~= seq![
        ("op"@, json::FieldView::Text(op@)),
        (
            "args"@,
            json::FieldView::List(topics(interval as int, json::all_chars(symbols@))),
        ),
    ]);
    json::write_object(fields)
}

/// The text of a request on one symbol.
pub fn request_one(op: &str, interval: i32, symbol: &str) -> (r: String)
    ensures
        r@ == request(op@, interval as int, seq![symbol@]),
{
    let mut symbols: Vec<String> = Vec::new();
    symbols.push(symbol.to_owned());
    assert(json::all_chars(symbols@) =~= seq![symbol@]);
    request_text(op, interval, &symbols)
}

/// What is behind a prefix is what it was put before.
pub proof fn lemma_behind(prefix: Seq<char>, rest: Seq<char>)
    ensures
        behind(prefix + rest, prefix) == Some(rest),
{
    let s = prefix + rest;
    assert(s.subrange(0, prefix.len() as int) =~= prefix);
    assert(s.skip(prefix.len() as int) =~= rest);
}

/// What a document says under a pointer to a text, if anything.
pub open spec fn said(v: serde_json::Value, pointer: Seq<char>) -> Option<Seq<char>> {
    if json::texts(v).dom().contains(pointer) {
        Some(json::texts(v)[pointer])
    } else {
        None
    }
}

/// A message says what its document says under these names, and a text that is no
/// document is no message.
pub proof fn lemma_message_names(raw: Seq<char>)
    ensures
        match json::document(raw) {
            Err(_) => message_of(raw) is None,
            Ok(v) => {
                let m = message_of(raw)->0;
                &&& message_of(raw) is Some
                &&& m.refused <==> json::flags(v).dom().contains("/success"@) && !json::flags(
                    v,
                )["/success"@]
                &&& m.confirmed <==> json::flags(v).dom().contains("/data/confirm"@)
                    && json::flags(v)["/data/confirm"@]
                &&& m.has_data <==> json::objects(v).contains("/data"@)
                &&& said(v, "/type"@) is Some ==> m.kind == said(v, "/type"@)->0
                &&& said(v, "/type"@) is None ==> m.kind.len() == 0
                &&& said(v, "/topic"@) is Some ==> m.topic == said(v, "/topic"@)->0
                &&& said(v, "/topic"@) is None ==> m.topic.len() == 0
                &&& said(v, "/ret_msg"@) is Some ==> m.reason == said(v, "/ret_msg"@)->0
                &&& m.start is Some <==> json::integers(v).dom().contains("/data/start"@)
                &&& m.start is Some ==> m.start->0 == json::integers(v)["/data/start"@]
                &&& m.open == said(v, "/data/open"@)
                &&& m.high == said(v, "/data/high"@)
                &&& m.low == said(v, "/data/low"@)
                &&& m.close == said(v, "/data/close"@)
                &&& m.volume == said(v, "/data/volume"@)
                &&& m.bid == said(v, "/data/bid1Price"@)
                &&& m.ask == said(v, "/data/ask1Price"@)
                &&& m.mark == said(v, "/data/markPrice"@)
            },
        },
{
}

/// Whether a text is there and writes a number.
pub open spec fn writes(o: Option<Seq<char>>, n: Num) -> bool {
    o is Some && numeral::number_of(o->0) == Some(n)
}

/// Whether a text is there and writes some number.
pub open spec fn readable(o: Option<Seq<char>>) -> bool {
    o is Some && numeral::number_of(o->0) is Some
}

/// A message carries a bar exactly where it has a start and four prices that are numbers;
/// each of them is the price of that name, and the volume is zero where there is none.
pub proof fn lemma_bar_prices(m: MessageView)
    ensures
        bar_of(m) is Some <==> m.start is Some && readable(m.open) && readable(m.high) && readable(
            m.low,
        ) && readable(m.close),
        bar_of(m) is Some ==> {
            let k = bar_of(m)->0;
            &&& m.start == Some(k.ts)
            &&& writes(m.open, k.open)
            &&& writes(m.high, k.high)
            &&& writes(m.low, k.low)
            &&& writes(m.close, k.close)
            &&& writes(m.volume, k.volume) || (!readable(m.volume) && k.volume.bits == 0)
            &&& k.datetime == time_of(k.ts as int)
        },
{
}

/// The time of a bar is that of its milliseconds.
pub proof fn lemma_bar_time(ts: int)
    requires
        0 <= ts <= 8_210_266_876_799_999,
    ensures
        time_of(ts).stamp() == ts * 1_000_000,
{
    assert(time::representable(ts / 1000, ts % 1000 * 1_000_000));
    time::lemma_moment(ts / 1000, ts % 1000 * 1_000_000);
    assert(ts == ts / 1000 * 1000 + ts % 1000);
}

/// A number in decimal has no point.
proof fn lemma_no_point(n: int, i: int)
    requires
        0 <= i < text::decimal(n).len(),
    ensures
        text::decimal(n)[i] != '.',
{
    if n < 0 {
        text::lemma_digits((-n) as nat);
        if i > 0 {
            assert(text::decimal(n)[i] == text::digits((-n) as nat)[i - 1]);
            assert(text::is_digit(text::digits((-n) as nat)[i - 1]));
        }
    } else {
        text::lemma_digits(n as nat);
        assert(text::is_digit(text::digits(n as nat)[i]));
    }
}

/// The first point behind a text without one.
proof fn lemma_first_point(head: Seq<char>, rest: Seq<char>, i: int)
    requires
        0 <= i <= head.len(),
        forall|j: int| 0 <= j < head.len() ==> #[trigger] head[j] != '.',
    ensures
        text::first_from(head + "."@ + rest, i, '.') == head.len(),
    decreases head.len() - i,
{
    reveal_strlit(".");
    let s = head + "."@ + rest;
    if i < head.len() {
        assert(s[i] == head[i]);
        lemma_first_point(head, rest, i + 1);
    } else {
        assert(s[i] == '.');
    }
}

/// The symbol that is read from a topic of bars is the one that was asked for, whatever
/// the interval; the same holds of a topic of quotes.
pub proof fn lemma_topics_read_back(interval: int, symbol: Seq<char>)
    ensures
        bar_symbol("kline."@ + text::decimal(interval) + "."@ + symbol) == Some(symbol),
        topics(interval, seq![symbol]) == seq![
            "kline."@ + text::decimal(interval) + "."@ + symbol,
            "tickers."@ + symbol,
        ],
        behind("tickers."@ + symbol, "tickers."@) == Some(symbol),
{
    let head = text::decimal(interval);
    let rest = head + "."@ + symbol;
    reveal_strlit(".");
    assert("kline."@ + head + "."@ + symbol =~= "kline."@ + rest);
    lemma_behind("kline."@, rest);
    assert forall|j: int| 0 <= j < head.len() implies #[trigger] head[j] != '.' by {
        lemma_no_point(interval, j);
    }
    lemma_first_point(head, symbol, 0);
    assert(rest.skip(head.len() as int + 1) =~= symbol);
    lemma_behind("tickers."@, symbol);
    reveal_with_fuel(topics, 2);
    let one = seq![symbol];
    assert(one.drop_last().len() == 0);
    assert(topics(interval, one) =~= seq![
        "kline."@ + head + "."@ + symbol,
        "tickers."@ + symbol,
    ]);
}

/// What is asked for of some symbols is what is asked for of each, one after the other.
pub proof fn lemma_topics_add(interval: int, a: Seq<Seq<char>>, b: Seq<Seq<char>>)
    ensures
        topics(interval, a + b) == topics(interval, a) + topics(interval, b),
    decreases b.len(),
{
    if b.len() == 0 {
        assert(a + b =~= a);
        assert(topics(interval, a) + topics(interval, b) =~= topics(interval, a));
    } else {
        lemma_topics_add(interval, a, b.drop_last());
        assert((a + b).drop_last() =~= a + b.drop_last());
        assert(topics(interval, a + b) =~= topics(interval, a) + topics(interval, b));
    }
}

} // verus!
