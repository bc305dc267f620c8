use trading_engines::config::AccountConfig;
use trading_engines::exchange::account::{CachedExchange, ExchangeCache};
use trading_engines::exchange::orders;
use trading_engines::exchange::quantity::{round_qty, step_decimals};
use trading_engines::exchange::replies;
use trading_engines::exchange::requests;
use trading_engines::exchange::signing::sign;
use trading_engines::num::{num, Num};
use trading_engines::page::{NumStyle, Page, Piece};
use trading_engines::table::SymbolTable;
use trading_engines::time::Moment;

fn n(x: f64) -> Num {
    num(x.to_bits())
}

fn f(x: Num) -> f64 {
    f64::from_bits(x.bits)
}

/// A page as text.
fn render(p: &Page) -> String {
    let mut s = String::new();
    for piece in &p.pieces {
        match piece {
            Piece::Text(t) => s.push_str(t),
            Piece::Number(NumStyle::Plain, x) => s.push_str(&format!("{}", f(*x))),
            Piece::Number(NumStyle::Fixed(d), x) => s.push_str(&format!("{:.*}", *d, f(*x))),
            Piece::Number(NumStyle::Signed(d), x) => s.push_str(&format!("{:+.*}", *d, f(*x))),
        }
    }
    s
}

#[test]
fn signatures_are_those_of_known_messages() {
    assert_eq!(
        sign("what do ya want for nothing?", "Jefe"),
        "5bdcc146bf60754e6a042426089575c75a003f089d2739839dec58b964ec3843"
    );
    assert_eq!(
        sign("The quick brown fox jumps over the lazy dog", "key"),
        "f7bc83f430538424b13298e6aa6fb143ef4d59a14946175997479dbc2d1a3cd8"
    );
    assert_eq!(sign("", ""), "b613679a0814d9ec772f95d778c35fc5ff1697c493715653c6c712144292c5ad");
    assert_ne!(sign("a", "b"), sign("b", "a"));
}

fn account(id: i32, demo: bool) -> AccountConfig {
    AccountConfig {
        id,
        apikey: format!("key{id}"),
        secret: format!("secret{id}"),
        demo,
        testnet: false,
        base_url: "https://base".to_string(),
        base_url_demo: "https://demo".to_string(),
        base_url_prod: "https://prod".to_string(),
        quote_asset: "USDT".to_string(),
        papi: false,
    }
}

#[test]
fn accounts_are_kept_once_they_are_known() {
    let mut cache = ExchangeCache::new();
    let first = vec![account(2, true), account(1, false)];
    assert!(!cache.knows(&first, 3));
    assert!(cache.knows(&first, 2) && !cache.knows(&Vec::new(), 2));
    let ex = cache.get_exchange(&first, 2);
    assert_eq!((ex.api_key.as_str(), ex.secret.as_str(), ex.base_url.as_str()), ("key2", "secret2", "https://demo"));
    assert_eq!(cache.get_exchange(&first, 1).base_url, "https://prod");
    let later = vec![account(2, false)];
    assert_eq!(cache.get_exchange(&later, 2).base_url, "https://demo");
    assert!(cache.knows(&Vec::new(), 1) && cache.knows(&Vec::new(), 2));
    assert_eq!(cache.get_exchange(&Vec::new(), 1).api_key, "key1");
    assert_eq!(cache.entries.len(), 2);
}

fn exchange() -> CachedExchange {
    CachedExchange {
        api_key: "KEY".to_string(),
        secret: "SECRET".to_string(),
        base_url: "https://x".to_string(),
    }
}

#[test]
fn posts_are_signed_over_the_body() {
    let r = requests::post_request(&exchange(), "/v5/order/create", "{\"a\":1}".to_string(), 1700000000123);
    assert_eq!(r.url, "https://x/v5/order/create");
    assert_eq!(r.body.as_deref(), Some("{\"a\":1}"));
    let expected = sign("1700000000123KEY5000{\"a\":1}", "SECRET");
    let headers: Vec<(&str, &str)> = r.headers.iter().map(|h| (h.0.as_str(), h.1.as_str())).collect();
    assert_eq!(
        headers,
        [
            ("X-BAPI-API-KEY", "KEY"),
            ("X-BAPI-TIMESTAMP", "1700000000123"),
            ("X-BAPI-SIGN", expected.as_str()),
            ("X-BAPI-RECV-WINDOW", "5000"),
            ("X-BAPI-SIGN-TYPE", "2"),
            ("Content-Type", "application/json"),
        ]
    );
}

#[test]
fn gets_are_signed_over_the_query() {
    let params = vec![
        ("category".to_string(), "linear".to_string()),
        ("symbol".to_string(), "BTCUSDT".to_string()),
        ("limit".to_string(), "50".to_string()),
    ];
    let r = requests::get_request(&exchange(), "/v5/order/realtime", &params, -5);
    let q = "category=linear&symbol=BTCUSDT&limit=50";
    assert_eq!(requests::query_text(&params), q);
    assert_eq!(r.url, format!("https://x/v5/order/realtime?{q}"));
    assert!(r.body.is_none());
    assert_eq!(r.headers.len(), 5);
    assert_eq!(r.headers[2].1, sign(&format!("-5KEY5000{q}"), "SECRET"));
    let r = requests::get_request(&exchange(), "/v5/x", &Vec::new(), 7);
    assert_eq!(r.url, "https://x/v5/x");
    assert_eq!(r.headers[2].1, sign("7KEY5000", "SECRET"));
}

#[test]
fn market_data_has_addresses() {
    assert_eq!(
        requests::ticker_url("BTCUSDT"),
        "https://api.bybit.com/v5/market/tickers?category=linear&symbol=BTCUSDT"
    );
    assert_eq!(
        requests::kline_url("X", 5, 576),
        "https://api.bybit.com/v5/market/kline?category=linear&symbol=X&interval=5&limit=576"
    );
    assert_eq!(requests::perps_url(), "https://api.bybit.com/v5/market/tickers?category=linear&limit=1000");
    assert_eq!(
        requests::instrument_url("X"),
        "https://api.bybit.com/v5/market/instruments-info?category=linear&symbol=X"
    );
}

#[test]
fn orders_are_written() {
    assert_eq!(
        orders::limit_order_body("X", true, "1.5", "10", "11", "9"),
        r#"{"category":"linear","orderType":"Limit","positionIdx":1,"price":"10","qty":"1.5","side":"Buy","stopLoss":"9","symbol":"X","takeProfit":"11","timeInForce":"GTC","tpslMode":"Full"}"#
    );
    assert!(orders::limit_order_body("X", false, "1", "2", "3", "4").contains(r#""side":"Sell","stopLoss":"4""#));
    assert_eq!(
        orders::market_order_body("X", false, "2"),
        r#"{"category":"linear","orderType":"Market","positionIdx":2,"qty":"2","side":"Sell","symbol":"X","timeInForce":"IOC"}"#
    );
    assert_eq!(
        orders::closing_order_body("X", false, "2"),
        r#"{"category":"linear","orderType":"Market","positionIdx":2,"qty":"2","reduceOnly":true,"side":"Buy","symbol":"X","timeInForce":"IOC"}"#
    );
    assert!(orders::closing_order_body("X", true, "2").contains(r#""side":"Sell""#));
    assert_eq!(orders::cancel_all_body("X\"Y"), r#"{"category":"linear","symbol":"X\"Y"}"#);
    assert_eq!(orders::cancel_body("X", "o1"), r#"{"category":"linear","orderId":"o1","symbol":"X"}"#);
}

/// As many decimals as the first ten of a step need.
fn plain_decimals(step: f64) -> usize {
    if step >= 1.0 {
        return 0;
    }
    let s = format!("{step:.10}");
    let trimmed = s.trim_end_matches('0');
    trimmed.find('.').map(|dot| trimmed[dot + 1..].len()).unwrap_or(0)
}

fn plain_rounded(qty: f64, step: f64) -> String {
    if step <= 0.0 {
        return format!("{}", qty as i64);
    }
    format!("{:.*}", plain_decimals(step), (qty / step).round() * step)
}

#[test]
fn quantities_are_brought_to_steps() {
    let steps = [
        1.0, 10.0, 0.1, 0.01, 0.001, 0.0001, 0.00001, 0.5, 0.25, 0.125, 1e-9, 1e-10, 4e-11, 5e-11, 6e-11, 0.3,
        0.0, -0.0, -1.0, -0.5, 0.9999999999, 0.99999999999, 1e300, f64::INFINITY, f64::NEG_INFINITY, f64::NAN,
        0.0123456789, 1.0 / 3.0, f64::MIN_POSITIVE,
    ];
    let qtys = [0.0, 1.0, 1.5, 0.00123, 123.456, 99999.99, -2.5, 1e18, 1e30, f64::NAN, f64::INFINITY];
    for step in steps {
        assert_eq!(step_decimals(n(step)), plain_decimals(step), "{step}");
        for qty in qtys {
            assert_eq!(render(&round_qty(n(qty), n(step))), plain_rounded(qty, step), "{qty} {step}");
        }
    }
    assert_eq!(render(&round_qty(n(0.12345), n(0.001))), "0.123");
    assert_eq!(render(&round_qty(n(17.0), n(10.0))), "20");
    assert_eq!(render(&round_qty(n(17.9), n(0.0))), "17");
}

#[test]
fn replies_are_checked() {
    assert_eq!(replies::check_reply(r#"{"retCode":0,"x":1}"#).unwrap()["x"], 1);
    assert_eq!(replies::check_reply(r#"{"retCode": 5}"#).unwrap_err(), r#"API error: {"retCode": 5}"#);
    assert_eq!(replies::check_reply("{}").unwrap_err(), "API error: {}");
    assert_eq!(
        replies::check_reply("oops").unwrap_err(),
        serde_json::from_str::<serde_json::Value>("oops").unwrap_err().to_string()
    );
    assert_eq!(
        replies::check_market_reply(r#"{ "retCode" : 5 }"#, "kline error: ").unwrap_err(),
        r#"kline error: {"retCode":5}"#
    );
    assert_eq!(replies::check_market_reply("", "x").unwrap_err(), "error decoding response body");
}

fn listed(list: &str) -> String {
    format!(r#"{{"retCode":0,"result":{{"list":{list}}}}}"#)
}

#[test]
fn prices_are_read_from_replies() {
    assert_eq!(f(replies::read_last_price(&listed(r#"[{"lastPrice":"27.5"}]"#)).unwrap()), 27.5);
    for (list, error) in [
        (r#"[]"#, "no lastPrice"),
        (r#"[{"lastPrice":27.5}]"#, "no lastPrice"),
        (r#"[{"lastPrice":""}]"#, "cannot parse float from empty string"),
        (r#"[{"lastPrice":"x"}]"#, "invalid float literal"),
    ] {
        assert_eq!(replies::read_last_price(&listed(list)).unwrap_err(), error);
    }
    assert_eq!(replies::read_last_price(r#"{"retCode":1}"#).unwrap_err(), r#"ticker error: {"retCode":1}"#);
    let (bid, ask) = replies::read_quote(&listed(r#"[{"bid1Price":"1","ask1Price":"2"}]"#)).unwrap();
    assert_eq!((f(bid), f(ask)), (1.0, 2.0));
    for (list, error) in [
        (r#"[{"ask1Price":"2"}]"#, "no bid1Price"),
        (r#"[{"bid1Price":"1"}]"#, "no ask1Price"),
        (r#"[{"bid1Price":"q"}]"#, "invalid float literal"),
    ] {
        assert_eq!(replies::read_quote(&listed(list)).unwrap_err(), error);
    }
}

#[test]
fn past_bars_are_read_oldest_first() {
    let list = r#"[["120000","5","6","4","5.5","9"],["60000","1","x",3],[]]"#;
    let bars = replies::read_klines(&listed(list)).unwrap();
    assert_eq!(bars.iter().map(|k| k.ts).collect::<Vec<_>>(), [0, 60000, 120000]);
    assert_eq!((f(bars[1].open), f(bars[1].high), f(bars[1].low)), (1.0, 0.0, 0.0));
    assert_eq!((f(bars[2].close), f(bars[2].volume)), (5.5, 9.0));
    assert_eq!(bars[2].datetime, Moment::at(120, 0).unwrap());
    assert_eq!(replies::read_klines(&listed(r#"[[],{}]"#)).unwrap_err(), "kline not array");
    assert_eq!(replies::read_klines(r#"{"retCode":0}"#).unwrap_err(), "no kline list");
    assert_eq!(replies::read_klines(r#"{"retCode":2}"#).unwrap_err(), r#"kline error: {"retCode":2}"#);
}

#[test]
fn contracts_are_selected() {
    let list = r#"[{"symbol":"AUSDT"},{"symbol":"BEUR"},{"symbol":3},{},{"symbol":"CUSDC"},7]"#;
    assert_eq!(replies::read_perps(&listed(list)).unwrap(), ["AUSDT", "CUSDC"]);
    assert_eq!(replies::read_perps(r#"{"retCode":0}"#).unwrap_err(), "no list");
    assert_eq!(replies::read_perps(r#"{"retCode":2}"#).unwrap_err(), r#"tickers error: {"retCode":2}"#);
}

#[test]
fn steps_are_read_and_kept() {
    let rules = |step: &str| Some(listed(&format!(r#"[{{"lotSizeFilter":{{"qtyStep":{step}}}}}]"#)));
    assert_eq!(f(replies::read_qty_step(&rules("\"0.1\""))), 0.1);
    for raw in [rules("\"x\""), rules("0.1"), None, Some("?".to_string()), Some(r#"{"retCode":1}"#.to_string())] {
        assert_eq!(f(replies::read_qty_step(&raw)), 0.001);
    }
    let mut kept: SymbolTable<Num> = SymbolTable::new();
    assert_eq!(f(replies::get_qty_step(&mut kept, "A", &rules("\"5\""))), 5.0);
    assert_eq!(f(replies::get_qty_step(&mut kept, "A", &rules("\"6\""))), 5.0);
    assert_eq!(f(replies::get_qty_step(&mut kept, "B", &None)), 0.001);
    assert_eq!(f(replies::get_qty_step(&mut kept, "B", &rules("\"6\""))), 0.001);
    assert_eq!(kept.len(), 2);
}

#[test]
fn positions_are_closed_on_their_side() {
    let list = r#"[
        {"size":"1.5","side":"Buy","symbol":"A"},
        {"size":"2","side":"Sell","symbol":"B"},
        {"size":"0","side":"Buy","symbol":"C"},
        {"size":"x","side":"Buy","symbol":"D"},
        {"size":"1","side":"None","symbol":"E"},
        {"size":"3","side":"Sell"}
    ]"#;
    let found = replies::read_closings(&listed(list)).unwrap();
    let seen: Vec<(&str, bool, f64)> = found.iter().map(|c| (c.symbol.as_str(), c.long, f(c.size))).collect();
    assert_eq!(seen, [("A", true, 1.5), ("B", false, 2.0), ("", false, 3.0)]);
    assert!(replies::read_closings(r#"{"retCode":0}"#).unwrap().is_empty());
    assert_eq!(replies::read_closings(r#"{"retCode":9}"#).unwrap_err(), r#"API error: {"retCode":9}"#);
}

#[test]
fn orders_become_old_after_three_minutes() {
    let now = Moment::at(1_000_000, 0).unwrap();
    let order = |id: &str, stop: &str, status: &str, created: &str| {
        format!(r#"{{"orderId":"{id}","stopOrderType":"{stop}","orderStatus":"{status}","createdTime":"{created}"}}"#)
    };
    let list = [
        order("a", "", "New", "999820000"),
        order("b", "", "New", "999820001"),
        order("c", "", "PartiallyFilled", "0"),
        order("d", "", "Untriggered", "x"),
        order("e", "TakeProfit", "New", "0"),
        order("f", "", "Filled", "0"),
        order("", "", "New", "0"),
        r#"{"orderStatus":"New","orderId":"g"}"#.to_string(),
        order("h", "", "New", "9223372036854775807"),
    ];
    let found = replies::read_stale_orders(&listed(&format!("[{}]", list.join(","))), &now).unwrap();
    assert_eq!(found, ["a", "c", "d", "g", "h"]);
    assert!(replies::read_stale_orders(r#"{"retCode":0}"#, &now).unwrap().is_empty());
    assert!(replies::read_stale_orders("?", &now).is_err());
}

#[test]
fn milliseconds_are_moments() {
    for millis in [0i64, 1, -1, -1000, -1001, 1_700_000_000_999, i64::MAX, i64::MIN, 8_210_266_876_799_999, 8_210_266_876_800_000] {
        let theirs = chrono::DateTime::from_timestamp_millis(millis).map(|t| t.timestamp_millis()).unwrap_or(0);
        assert_eq!(replies::make_moment(millis).millis(), theirs, "{millis}");
    }
}
