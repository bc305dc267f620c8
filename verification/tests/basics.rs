use trading_engines::config::{get_account, has_account, AccountConfig};
use trading_engines::link::{Link, LinkAction, LinkEvent};
use trading_engines::order;
use trading_engines::roster::Roster;
use trading_engines::stream;
use trading_engines::symbols;
use trading_engines::table::SymbolTable;
use trading_engines::text;
use trading_engines::time;
use trading_engines::time::Moment;
use trading_engines::num::{num, Num};

fn n(x: f64) -> Num {
    num(x.to_bits())
}

#[test]
fn blanks_are_trimmed_as_the_standard_library_does() {
    for s in ["", " ", "a", " a ", "\t\na b\r ", "\u{a0}x\u{3000}", "\u{200b}x", "x\u{2028}", "  "] {
        assert_eq!(text::trim(s), s.trim());
    }
    for c in '\0'..=char::MAX {
        let s = c.to_string();
        assert_eq!(text::trim(&s).is_empty(), c.is_whitespace(), "{c:?}");
        let n = c as u32;
        let property = matches!(n, 0x9..=0xD | 0x20 | 0x85 | 0xA0 | 0x1680 | 0x2000..=0x200A)
            || matches!(n, 0x2028 | 0x2029 | 0x202F | 0x205F | 0x3000);
        assert_eq!(c.is_whitespace(), property, "{c:?}");
    }
}

#[test]
fn integers_are_read_as_the_standard_library_reads_them() {
    for s in [
        "0", "-0", "+0", "1", "-1", "+1", "007", "", "-", "+", "--1", "1.0", " 1", "1 ", "2147483647",
        "2147483648", "-2147483648", "-2147483649", "99999999999999999999", "12a", "\u{661}",
    ] {
        assert_eq!(
            text::parse_integer(s, i32::MIN as i64, i32::MAX as i64),
            s.parse::<i32>().ok().map(|x| x as i64),
            "{s:?}"
        );
        assert_eq!(text::parse_integer(s, i64::MIN, i64::MAX), s.parse::<i64>().ok(), "{s:?}");
    }
    let huge = "1".repeat(400);
    assert_eq!(text::parse_integer(&huge, i64::MIN, i64::MAX), None);
    assert_eq!(text::parse_integer("9223372036854775807", i64::MIN, i64::MAX), Some(i64::MAX));
    assert_eq!(text::parse_integer("-9223372036854775808", i64::MIN, i64::MAX), Some(i64::MIN));
}

#[test]
fn integers_are_read_back_from_their_text() {
    for k in [0i64, 1, -1, 9, 10, -10, 12345, -98765, i64::MAX, i64::MIN] {
        assert_eq!(text::decimal_text(k), k.to_string());
        assert_eq!(text::parse_integer(&text::decimal_text(k), i64::MIN, i64::MAX), Some(k));
    }
    assert_eq!(text::digits_text(u64::MAX), u64::MAX.to_string());
}

#[test]
fn parts_of_texts_are_found_and_erased() {
    assert!(text::begins_with("kline.1.BTC", "kline.1."));
    assert!(!text::begins_with("kline", "kline."));
    assert!(text::begins_with("abc", ""));
    assert!(text::ends_with("BTCUSDT", "USDT"));
    assert!(!text::ends_with("SDT", "USDT"));
    assert_eq!(text::erase("BTC/USDT:USDT", "/USDT:USDT"), "BTC");
    for (s, p) in [("aaaa", "aa"), ("ababab", "aba"), ("xyz", "q"), ("/USDT/USDT", "/USDT"), ("é/é", "/")] {
        assert_eq!(text::erase(s, p), s.replace(p, ""));
    }
    assert_eq!(text::concat("ab", "cd"), "abcd");
    assert!(text::same("New", "New"));
    assert!(!text::same("New", "new"));
    assert_eq!(text::without_first("→x", 1), "x");
}

#[test]
fn texts_are_compared_in_dictionary_order() {
    let all = ["", "A", "AB", "B", "BTCUSDT", "ETHUSDT", "a", "é", "\u{10000}"];
    for a in all {
        for b in all {
            assert_eq!(text::comes_before(a, b), a < b, "{a} {b}");
        }
    }
}

#[test]
fn names_are_resolved_to_those_of_the_exchange() {
    for (given, name, usdt_only) in [
        ("btc", "BTCUSDT", "BTCUSDT"),
        (" eth ", "ETHUSDT", "ETHUSDT"),
        ("BTCUSDT", "BTCUSDT", "BTCUSDT"),
        ("solusdc", "SOLUSDC", "SOLUSDCUSDT"),
        ("USDT", "USDTUSDT", "USDTUSDT"),
        ("USDC", "USDCUSDT", "USDCUSDT"),
        ("BTC/USDT", "BTC", "BTC"),
        ("btc/usdt:usdt", "BTC", "BTC"),
        ("ETH/USDC:USDC", "ETH", "ETH/USDC:USDC"),
        ("ETH/USDC", "ETH", "ETH/USDC"),
        ("ETH/EUR", "ETH/EUR", "ETH/EUR"),
        ("", "USDT", "USDT"),
    ] {
        assert_eq!(symbols::resolve(given), name, "{given}");
        assert_eq!(symbols::resolve_usdt(given), usdt_only, "{given}");
    }
}

#[test]
fn a_resolved_name_stays() {
    for given in ["btc", "ethusdt", "solusdc", "x"] {
        let name = symbols::resolve(given);
        assert_eq!(symbols::resolve(&name), name);
        let name = symbols::resolve_usdt(given);
        assert_eq!(symbols::resolve_usdt(&name), name);
    }
}

#[test]
fn a_table_keeps_what_was_put_last() {
    let mut t: SymbolTable<Num> = SymbolTable::new();
    for (k, v) in [("ETH", 1.0), ("BTC", 2.0), ("SOL", 3.0), ("ETH", 4.0), ("ADA", 5.0)] {
        t.insert(k.to_string(), n(v));
    }
    let keys: Vec<String> = t.keys();
    assert_eq!(keys, ["ADA", "BTC", "ETH", "SOL"]);
    assert_eq!(t.len(), 4);
    assert_eq!(t.get("ETH").unwrap().bits, n(4.0).bits);
    assert!(t.get("XRP").is_none());
    t.remove("BTC");
    t.remove("BTC");
    assert!(t.get("BTC").is_none());
    assert_eq!(t.get("SOL").unwrap().bits, n(3.0).bits);
}

#[test]
fn a_roster_keeps_what_was_put_last() {
    let mut r: Roster<u64> = Roster::new();
    for (k, v) in [(5, 50u64), (-1, 10), (3, 30), (5, 55)] {
        r.insert(k, v);
    }
    let ids: Vec<i32> = r.entries.iter().map(|e| e.0).collect();
    assert_eq!(ids, [-1, 3, 5]);
    assert_eq!(r.entries[2].1, 55);
    assert!(r.remove(3));
    assert!(!r.remove(3));
    assert_eq!(r.entries.len(), 2);
}

#[test]
fn a_ranking_is_descending_and_stable() {
    let keys: Vec<i128> = vec![3, 9, 3, -1, 9, 0];
    assert_eq!(order::rank(&keys), [1, 4, 0, 2, 5, 3]);
    assert_eq!(order::rank(&Vec::new()), Vec::<usize>::new());
}

#[test]
fn moments_are_those_of_the_calendar() {
    for (secs, nanos) in [
        (0i64, 0u32),
        (1_700_000_000, 999_999_999),
        (-1, 5),
        (time::FIRST_SECOND, 0),
        (time::FIRST_SECOND - 1, 0),
        (time::LAST_SECOND, 999_999_999),
        (time::LAST_SECOND + 1, 0),
        (i64::MAX, 0),
        (i64::MIN, 0),
        (0, 2_000_000_000),
        (0, u32::MAX),
    ] {
        let theirs = chrono::DateTime::from_timestamp(secs, nanos);
        let ours = Moment::at(secs, nanos);
        assert_eq!(ours.is_some(), theirs.is_some(), "{secs} {nanos}");
        if let (Some(a), Some(b)) = (ours, theirs) {
            assert_eq!(a.millis(), b.timestamp_millis());
            assert_eq!(time::clock_text(&a), b.format("%H:%M:%S").to_string());
            assert_eq!(a.nanoseconds(), secs as i128 * 1_000_000_000 + nanos as i128);
        }
    }
}

#[test]
fn moments_are_ordered_and_subtracted() {
    let a = Moment::at(100, 500_000_000).unwrap();
    let b = Moment::at(160, 400_000_000).unwrap();
    assert!(b.at_or_after(&a) && !a.at_or_after(&b) && a.at_or_after(&a));
    assert_eq!(b.seconds_since(&a), 59);
    assert_eq!(a.seconds_since(&b), -59);
    assert_eq!(time::span_text(59), "0m59s");
    assert_eq!(time::span_text(3725), "62m5s");
    assert_eq!(time::span_text(-59), format!("{}m{}s", -59 / 60, -59 % 60));
    assert_eq!(time::span_text(-125), format!("{}m{}s", -125 / 60, -125 % 60));
}

#[test]
fn bar_times_are_milliseconds() {
    assert_eq!(stream::bar_time(1_700_000_123_456), Moment::at(1_700_000_123, 456_000_000).unwrap());
    assert_eq!(stream::bar_time(-1), Moment::epoch());
    assert_eq!(stream::bar_time(-2000), Moment::at(-2, 0).unwrap());
    assert_eq!(stream::bar_time(i64::MAX), Moment::epoch());
    assert_eq!(stream::bar_time(i64::MIN), Moment::epoch());
}

fn account(id: i32, demo: bool, testnet: bool) -> AccountConfig {
    AccountConfig {
        id,
        apikey: format!("key{id}"),
        secret: format!("secret{id}"),
        demo,
        testnet,
        base_url: "base".to_string(),
        base_url_demo: "demo".to_string(),
        base_url_prod: "prod".to_string(),
        quote_asset: "USDT".to_string(),
        papi: false,
    }
}

#[test]
fn accounts_are_found_by_number() {
    let mut all = vec![account(1, false, false), account(2, true, false), account(2, false, false)];
    all.push(account(3, false, true));
    assert!(has_account(&all, 1) && has_account(&all, 2) && has_account(&all, 3));
    assert_eq!(get_account(&all, 1).base_url(), "prod");
    assert_eq!(get_account(&all, 2).base_url(), "demo");
    assert_eq!(get_account(&all, 3).base_url(), "demo");
    assert!(!has_account(&all, 4));
    assert!(!has_account(&Vec::new(), 1));
}

#[test]
fn the_pause_doubles_up_to_half_a_minute() {
    let mut link = Link::new();
    let mut seen = Vec::new();
    for _ in 0..7 {
        match link.follow(LinkEvent::Lost, true) {
            LinkAction::Wait(secs) => seen.push(secs),
            other => panic!("{other:?}"),
        }
    }
    assert_eq!(seen, [1, 2, 4, 8, 16, 30, 30]);
    assert!(matches!(link.follow(LinkEvent::Opened, true), LinkAction::Serve));
    assert!(matches!(link.follow(LinkEvent::Lost, false), LinkAction::Stop));
    assert!(matches!(link.follow(LinkEvent::Lost, true), LinkAction::Wait(1)));
}

#[test]
fn requests_name_bars_and_quotes() {
    let v: serde_json::Value = serde_json::from_str(&stream::request_one("subscribe", 5, "BTCUSDT")).unwrap();
    assert_eq!(v["op"], "subscribe");
    assert_eq!(v["args"][0], "kline.5.BTCUSDT");
    assert_eq!(v["args"][1], "tickers.BTCUSDT");
    assert_eq!(v["args"].as_array().unwrap().len(), 2);
    let both = stream::request_text("unsubscribe", 1, &vec!["A".to_string(), "B".to_string()]);
    let v: serde_json::Value = serde_json::from_str(&both).unwrap();
    assert_eq!(v["args"].as_array().unwrap().len(), 4);
    assert_eq!(v["args"][2], "kline.1.B");
}

#[test]
fn a_flushed_link_reconnects_at_once() {
    let mut link = Link::new();
    for _ in 0..9 {
        link.follow(LinkEvent::Lost, true);
    }
    let longest = link.pause;
    assert!(longest > 1);
    assert!(matches!(link.follow(LinkEvent::Flushed, false), LinkAction::Stop));
    assert_eq!(link.pause, longest);
    assert!(matches!(link.follow(LinkEvent::Flushed, true), LinkAction::Reconnect));
    assert_eq!(link.pause, 1);
}
