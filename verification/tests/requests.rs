use trading_engines::num::{num, Num};
use trading_engines::page::{NumStyle, Page, Piece};
use trading_engines::routes;
use trading_engines::routes::Answer;

fn n(x: f64) -> Num {
    num(x.to_bits())
}

fn f(x: Num) -> f64 {
    f64::from_bits(x.bits)
}

fn some(s: &str) -> Option<String> {
    Some(s.to_string())
}

/// A page as text.
fn render(p: &Page) -> String {
    let mut s = String::new();
    for piece in &p.pieces {
        match piece {
            Piece::Text(t) => s.push_str(t),
            Piece::Number(NumStyle::Plain, x) => s.push_str(&format!("{}", f(*x))),
            Piece::Number(NumStyle::Fixed(d), x) => s.push_str(&format!("{:.*}", *d, f(*x))),
            Piece::Number(NumStyle::Signed(d), x) => s.push_str(&format!("{:+.*}", *d, f(*x))),
        }
    }
    s
}

#[test]
fn parameters_are_read() {
    assert_eq!(routes::read_symbol(&some(" btc\t")), "BTC");
    assert_eq!(routes::read_symbol(&some("straße")), "STRASSE");
    assert_eq!(routes::read_symbol(&None), "");
    assert!(routes::says(&some("json"), "json"));
    assert!(!routes::says(&some("JSON"), "json") && !routes::says(&None, "json"));
    assert_eq!(routes::read_integer_or(&some("-12"), 3), -12);
    assert_eq!(routes::read_integer_or(&some("12.5"), 3), 3);
    assert_eq!(routes::read_integer_or(&None, 3), 3);
    assert_eq!(f(routes::read_number_or(&some("1e3"), n(7.0))), 1000.0);
    assert_eq!(f(routes::read_number_or(&some("e"), n(7.0))), 7.0);
}

#[test]
fn errors_are_answered() {
    assert_eq!(routes::error_text("a \"b\""), r#"{"error":"a \"b\""}"#);
    assert_eq!(routes::not_found("X"), "<h2>Symbol X not found</h2><a href=\"/\">Back</a>");
    assert!(matches!(routes::answer_subscription(&some("subs")), Answer::Manage));
    assert!(matches!(routes::answer_subscription(&some("x")), Answer::Dashboard));
    assert!(routes::read_subscription(&some("-1"), &None).is_none());
    let (id, size) = routes::read_subscription(&some("2147483648"), &some("2.5")).unwrap();
    assert_eq!((id, f(size)), (0, 2.5));
    assert_eq!(routes::read_removal(&some("0")), Some(0));
    assert_eq!(routes::read_removal(&some("-1")), None);
    assert_eq!(routes::read_removal(&None), None);
}

#[test]
fn percentages_are_bounded() {
    for (given, expected) in [("0", 0.1), ("-3", 0.1), ("0.1", 0.1), ("7.25", 7.25), ("50", 50.0), ("51", 50.0), ("inf", 50.0), ("?", 1.5)] {
        assert_eq!(f(routes::read_config(&some(given), &None).0), expected, "{given}");
    }
    let (sl, tp) = routes::read_config(&None, &some("2"));
    assert_eq!((f(sl), f(tp)), (1.5, 2.0));
    assert_eq!(f(routes::read_config(&None, &None).1), 0.5);
    assert!(f(routes::read_config(&some("NaN"), &None).0).is_nan() && f64::NAN.clamp(0.1, 50.0).is_nan());
}

#[test]
fn ghosts_are_not_negative() {
    for (given, expected) in [("5", 5), ("0", 0), ("-5", 0), ("x", 0), ("2147483647", i32::MAX)] {
        assert_eq!(routes::read_ghosts(&some(given)), expected);
    }
    assert_eq!(routes::read_ghosts(&None), 0);
}

#[test]
fn the_configuration_is_shown() {
    let page = render(&routes::config_page(n(1.5), n(0.25), false, 3));
    assert!(page.contains(r#"<span>Stop Loss</span><span class="val">1.5%</span>"#));
    assert!(page.contains(r#"<span>Take Profit</span><span class="val">0.25%</span>"#));
    assert!(page.contains(r#"<span>Reverse Mode</span><span class="val">OFF</span>"#));
    assert!(page.contains(r#"<span>Ghost Trades</span><span class="val">3</span>"#));
    assert!(page.contains(r#"<button type="submit" class="btn-green">Enable Reverse</button>"#));
    assert!(page.contains(r#"name="enabled" value="true""#));
    let page = render(&routes::config_page(n(2.0), n(1.0), true, 0));
    assert!(page.contains(r#"class="val">2%</span>"#) && page.contains("Disable Reverse"));
    assert!(page.contains("Reverse mode is active — entry directions are inverted."));
    assert!(!page.contains("{}") && page.contains("* { box-sizing:border-box;"));
}

#[test]
fn candidates_and_ranks_are_bounded() {
    let many: Vec<String> = (0..150).map(|i| format!("S{i}")).collect();
    let kept = routes::candidates(many);
    assert_eq!((kept.len(), kept[99].as_str()), (100, "S99"));
    assert_eq!(routes::candidates(vec!["A".to_string()]), ["A"]);
    let scores: Vec<Num> = [1.0, f64::NAN, 3.0, -0.0, 3.0, 0.0, -5.0].iter().map(|x| n(*x)).collect();
    assert_eq!(routes::rank_scores(&scores), [2, 4, 0, 3, 5, 6, 1]);
    let many: Vec<Num> = (0..60).map(|i| n(i as f64)).collect();
    assert_eq!(routes::rank_scores(&many), (40..60).rev().collect::<Vec<usize>>());
}
