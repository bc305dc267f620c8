use trading_engines::figures;
use trading_engines::num::{num, Num};
use trading_engines::numeral::parse_number;

fn n(x: f64) -> Num {
    num(x.to_bits())
}

fn f(x: Num) -> f64 {
    f64::from_bits(x.bits)
}

/// Whether a number is the given float; all NaNs count as the same.
fn same(x: Num, y: f64) -> bool {
    if y.is_nan() {
        f(x).is_nan()
    } else {
        x.bits == y.to_bits()
    }
}

/// A sequence of bit patterns.
struct Patterns {
    state: u64,
}

impl Patterns {
    fn next(&mut self) -> u64 {
        self.state ^= self.state << 13;
        self.state ^= self.state >> 7;
        self.state ^= self.state << 17;
        self.state
    }

    /// A float of any kind, often one near others that were drawn.
    fn float(&mut self) -> f64 {
        let kind = self.next() % 8;
        let bits = self.next();
        match kind {
            0 => f64::from_bits(bits),
            1 => f64::from_bits(bits % 0x20_0000_0000_0000),
            2 => f64::from_bits(0x3FF0_0000_0000_0000 + bits % 0x100_0000_0000_0000),
            3 => (bits % 1_000_000) as f64 / 1000.0,
            4 => -((bits % 1_000_000) as f64) / 64.0,
            5 => f64::from_bits(0x7FE0_0000_0000_0000 + bits % 0x20_0000_0000_0000),
            6 => (bits % 100_000) as f64,
            _ => f64::from_bits(0x3000_0000_0000_0000 + bits % 0x2000_0000_0000_0000),
        }
    }
}

const SPECIAL: [f64; 18] = [
    0.0,
    -0.0,
    1.0,
    -1.0,
    0.5,
    -0.5,
    1.5,
    2.5,
    f64::MIN_POSITIVE,
    f64::MAX,
    f64::MIN,
    f64::INFINITY,
    f64::NEG_INFINITY,
    f64::NAN,
    f64::EPSILON,
    5e-324,
    -5e-324,
    4503599627370497.5,
];

fn check_pair(a: f64, b: f64) {
    let (x, y) = (n(a), n(b));
    assert!(same(x.plus(y), a + b), "{a:e} + {b:e}");
    assert!(same(x.minus(y), a - b), "{a:e} - {b:e}");
    assert!(same(x.times(y), a * b), "{a:e} * {b:e}");
    assert!(same(x.over(y), a / b), "{a:e} / {b:e}");
    assert_eq!(x.below(y), a < b, "{a:e} < {b:e}");
    assert_eq!(x.at_most(y), a <= b, "{a:e} <= {b:e}");
    if !(a == 0.0 && b == 0.0) {
        assert!(same(x.larger(y), a.max(b)), "max {a:e} {b:e}");
        assert!(same(x.smaller(y), a.min(b)), "min {a:e} {b:e}");
    }
}

fn check_one(a: f64) {
    let x = n(a);
    assert!(same(x.rounded(), a.round()), "round {a:e}");
    assert_eq!(x.to_i32(), a as i32, "i32 {a:e}");
    assert_eq!(x.to_i64(), a as i64, "i64 {a:e}");
    assert_eq!(x.negated().bits, (-a).to_bits());
    assert_eq!(x.absolute().bits, a.abs().to_bits());
    assert_eq!(x.nan(), a.is_nan());
    assert_eq!(x.infinite(), a.is_infinite());
    assert_eq!(x.negative(), a.is_sign_negative());
    if !a.is_nan() {
        assert!(same(x.within(n(0.1), n(50.0)), a.clamp(0.1, 50.0)), "clamp {a:e}");
    }
}

#[test]
fn special_values_match_hardware() {
    for a in SPECIAL {
        check_one(a);
        for b in SPECIAL {
            check_pair(a, b);
        }
    }
}

#[test]
fn many_pairs_match_hardware() {
    let mut p = Patterns { state: 0x9E37_79B9_7F4A_7C15 };
    for _ in 0..60_000 {
        let a = p.float();
        let b = p.float();
        check_pair(a, b);
        check_pair(a, SPECIAL[(p.next() % 18) as usize]);
        check_one(a);
    }
}

#[test]
fn neighbours_match_hardware() {
    let mut p = Patterns { state: 12345 };
    for _ in 0..30_000 {
        let a = p.float();
        let b = f64::from_bits(a.to_bits().wrapping_add(p.next() % 5));
        check_pair(a, b);
        check_pair(a, -b);
    }
}

#[test]
fn halves_are_rounded_away_from_zero() {
    for i in -2000..2000 {
        let a = i as f64 / 4.0;
        check_one(a);
    }
    for k in 48..54 {
        let a = (1u64 << k) as f64;
        check_one(a + 0.5);
        check_one(a - 0.5);
        check_one(-a - 1.5);
    }
}

#[test]
fn integers_are_converted_exactly_or_to_the_nearest() {
    let mut p = Patterns { state: 77 };
    for _ in 0..20_000 {
        let k = p.next();
        assert_eq!(Num::from_u64(k).bits, (k as f64).to_bits());
        assert_eq!(Num::from_u64(k >> 20).bits, ((k >> 20) as f64).to_bits());
        let i = k as i32;
        assert_eq!(Num::from_i32(i).bits, (i as f64).to_bits());
        assert_eq!(Num::from_i32(i).to_i32(), i);
    }
    assert_eq!(Num::from_u64(u64::MAX).bits, (u64::MAX as f64).to_bits());
    assert_eq!(Num::from_u64(9007199254740993).bits, 9007199254740992f64.to_bits());
    assert_eq!(Num::from_i32(i32::MIN).bits, (i32::MIN as f64).to_bits());
    assert_eq!(Num::from_i32(0).bits, 0);
}

#[test]
fn casts_saturate() {
    assert_eq!(n(3e9).to_i32(), i32::MAX);
    assert_eq!(n(-3e9).to_i32(), i32::MIN);
    assert_eq!(n(f64::NAN).to_i32(), 0);
    assert_eq!(n(1e19).to_i64(), i64::MAX);
    assert_eq!(n(f64::NEG_INFINITY).to_i64(), i64::MIN);
    assert_eq!(n(-2.9).to_i64(), -2);
    assert_eq!(n(2.9).to_i32(), 2);
}

#[test]
fn constants_are_the_floats_they_name() {
    let all = [
        (figures::ZERO, 0.0),
        (figures::ONE, 1.0),
        (figures::TWO, 2.0),
        (figures::THREE, 3.0),
        (figures::FOUR, 4.0),
        (figures::FIVE, 5.0),
        (figures::SIX, 6.0),
        (figures::SEVEN, 7.0),
        (figures::EIGHT, 8.0),
        (figures::NINE, 9.0),
        (figures::TEN, 10.0),
        (figures::TWENTY, 20.0),
        (figures::THIRTY, 30.0),
        (figures::FIFTY, 50.0),
        (figures::SIXTY, 60.0),
        (figures::SEVENTY, 70.0),
        (figures::HUNDRED, 100.0),
        (figures::ONE_HUNDRED_THIRTY, 130.0),
        (figures::THREE_HUNDRED_FIFTY, 350.0),
        (figures::EIGHT_HUNDRED, 800.0),
        (figures::HALF, 0.5),
        (figures::QUARTER, 0.25),
        (figures::THREE_QUARTERS, 0.75),
        (figures::TENTH, 0.1),
        (figures::FIFTH, 0.2),
        (figures::TWO_FIFTHS, 0.4),
        (figures::THREE_TENTHS, 0.3),
        (figures::THREE_FIFTHS, 0.6),
        (figures::TWENTIETH, 0.05),
        (figures::ONE_AND_A_HALF, 1.5),
        (figures::HALF_PERCENT, 0.005),
        (figures::UP_HALF_PERCENT, 1.005),
        (figures::DOWN_HALF_PERCENT, 0.995),
        (figures::UP_ONE_AND_A_HALF_PERCENT, 1.015),
        (figures::DOWN_ONE_AND_A_HALF_PERCENT, 0.985),
        (figures::THOUSANDTH, 0.001),
        (figures::HAIR, 1e-10),
        (figures::LARGEST, f64::MAX),
        (figures::LOWEST, f64::MIN),
    ];
    for (bits, value) in all {
        assert_eq!(bits, value.to_bits(), "{value}");
    }
}

fn check_text(s: &str) {
    match (parse_number(s), s.parse::<f64>()) {
        (Some(x), Ok(y)) => assert!(same(x, y), "{s}: {} {y}", f(x)),
        (None, Err(_)) => {}
        (x, y) => panic!("{s:?}: {x:?} {y:?}"),
    }
}

#[test]
fn texts_are_read_as_the_standard_library_reads_them() {
    for s in [
        "", "0", "-0", "+0", "1", "-1", "+1", "1.", ".5", "-.5", ".", "-", "+", "e5", "1e5", "1E5",
        "1e+5", "1e-5", "1e", "1e+", "1.5e3", "1.5e-3", "12345.678", "0.1", "0.2", "0.3", "1e308",
        "1.7976931348623157e308", "1.7976931348623158e308", "1.7976931348623159e308", "1e309",
        "4.9e-324", "5e-324", "2e-324", "2.4703282292062327e-324", "2.4703282292062328e-324",
        "2.2250738585072014e-308", "2.2250738585072011e-308", "9007199254740993",
        "9007199254740992.5", "123456789012345678901234567890", "0.000000000000000000001",
        "inf", "-inf", "+inf", "infinity", "Infinity", "INFINITY", "nan", "NaN", "-nan", "infin",
        "na", " 1", "1 ", "1_000", "0x10", "1f", "1e5.5", "--1", "+-1", "1e99999999999999999999",
        "1e-99999999999999999999", "0e99999999999999999999", "00012.50", "1..2", "1.2.3", "\u{661}",
        "6755399441055745.5", "0.30000000000000004", "65432.1", "27123.45",
        "179769313486231580793728971405301", "1e23", "8.5e22", "100000000000000008388608",
    ] {
        check_text(s);
    }
}

#[test]
fn many_texts_are_read_correctly() {
    let mut p = Patterns { state: 4242 };
    for _ in 0..4_000 {
        let x = p.float();
        if x.is_finite() {
            check_text(&format!("{x}"));
            check_text(&format!("{x:e}"));
            check_text(&format!("{x:.3}"));
            check_text(&format!("{x:.20e}"));
        }
        let digits = p.next();
        let point = (p.next() % 19) as usize;
        let mut s = format!("{digits:020}");
        s.insert(point, '.');
        check_text(&s);
        let e = (p.next() % 700) as i64 - 350;
        check_text(&format!("{s}e{e}"));
    }
}

#[test]
fn a_whole_number_is_read_as_itself() {
    for k in [0u64, 7, 10, 123456789, 9007199254740993, u64::MAX] {
        assert_eq!(parse_number(&k.to_string()).unwrap().bits, Num::from_u64(k).bits);
    }
}

#[test]
fn sums_and_products_commute_and_order_is_kept() {
    let values = [0.25, 1.0, 99.5, 27123.45, 1e300];
    for a in values {
        for b in values {
            assert_eq!(n(a).plus(n(b)).bits, n(b).plus(n(a)).bits);
            assert_eq!(n(a).times(n(b)).bits, n(b).times(n(a)).bits);
            if a <= b {
                assert!(n(a).plus(n(3.0)).at_most(n(b).plus(n(3.0))));
                assert!(n(a).over(n(3.0)).at_most(n(b).over(n(3.0))));
                assert!(n(a).times(n(0.3)).at_most(n(b).times(n(0.3))));
                assert!(n(a).rounded().at_most(n(b).rounded()));
                assert!(n(a).to_i32() <= n(b).to_i32());
            }
        }
        assert_eq!(n(a).times(n(1.0)).bits, n(a).bits);
        assert_eq!(n(a).over(n(a)).bits, n(1.0).bits);
        assert_eq!(n(a).minus(n(a)).bits, 0);
    }
}
