use pwsh_core::number::Number;

fn num(x: f64) -> Number {
    Number::from_bits(x.to_bits())
}

#[test]
fn number_whole_text_has_no_point() {
    assert_eq!(num(42.0).display(), "42");
    assert_eq!(num(-7.0).display(), "-7");
    assert_eq!(num(0.0).display(), "0");
    assert_eq!(num(9007199254740991.0).display(), "9007199254740991");
}

#[test]
fn number_fraction_text_is_shortest() {
    assert_eq!(num(3.15).display(), "3.15");
    assert_eq!(num(0.1).display(), "0.1");
    assert_eq!(num(1.5).display(), "1.5");
    assert_eq!(num(-2.25).display(), "-2.25");
    assert_eq!(num(0.0000001).display(), "0.0000001");
}

#[test]
fn number_large_whole_text() {
    assert_eq!(num(1e20).display(), "100000000000000000000");
    assert_eq!(num(18014398509481984.0).display(), "18014398509481984");
}

#[test]
fn number_special_text() {
    assert_eq!(num(f64::NAN).display(), "NaN");
    assert_eq!(num(f64::INFINITY).display(), "inf");
    assert_eq!(num(f64::NEG_INFINITY).display(), "-inf");
}

#[test]
fn number_parse_matches_std() {
    for text in ["0", "7", "42", "3.15", "0.1", "1e3", "1.5E-7", "-2.5", "+4", "123456789012345678", "5.", ".5", "9007199254740993"] {
        let expected: f64 = text.parse().unwrap();
        assert_eq!(Number::parse(text), Some(num(expected)), "{}", text);
    }
    assert_eq!(Number::parse("inf"), Some(num(f64::INFINITY)));
    assert_eq!(Number::parse("-Infinity"), Some(num(f64::NEG_INFINITY)));
    assert!(Number::parse("nan").unwrap().is_nan());
}

#[test]
fn number_parse_rejects() {
    for text in ["", ".", "abc", "1.2.3", "1e", "--1", "1 ", " 1", "e5", "0x10"] {
        assert_eq!(Number::parse(text), None, "{}", text);
    }
}

#[test]
fn number_arithmetic_matches_std() {
    let cases = [(5.0, 3.0), (10.0, 4.0), (0.1, 0.2), (-7.5, 2.0), (1e300, 1e300), (1.0, 3.0)];
    for (a, b) in cases {
        assert_eq!(num(a).add(num(b)), num(a + b));
        assert_eq!(num(a).subtract(num(b)), num(a - b));
        assert_eq!(num(a).multiply(num(b)), num(a * b));
        assert_eq!(num(a).divide(num(b)), num(a / b));
        assert_eq!(num(a).remainder(num(b)), num(a % b));
    }
}

#[test]
fn number_order_matches_std() {
    let xs = [0.0, -0.0, 1.0, -1.0, 2.5, -2.5, f64::INFINITY, f64::NEG_INFINITY, f64::NAN, 1e-320];
    for a in xs {
        for b in xs {
            assert_eq!(num(a).less_than(num(b)), a < b);
            assert_eq!(num(a).equals(num(b)), a == b);
            assert_eq!(num(a).less_or_equal(num(b)), a <= b);
        }
        assert_eq!(num(a).is_zero(), a == 0.0);
        assert_eq!(num(a).negate(), num(-a));
    }
}

#[test]
fn number_whole_round_trip() {
    for n in [0u64, 1, 9, 10, 255, 1 << 52, (1 << 53) - 1, 999_999_999_999_999, 1_000_000_000_000_000] {
        for negative in [false, true] {
            let x = Number::from_whole(negative, n).unwrap();
            let expected = if negative { -(n as f64) } else { n as f64 };
            assert_eq!(x, num(expected));
            assert_eq!(x.whole(), Some((negative, n)));
            assert_eq!(Number::parse(&x.display()), Some(x));
        }
    }
    assert_eq!(Number::from_whole(false, 1 << 53), None);
    assert_eq!(num(0.5).whole(), None);
    assert_eq!(num(9007199254740992.0).whole(), None);
}
