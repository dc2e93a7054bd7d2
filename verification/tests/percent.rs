use rust_yt::percent::Percent;

fn read(s: &str) -> Option<Percent> {
    let chars: Vec<char> = s.chars().collect();
    Percent::from_numeral(&chars)
}

/// The parts of the fraction that a text is read as, where it is read and
/// kept as a fraction.
fn numeral(s: &str) -> Option<(u128, u128)> {
    read(s).map(|p| p.as_fraction().unwrap())
}

#[test]
fn fraction_needs_a_denominator() {
    assert_eq!(Percent::new(1, 0), None);
    let p = Percent::new(453, 10).unwrap();
    assert_eq!(p.as_fraction(), Some((453, 10)));
    assert_eq!(p.as_written(), None);
    assert_eq!(Percent::new(0, 7).unwrap().as_fraction(), Some((0, 7)));
    assert_eq!(Percent::new(250, 1).unwrap().as_fraction(), Some((250, 1)));
}

#[test]
fn zero_and_full() {
    assert_eq!(Percent::zero().as_fraction(), Some((0, 1)));
    assert_eq!(Percent::full().as_fraction(), Some((100, 1)));
}

#[test]
fn numerals_are_read_exactly() {
    assert_eq!(numeral("45.3"), Some((453, 10)));
    assert_eq!(numeral("100"), Some((100, 1)));
    assert_eq!(numeral("0"), Some((0, 1)));
    assert_eq!(numeral("0.0"), Some((0, 10)));
    assert_eq!(numeral("100.0"), Some((1000, 10)));
    assert_eq!(numeral("7."), Some((7, 1)));
    assert_eq!(numeral(".5"), Some((5, 10)));
    assert_eq!(numeral("007.250"), Some((7250, 1000)));
    assert_eq!(numeral("99.999999"), Some((99999999, 1000000)));
    assert_eq!(read("45.3"), Percent::new(453, 10));
}

#[test]
fn numbers_with_sign_or_exponent_are_read_exactly() {
    assert_eq!(numeral("+1"), Some((1, 1)));
    assert_eq!(numeral("+.5"), Some((5, 10)));
    assert_eq!(numeral("5e1"), Some((50, 1)));
    assert_eq!(numeral("5E1"), Some((50, 1)));
    assert_eq!(numeral("5e+1"), Some((50, 1)));
    assert_eq!(numeral("5e-1"), Some((5, 10)));
    assert_eq!(numeral("5e0"), Some((5, 1)));
    assert_eq!(numeral("5e-0"), Some((5, 1)));
    assert_eq!(numeral("5e0001"), Some((50, 1)));
    assert_eq!(numeral("1e2"), Some((100, 1)));
    assert_eq!(numeral("4.53e1"), Some((4530, 100)));
    assert_eq!(numeral("1.5E-3"), Some((15, 10000)));
    assert_eq!(numeral("0.7e2"), Some((700, 10)));
    assert_eq!(numeral("7.e1"), Some((70, 1)));
    assert_eq!(numeral(".5e1"), Some((50, 10)));
    assert_eq!(numeral("1000e-1"), Some((1000, 10)));
    assert_eq!(numeral("1e-38"), Some((1, 10u128.pow(38))));
}

#[test]
fn zero_may_carry_any_sign_and_a_number_below_zero_is_refused() {
    assert_eq!(numeral("-0"), Some((0, 1)));
    assert_eq!(numeral("-0.0"), Some((0, 10)));
    assert_eq!(numeral("-0e5"), Some((0, 1)));
    assert_eq!(numeral("-0e-2"), Some((0, 100)));
    assert_eq!(numeral("0e99999999999999999999999999999999999999999999"), Some((0, 1)));
    for s in ["-1", "-0.1", "-5e1", "-1e-5", "-.5", "-100", "-1e-99999999999999999999999999999999999999999"] {
        assert_eq!(read(s), None, "{:?}", s);
    }
}

#[test]
fn a_number_above_a_hundred_is_refused() {
    for s in [
        "100.1", "101", "150", "1e3", "1.0001e2", "10.01e1", "9e99", "1000", "100.000001",
        "1e38", "1e39", "1e99999999999999999999999999999999999999999999", "+100.5",
    ] {
        assert_eq!(read(s), None, "{:?}", s);
    }
    for s in ["100", "100.", "100.000", "1e2", "10e1", "0.1e3", "1000e-1", "+100", "99.999999"] {
        assert!(read(s).is_some(), "{:?}", s);
    }
}

#[test]
fn what_is_no_number_is_refused() {
    for s in [
        "", ".", "..", "1.2.3", "NaN", "nan", "inf", "+inf", "infinity", "12a", "a12", " 1",
        "1 ", "1,5", "٣", "１２", "e5", "E5", "5e", "5E", "5e+", "5e-", "5e1.5", "5e1e1", "--1",
        "+-1", "1e+-2", "0x10", "1_000", "+", "-", "+.", ".e1", "e", "1e 2", "1e٣",
    ] {
        assert_eq!(read(s), None, "{:?}", s);
        assert!(s.parse::<f64>().map(|v| !v.is_finite()).unwrap_or(true), "{:?}", s);
    }
}

#[test]
fn numbers_read_have_the_value_that_floating_point_reads() {
    for s in [
        "0", "1", "45.3", "99.9", "100", "100.0", "0.1", "0.25", "33.333", "5e1", "5e-1",
        "4.53e1", "1.5E-3", "+7.5", "-0", ".5", "7.", "007.250", "1e2", "1000e-1", "12345.678e-3",
    ] {
        let (n, d) = numeral(s).unwrap();
        assert_eq!(n as f64 / d as f64, s.parse::<f64>().unwrap(), "{:?}", s);
    }
}

#[test]
fn a_number_of_any_length_is_read() {
    let max = u128::MAX.to_string();
    // the largest scale that fits
    let many_zeros = format!("0.{}", "0".repeat(38));
    assert_eq!(numeral(&many_zeros), Some((0, 10u128.pow(38))));
    // and the largest units
    assert_eq!(numeral(&format!("{}e-37", max)), Some((u128::MAX, 10u128.pow(37))));
    // beyond them the number is kept as it was written
    let longer = [
        format!("0.{}", "0".repeat(39)),
        format!("50.{}", "0".repeat(50)),
        format!("33.{}", "3".repeat(60)),
        format!("99.{}", "9".repeat(60)),
        format!("100.{}", "0".repeat(60)),
        format!("{}100", "0".repeat(60)) + &format!(".{}", "0".repeat(40)),
        format!("0.{}1", "0".repeat(200)),
        "1e-39".to_string(),
        "0e-39".to_string(),
        "-0e-39".to_string(),
        "1e-99999999999999999999999999999999999999999999".to_string(),
        format!("{}5e-41", "1".repeat(40)),
    ];
    for s in &longer {
        let p = read(s).unwrap_or_else(|| panic!("{:?}", s));
        assert_eq!(p.as_fraction(), None, "{:?}", s);
        assert_eq!(p.as_written().as_deref(), Some(s.as_str()));
        let v = s.parse::<f64>().unwrap();
        assert!(0.0 <= v && v <= 100.0, "{:?}", s);
    }
    // leading zeros make a number long, but not large
    assert_eq!(numeral(&format!("{}100", "0".repeat(60))), Some((100, 1)));
    assert_eq!(numeral(&format!("{}7.5", "0".repeat(60))), Some((75, 10)));
    // the length does not blur the limit of a hundred
    let above = [
        format!("100.{}1", "0".repeat(60)),
        format!("{}101", "0".repeat(60)),
        format!("101.{}", "0".repeat(60)),
        format!("{}e-{}", max, 36),
        format!("1{}", "0".repeat(60)),
        format!("0.{}1e64", "0".repeat(60)),
        format!("{}e-37", "9".repeat(40)),
    ];
    for s in &above {
        assert_eq!(read(s), None, "{:?}", s);
    }
    // nor the limit of zero
    assert_eq!(read(&format!("-0.{}1", "0".repeat(60))), None);
    assert!(read(&format!("-0.{}", "0".repeat(60))).is_some());
}

#[test]
fn a_copy_is_kept_as_the_percentage_is() {
    let short = read("45.3").unwrap();
    assert_eq!(short.clone(), short);
    let long = read(&format!("45.{}", "3".repeat(50))).unwrap();
    assert_eq!(long.clone(), long);
    assert_ne!(long, short);
    assert_eq!(long.clone().as_written(), long.as_written());
}
