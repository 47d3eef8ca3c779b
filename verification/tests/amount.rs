use pushkind_crawlers::amount::parse_amount_units;
use pushkind_crawlers::number::Decimal;

fn parsed(input: &str) -> (f64, String) {
    let (amount, units) = parse_amount_units(input);
    (amount.to_text().parse::<f64>().unwrap(), units)
}

#[test]
fn parses_slash_amount_and_units() {
    assert_eq!(parsed("/100 г"), (100.0, "г".to_string()));
}

#[test]
fn parses_comma_decimal_amount() {
    assert_eq!(parsed("0,5 кг"), (0.5, "кг".to_string()));
}

#[test]
fn empty_text_gives_defaults() {
    assert_eq!(parsed(""), (1.0, "шт".to_string()));
}

#[test]
fn word_that_is_no_number_gives_defaults() {
    assert_eq!(parsed("abc"), (1.0, "шт".to_string()));
}

#[test]
fn parses_compact_amount_with_letters() {
    assert_eq!(parsed("250мл"), (250.0, "мл".to_string()));
}

#[test]
fn parses_compact_amount_with_percent() {
    assert_eq!(parsed("5%"), (5.0, "%".to_string()));
}

#[test]
fn compact_number_without_units_is_pieces() {
    assert_eq!(parsed("12"), (12.0, "шт".to_string()));
    assert_eq!(parsed("  7,25  "), (7.25, "шт".to_string()));
}

#[test]
fn compact_form_takes_fraction_and_units() {
    assert_eq!(parsed("1.5кг"), (1.5, "кг".to_string()));
    assert_eq!(parsed("1,5кг "), (1.5, "кг".to_string()));
}

#[test]
fn several_slashes_and_spaces_are_stripped() {
    assert_eq!(parsed("//  100 г"), (100.0, "г".to_string()));
}

#[test]
fn last_two_of_many_words_count() {
    assert_eq!(parsed("цена за 2 шт"), (2.0, "шт".to_string()));
}

#[test]
fn unreadable_amount_before_units_is_one() {
    assert_eq!(parsed("около кг"), (1.0, "кг".to_string()));
}

#[test]
fn single_word_with_digit_after_letters_is_no_amount() {
    assert_eq!(parsed("кг5"), (1.0, "шт".to_string()));
}

#[test]
fn negative_amount_is_read_as_negative() {
    let (amount, units) = parse_amount_units("-5 кг");
    assert!(amount.is_negative());
    assert!(!amount.is_positive());
    assert_eq!(amount.to_text(), "-5");
    assert_eq!(units, "кг");
}

#[test]
fn amount_round_trips_for_usual_units() {
    for units in ["г", "кг", "мл", "шт", "%"] {
        for number in ["1", "100", "0.5", "12.75", "0.001", "3000000000000000000000.25"] {
            let with_point = format!("/{} {}", number, units);
            let with_comma = format!("/{} {}", number.replace('.', ","), units);
            let (a, u) = parse_amount_units(&with_point);
            let (b, v) = parse_amount_units(&with_comma);
            assert_eq!(a.to_text(), number);
            assert_eq!(b.to_text(), number);
            assert_eq!(u, units);
            assert_eq!(v, units);
        }
    }
}

#[test]
fn decimal_parse_accepts_locale_forms() {
    assert_eq!(Decimal::parse("1 200,50").unwrap().to_text(), "1200.5");
    assert_eq!(Decimal::parse("007").unwrap().to_text(), "7");
    assert_eq!(Decimal::parse("0.50").unwrap().to_text(), "0.5");
    assert_eq!(Decimal::parse("+3").unwrap().to_text(), "3");
    assert_eq!(Decimal::parse("5.").unwrap().to_text(), "5");
    assert_eq!(Decimal::parse(".5").unwrap().to_text(), "0.5");
    assert_eq!(Decimal::parse("-0").unwrap().to_text(), "0");
    assert_eq!(Decimal::parse("-2,5").unwrap().to_text(), "-2.5");
}

#[test]
fn decimal_parse_rejects_what_is_no_number() {
    assert!(Decimal::parse("").is_none());
    assert!(Decimal::parse(".").is_none());
    assert!(Decimal::parse("+").is_none());
    assert!(Decimal::parse("1.2.3").is_none());
    assert!(Decimal::parse("1e").is_none());
    assert!(Decimal::parse("e5").is_none());
    assert!(Decimal::parse("1e+").is_none());
    assert!(Decimal::parse("1e5.0").is_none());
    assert!(Decimal::parse("1e2e3").is_none());
    assert!(Decimal::parse("1e401").is_none());
    assert!(Decimal::parse("1e-401").is_none());
    assert!(Decimal::parse("12a").is_none());
    assert!(Decimal::parse("inf").is_none());
}

#[test]
fn decimal_sign_and_zero() {
    assert!(Decimal::parse("0.01").unwrap().is_positive());
    assert!(!Decimal::parse("0").unwrap().is_positive());
    assert!(!Decimal::parse("0,000").unwrap().is_positive());
    assert!(!Decimal::parse("-1").unwrap().is_positive());
    assert!(!Decimal::zero().is_positive());
    assert!(Decimal::one().is_positive());
    assert_eq!(Decimal::one().to_text(), "1");
    assert_eq!(Decimal::zero().to_text(), "0");
    assert_eq!(Decimal::parse("10.5").unwrap().copy().to_text(), "10.5");
}

#[test]
fn amount_that_is_not_finite_counts_as_zero() {
    for text in ["inf кг", "-Infinity кг", "NaN кг", "+nan кг"] {
        let (amount, units) = parse_amount_units(text);
        assert_eq!(amount.to_text(), "0", "for {text}");
        assert!(!amount.is_positive());
        assert_eq!(units, "кг");
    }
    assert_eq!(parsed("info кг"), (1.0, "кг".to_string()));
    assert_eq!(parsed("in кг"), (1.0, "кг".to_string()));
    let (amount, units) = parse_amount_units("nan");
    assert_eq!((amount.to_text(), units), ("0".to_string(), "шт".to_string()));
}

#[test]
fn decimal_parse_reads_exponents() {
    assert_eq!(Decimal::parse("1e3").unwrap().to_text(), "1000");
    assert_eq!(Decimal::parse("1.5E2").unwrap().to_text(), "150");
    assert_eq!(Decimal::parse("1.50e1").unwrap().to_text(), "15");
    assert_eq!(Decimal::parse("12e-1").unwrap().to_text(), "1.2");
    assert_eq!(Decimal::parse("5e-3").unwrap().to_text(), "0.005");
    assert_eq!(Decimal::parse("0.05e1").unwrap().to_text(), "0.5");
    assert_eq!(Decimal::parse("100e-2").unwrap().to_text(), "1");
    assert_eq!(Decimal::parse("-2,5e+1").unwrap().to_text(), "-25");
    assert_eq!(Decimal::parse("0e10").unwrap().to_text(), "0");
    assert_eq!(Decimal::parse("-0e-10").unwrap().to_text(), "0");
    assert_eq!(Decimal::parse("7e0").unwrap().to_text(), "7");
    assert_eq!(Decimal::parse("7e-0").unwrap().to_text(), "7");
    assert_eq!(Decimal::parse(".5e1").unwrap().to_text(), "5");
    let large = Decimal::parse("1e400").unwrap().to_text();
    assert_eq!(large.len(), 401);
    assert!(large.starts_with('1') && large[1..].chars().all(|c| c == '0'));
    assert_eq!(Decimal::parse("1250e-2").unwrap().to_text().parse::<f64>().unwrap(), 12.5);
}

#[test]
fn decimal_moves_the_point() {
    let number = Decimal::parse("12.5").unwrap();
    assert_eq!(number.times_power_of_ten(false, 0).to_text(), "12.5");
    assert_eq!(number.times_power_of_ten(false, 1).to_text(), "125");
    assert_eq!(number.times_power_of_ten(false, 3).to_text(), "12500");
    assert_eq!(number.times_power_of_ten(true, 1).to_text(), "1.25");
    assert_eq!(number.times_power_of_ten(true, 2).to_text(), "0.125");
    assert_eq!(number.times_power_of_ten(true, 4).to_text(), "0.00125");
    assert_eq!(Decimal::zero().times_power_of_ten(true, 0).to_text(), "0");
    assert_eq!(Decimal::parse("-3").unwrap().times_power_of_ten(true, 1).to_text(), "-0.3");
}

#[test]
fn amount_with_an_exponent_is_read() {
    assert_eq!(parsed("1e3 г"), (1000.0, "г".to_string()));
    assert_eq!(parsed("2.5e-1"), (0.25, "шт".to_string()));
}
