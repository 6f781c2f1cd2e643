use eval_rs::decimal::{Decimal, Number, parse_decimal_str, parse_number_str};
use eval_rs::json::{Json, parse_json_text};
use eval_rs::text::{tokenize, trim_str};

fn dec(negative: bool, mantissa: u128, exponent: i128) -> Option<Decimal> {
    Some(Decimal { negative, mantissa, exponent })
}

#[test]
fn decimal_syntax() {
    assert_eq!(parse_decimal_str("0.85"), dec(false, 85, -2));
    assert_eq!(parse_decimal_str("1."), dec(false, 1, 0));
    assert_eq!(parse_decimal_str(".5"), dec(false, 5, -1));
    assert_eq!(parse_decimal_str("+2"), dec(false, 2, 0));
    assert_eq!(parse_decimal_str("-0.5"), dec(true, 5, -1));
    assert_eq!(parse_decimal_str("1e3"), dec(false, 1, 3));
    assert_eq!(parse_decimal_str("2.5E-2"), dec(false, 25, -3));
    assert_eq!(parse_decimal_str("."), None);
    assert_eq!(parse_decimal_str("1e"), None);
    assert_eq!(parse_decimal_str("e5"), None);
    assert_eq!(parse_decimal_str("1.2.3"), None);
    assert_eq!(parse_decimal_str(" 1"), None);
    assert_eq!(parse_decimal_str(""), None);
    assert_eq!(parse_decimal_str("abc"), None);
}

#[test]
fn decimal_comparisons() {
    let d = |s: &str| parse_decimal_str(s).unwrap();
    assert!(d("1").is_le_one());
    assert!(d("0.999").is_le_one());
    assert!(d("1000e-3").is_le_one());
    assert!(!d("1.0001").is_le_one());
    assert!(!d("10").is_le_one());
    assert!(d("-7").is_le_one());
    assert!(d("0.51").is_gt_half());
    assert!(!d("0.5").is_gt_half());
    assert!(d("3").is_gt_half());
    assert!(!d("0").is_positive());
    assert!(d("1e-40").is_positive());
    assert!(d("1e-40").is_le_one());
}

#[test]
fn json_reading() {
    let j = parse_json_text(" {\"a\": [1, \"x\", null], \"b\": {\"c\": true}} ").unwrap();
    assert_eq!(j.get("a"), Some(&Json::Array(vec![Json::Number("1".into()), Json::Str("x".into()), Json::Null])));
    assert_eq!(j.get("b").and_then(|b| b.get("c")), Some(&Json::Bool(true)));
    assert_eq!(j.get("z"), None);
    assert!(parse_json_text("{").is_none());
    assert!(parse_json_text("1 2").is_none());
    let copy = j.copy();
    assert_eq!(copy, j);
}

#[test]
fn trimming_and_tokens() {
    assert_eq!(trim_str("\u{3000} a b \n"), "a b");
    assert_eq!(tokenize("  the  cat\tsat\n").len(), 3);
    assert_eq!(tokenize("").len(), 0);
}

#[test]
fn number_words_and_limits() {
    assert_eq!(parse_number_str("inf"), Some(Number::Infinite(false)));
    assert_eq!(parse_number_str("+Infinity"), Some(Number::Infinite(false)));
    assert_eq!(parse_number_str("-INF"), Some(Number::Infinite(true)));
    assert_eq!(parse_number_str("NaN"), Some(Number::NaN));
    assert_eq!(parse_number_str("-nan"), Some(Number::NaN));
    assert_eq!(parse_number_str("infinit"), None);
    assert_eq!(parse_decimal_str("inf"), None);
    // digits beyond a u128 are cut, the exponent grows by their number
    assert_eq!(
        parse_number_str("1234567890123456789012345678901234567890123"),
        Some(Number::Finite(Decimal { negative: false, mantissa: 123456789012345678901234567890123456789, exponent: 4 }))
    );
    assert_eq!(
        parse_decimal_str("100000000000000000000000000000000000000000e-2"),
        Some(Decimal { negative: false, mantissa: 100000000000000000000000000000000000000, exponent: 1 })
    );
    // exponents beyond the limit
    assert_eq!(parse_number_str("1e99999999999999999999999999999999999999999"), Some(Number::Infinite(false)));
    assert_eq!(parse_number_str("-2e10000000000000000000000000000000"), Some(Number::Infinite(true)));
    assert_eq!(parse_number_str("3e-99999999999999999999999999999999999999999"), Some(Number::Finite(Decimal { negative: false, mantissa: 0, exponent: 0 })));
    assert_eq!(parse_number_str("0e99999999999999999999999999999999999999999"), Some(Number::Finite(Decimal { negative: false, mantissa: 0, exponent: 0 })));
    assert_eq!(parse_decimal_str("0.00"), Some(Decimal { negative: false, mantissa: 0, exponent: 0 }));
}
