//! Tests of the scale-factor descriptor matcher and the digit parsers.

use naifuru::scale_factor::{scale_factor_captures, scale_factor_captures_iter};
use naifuru::text::{parse_decimal, parse_u64_digits};

#[test]
fn test_scale_factor_match_basic() {
    let text = "7845(gal)/8223790";
    let caps = scale_factor_captures(text).unwrap();
    assert_eq!(caps.numerator, "7845");
    assert_eq!(caps.denominator, "8223790");
}

#[test]
fn test_scale_factor_with_spaces() {
    let text = "  123(gal)/4567  ";
    let caps = scale_factor_captures(text.trim()).unwrap();
    assert_eq!(caps.numerator, "123");
    assert_eq!(caps.denominator, "4567");
}

#[test]
fn test_scale_factor_no_match() {
    let text = "no scale factor here";
    assert!(scale_factor_captures(text).is_none());
}

#[test]
fn test_scale_factor_partial_string() {
    let text = "prefix 9999(gal)/8888 suffix";
    let caps = scale_factor_captures(text).unwrap();
    assert_eq!(caps.numerator, "9999");
    assert_eq!(caps.denominator, "8888");
}

#[test]
fn test_scale_factor_multiple_matches() {
    let text = "First: 1(gal)/2, Second: 3(gal)/4";
    let all = scale_factor_captures_iter(text);
    assert_eq!(all.len(), 2);
    assert_eq!(all[0].numerator, "1");
    assert_eq!(all[0].denominator, "2");
    assert_eq!(all[1].numerator, "3");
    assert_eq!(all[1].denominator, "4");
}

#[test]
fn test_scale_factor_large_numbers() {
    let text = "1234567890(gal)/9876543210";
    let caps = scale_factor_captures(text).unwrap();
    assert_eq!(caps.numerator, "1234567890");
    assert_eq!(caps.denominator, "9876543210");
}

#[test]
fn scale_factor_matches_unmatched_text_around() {
    // the descriptor must be greedy about both digit runs
    let caps = scale_factor_captures("x100(gal)/2000y").unwrap();
    assert_eq!(caps.numerator, "100");
    assert_eq!(caps.denominator, "2000");
}

#[test]
fn scale_factor_requires_denominator_digit() {
    assert!(scale_factor_captures("77(gal)/").is_none());
    assert!(scale_factor_captures("(gal)/9").is_none());
    assert!(scale_factor_captures("77(gal/9").is_none());
}

#[test]
fn scale_factor_iter_is_left_to_right() {
    let all = scale_factor_captures_iter("9(gal)/8 7(gal)/6 5(gal)/4");
    assert_eq!(all.len(), 3);
    assert_eq!(all[0].numerator, "9");
    assert_eq!(all[1].numerator, "7");
    assert_eq!(all[2].numerator, "5");
}

#[test]
fn parse_u64_digits_exact_values() {
    assert_eq!(parse_u64_digits("0"), Some(0));
    assert_eq!(parse_u64_digits("7845"), Some(7845));
    assert_eq!(parse_u64_digits("18446744073709551615"), Some(u64::MAX));
    assert_eq!(parse_u64_digits("18446744073709551616"), None);
    assert_eq!(parse_u64_digits(""), None);
    assert_eq!(parse_u64_digits("12a3"), None);
}

#[test]
fn parse_decimal_exact_values() {
    let d = parse_decimal("36.1234").unwrap();
    assert!(!d.negative);
    assert_eq!(d.int_part, 36);
    assert_eq!(d.frac_part, 1234);
    assert_eq!(d.frac_digits, 4);

    let d = parse_decimal("-3.25").unwrap();
    assert!(d.negative);
    assert_eq!(d.int_part, 3);
    assert_eq!(d.frac_part, 25);
    assert_eq!(d.frac_digits, 2);

    let d = parse_decimal("+7").unwrap();
    assert!(!d.negative);
    assert_eq!(d.int_part, 7);
    assert_eq!(d.frac_digits, 0);

    assert!(parse_decimal("abc").is_none());
    assert!(parse_decimal("1e5").is_none());
    assert!(parse_decimal("3.").is_none());
    assert!(parse_decimal(".5").is_none());
    assert!(parse_decimal("").is_none());
}
