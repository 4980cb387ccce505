use midas::price::{parse_target_price, Price};

#[test]
fn plain_decimal_is_parsed_exactly() {
    let p = parse_target_price("399.99").unwrap();
    assert_eq!(p, Price { mantissa: 39999, scale: 2 });
    let as_float = p.mantissa as f64 / 10f64.powi(p.scale as i32);
    assert_eq!(as_float, 399.99);
}

#[test]
fn whole_number_has_scale_zero() {
    assert_eq!(parse_target_price("12"), Some(Price { mantissa: 12, scale: 0 }));
    assert_eq!(parse_target_price("007"), Some(Price { mantissa: 7, scale: 0 }));
    assert_eq!(parse_target_price("0"), Some(Price { mantissa: 0, scale: 0 }));
}

#[test]
fn fraction_digits_are_kept() {
    assert_eq!(parse_target_price("0.125"), Some(Price { mantissa: 125, scale: 3 }));
    assert_eq!(parse_target_price("1.50"), Some(Price { mantissa: 150, scale: 2 }));
}

#[test]
fn empty_text_is_no_price() {
    assert_eq!(parse_target_price(""), None);
}

#[test]
fn unparsable_text_is_no_price() {
    assert_eq!(parse_target_price("cheap"), None);
    assert_eq!(parse_target_price("$399.99"), None);
    assert_eq!(parse_target_price("399,99"), None);
    assert_eq!(parse_target_price("-3"), None);
    assert_eq!(parse_target_price("1e3"), None);
    assert_eq!(parse_target_price(" 5"), None);
}

#[test]
fn lone_or_repeated_dot_is_no_price() {
    assert_eq!(parse_target_price("."), None);
    assert_eq!(parse_target_price("5."), None);
    assert_eq!(parse_target_price(".5"), None);
    assert_eq!(parse_target_price("1.2.3"), None);
}

#[test]
fn mantissa_beyond_u64_is_no_price() {
    assert_eq!(parse_target_price("999999999999999999999999999999"), None);
    assert_eq!(parse_target_price("18446744073709551615"), Some(Price {
        mantissa: u64::MAX,
        scale: 0,
    }));
    assert_eq!(parse_target_price("18446744073709551616"), None);
}
