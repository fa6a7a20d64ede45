use campfire_bench::price::{parse_price_text, PriceParseError};

#[test]
fn parses_fixture_price() {
    assert_eq!(parse_price_text("$244.99"), Ok(24499));
}

#[test]
fn round_trips_fixture_price_through_text_within_epsilon() {
    // A price of 244.99 formatted as "$244.99" extracts back to 244.99
    // within an epsilon of 1e-9.
    let cents = parse_price_text("$244.99").unwrap();
    let as_float = cents as f64 / 100.0;
    assert!((as_float - 244.99).abs() < 1e-9);
}

#[test]
fn parses_without_currency_prefix() {
    assert_eq!(parse_price_text("12.50"), Ok(1250));
}

#[test]
fn strips_every_leading_dollar_sign() {
    assert_eq!(parse_price_text("$$7"), Ok(700));
}

#[test]
fn parses_integer_price() {
    assert_eq!(parse_price_text("$199"), Ok(19900));
}

#[test]
fn parses_price_with_trailing_dot() {
    assert_eq!(parse_price_text("$5."), Ok(500));
}

#[test]
fn parses_single_fraction_digit_as_tens_of_cents() {
    assert_eq!(parse_price_text("$5.9"), Ok(590));
}

#[test]
fn parses_zero_price() {
    assert_eq!(parse_price_text("$0.00"), Ok(0));
}

#[test]
fn rejects_empty_text() {
    assert_eq!(parse_price_text(""), Err(PriceParseError::Malformed));
}

#[test]
fn rejects_lone_dollar_sign() {
    assert_eq!(parse_price_text("$"), Err(PriceParseError::Malformed));
}

#[test]
fn rejects_non_numeric_remainder() {
    assert_eq!(parse_price_text("$abc"), Err(PriceParseError::Malformed));
}

#[test]
fn rejects_trailing_garbage() {
    assert_eq!(parse_price_text("$24.99x"), Err(PriceParseError::Malformed));
}

#[test]
fn rejects_nonzero_digits_past_the_second_fraction_place() {
    // The cents model holds no sub-cent precision, and rounding would let
    // a price pass validation that the page never showed.
    assert_eq!(parse_price_text("$1.234"), Err(PriceParseError::Malformed));
    assert_eq!(parse_price_text("$1.2301"), Err(PriceParseError::Malformed));
}

#[test]
fn folds_trailing_fraction_zeros_to_exact_cents() {
    assert_eq!(parse_price_text("$244.990"), Ok(24499));
    assert_eq!(parse_price_text("$1.2300"), Ok(123));
    assert_eq!(parse_price_text("$2.000000"), Ok(200));
}

#[test]
fn rejects_second_dot() {
    assert_eq!(parse_price_text("$1.2.3"), Err(PriceParseError::Malformed));
}

#[test]
fn rejects_negative_price() {
    assert_eq!(parse_price_text("-1.00"), Err(PriceParseError::Malformed));
}

#[test]
fn parses_fraction_only_price() {
    assert_eq!(parse_price_text("$.99"), Ok(99));
    assert_eq!(parse_price_text(".5"), Ok(50));
}

#[test]
fn rejects_a_bare_dot() {
    assert_eq!(parse_price_text("."), Err(PriceParseError::Malformed));
    assert_eq!(parse_price_text("$."), Err(PriceParseError::Malformed));
}

#[test]
fn rejects_value_too_large_for_cents() {
    // 20 nines: far beyond what u64 cents can hold.
    assert_eq!(
        parse_price_text("$99999999999999999999"),
        Err(PriceParseError::TooLarge)
    );
}

#[test]
fn accepts_largest_representable_cents() {
    // u64::MAX is 18446744073709551615 cents.
    assert_eq!(
        parse_price_text("$184467440737095516.15"),
        Ok(u64::MAX)
    );
}

#[test]
fn rejects_just_past_largest_representable_cents() {
    assert_eq!(
        parse_price_text("$184467440737095516.16"),
        Err(PriceParseError::TooLarge)
    );
}
