use figure_tracker::conversion::{
    parse_rate, ConversionError, CurrencyConversion, FeedEntry, Rate, SnapshotError,
};
use figure_tracker::currency::SupportedCurrency;

fn entry(currency: &str, rate: &str) -> FeedEntry {
    FeedEntry {
        currency: currency.to_string(),
        rate: rate.to_string(),
    }
}

fn snapshot() -> CurrencyConversion {
    CurrencyConversion::new(vec![
        entry("USD", "1.10"),
        entry("JPY", "130"),
        entry("GBP", "0.85"),
    ])
    .unwrap()
}

#[test]
fn test_currency_conversion() {
    let converter = snapshot();
    println!(
        "$150 are currently {}€",
        converter
            .convert_price_to(150_00, SupportedCurrency::USD, SupportedCurrency::EUR)
            .unwrap()
    );
    println!(
        "150€ are currently ${}",
        converter
            .convert_price_to(150_00, SupportedCurrency::EUR, SupportedCurrency::USD)
            .unwrap()
    );
}

#[test]
fn test_parse_rate_values() {
    assert_eq!(parse_rate("1.0786"), Some(Rate { num: 10786, den: 10000 }));
    assert_eq!(parse_rate("130"), Some(Rate { num: 130, den: 1 }));
    assert_eq!(parse_rate("0.85"), Some(Rate { num: 85, den: 100 }));
    assert_eq!(parse_rate("16319.24"), Some(Rate { num: 1631924, den: 100 }));
}

#[test]
fn test_parse_rate_rejects_bad_strings() {
    assert_eq!(parse_rate("0"), None);
    assert_eq!(parse_rate("0.000"), None);
    assert_eq!(parse_rate(""), None);
    assert_eq!(parse_rate("1.2.3"), None);
    assert_eq!(parse_rate("1,25"), None);
    assert_eq!(parse_rate("1e3"), None);
    assert_eq!(parse_rate("0.00000000001"), None);
    assert_eq!(parse_rate("9999999999"), None);
}

#[test]
fn test_snapshot_contains_baseline() {
    let conv = snapshot();
    assert_eq!(
        conv.rate_of(SupportedCurrency::EUR),
        Some(Rate { num: 1, den: 1 })
    );
    assert_eq!(
        conv.rate_of(SupportedCurrency::USD),
        Some(Rate { num: 110, den: 100 })
    );
    assert_eq!(conv.rate_of(SupportedCurrency::CAD), None);
}

#[test]
fn test_snapshot_discards_unmapped_entries() {
    let conv = CurrencyConversion::new(vec![entry("XXX", "2.5"), entry("JPY", "130")]).unwrap();
    assert_eq!(
        conv.rate_of(SupportedCurrency::JPY),
        Some(Rate { num: 130, den: 1 })
    );
    // only the baseline and the mapped entry are present
    assert_eq!(conv.rate_of(SupportedCurrency::USD), None);
}

#[test]
fn test_snapshot_later_entry_wins() {
    let conv = CurrencyConversion::new(vec![entry("USD", "1.10"), entry("USD", "1.20")]).unwrap();
    assert_eq!(
        conv.rate_of(SupportedCurrency::USD),
        Some(Rate { num: 120, den: 100 })
    );
}

#[test]
fn test_snapshot_fails_on_bad_rate() {
    let r = CurrencyConversion::new(vec![entry("USD", "not-a-rate")]);
    assert!(matches!(r, Err(SnapshotError::InvalidRate)));
}

#[test]
fn test_conversion_identity() {
    let conv = snapshot();
    // convert(amount, C, C) == amount for any C in the snapshot
    for c in [
        SupportedCurrency::EUR,
        SupportedCurrency::USD,
        SupportedCurrency::JPY,
        SupportedCurrency::GBP,
    ] {
        assert_eq!(conv.convert_price_to(123_45, c, c), Ok(123_45));
    }
}

#[test]
fn test_conversion_values() {
    let conv = snapshot();
    // 150.00 USD at 1.10 USD per EUR are 136.36 EUR, rounded down
    assert_eq!(
        conv.convert_price_to(150_00, SupportedCurrency::USD, SupportedCurrency::EUR),
        Ok(136_36)
    );
    // 150.00 EUR are 165.00 USD
    assert_eq!(
        conv.convert_price_to(150_00, SupportedCurrency::EUR, SupportedCurrency::USD),
        Ok(165_00)
    );
    // 13000 JPY at 130 per EUR are 100.00 EUR
    assert_eq!(
        conv.convert_price_to(13000_00, SupportedCurrency::JPY, SupportedCurrency::EUR),
        Ok(100_00)
    );
}

#[test]
fn test_conversion_chain_within_tolerance() {
    let conv = snapshot();
    let amount = 150_00;
    // convert(convert(amount, from, to), to, to2) == convert(amount, from, to2)
    // within rounding tolerance of the whole cent
    let via = conv
        .convert_price_to(amount, SupportedCurrency::USD, SupportedCurrency::JPY)
        .unwrap();
    let chained = conv
        .convert_price_to(via, SupportedCurrency::JPY, SupportedCurrency::GBP)
        .unwrap();
    let direct = conv
        .convert_price_to(amount, SupportedCurrency::USD, SupportedCurrency::GBP)
        .unwrap();
    let diff = chained.abs_diff(direct);
    assert!(diff <= 1, "chained {} vs direct {}", chained, direct);
}

#[test]
fn test_conversion_amount_too_large() {
    let conv = snapshot();
    assert_eq!(
        conv.convert_price_to(
            figure_tracker::conversion::AMOUNT_MAX + 1,
            SupportedCurrency::EUR,
            SupportedCurrency::EUR
        ),
        Err(ConversionError::AmountTooLarge)
    );
}

#[test]
fn test_conversion_missing_currency() {
    let conv = snapshot();
    assert_eq!(
        conv.convert_price_to(100, SupportedCurrency::CAD, SupportedCurrency::EUR),
        Err(ConversionError::MissingCurrency)
    );
    assert_eq!(
        conv.convert_price_to(100, SupportedCurrency::EUR, SupportedCurrency::CAD),
        Err(ConversionError::MissingCurrency)
    );
}
