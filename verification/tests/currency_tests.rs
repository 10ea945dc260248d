use figure_tracker::amount::AmountError;
use figure_tracker::currency::SupportedCurrency;
use figure_tracker::guesser::CurrencyGuesser;

#[test]
fn test_currency_guesses() {
    let guesser = CurrencyGuesser::new();

    let test_values: Vec<(&str, Option<SupportedCurrency>)> = vec![
        ("CAD250.00", Some(SupportedCurrency::CAD)),
        ("C$325.00", Some(SupportedCurrency::CAD)),
        ("350.31€", Some(SupportedCurrency::EUR)),
        ("$159.99", Some(SupportedCurrency::USD)),
        ("150", None),
        ("£420.00", Some(SupportedCurrency::GBP)),
        ("A$180.00", Some(SupportedCurrency::AUD)),
        ("HK$520.00", Some(SupportedCurrency::HKD)),
    ];

    for (test_value, expected_currency) in test_values {
        println!(
            "assuming currency: {:?} for value: {}",
            guesser.guess_currency(test_value.to_string()),
            test_value
        );
        assert_eq!(
            guesser.guess_currency(test_value.to_string()),
            expected_currency
        );
    }
}

#[test]
fn test_currency_value_guesses() {
    let test_values: Vec<(&str, u64)> = vec![
        // no decimals, no separators
        ("123", 123_00),
        // with decimals, no separators
        ("123.00", 123_00),
        ("123,00", 123_00),
        ("123456.00", 123_456_00),
        ("123456,00", 123_456_00),
        // no decimals, with separators
        ("123.456", 123_456_00),
        ("123,456", 123_456_00),
        ("123.456.789", 123_456_789_00),
        ("123,456,789", 123_456_789_00),
        // with decimals, with separators
        ("123.456,00", 123_456_00),
        ("123,456.00", 123_456_00),
        ("123.456.789,00", 123_456_789_00),
        ("123,456,789.00", 123_456_789_00),
    ];

    for (test_value, expected) in test_values {
        assert_eq!(
            CurrencyGuesser::get_currency_value(test_value.to_string()).unwrap(),
            expected
        );
    }
}

#[test]
fn test_currency_value_keeps_cents() {
    assert_eq!(
        CurrencyGuesser::get_currency_value("350.31".to_string()).unwrap(),
        350_31
    );
    assert_eq!(
        CurrencyGuesser::get_currency_value("0.99".to_string()).unwrap(),
        99
    );
}

#[test]
fn test_currency_value_rejects_malformed() {
    assert_eq!(
        CurrencyGuesser::get_currency_value("12a".to_string()),
        Err(AmountError::Malformed)
    );
    assert_eq!(
        CurrencyGuesser::get_currency_value("".to_string()),
        Err(AmountError::Malformed)
    );
    assert_eq!(
        CurrencyGuesser::get_currency_value("...".to_string()),
        Err(AmountError::Malformed)
    );
    // one digit after the last separator fits no reading
    assert_eq!(
        CurrencyGuesser::get_currency_value("123.4".to_string()),
        Err(AmountError::Malformed)
    );
    // four digits after the last separator fit no reading either
    assert_eq!(
        CurrencyGuesser::get_currency_value("123.4567".to_string()),
        Err(AmountError::Malformed)
    );
}

#[test]
fn test_currency_value_rejects_too_large() {
    assert_eq!(
        CurrencyGuesser::get_currency_value("99999999999999999999".to_string()),
        Err(AmountError::OutOfRange)
    );
}

#[test]
fn test_guess_every_code_is_exact_self_match() {
    let guesser = CurrencyGuesser::new();
    let codes = vec![
        SupportedCurrency::EUR,
        SupportedCurrency::USD,
        SupportedCurrency::JPY,
        SupportedCurrency::BGN,
        SupportedCurrency::CZK,
        SupportedCurrency::DKK,
        SupportedCurrency::GBP,
        SupportedCurrency::HUF,
        SupportedCurrency::PLN,
        SupportedCurrency::RON,
        SupportedCurrency::SEK,
        SupportedCurrency::CHF,
        SupportedCurrency::ISK,
        SupportedCurrency::NOK,
        SupportedCurrency::HRK,
        SupportedCurrency::RUB,
        SupportedCurrency::TRY,
        SupportedCurrency::AUD,
        SupportedCurrency::BRL,
        SupportedCurrency::CAD,
        SupportedCurrency::CNY,
        SupportedCurrency::HKD,
        SupportedCurrency::IDR,
        SupportedCurrency::ILS,
        SupportedCurrency::INR,
        SupportedCurrency::KRW,
        SupportedCurrency::MXN,
        SupportedCurrency::MYR,
        SupportedCurrency::NZD,
        SupportedCurrency::PHP,
        SupportedCurrency::SGD,
        SupportedCurrency::THB,
        SupportedCurrency::ZAR,
    ];
    for code in codes {
        assert_eq!(guesser.guess_currency(code.to_string()), Some(code));
        assert_eq!(
            guesser.guess_currency_from_code(code.to_string(), true),
            Some(code)
        );
    }
}

#[test]
fn test_guess_from_code_exact_vs_contained() {
    let guesser = CurrencyGuesser::new();
    // an exact match does not fire on a longer string
    assert_eq!(
        guesser.guess_currency_from_code("CAD250.00".to_string(), true),
        None
    );
    // a containment match does
    assert_eq!(
        guesser.guess_currency_from_code("CAD250.00".to_string(), false),
        Some(SupportedCurrency::CAD)
    );
}
