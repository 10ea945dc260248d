//! The currencies of the exchange-rate reference feed, together with their
//! three-letter codes.

use vstd::prelude::*;

verus! {

/// The currencies supported by the exchange-rate reference feed.
#[derive(Clone, Copy, Debug, PartialEq, Eq, Structural)]
pub enum SupportedCurrency {
    EUR,
    USD,
    JPY,
    BGN,
    CZK,
    DKK,
    GBP,
    HUF,
    PLN,
    RON,
    SEK,
    CHF,
    ISK,
    NOK,
    HRK,
    RUB,
    TRY,
    AUD,
    BRL,
    CAD,
    CNY,
    HKD,
    IDR,
    ILS,
    INR,
    KRW,
    MXN,
    MYR,
    NZD,
    PHP,
    SGD,
    THB,
    ZAR,
}

/// The three-letter code of a currency.
pub open spec fn spec_code(c: SupportedCurrency) -> Seq<char> {
    match c {
        SupportedCurrency::EUR => "EUR"@,
        SupportedCurrency::USD => "USD"@,
        SupportedCurrency::JPY => "JPY"@,
        SupportedCurrency::BGN => "BGN"@,
        SupportedCurrency::CZK => "CZK"@,
        SupportedCurrency::DKK => "DKK"@,
        SupportedCurrency::GBP => "GBP"@,
        SupportedCurrency::HUF => "HUF"@,
        SupportedCurrency::PLN => "PLN"@,
        SupportedCurrency::RON => "RON"@,
        SupportedCurrency::SEK => "SEK"@,
        SupportedCurrency::CHF => "CHF"@,
        SupportedCurrency::ISK => "ISK"@,
        SupportedCurrency::NOK => "NOK"@,
        SupportedCurrency::HRK => "HRK"@,
        SupportedCurrency::RUB => "RUB"@,
        SupportedCurrency::TRY => "TRY"@,
        SupportedCurrency::AUD => "AUD"@,
        SupportedCurrency::BRL => "BRL"@,
        SupportedCurrency::CAD => "CAD"@,
        SupportedCurrency::CNY => "CNY"@,
        SupportedCurrency::HKD => "HKD"@,
        SupportedCurrency::IDR => "IDR"@,
        SupportedCurrency::ILS => "ILS"@,
        SupportedCurrency::INR => "INR"@,
        SupportedCurrency::KRW => "KRW"@,
        SupportedCurrency::MXN => "MXN"@,
        SupportedCurrency::MYR => "MYR"@,
        SupportedCurrency::NZD => "NZD"@,
        SupportedCurrency::PHP => "PHP"@,
        SupportedCurrency::SGD => "SGD"@,
        SupportedCurrency::THB => "THB"@,
        SupportedCurrency::ZAR => "ZAR"@,
    }
}

/// Reveals the character contents of every currency code literal.
pub proof fn reveal_codes()
    ensures
        forall|c: SupportedCurrency| (#[trigger] spec_code(c)).len() == 3,
{
    reveal_strlit("EUR");
    reveal_strlit("USD");
    reveal_strlit("JPY");
    reveal_strlit("BGN");
    reveal_strlit("CZK");
    reveal_strlit("DKK");
    reveal_strlit("GBP");
    reveal_strlit("HUF");
    reveal_strlit("PLN");
    reveal_strlit("RON");
    reveal_strlit("SEK");
    reveal_strlit("CHF");
    reveal_strlit("ISK");
    reveal_strlit("NOK");
    reveal_strlit("HRK");
    reveal_strlit("RUB");
    reveal_strlit("TRY");
    reveal_strlit("AUD");
    reveal_strlit("BRL");
    reveal_strlit("CAD");
    reveal_strlit("CNY");
    reveal_strlit("HKD");
    reveal_strlit("IDR");
    reveal_strlit("ILS");
    reveal_strlit("INR");
    reveal_strlit("KRW");
    reveal_strlit("MXN");
    reveal_strlit("MYR");
    reveal_strlit("NZD");
    reveal_strlit("PHP");
    reveal_strlit("SGD");
    reveal_strlit("THB");
    reveal_strlit("ZAR");
}

/// Distinct currencies have distinct codes.
#[verifier::rlimit(100)]
pub proof fn lemma_code_injective(a: SupportedCurrency, b: SupportedCurrency)
    ensures
        spec_code(a) == spec_code(b) ==> a == b,
{
    reveal_strlit("EUR");
    reveal_strlit("USD");
    reveal_strlit("JPY");
    reveal_strlit("BGN");
    reveal_strlit("CZK");
    reveal_strlit("DKK");
    reveal_strlit("GBP");
    reveal_strlit("HUF");
    reveal_strlit("PLN");
    reveal_strlit("RON");
    reveal_strlit("SEK");
    reveal_strlit("CHF");
    reveal_strlit("ISK");
    reveal_strlit("NOK");
    reveal_strlit("HRK");
    reveal_strlit("RUB");
    reveal_strlit("TRY");
    reveal_strlit("AUD");
    reveal_strlit("BRL");
    reveal_strlit("CAD");
    reveal_strlit("CNY");
    reveal_strlit("HKD");
    reveal_strlit("IDR");
    reveal_strlit("ILS");
    reveal_strlit("INR");
    reveal_strlit("KRW");
    reveal_strlit("MXN");
    reveal_strlit("MYR");
    reveal_strlit("NZD");
    reveal_strlit("PHP");
    reveal_strlit("SGD");
    reveal_strlit("THB");
    reveal_strlit("ZAR");
    if spec_code(a) == spec_code(b) {
        assert(spec_code(a)[0] == spec_code(b)[0] && spec_code(a)[1] == spec_code(b)[1]
            && spec_code(a)[2] == spec_code(b)[2]);
    }
}

impl SupportedCurrency {
    /// The code of this currency as an owned string.
    pub fn to_string(&self) -> (r: String)
        ensures
            r@ == spec_code(*self),
    {
        let s: &str = match self {
            SupportedCurrency::EUR => "EUR",
            SupportedCurrency::USD => "USD",
            SupportedCurrency::JPY => "JPY",
            SupportedCurrency::BGN => "BGN",
            SupportedCurrency::CZK => "CZK",
            SupportedCurrency::DKK => "DKK",
            SupportedCurrency::GBP => "GBP",
            SupportedCurrency::HUF => "HUF",
            SupportedCurrency::PLN => "PLN",
            SupportedCurrency::RON => "RON",
            SupportedCurrency::SEK => "SEK",
            SupportedCurrency::CHF => "CHF",
            SupportedCurrency::ISK => "ISK",
            SupportedCurrency::NOK => "NOK",
            SupportedCurrency::HRK => "HRK",
            SupportedCurrency::RUB => "RUB",
            SupportedCurrency::TRY => "TRY",
            SupportedCurrency::AUD => "AUD",
            SupportedCurrency::BRL => "BRL",
            SupportedCurrency::CAD => "CAD",
            SupportedCurrency::CNY => "CNY",
            SupportedCurrency::HKD => "HKD",
            SupportedCurrency::IDR => "IDR",
            SupportedCurrency::ILS => "ILS",
            SupportedCurrency::INR => "INR",
            SupportedCurrency::KRW => "KRW",
            SupportedCurrency::MXN => "MXN",
            SupportedCurrency::MYR => "MYR",
            SupportedCurrency::NZD => "NZD",
            SupportedCurrency::PHP => "PHP",
            SupportedCurrency::SGD => "SGD",
            SupportedCurrency::THB => "THB",
            SupportedCurrency::ZAR => "ZAR",
        };
        String::from_str(s)
    }
}

} // verus!
