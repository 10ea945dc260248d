use figure_tracker::adapters::{
    amiami_select_prices, get_closest_search_result, get_figure_search_url, solaris_select_prices,
    ApiItem, ApiSearchItem, HighlightResult, ProductVariant, SearchMatch,
};
use figure_tracker::config::Configuration;
use figure_tracker::conversion::{CurrencyConversion, FeedEntry};
use figure_tracker::currency::SupportedCurrency;
use figure_tracker::fanout::{check_item, enrich_price, AdapterReport, Prices};
use figure_tracker::guesser::CurrencyGuesser;
use figure_tracker::items::{Item, ItemConditions};
use figure_tracker::prices::Price;
use figure_tracker::selection::{
    get_used_sales, lowest_by_converted_total, lowest_by_raw_price, select_lowest_prices,
};

fn item() -> Item {
    Item {
        id: 3,
        jan: 4_571_245_298_836,
        term_en: "".to_string(),
        term_jp: "".to_string(),
        description: "example figure".to_string(),
        image: "".to_string(),
        disabled: false,
    }
}

fn config() -> Configuration {
    Configuration {
        currency: Some("EUR".to_string()),
        taxes: vec![(SupportedCurrency::USD, 1900)],
        shipping: vec![(SupportedCurrency::USD, 5_00)],
        telegram_active: false,
        telegram_api_key: None,
        telegram_user_id: None,
        discord_active: false,
        discord_client_token: None,
        discord_user_id: None,
    }
}

fn conversion() -> CurrencyConversion {
    CurrencyConversion::new(vec![
        FeedEntry {
            currency: "USD".to_string(),
            rate: "1.10".to_string(),
        },
        FeedEntry {
            currency: "JPY".to_string(),
            rate: "130".to_string(),
        },
    ])
    .unwrap()
}

fn raw_price(cents: u64, currency: SupportedCurrency, cond: ItemConditions) -> Price {
    Price::new(
        &item(),
        cents,
        currency,
        "https://example.test/sale".to_string(),
        "example.test".to_string(),
        cond,
    )
}

#[test]
fn test_enrich_price_converts_and_applies_rates() {
    let guesser = CurrencyGuesser::new();
    let conv = conversion();
    let cfg = config();
    let p = enrich_price(
        raw_price(110_00, SupportedCurrency::USD, ItemConditions::New),
        &guesser,
        &conv,
        &cfg,
    );
    // 110.00 USD at 1.10 per EUR are 100.00 EUR
    assert_eq!(p.converted_price, 100_00);
    assert_eq!(p.converted_currency, "EUR");
    assert_eq!(p.taxes, 1900);
    assert_eq!(p.shipping, 5_00);
    // the raw representation stays untouched
    assert_eq!(p.price, 110_00);
    assert_eq!(p.currency, "USD");
}

#[test]
fn test_enrich_price_keeps_raw_only_form_on_unknown_currency() {
    let guesser = CurrencyGuesser::new();
    let conv = conversion();
    let cfg = config();
    let p = enrich_price(
        raw_price(99_00, SupportedCurrency::CAD, ItemConditions::New),
        &guesser,
        &conv,
        &cfg,
    );
    // CAD is known to the guesser but absent from this snapshot:
    // the record keeps its raw-only defaults
    assert_eq!(p.converted_price, 0);
    assert_eq!(p.converted_currency, "CAD");
    assert_eq!(p.taxes, 0);
    assert_eq!(p.shipping, 0);
}

fn ok_report(new_cents: Option<u64>, used_cents: Option<u64>) -> AdapterReport {
    AdapterReport {
        module: "example.test".to_string(),
        outcome: Ok(Prices {
            new: new_cents.map(|c| raw_price(c, SupportedCurrency::USD, ItemConditions::New)),
            used: used_cents.map(|c| raw_price(c, SupportedCurrency::USD, ItemConditions::Used)),
        }),
    }
}

fn failed_report() -> AdapterReport {
    AdapterReport {
        module: "broken.test".to_string(),
        outcome: Err("connection refused".to_string()),
    }
}

#[test]
fn test_check_item_aggregates_all_candidates() {
    let guesser = CurrencyGuesser::new();
    let conv = conversion();
    let cfg = config();
    let reports = vec![
        ok_report(Some(110_00), Some(55_00)),
        ok_report(Some(220_00), None),
    ];
    let out = check_item(reports, &guesser, &conv, &cfg);
    assert_eq!(out.len(), 3);
    assert_eq!(out[0].converted_price, 100_00);
    assert_eq!(out[0].condition, ItemConditions::New);
    assert_eq!(out[1].converted_price, 50_00);
    assert_eq!(out[1].condition, ItemConditions::Used);
    assert_eq!(out[2].converted_price, 200_00);
}

#[test]
fn test_check_item_isolates_failed_adapter() {
    let guesser = CurrencyGuesser::new();
    let conv = conversion();
    let cfg = config();
    let with_failure = vec![
        ok_report(Some(110_00), None),
        failed_report(),
        ok_report(None, Some(55_00)),
    ];
    let without = vec![ok_report(Some(110_00), None), ok_report(None, Some(55_00))];
    let a = check_item(with_failure, &guesser, &conv, &cfg);
    let b = check_item(without, &guesser, &conv, &cfg);
    // the failed adapter contributes nothing: the result is the union of the
    // other adapters' results
    assert_eq!(a.len(), 2);
    assert_eq!(a.len(), b.len());
    for (x, y) in a.iter().zip(b.iter()) {
        assert_eq!(x.converted_price, y.converted_price);
        assert_eq!(x.price, y.price);
        assert_eq!(x.condition, y.condition);
    }
}

#[test]
fn test_check_item_returns_at_most_two_per_adapter() {
    let guesser = CurrencyGuesser::new();
    let conv = conversion();
    let cfg = config();
    let reports = vec![
        ok_report(Some(1_00), Some(2_00)),
        ok_report(Some(3_00), Some(4_00)),
        failed_report(),
    ];
    let n = reports.len();
    let out = check_item(reports, &guesser, &conv, &cfg);
    assert!(out.len() <= 2 * n);
}

#[test]
fn test_lowest_by_raw_price_keeps_earliest_minimum() {
    let a = raw_price(5_00, SupportedCurrency::USD, ItemConditions::New);
    let b = raw_price(3_00, SupportedCurrency::USD, ItemConditions::New);
    let c = raw_price(3_00, SupportedCurrency::USD, ItemConditions::Used);
    let r = lowest_by_raw_price(vec![a, b, c]).unwrap();
    assert_eq!(r.price, 3_00);
    assert_eq!(r.condition, ItemConditions::New);
    assert!(lowest_by_raw_price(vec![]).is_none());
}

#[test]
fn test_select_lowest_prices_splits_by_condition() {
    let prices = vec![
        raw_price(5_00, SupportedCurrency::USD, ItemConditions::New),
        raw_price(9_00, SupportedCurrency::USD, ItemConditions::Used),
        raw_price(4_00, SupportedCurrency::USD, ItemConditions::New),
        raw_price(8_00, SupportedCurrency::USD, ItemConditions::Used),
        raw_price(1_00, SupportedCurrency::USD, ItemConditions::All),
    ];
    let (new, used) = select_lowest_prices(prices);
    assert_eq!(new.unwrap().price, 4_00);
    assert_eq!(used.unwrap().price, 8_00);
}

#[test]
fn test_lowest_by_converted_total() {
    let mut a = raw_price(0, SupportedCurrency::USD, ItemConditions::New);
    a.converted_price = 90_00;
    a.taxes = 1900; // 107.10 total
    let mut b = raw_price(0, SupportedCurrency::USD, ItemConditions::New);
    b.converted_price = 100_00; // 100.00 total
    let r = lowest_by_converted_total(vec![a, b]).unwrap();
    assert_eq!(r.converted_price, 100_00);
}

#[test]
fn test_get_used_sales_recovers_difference() {
    let mut s1 = raw_price(10_00, SupportedCurrency::USD, ItemConditions::New);
    s1.url = "https://example.test/ad/1".to_string();
    let mut s2 = raw_price(20_00, SupportedCurrency::USD, ItemConditions::New);
    s2.url = "https://example.test/ad/2".to_string();
    let mut s3 = raw_price(30_00, SupportedCurrency::USD, ItemConditions::New);
    s3.url = "https://example.test/ad/3".to_string();
    let mut new1 = raw_price(10_00, SupportedCurrency::USD, ItemConditions::New);
    new1.url = "https://example.test/ad/1".to_string();
    let used = get_used_sales(vec![s1, s2, s3], &vec![new1]);
    assert_eq!(used.len(), 2);
    assert_eq!(used[0].url, "https://example.test/ad/2");
    assert_eq!(used[0].condition, ItemConditions::Used);
    assert_eq!(used[1].url, "https://example.test/ad/3");
}

fn api_item(gcode: &str, min_price: Option<u64>, instock: u8, cond_flg: u8) -> ApiItem {
    ApiItem {
        gcode: gcode.to_string(),
        gname: "example".to_string(),
        thumb_url: "/images/example.jpg".to_string(),
        min_price,
        maker_name: "maker".to_string(),
        instock_flg: instock,
        condition_flg: cond_flg,
    }
}

#[test]
fn test_amiami_figure_url() {
    let it = api_item("FIGURE-123", Some(4980), 1, 0);
    assert_eq!(
        it.get_figure_url(),
        "https://www.amiami.com/eng/detail/?gcode=FIGURE-123"
    );
}

#[test]
fn test_amiami_select_prices() {
    let items = vec![
        api_item("A-1", Some(4980), 1, 0),
        api_item("A-2", Some(3980), 0, 0), // out of stock, skipped
        api_item("A-3", Some(2980), 1, 1), // used
        api_item("A-4", None, 1, 0),       // no price, skipped
    ];
    let (new, used) = amiami_select_prices(items, &item());
    let new = new.unwrap();
    assert_eq!(new.price, 4980_00);
    assert_eq!(new.currency, "JPY");
    assert_eq!(new.condition, ItemConditions::New);
    assert_eq!(new.url, "https://www.amiami.com/eng/detail/?gcode=A-1");
    assert_eq!(new.module, "amiami.com");
    let used = used.unwrap();
    assert_eq!(used.price, 2980_00);
    assert_eq!(used.condition, ItemConditions::Used);
}

fn hit(handle: &str, level: &str) -> ApiSearchItem {
    ApiSearchItem {
        handle: handle.to_string(),
        matches: HighlightResult {
            ean: SearchMatch {
                match_level: level.to_string(),
            },
        },
    }
}

#[test]
fn test_solaris_url_and_closest_result() {
    let h = hit("some-figure", "full");
    assert_eq!(h.get_url(), "https://solarisjapan.com/products/some-figure");

    let hits = vec![hit("a", "none"), hit("b", "full"), hit("c", "full")];
    let best = get_closest_search_result(hits).unwrap();
    assert_eq!(best.handle, "b");

    let hits = vec![hit("a", "none"), hit("b", "partial")];
    let best = get_closest_search_result(hits).unwrap();
    assert_eq!(best.handle, "a");
}

fn variant(title: &str, price: &str) -> ProductVariant {
    ProductVariant {
        title: title.to_string(),
        price: price.to_string(),
    }
}

#[test]
fn test_solaris_select_prices() {
    let variants = vec![
        variant("Brand New", "12800"),
        variant("Pre Owned", "0"), // not available, skipped
        variant("Pre Owned", "9800.50"),
        variant("Collector", "5000"), // unknown condition, ignored
    ];
    let (new, used) = solaris_select_prices(variants, &item(), "https://solarisjapan.com/products/x")
        .unwrap();
    let new = new.unwrap();
    assert_eq!(new.price, 12800_00);
    assert_eq!(new.condition, ItemConditions::New);
    assert_eq!(new.module, "solarisjapan.com");
    let used = used.unwrap();
    assert_eq!(used.price, 9800_50);
    assert_eq!(used.condition, ItemConditions::Used);
}

#[test]
fn test_solaris_select_prices_fails_on_bad_price() {
    let variants = vec![variant("Brand New", "12,8,00x")];
    assert!(solaris_select_prices(variants, &item(), "https://solarisjapan.com/products/x").is_err());
}

#[test]
fn test_figure_search_url() {
    assert_eq!(
        get_figure_search_url(&item()),
        "https://myfigurecollection.net/browse.v4.php?barcode=4571245298836"
    );
}
