use figure_tracker::conditions::{Condition, ConditionType};
use figure_tracker::currency::SupportedCurrency;
use figure_tracker::items::{Item, ItemConditions, NoPriceFoundError, NoSuchItemFoundError};
use figure_tracker::prices::{matches_condition, HistoryLookup, Price};

fn item() -> Item {
    Item {
        id: 7,
        jan: 4_934_054_783_441,
        term_en: "".to_string(),
        term_jp: "".to_string(),
        description: "example figure".to_string(),
        image: "".to_string(),
        disabled: false,
    }
}

fn price(converted: u64) -> Price {
    let mut p = Price::new(
        &item(),
        converted,
        SupportedCurrency::EUR,
        "https://example.test/sale".to_string(),
        "example.test".to_string(),
        ItemConditions::New,
    );
    p.converted_price = converted;
    p
}

fn condition(kind: ConditionType, value: u64) -> Condition {
    Condition::new(kind, None, value, 7)
}

#[test]
fn test_condition_type_round_trip() {
    for (kind, name) in [
        (ConditionType::BelowPrice, "below_price"),
        (ConditionType::BelowPriceTaxed, "below_price_taxed"),
        (ConditionType::BelowPriceFull, "below_price_full"),
        (ConditionType::LowestPrice, "lowest_price"),
        (ConditionType::PriceDrop, "price_drop"),
    ] {
        assert_eq!(kind.to_string(), name);
        assert_eq!(ConditionType::get_from_str(name).unwrap(), kind);
    }
    let err = ConditionType::get_from_str("under_price").unwrap_err();
    assert_eq!(
        err.display(),
        "\"under_price\" is not a valid condition type, add --help to see the valid options"
    );
}

#[test]
fn test_item_conditions_round_trip() {
    for (cond, name) in [
        (ItemConditions::New, "new"),
        (ItemConditions::Used, "used"),
        (ItemConditions::All, "all"),
    ] {
        assert_eq!(cond.to_string(), name);
        assert_eq!(ItemConditions::from_str(name).unwrap(), cond);
    }
    assert!(ItemConditions::from_str("mint").is_err());
}

#[test]
fn test_error_messages() {
    let e = NoSuchItemFoundError { jan: 4_934_054_783_441 };
    assert_eq!(e.display(), "no item found by JAN/EAN: 4934054783441");
    let p = NoPriceFoundError {};
    assert_eq!(p.display(), "no related price was found in the database");
}

#[test]
fn test_below_price() {
    let cond = condition(ConditionType::BelowPrice, 100_00);
    let none = HistoryLookup::NotFound;
    assert!(matches_condition(&price(99_99), &cond, &none, &none));
    assert!(!matches_condition(&price(100_00), &cond, &none, &none));
}

#[test]
fn test_below_price_taxed() {
    // 90.00 at 19% are 107.10
    let mut p = price(90_00);
    p.taxes = 1900;
    let none = HistoryLookup::NotFound;
    assert!(matches_condition(
        &p,
        &condition(ConditionType::BelowPriceTaxed, 107_11),
        &none,
        &none
    ));
    assert!(!matches_condition(
        &p,
        &condition(ConditionType::BelowPriceTaxed, 107_10),
        &none,
        &none
    ));
}

#[test]
fn test_below_price_full() {
    // (90.00 + 10.00) at 19% are exactly 119.00
    let mut p = price(90_00);
    p.taxes = 1900;
    p.shipping = 10_00;
    let none = HistoryLookup::NotFound;
    assert!(matches_condition(
        &p,
        &condition(ConditionType::BelowPriceFull, 119_01),
        &none,
        &none
    ));
    assert!(!matches_condition(
        &p,
        &condition(ConditionType::BelowPriceFull, 119_00),
        &none,
        &none
    ));
}

#[test]
fn test_lowest_price_examples() {
    // prior lowest = 100, threshold = 5
    let cond = condition(ConditionType::LowestPrice, 5_00);
    let lowest = HistoryLookup::Found(100_00);
    let unused = HistoryLookup::NotFound;
    // observed 96: 96+5=101 is not below 100 -> no match
    assert!(!matches_condition(&price(96_00), &cond, &lowest, &unused));
    // observed 90: 90+5=95 < 100 -> match
    assert!(matches_condition(&price(90_00), &cond, &lowest, &unused));
}

#[test]
fn test_lowest_price_first_observation_always_matches() {
    let cond = condition(ConditionType::LowestPrice, 5_00);
    assert!(matches_condition(
        &price(999_999_00),
        &cond,
        &HistoryLookup::NotFound,
        &HistoryLookup::NotFound
    ));
}

#[test]
fn test_price_drop_examples() {
    // prior price = 100, threshold = 0.1 (a thousand basis points)
    let cond = condition(ConditionType::PriceDrop, 1000);
    let prev = HistoryLookup::Found(100_00);
    let unused = HistoryLookup::NotFound;
    // observed 85: 100*0.9 = 90 > 85 -> match
    assert!(matches_condition(&price(85_00), &cond, &unused, &prev));
    // observed 95: 90 is not above 95 -> no match
    assert!(!matches_condition(&price(95_00), &cond, &unused, &prev));
}

#[test]
fn test_price_drop_without_history_never_matches() {
    let cond = condition(ConditionType::PriceDrop, 1000);
    assert!(!matches_condition(
        &price(1),
        &cond,
        &HistoryLookup::NotFound,
        &HistoryLookup::NotFound
    ));
}

#[test]
fn test_history_failure_is_no_match() {
    let lowest = condition(ConditionType::LowestPrice, 5_00);
    let drop = condition(ConditionType::PriceDrop, 1000);
    let failed = HistoryLookup::Failed;
    assert!(!matches_condition(&price(1), &lowest, &failed, &failed));
    assert!(!matches_condition(&price(1), &drop, &failed, &failed));
}

#[test]
fn test_item_condition_filter_gates_evaluation() {
    let mut cond = condition(ConditionType::BelowPrice, 100_00);
    cond.item_condition = Some(ItemConditions::Used);
    let none = HistoryLookup::NotFound;
    // the observed price is new, the filter demands used -> no match
    assert!(!matches_condition(&price(1_00), &cond, &none, &none));
    let mut used = price(1_00);
    used.condition = ItemConditions::Used;
    assert!(matches_condition(&used, &cond, &none, &none));
}

#[test]
fn test_converted_totals() {
    let mut p = price(90_00);
    p.taxes = 1900;
    p.shipping = 10_00;
    assert_eq!(p.get_converted_taxed(), 107_10);
    assert_eq!(p.get_converted_total(), 119_00);
}
