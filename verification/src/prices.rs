//! Observed prices and the trigger-condition evaluator.
//!
//! All money amounts are whole hundredths ("cents") of their currency; tax
//! rates are basis points (hundredths of a percent).  Comparisons against
//! thresholds are exact: taxed and full totals are compared as fractions,
//! without intermediate rounding.

use vstd::prelude::*;

use crate::conditions::{Condition, ConditionType};
use crate::conversion::AMOUNT_MAX;
use crate::currency::{spec_code, SupportedCurrency};
use crate::items::{Item, ItemConditions};

verus! {

/// The largest tax rate a well-formed price may carry, in basis points.
pub const TAX_MAX: u32 = 1_000_000;

/// One price reading from one source adapter at one point in time.
/// Immutable once persisted; raw and converted representations are both
/// always present, even when conversion was a no-op.
#[derive(Clone, Debug)]
pub struct Price {
    pub id: Option<i64>,
    pub item_id: i64,
    /// The raw amount, in cents of the raw currency.
    pub price: u64,
    /// The raw currency token as the adapter reported it.
    pub currency: String,
    /// The amount converted to the configured target currency, in cents.
    pub converted_price: u64,
    pub converted_currency: String,
    /// The applied tax rate, in basis points.
    pub taxes: u32,
    /// The applied shipping cost, in cents of the converted currency.
    pub shipping: u64,
    pub url: String,
    pub module: String,
    pub condition: ItemConditions,
    /// Seconds since the epoch; zero until the caller stamps the record at
    /// persist time.
    pub timestamp: u64,
}

/// Amounts and rate within the bounds the totals arithmetic needs.
pub open spec fn price_wf(p: Price) -> bool {
    p.converted_price <= AMOUNT_MAX && p.shipping <= AMOUNT_MAX && p.taxes <= TAX_MAX
}

impl Price {
    /// A fresh price record from only the required attributes: not yet
    /// converted, taxed or stamped.
    pub fn new(
        item: &Item,
        price: u64,
        currency: SupportedCurrency,
        url: String,
        module: String,
        condition: ItemConditions,
    ) -> (r: Price)
        ensures
            r.id is None,
            r.item_id == item.id,
            r.price == price,
            r.currency@ == spec_code(currency),
            r.converted_price == 0,
            r.converted_currency@ == spec_code(currency),
            r.taxes == 0,
            r.shipping == 0,
            r.url == url,
            r.module == module,
            r.condition == condition,
            r.timestamp == 0,
    {
        let code = currency.to_string();
        let converted_code = currency.to_string();
        Price {
            id: None,
            item_id: item.id,
            price,
            currency: code,
            converted_price: 0,
            converted_currency: converted_code,
            taxes: 0,
            shipping: 0,
            url,
            module,
            condition,
            timestamp: 0,
        }
    }

    /// The taxed amount without shipping costs, rounded down to the cent.
    pub fn get_converted_taxed(&self) -> (r: u64)
        requires
            price_wf(*self),
        ensures
            r == self.converted_price * (10000 + self.taxes) / 10000,
    {
        proof {
            lemma_total_bounds(self.converted_price as int, 0, self.taxes as int);
        }
        let t: u128 = (self.converted_price as u128) * (10000 + self.taxes as u128) / 10000;
        t as u64
    }

    /// The taxed total including shipping costs, rounded down to the cent;
    /// shipping costs are normally also taxed.
    pub fn get_converted_total(&self) -> (r: u64)
        requires
            price_wf(*self),
        ensures
            r == (self.converted_price + self.shipping) * (10000 + self.taxes) / 10000,
    {
        proof {
            lemma_total_bounds(self.converted_price as int, self.shipping as int, self.taxes as int);
        }
        let t: u128 = ((self.converted_price as u128) + (self.shipping as u128)) * (10000
            + self.taxes as u128) / 10000;
        t as u64
    }
}

proof fn lemma_total_bounds(conv: int, ship: int, tax: int)
    requires
        0 <= conv <= AMOUNT_MAX,
        0 <= ship <= AMOUNT_MAX,
        0 <= tax <= TAX_MAX,
    ensures
        0 <= (conv + ship) * (10000 + tax) <= u128::MAX,
        (conv + ship) * (10000 + tax) / 10000 <= u64::MAX,
{
    assert(0 <= (conv + ship) * (10000 + tax) <= 2_030_000_000_000_000_000_000int)
        by (nonlinear_arith)
        requires
            0 <= conv + ship <= 2 * AMOUNT_MAX,
            0 <= tax <= TAX_MAX,
    ;
    vstd::arithmetic::div_mod::lemma_div_is_ordered(
        (conv + ship) * (10000 + tax),
        2_030_000_000_000_000_000_000int,
        10000,
    );
    assert(2_030_000_000_000_000_000_000int / 10000 == 203_000_000_000_000_000);
}

/// The outcome of one historical price query: the lowest converted amount in
/// cents, a distinguishable "not found", or a lookup failure.
#[derive(Clone, Copy, Debug, PartialEq, Eq, Structural)]
pub enum HistoryLookup {
    Found(u64),
    NotFound,
    Failed,
}

/// Whether a condition's item-condition filter lets a price through:
/// without a filter evaluation is unconditional.
pub open spec fn spec_filter_allows(filter: Option<ItemConditions>, actual: ItemConditions) -> bool {
    match filter {
        None => true,
        Some(f) => f == actual,
    }
}

/// The evaluator's decision, exactly.  `lowest_ever` answers the query for
/// the lowest converted price ever recorded for the item; `lowest_before`
/// for the lowest one recorded strictly before the observed price's
/// timestamp.  A lookup failure is no match, never an error.
pub open spec fn spec_matches_condition(
    p: Price,
    cond: Condition,
    lowest_ever: HistoryLookup,
    lowest_before: HistoryLookup,
) -> bool {
    if !spec_filter_allows(cond.item_condition, p.condition) {
        false
    } else {
        match cond.condition_type {
            ConditionType::BelowPrice => (p.converted_price as int) < cond.value,
            ConditionType::BelowPriceTaxed => p.converted_price * (10000 + p.taxes) < cond.value
                * 10000,
            ConditionType::BelowPriceFull => (p.converted_price + p.shipping) * (10000 + p.taxes)
                < cond.value * 10000,
            ConditionType::LowestPrice => match lowest_ever {
                HistoryLookup::Found(lowest) => p.converted_price + cond.value < lowest,
                HistoryLookup::NotFound => true,
                HistoryLookup::Failed => false,
            },
            ConditionType::PriceDrop => match lowest_before {
                HistoryLookup::Found(prev) => prev * (10000 - cond.value) > p.converted_price
                    * 10000,
                HistoryLookup::NotFound => false,
                HistoryLookup::Failed => false,
            },
        }
    }
}

/// Decides whether the observed price satisfies the stored condition,
/// consulting the two history answers where the kind needs them.
pub fn matches_condition(
    price: &Price,
    condition: &Condition,
    lowest_ever: &HistoryLookup,
    lowest_before: &HistoryLookup,
) -> (r: bool)
    ensures
        r == spec_matches_condition(*price, *condition, *lowest_ever, *lowest_before),
{
    if let Some(f) = condition.item_condition {
        if !(f == price.condition) {
            return false;
        }
    }
    match condition.condition_type {
        ConditionType::BelowPrice => price.converted_price < condition.value,
        ConditionType::BelowPriceTaxed => {
            proof {
                lemma_cmp_bounds(
                    price.converted_price as int,
                    0,
                    price.taxes as int,
                    condition.value as int,
                );
            }
            (price.converted_price as u128) * (10000 + price.taxes as u128) < (
            condition.value as u128) * 10000
        },
        ConditionType::BelowPriceFull => {
            proof {
                lemma_cmp_bounds(
                    price.converted_price as int,
                    price.shipping as int,
                    price.taxes as int,
                    condition.value as int,
                );
            }
            ((price.converted_price as u128) + (price.shipping as u128)) * (10000
                + price.taxes as u128) < (condition.value as u128) * 10000
        },
        ConditionType::LowestPrice => match lowest_ever {
            HistoryLookup::Found(lowest) => (price.converted_price as u128) + (
            condition.value as u128) < (*lowest as u128),
            HistoryLookup::NotFound => true,
            HistoryLookup::Failed => false,
        },
        ConditionType::PriceDrop => match lowest_before {
            HistoryLookup::Found(prev) => {
                if condition.value >= 10000 {
                    proof {
                        lemma_drop_nonpositive(*prev as int, condition.value as int);
                    }
                    false
                } else {
                    proof {
                        lemma_drop_bounds(*prev as int, condition.value as int);
                    }
                    (*prev as u128) * ((10000 - condition.value) as u128) > (
                    price.converted_price as u128) * 10000
                }
            },
            HistoryLookup::NotFound => false,
            HistoryLookup::Failed => false,
        },
    }
}

proof fn lemma_cmp_bounds(conv: int, ship: int, tax: int, value: int)
    requires
        0 <= conv <= u64::MAX,
        0 <= ship <= u64::MAX,
        0 <= tax <= u32::MAX,
        0 <= value <= u64::MAX,
    ensures
        0 <= (conv + ship) * (10000 + tax) <= u128::MAX,
        0 <= value * 10000 <= u128::MAX,
{
    assert(0 <= (conv + ship) * (10000 + tax) <= u128::MAX) by (nonlinear_arith)
        requires
            0 <= conv + ship <= 2 * (u64::MAX as int),
            0 <= tax <= u32::MAX,
    ;
}

proof fn lemma_drop_nonpositive(prev: int, value: int)
    requires
        prev >= 0,
        value >= 10000,
    ensures
        !(prev * (10000 - value) > 0),
{
    assert(prev * (10000 - value) <= 0) by (nonlinear_arith)
        requires
            prev >= 0,
            10000 - value <= 0,
    ;
}

proof fn lemma_drop_bounds(prev: int, value: int)
    requires
        0 <= prev <= u64::MAX,
        0 <= value < 10000,
    ensures
        0 <= prev * (10000 - value) <= u128::MAX,
{
    assert(0 <= prev * (10000 - value) <= u128::MAX) by (nonlinear_arith)
        requires
            0 <= prev <= u64::MAX as int,
            0 < 10000 - value <= 10000,
    ;
}

/// With no prior price recorded, a `LowestPrice` condition matches any
/// observation: the first observation is always a new low.
pub proof fn lemma_lowest_price_first_observation(
    p: Price,
    cond: Condition,
    lowest_before: HistoryLookup,
)
    requires
        cond.condition_type == ConditionType::LowestPrice,
        spec_filter_allows(cond.item_condition, p.condition),
    ensures
        spec_matches_condition(p, cond, HistoryLookup::NotFound, lowest_before),
{
}

/// With no price recorded before the observation, a `PriceDrop` condition
/// never matches: there is no baseline to compare against.
pub proof fn lemma_price_drop_needs_history(p: Price, cond: Condition, lowest_ever: HistoryLookup)
    requires
        cond.condition_type == ConditionType::PriceDrop,
    ensures
        !spec_matches_condition(p, cond, lowest_ever, HistoryLookup::NotFound),
{
}

/// A history-lookup failure suppresses only that single evaluation: the two
/// history-consulting kinds answer "no match" on a failed lookup.
pub proof fn lemma_history_failure_no_match(p: Price, cond: Condition)
    requires
        cond.condition_type == ConditionType::LowestPrice || cond.condition_type
            == ConditionType::PriceDrop,
    ensures
        !spec_matches_condition(p, cond, HistoryLookup::Failed, HistoryLookup::Failed),
{
}

} // verus!
