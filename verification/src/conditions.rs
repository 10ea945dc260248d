//! Trigger conditions: the five condition kinds a user can register for a
//! tracked item, and the stored condition record.

use vstd::prelude::*;

use crate::items::{build_invalid_condition_msg, invalid_condition_msg, ItemConditions};
use crate::text::str_eq;

verus! {

/// The kind of a trigger condition.  The threshold is interpreted per kind:
/// an absolute amount in cents for `BelowPrice`, `BelowPriceTaxed` and
/// `BelowPriceFull`, a delta in cents for `LowestPrice`, and a fraction in
/// basis points (hundredths of a percent) for `PriceDrop`.
#[derive(Clone, Copy, Debug, PartialEq, Eq, Structural)]
pub enum ConditionType {
    BelowPrice,
    BelowPriceTaxed,
    BelowPriceFull,
    LowestPrice,
    PriceDrop,
}

/// The storage key of a condition kind.
pub open spec fn spec_condition_type_str(t: ConditionType) -> Seq<char> {
    match t {
        ConditionType::BelowPrice => "below_price"@,
        ConditionType::BelowPriceTaxed => "below_price_taxed"@,
        ConditionType::BelowPriceFull => "below_price_full"@,
        ConditionType::LowestPrice => "lowest_price"@,
        ConditionType::PriceDrop => "price_drop"@,
    }
}

/// An unknown condition-kind name.
#[derive(Clone, Debug)]
pub struct InvalidConditionError {
    pub msg: String,
}

impl InvalidConditionError {
    /// The error message.
    pub fn display(&self) -> (r: String)
        ensures
            r@ == self.msg@,
    {
        self.msg.clone()
    }
}

impl ConditionType {
    /// The storage key of this condition kind.
    pub fn to_string(&self) -> (r: String)
        ensures
            r@ == spec_condition_type_str(*self),
    {
        match self {
            ConditionType::BelowPrice => String::from_str("below_price"),
            ConditionType::BelowPriceTaxed => String::from_str("below_price_taxed"),
            ConditionType::BelowPriceFull => String::from_str("below_price_full"),
            ConditionType::LowestPrice => String::from_str("lowest_price"),
            ConditionType::PriceDrop => String::from_str("price_drop"),
        }
    }

    /// The condition kind named by a storage key or command-line word.
    pub fn get_from_str(s: &str) -> (r: Result<ConditionType, InvalidConditionError>)
        ensures
            match r {
                Ok(t) => s@ == spec_condition_type_str(t),
                Err(e) => s@ != "below_price"@ && s@ != "below_price_taxed"@ && s@
                    != "below_price_full"@ && s@ != "lowest_price"@ && s@ != "price_drop"@
                    && e.msg@ == invalid_condition_msg(s@),
            },
    {
        if str_eq(s, "below_price") {
            Ok(ConditionType::BelowPrice)
        } else if str_eq(s, "below_price_taxed") {
            Ok(ConditionType::BelowPriceTaxed)
        } else if str_eq(s, "below_price_full") {
            Ok(ConditionType::BelowPriceFull)
        } else if str_eq(s, "lowest_price") {
            Ok(ConditionType::LowestPrice)
        } else if str_eq(s, "price_drop") {
            Ok(ConditionType::PriceDrop)
        } else {
            Err(InvalidConditionError { msg: build_invalid_condition_msg(s) })
        }
    }
}

/// A stored trigger condition for one tracked item.  `value` is read per
/// `condition_type`, see there.  Mutated only by enabling or disabling.
#[derive(Clone, Debug)]
pub struct Condition {
    pub id: Option<i64>,
    pub item_id: i64,
    pub condition_type: ConditionType,
    pub item_condition: Option<ItemConditions>,
    pub value: u64,
    pub disabled: bool,
}

impl Condition {
    /// A fresh condition record for `item_id`, enabled and not yet persisted.
    pub fn new(
        notification_type: ConditionType,
        condition: Option<ItemConditions>,
        value: u64,
        item_id: i64,
    ) -> (r: Condition)
        ensures
            r.id is None,
            r.item_id == item_id,
            r.condition_type == notification_type,
            r.item_condition == condition,
            r.value == value,
            !r.disabled,
    {
        Condition {
            id: None,
            item_id,
            condition_type: notification_type,
            item_condition: condition,
            value,
            disabled: false,
        }
    }
}

} // verus!
