//! Tracked items and the item conditions a sale can have.

use vstd::prelude::*;

use crate::text::{spec_int_str, str_eq, i64_to_string};

verus! {

/// A user-registered collectible, identified by a JAN/EAN catalog code.
/// Never deleted, only disabled.
#[derive(Clone, Debug)]
pub struct Item {
    pub id: i64,
    pub jan: i64,
    pub term_en: String,
    pub term_jp: String,
    pub description: String,
    pub image: String,
    pub disabled: bool,
}

/// Available item conditions to request for.
#[derive(Clone, Copy, Debug, PartialEq, Eq, Structural)]
pub enum ItemConditions {
    New,
    Used,
    All,
}

/// The storage key of an item condition.
pub open spec fn spec_item_condition_str(c: ItemConditions) -> Seq<char> {
    match c {
        ItemConditions::New => "new"@,
        ItemConditions::Used => "used"@,
        ItemConditions::All => "all"@,
    }
}

/// An unknown item-condition name.
#[derive(Clone, Debug)]
pub struct InvalidItemConditionError {
    pub msg: String,
}

impl InvalidItemConditionError {
    /// The error message.
    pub fn to_string(&self) -> (r: String)
        ensures
            r@ == self.msg@,
    {
        self.msg.clone()
    }
}

impl ItemConditions {
    /// The storage key of this condition.
    pub fn to_string(&self) -> (r: String)
        ensures
            r@ == spec_item_condition_str(*self),
    {
        match self {
            ItemConditions::New => String::from_str("new"),
            ItemConditions::Used => String::from_str("used"),
            ItemConditions::All => String::from_str("all"),
        }
    }

    /// The condition named by a storage key or command-line word.
    pub fn from_str(s: &str) -> (r: Result<ItemConditions, InvalidItemConditionError>)
        ensures
            match r {
                Ok(c) => s@ == spec_item_condition_str(c),
                Err(e) => s@ != "new"@ && s@ != "used"@ && s@ != "all"@ && e.msg@
                    == invalid_condition_msg(s@),
            },
    {
        if str_eq(s, "new") {
            Ok(ItemConditions::New)
        } else if str_eq(s, "used") {
            Ok(ItemConditions::Used)
        } else if str_eq(s, "all") {
            Ok(ItemConditions::All)
        } else {
            Err(InvalidItemConditionError { msg: build_invalid_condition_msg(s) })
        }
    }
}

/// The message naming an unknown condition word.
pub open spec fn invalid_condition_msg(s: Seq<char>) -> Seq<char> {
    seq!['"'] + s + "\" is not a valid condition type, add --help to see the valid options"@
}

pub(crate) fn build_invalid_condition_msg(s: &str) -> (r: String)
    ensures
        r@ == invalid_condition_msg(s@),
{
    let mut m = String::from_str("\"");
    proof {
        reveal_strlit("\"");
        assert(m@ =~= seq!['"']);
    }
    m.append(s);
    m.append("\" is not a valid condition type, add --help to see the valid options");
    m
}

/// A lookup by JAN/EAN that found no item.
#[derive(Clone, Copy, Debug)]
pub struct NoSuchItemFoundError {
    pub jan: i64,
}

impl NoSuchItemFoundError {
    /// The error message, naming the catalog code that was searched.
    pub fn display(&self) -> (r: String)
        ensures
            r@ == "no item found by JAN/EAN: "@ + spec_int_str(self.jan as int),
    {
        let mut m = String::from_str("no item found by JAN/EAN: ");
        let n = i64_to_string(self.jan);
        m.append(n.as_str());
        m
    }
}

/// A price-history lookup that found no record.
#[derive(Clone, Copy, Debug)]
pub struct NoPriceFoundError {}

impl NoPriceFoundError {
    /// The error message.
    pub fn display(&self) -> (r: String)
        ensures
            r@ == "no related price was found in the database"@,
    {
        String::from_str("no related price was found in the database")
    }
}

} // verus!
