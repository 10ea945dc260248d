//! The run configuration, loaded once at startup into an immutable struct
//! and injected into the conversion table, the evaluator and the dispatcher.

use vstd::prelude::*;

use crate::currency::SupportedCurrency;
use crate::guesser::{spec_match_code, CurrencyGuesser};

verus! {

/// Read-only configuration inputs: the target display currency, per-currency
/// tax rates and shipping costs, and per-channel notification settings.
#[derive(Clone, Debug)]
pub struct Configuration {
    /// The configured display currency code, verbatim, when one is set.
    pub currency: Option<String>,
    /// Per-currency tax rates, in basis points.
    pub taxes: Vec<(SupportedCurrency, u32)>,
    /// Per-currency shipping costs, in cents.
    pub shipping: Vec<(SupportedCurrency, u64)>,
    pub telegram_active: bool,
    pub telegram_api_key: Option<String>,
    pub telegram_user_id: Option<i64>,
    pub discord_active: bool,
    pub discord_client_token: Option<String>,
    pub discord_user_id: Option<i64>,
}

/// The first value registered for `c`.
pub open spec fn assoc_find<T>(t: Seq<(SupportedCurrency, T)>, c: SupportedCurrency) -> Option<T>
    decreases t.len(),
{
    if t.len() == 0 {
        None
    } else if t[0].0 == c {
        Some(t[0].1)
    } else {
        assoc_find(t.drop_first(), c)
    }
}

/// The configured display currency: the configured code when it names a
/// supported currency by exact match, the baseline currency otherwise.
pub open spec fn spec_used_currency(c: Configuration) -> SupportedCurrency {
    match c.currency {
        Some(s) => match spec_match_code(s@, true) {
            Some(cur) => cur,
            None => SupportedCurrency::EUR,
        },
        None => SupportedCurrency::EUR,
    }
}

/// The configured tax rate of a currency, in basis points; zero when the
/// configuration names none.
pub open spec fn spec_used_tax_rate(c: Configuration, from: SupportedCurrency) -> u32 {
    match assoc_find(c.taxes@, from) {
        Some(t) => t,
        None => 0,
    }
}

/// The configured shipping cost of a currency, in cents; zero when the
/// configuration names none.
pub open spec fn spec_shipping(c: Configuration, from: SupportedCurrency) -> u64 {
    match assoc_find(c.shipping@, from) {
        Some(s) => s,
        None => 0,
    }
}

impl Configuration {
    /// The used currency from the configuration; the baseline currency when
    /// none is configured or the configured code is unknown.
    pub fn get_used_currency(&self) -> (r: SupportedCurrency)
        ensures
            r == spec_used_currency(*self),
    {
        let guesser = CurrencyGuesser::new();
        match &self.currency {
            Some(s) => match guesser.guess_currency_from_code(s.clone(), true) {
                Some(c) => c,
                None => SupportedCurrency::EUR,
            },
            None => SupportedCurrency::EUR,
        }
    }

    /// The tax rate to apply for prices bought in `from`, in basis points.
    pub fn get_used_tax_rate(&self, from: SupportedCurrency) -> (r: u32)
        ensures
            r == spec_used_tax_rate(*self, from),
    {
        let mut i: usize = 0;
        proof {
            assert(self.taxes@.skip(0) =~= self.taxes@);
        }
        while i < self.taxes.len()
            invariant
                i <= self.taxes@.len(),
                assoc_find(self.taxes@, from) == assoc_find(self.taxes@.skip(i as int), from),
            decreases self.taxes@.len() - i,
        {
            proof {
                assert(self.taxes@.skip(i as int)[0] == self.taxes@[i as int]);
                assert(self.taxes@.skip(i as int).drop_first() =~= self.taxes@.skip(i + 1));
            }
            if self.taxes[i].0 == from {
                return self.taxes[i].1;
            }
            i = i + 1;
        }
        proof {
            assert(self.taxes@.skip(self.taxes@.len() as int) =~= Seq::<(
                SupportedCurrency,
                u32,
            )>::empty());
        }
        0
    }

    /// The shipping cost to apply for prices bought in `from`, in cents.
    pub fn get_shipping(&self, from: SupportedCurrency) -> (r: u64)
        ensures
            r == spec_shipping(*self, from),
    {
        let mut i: usize = 0;
        proof {
            assert(self.shipping@.skip(0) =~= self.shipping@);
        }
        while i < self.shipping.len()
            invariant
                i <= self.shipping@.len(),
                assoc_find(self.shipping@, from) == assoc_find(self.shipping@.skip(i as int), from),
            decreases self.shipping@.len() - i,
        {
            proof {
                assert(self.shipping@.skip(i as int)[0] == self.shipping@[i as int]);
                assert(self.shipping@.skip(i as int).drop_first() =~= self.shipping@.skip(i + 1));
            }
            if self.shipping[i].0 == from {
                return self.shipping[i].1;
            }
            i = i + 1;
        }
        proof {
            assert(self.shipping@.skip(self.shipping@.len() as int) =~= Seq::<(
                SupportedCurrency,
                u64,
            )>::empty());
        }
        0
    }

    /// The telegram API key, when telegram notifications are active and the
    /// key is set.
    pub fn get_telegram_api_key(&self) -> (r: Option<String>)
        ensures
            match r {
                Some(k) => self.telegram_active && (self.telegram_api_key matches Some(k2) && k@
                    == k2@),
                None => !self.telegram_active || self.telegram_api_key is None,
            },
    {
        if self.telegram_active {
            match &self.telegram_api_key {
                Some(k) => Some(k.clone()),
                None => None,
            }
        } else {
            None
        }
    }

    /// The telegram user ID, when telegram notifications are active and the
    /// ID is set.
    pub fn get_telegram_user_id(&self) -> (r: Option<i64>)
        ensures
            r == (if self.telegram_active {
                self.telegram_user_id
            } else {
                None::<i64>
            }),
    {
        if self.telegram_active {
            self.telegram_user_id
        } else {
            None
        }
    }

    /// The discord bot token, when discord notifications are active and the
    /// token is set.
    pub fn get_discord_client_token(&self) -> (r: Option<String>)
        ensures
            match r {
                Some(k) => self.discord_active && (self.discord_client_token matches Some(k2) && k@
                    == k2@),
                None => !self.discord_active || self.discord_client_token is None,
            },
    {
        if self.discord_active {
            match &self.discord_client_token {
                Some(k) => Some(k.clone()),
                None => None,
            }
        } else {
            None
        }
    }

    /// The discord user ID, when discord notifications are active and the
    /// ID is set.
    pub fn get_discord_user_id(&self) -> (r: Option<i64>)
        ensures
            r == (if self.discord_active {
                self.discord_user_id
            } else {
                None::<i64>
            }),
    {
        if self.discord_active {
            self.discord_user_id
        } else {
            None
        }
    }
}

} // verus!
