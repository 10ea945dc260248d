//! The currency conversion table: one immutable snapshot per run, built from
//! the exchange-rate reference feed, mapping every supported currency to a
//! rational rate against the baseline currency, and converting amounts
//! between any two currencies of the snapshot.

use vstd::arithmetic::div_mod::lemma_div_multiples_vanish;
use vstd::prelude::*;

use crate::amount::{
    acc_digits, digits_value, is_sep, last_sep_index, lemma_no_sep, lemma_sep_at, strip_seps,
    AmountError,
};
use crate::currency::SupportedCurrency;
use crate::guesser::{spec_match_code, CurrencyGuesser};
use crate::text::is_digit_char;

verus! {

/// The largest numerator or denominator a feed rate may have.
pub const RATE_MAX: u64 = 1_000_000_000;

/// The largest amount, in cents, that a conversion accepts.
pub const AMOUNT_MAX: u64 = 1_000_000_000_000_000;

/// An exchange rate as an exact fraction `num / den` of the baseline.
#[derive(Clone, Copy, Debug, PartialEq, Eq, Structural)]
pub struct Rate {
    pub num: u64,
    pub den: u64,
}

/// A rate is positive and within the feed's magnitude.
pub open spec fn rate_wf(r: Rate) -> bool {
    1 <= r.num <= RATE_MAX && 1 <= r.den <= RATE_MAX
}

/// One entry of the exchange-rate reference feed: a currency code and a
/// decimal rate, both as the feed printed them.
#[derive(Clone, Debug)]
pub struct FeedEntry {
    pub currency: String,
    pub rate: String,
}

/// Why an amount cannot be converted.
#[derive(Clone, Copy, Debug, PartialEq, Eq, Structural)]
pub enum ConversionError {
    /// One of the two currencies is absent from the snapshot; the snapshot
    /// does not change mid-run, so retrying cannot help.
    MissingCurrency,
    /// The amount, or the converted result, leaves the cents type.
    AmountTooLarge,
}

/// Why a snapshot cannot be built.
#[derive(Clone, Copy, Debug, PartialEq, Eq, Structural)]
pub enum SnapshotError {
    /// A rate string of the feed is not a positive decimal number within
    /// the supported magnitude.
    InvalidRate,
}

pub open spec fn pow10(k: nat) -> int
    decreases k,
{
    if k == 0 {
        1
    } else {
        10 * pow10((k - 1) as nat)
    }
}

/// Every character is a digit or the decimal dot.
pub open spec fn rate_chars_ok(s: Seq<char>) -> bool {
    forall|i: int| 0 <= i < s.len() ==> is_digit_char(#[trigger] s[i]) || s[i] == '.'
}

/// The rate named by a feed decimal string, as the exact fraction
/// (numerator, denominator), or `None` when the string is malformed, zero,
/// or too large.
pub open spec fn spec_parse_rate(s: Seq<char>) -> Option<(int, int)> {
    if !(rate_chars_ok(s) && strip_seps(s).len() > 0) {
        None
    } else {
        let p = last_sep_index(s);
        if p >= 0 && last_sep_index(s.take(p)) >= 0 {
            None
        } else {
            let num = digits_value(strip_seps(s));
            let den: int = if p == -1 {
                1
            } else {
                pow10((s.len() - 1 - p) as nat)
            };
            if 1 <= num <= RATE_MAX && 1 <= den <= RATE_MAX {
                Some((num, den))
            } else {
                None
            }
        }
    }
}

proof fn lemma_pow10_ge(k: nat)
    ensures
        pow10(k) >= 1,
        k >= 1 ==> pow10(k) >= 10,
    decreases k,
{
    if k >= 1 {
        lemma_pow10_ge((k - 1) as nat);
    }
}

proof fn lemma_pow10_mono(j: nat, k: nat)
    requires
        j <= k,
    ensures
        pow10(j) <= pow10(k),
    decreases k,
{
    if j < k {
        lemma_pow10_mono(j, (k - 1) as nat);
        lemma_pow10_ge((k - 1) as nat);
    }
}

proof fn lemma_pow10_nine()
    ensures
        pow10(9) == 1_000_000_000,
{
    assert(pow10(0) == 1);
    assert(pow10(1) == 10);
    assert(pow10(2) == 100);
    assert(pow10(3) == 1000);
    assert(pow10(4) == 10_000);
    assert(pow10(5) == 100_000);
    assert(pow10(6) == 1_000_000);
    assert(pow10(7) == 10_000_000);
    assert(pow10(8) == 100_000_000);
    assert(pow10(9) == 1_000_000_000);
}

proof fn lemma_pow10_big(k: nat)
    requires
        k >= 10,
    ensures
        pow10(k) > RATE_MAX,
    decreases k,
{
    if k == 10 {
        assert(pow10(0) == 1);
        assert(pow10(1) == 10);
        assert(pow10(2) == 100);
        assert(pow10(3) == 1000);
        assert(pow10(4) == 10_000);
        assert(pow10(5) == 100_000);
        assert(pow10(6) == 1_000_000);
        assert(pow10(7) == 10_000_000);
        assert(pow10(8) == 100_000_000);
        assert(pow10(9) == 1_000_000_000);
        assert(pow10(10) == 10_000_000_000);
    } else {
        lemma_pow10_big((k - 1) as nat);
    }
}

/// Parses a feed rate string into an exact positive fraction.
pub fn parse_rate(s: &str) -> (r: Option<Rate>)
    ensures
        match r {
            Some(rt) => spec_parse_rate(s@) == Some((rt.num as int, rt.den as int)) && rate_wf(rt),
            None => spec_parse_rate(s@) is None,
        },
{
    let n = s.unicode_len();
    let mut dot: usize = 0;
    let mut has_dot: bool = false;
    let mut digit_count: usize = 0;
    let mut i: usize = 0;
    proof {
        assert(s@.take(0) =~= Seq::<char>::empty());
    }
    while i < n
        invariant
            n == s@.len(),
            i <= n,
            forall|j: int| 0 <= j < i ==> is_digit_char(#[trigger] s@[j]) || s@[j] == '.',
            if has_dot {
                dot < i && is_sep(s@[dot as int]) && forall|j: int|
                    0 <= j < i && j != dot ==> !is_sep(#[trigger] s@[j])
            } else {
                forall|j: int| 0 <= j < i ==> !is_sep(#[trigger] s@[j])
            },
            digit_count == strip_seps(s@.take(i as int)).len(),
            digit_count <= i,
        decreases n - i,
    {
        let c = s.get_char(i);
        let u = c as u32;
        proof {
            assert(s@.take(i + 1).drop_last() =~= s@.take(i as int));
            assert(s@.take(i + 1).last() == s@[i as int]);
        }
        if 48 <= u && u <= 57 {
            proof {
                assert(strip_seps(s@.take(i + 1)) == strip_seps(s@.take(i as int)).push(
                    s@[i as int],
                ));
            }
            digit_count = digit_count + 1;
        } else if c == '.' {
            if has_dot {
                proof {
                    crate::amount::lemma_last_sep_props(s@);
                    lemma_sep_at(s@, i as int);
                    let p = last_sep_index(s@);
                    assert(dot < i <= p < s@.len());
                    assert(s@.take(p)[dot as int] == s@[dot as int]);
                    lemma_sep_at(s@.take(p), dot as int);
                }
                return None;
            }
            dot = i;
            has_dot = true;
        } else {
            proof {
                assert(!(is_digit_char(s@[i as int]) || s@[i as int] == '.'));
            }
            return None;
        }
        i = i + 1;
    }
    proof {
        assert(s@.take(n as int) =~= s@);
    }
    if digit_count == 0 {
        return None;
    }
    // the digits of the whole string form the numerator
    let num = match acc_digits(s, n) {
        Ok(w) => w,
        Err(_) => {
            return None;
        },
    };
    if num == 0 || num > RATE_MAX {
        return None;
    }
    if !has_dot {
        proof {
            lemma_no_sep(s@);
        }
        return Some(Rate { num, den: 1 });
    }
    proof {
        // the single dot is the last separator
        crate::amount::lemma_last_sep_props(s@);
        lemma_sep_at(s@, dot as int);
        assert(last_sep_index(s@) == dot);
        assert forall|j: int| 0 <= j < s@.take(dot as int).len() implies !is_sep(
            #[trigger] s@.take(dot as int)[j],
        ) by {
            assert(s@.take(dot as int)[j] == s@[j]);
        }
        lemma_no_sep(s@.take(dot as int));
    }
    let frac = n - 1 - dot;
    if frac > 9 {
        proof {
            lemma_pow10_big(frac as nat);
        }
        return None;
    }
    let mut den: u64 = 1;
    let mut k: usize = 0;
    while k < frac
        invariant
            k <= frac <= 9,
            den == pow10(k as nat),
            den <= 1_000_000_000,
        decreases frac - k,
    {
        proof {
            lemma_pow10_ge(k as nat);
            lemma_pow10_mono((k + 1) as nat, 9);
            lemma_pow10_nine();
        }
        den = den * 10;
        k = k + 1;
    }
    proof {
        lemma_pow10_ge(frac as nat);
    }
    Some(Rate { num, den })
}

/// The index of the first entry for `c`, or `-1` when there is none.
pub open spec fn find_index(t: Seq<(SupportedCurrency, Rate)>, c: SupportedCurrency) -> int
    decreases t.len(),
{
    if t.len() == 0 {
        -1
    } else if t[0].0 == c {
        0
    } else {
        let rest = find_index(t.drop_first(), c);
        if rest == -1 {
            -1
        } else {
            rest + 1
        }
    }
}

pub proof fn lemma_find_index_props(t: Seq<(SupportedCurrency, Rate)>, c: SupportedCurrency)
    ensures
        find_index(t, c) == -1 ==> forall|j: int| 0 <= j < t.len() ==> (#[trigger] t[j]).0 != c,
        find_index(t, c) != -1 ==> 0 <= find_index(t, c) < t.len() && t[find_index(t, c)].0 == c,
    decreases t.len(),
{
    if t.len() > 0 && t[0].0 != c {
        lemma_find_index_props(t.drop_first(), c);
        assert forall|j: int| 1 <= j < t.len() implies t.drop_first()[j - 1] == (
        #[trigger] t[j]) by {}
    }
}

proof fn lemma_find_index_at(t: Seq<(SupportedCurrency, Rate)>, c: SupportedCurrency, i: int)
    requires
        0 <= i < t.len(),
        t[i].0 == c,
        forall|j: int| 0 <= j < i ==> (#[trigger] t[j]).0 != c,
    ensures
        find_index(t, c) == i,
    decreases i,
{
    if i > 0 {
        assert forall|j: int| 0 <= j < i - 1 implies (#[trigger] t.drop_first()[j]).0 != c by {
            assert(t.drop_first()[j] == t[j + 1]);
        }
        assert(t.drop_first()[i - 1] == t[i as int]);
        lemma_find_index_at(t.drop_first(), c, i - 1);
    }
}

proof fn lemma_find_index_none(t: Seq<(SupportedCurrency, Rate)>, c: SupportedCurrency)
    requires
        forall|j: int| 0 <= j < t.len() ==> (#[trigger] t[j]).0 != c,
    ensures
        find_index(t, c) == -1,
    decreases t.len(),
{
    if t.len() > 0 {
        assert forall|j: int| 0 <= j < t.drop_first().len() implies (
        #[trigger] t.drop_first()[j]).0 != c by {
            assert(t.drop_first()[j] == t[j + 1]);
        }
        lemma_find_index_none(t.drop_first(), c);
    }
}

/// Replaces the rate of `c`, or appends it when absent.
pub open spec fn spec_upsert(
    t: Seq<(SupportedCurrency, Rate)>,
    c: SupportedCurrency,
    r: Rate,
) -> Seq<(SupportedCurrency, Rate)> {
    let i = find_index(t, c);
    if i >= 0 {
        t.update(i, (c, r))
    } else {
        t.push((c, r))
    }
}

/// A well-formed snapshot: positive bounded rates, one entry per currency,
/// and the baseline currency present.
pub open spec fn table_wf(t: Seq<(SupportedCurrency, Rate)>) -> bool {
    &&& forall|i: int| 0 <= i < t.len() ==> rate_wf((#[trigger] t[i]).1)
    &&& forall|i: int, j: int|
        0 <= i < j < t.len() ==> (#[trigger] t[i]).0 != (#[trigger] t[j]).0
    &&& find_index(t, SupportedCurrency::EUR) >= 0
}

proof fn lemma_upsert_wf(t: Seq<(SupportedCurrency, Rate)>, c: SupportedCurrency, r: Rate)
    requires
        table_wf(t),
        rate_wf(r),
    ensures
        table_wf(spec_upsert(t, c, r)),
{
    lemma_find_index_props(t, c);
    let t2 = spec_upsert(t, c, r);
    let i = find_index(t, c);
    if i >= 0 {
        assert(forall|j: int| 0 <= j < t.len() && j != i ==> t2[j] == t[j]);
        assert(t2[i].0 == t[i].0);
        lemma_find_index_props(t, SupportedCurrency::EUR);
        let e = find_index(t, SupportedCurrency::EUR);
        assert(t2[e].0 == SupportedCurrency::EUR);
        assert forall|j: int| 0 <= j < e implies (#[trigger] t2[j]).0
            != SupportedCurrency::EUR by {
            assert(t2[j].0 == t[j].0);
        }
        lemma_find_index_at(t2, SupportedCurrency::EUR, e);
    } else {
        assert(forall|j: int| 0 <= j < t.len() ==> t2[j] == (#[trigger] t[j]));
        lemma_find_index_props(t, SupportedCurrency::EUR);
        let e = find_index(t, SupportedCurrency::EUR);
        assert(t2[e].0 == SupportedCurrency::EUR);
        assert forall|j: int| 0 <= j < e implies (#[trigger] t2[j]).0
            != SupportedCurrency::EUR by {
            assert(t2[j].0 == t[j].0);
        }
        lemma_find_index_at(t2, SupportedCurrency::EUR, e);
    }
}

/// The snapshot that a feed builds: the baseline at rate one, then every
/// feed entry whose code maps to a supported currency by exact match, later
/// entries replacing earlier ones; `None` when some rate string is bad.
pub open spec fn spec_build(feed: Seq<FeedEntry>) -> Option<Seq<(SupportedCurrency, Rate)>>
    decreases feed.len(),
{
    if feed.len() == 0 {
        Some(seq![(SupportedCurrency::EUR, Rate { num: 1, den: 1 })])
    } else {
        match spec_build(feed.drop_last()) {
            None => None,
            Some(prev) => match spec_parse_rate(feed.last().rate@) {
                None => None,
                Some((n, d)) => match spec_match_code(feed.last().currency@, true) {
                    None => Some(prev),
                    Some(c) => Some(
                        spec_upsert(prev, c, Rate { num: n as u64, den: d as u64 }),
                    ),
                },
            },
        }
    }
}

/// Every snapshot a feed can build is well-formed.
pub proof fn lemma_build_wf(feed: Seq<FeedEntry>)
    ensures
        spec_build(feed) matches Some(t) ==> table_wf(t),
    decreases feed.len(),
{
    if feed.len() == 0 {
        let t = seq![(SupportedCurrency::EUR, Rate { num: 1, den: 1 })];
        if spec_build(feed) is Some {
            assert(t[0].0 == SupportedCurrency::EUR);
            lemma_find_index_at(t, SupportedCurrency::EUR, 0);
        }
    } else {
        lemma_build_wf(feed.drop_last());
        if spec_build(feed) matches Some(t) {
            match spec_build(feed.drop_last()) {
                None => {},
                Some(prev) => {
                    match spec_parse_rate(feed.last().rate@) {
                        None => {},
                        Some((n, d)) => {
                            match spec_match_code(feed.last().currency@, true) {
                                None => {},
                                Some(c) => {
                                    lemma_upsert_wf(
                                        prev,
                                        c,
                                        Rate { num: n as u64, den: d as u64 },
                                    );
                                },
                            }
                        },
                    }
                },
            }
        }
    }
}

/// The snapshot always contains the baseline currency, and — as long as the
/// feed itself does not quote the baseline, which a feed of rates against
/// that baseline never does — at rate one exactly.
pub proof fn lemma_baseline_rate_one(feed: Seq<FeedEntry>)
    requires
        forall|i: int|
            0 <= i < feed.len() ==> spec_match_code((#[trigger] feed[i]).currency@, true) != Some(
                SupportedCurrency::EUR,
            ),
    ensures
        spec_build(feed) matches Some(t) ==> find_index(t, SupportedCurrency::EUR) >= 0 && t[
            find_index(t, SupportedCurrency::EUR)].1 == (Rate { num: 1, den: 1 }),
    decreases feed.len(),
{
    let eur = SupportedCurrency::EUR;
    if feed.len() == 0 {
        let t = seq![(eur, Rate { num: 1, den: 1 })];
        if spec_build(feed) is Some {
            lemma_find_index_at(t, eur, 0);
        }
    } else {
        assert forall|i: int| 0 <= i < feed.drop_last().len() implies spec_match_code(
            (#[trigger] feed.drop_last()[i]).currency@,
            true,
        ) != Some(eur) by {
            assert(feed.drop_last()[i] == feed[i]);
        }
        lemma_baseline_rate_one(feed.drop_last());
        lemma_build_wf(feed.drop_last());
        match spec_build(feed) {
            None => {},
            Some(t) => match spec_build(feed.drop_last()) {
                None => {},
                Some(prev) => {
                    let e = find_index(prev, eur);
                    match spec_parse_rate(feed.last().rate@) {
                        None => {},
                        Some((n, d)) => {
                            match spec_match_code(feed.last().currency@, true) {
                                None => {},
                                Some(c) => {
                                    let r = Rate { num: n as u64, den: d as u64 };
                                    lemma_find_index_props(prev, c);
                                    lemma_find_index_props(prev, eur);
                                    let i0 = find_index(prev, c);
                                    if i0 >= 0 {
                                        assert(prev[i0].0 == c && prev[e].0 == eur);
                                        assert(i0 != e);
                                        assert(t == prev.update(i0, (c, r)));
                                        assert(t[e] == prev[e]);
                                        assert forall|j: int| 0 <= j < e implies (
                                        #[trigger] t[j]).0 != eur by {
                                            assert(t[j].0 == prev[j].0);
                                        }
                                        lemma_find_index_at(t, eur, e);
                                    } else {
                                        assert(t == prev.push((c, r)));
                                        assert(t[e] == prev[e]);
                                        assert forall|j: int| 0 <= j < e implies (
                                        #[trigger] t[j]).0 != eur by {
                                            assert(t[j].0 == prev[j].0);
                                        }
                                        lemma_find_index_at(t, eur, e);
                                    }
                                },
                            }
                        },
                    }
                },
            },
        }
    }
}

proof fn lemma_build_none_absorbs(feed: Seq<FeedEntry>, i: int, j: int)
    requires
        0 <= i <= j <= feed.len(),
        spec_build(feed.take(i)) is None,
    ensures
        spec_build(feed.take(j)) is None,
    decreases j - i,
{
    if i < j {
        assert(feed.take(i + 1).drop_last() =~= feed.take(i));
        lemma_build_none_absorbs(feed, i + 1, j);
    }
}

/// The currency conversion table for one run.
#[derive(Clone, Debug)]
pub struct CurrencyConversion {
    pub exchange_rates: Vec<(SupportedCurrency, Rate)>,
}

impl CurrencyConversion {
    pub open spec fn wf(&self) -> bool {
        table_wf(self.exchange_rates@)
    }

    /// Builds the snapshot from the parsed entries of the exchange-rate
    /// reference feed.  A bad rate string makes the whole build fail, since
    /// all downstream conversion depends on the snapshot.
    pub fn new(feed: Vec<FeedEntry>) -> (r: Result<CurrencyConversion, SnapshotError>)
        ensures
            match r {
                Ok(t) => Some(t.exchange_rates@) == spec_build(feed@) && t.wf(),
                Err(e) => e == SnapshotError::InvalidRate && spec_build(feed@) is None,
            },
    {
        let guesser = CurrencyGuesser::new();
        let mut table: Vec<(SupportedCurrency, Rate)> = Vec::new();
        table.push((SupportedCurrency::EUR, Rate { num: 1, den: 1 }));
        proof {
            assert(feed@.take(0) =~= Seq::<FeedEntry>::empty());
            assert(table@ =~= seq![(SupportedCurrency::EUR, Rate { num: 1, den: 1 })]);
        }
        let mut i: usize = 0;
        while i < feed.len()
            invariant
                guesser.wf(),
                i <= feed@.len(),
                Some(table@) == spec_build(feed@.take(i as int)),
            decreases feed@.len() - i,
        {
            let entry = &feed[i];
            proof {
                assert(feed@.take(i + 1).drop_last() =~= feed@.take(i as int));
                assert(feed@.take(i + 1).last() == feed@[i as int]);
            }
            let rate = match parse_rate(entry.rate.as_str()) {
                Some(rt) => rt,
                None => {
                    proof {
                        lemma_build_none_absorbs(feed@, i + 1, feed@.len() as int);
                        assert(feed@.take(feed@.len() as int) =~= feed@);
                    }
                    return Err(SnapshotError::InvalidRate);
                },
            };
            if let Some(c) = guesser.guess_currency_from_code(entry.currency.clone(), true) {
                upsert(&mut table, c, rate);
            }
            i = i + 1;
        }
        proof {
            assert(feed@.take(feed@.len() as int) =~= feed@);
            lemma_build_wf(feed@);
        }
        Ok(CurrencyConversion { exchange_rates: table })
    }

    /// The rate of `c` in this snapshot.
    pub fn rate_of(&self, c: SupportedCurrency) -> (r: Option<Rate>)
        ensures
            r == (if find_index(self.exchange_rates@, c) >= 0 {
                Some(self.exchange_rates@[find_index(self.exchange_rates@, c)].1)
            } else {
                None::<Rate>
            }),
    {
        let t = &self.exchange_rates;
        let mut i: usize = 0;
        while i < t.len()
            invariant
                t == &self.exchange_rates,
                i <= t@.len(),
                forall|j: int| 0 <= j < i ==> (#[trigger] t@[j]).0 != c,
            decreases t@.len() - i,
        {
            if t[i].0 == c {
                proof {
                    lemma_find_index_at(t@, c, i as int);
                }
                return Some(t[i].1);
            }
            i = i + 1;
        }
        proof {
            lemma_find_index_none(t@, c);
        }
        None
    }

    /// Converts an amount in cents from one currency of the snapshot to
    /// another: `value / rate(from) * rate(to)`, rounded down to the whole
    /// cent.
    pub fn convert_price_to(&self, value: u64, from: SupportedCurrency, to: SupportedCurrency) -> (r:
        Result<u64, ConversionError>)
        requires
            self.wf(),
        ensures
            match r {
                Ok(v) => spec_convert(self.exchange_rates@, value as int, from, to) == Ok::<
                    int,
                    ConversionError,
                >(v as int),
                Err(e) => spec_convert(self.exchange_rates@, value as int, from, to) == Err::<
                    int,
                    ConversionError,
                >(e),
            },
    {
        if value > AMOUNT_MAX {
            return Err(ConversionError::AmountTooLarge);
        }
        let f = match self.rate_of(from) {
            Some(f) => f,
            None => {
                return Err(ConversionError::MissingCurrency);
            },
        };
        let t = match self.rate_of(to) {
            Some(t) => t,
            None => {
                return Err(ConversionError::MissingCurrency);
            },
        };
        proof {
            lemma_find_index_props(self.exchange_rates@, from);
            lemma_find_index_props(self.exchange_rates@, to);
            lemma_convert_bounds(value as int, f, t);
        }
        let numerator: u128 = (value as u128) * (t.num as u128) * (f.den as u128);
        let denominator: u128 = (t.den as u128) * (f.num as u128);
        let q: u128 = numerator / denominator;
        if q > u64::MAX as u128 {
            return Err(ConversionError::AmountTooLarge);
        }
        Ok(q as u64)
    }
}

/// The exact conversion result: `Ok` with the floor of
/// `value * rate(to) / rate(from)` in cents exactly when both currencies are
/// in the snapshot and the amounts fit the cents type.
pub open spec fn spec_convert(
    t: Seq<(SupportedCurrency, Rate)>,
    value: int,
    from: SupportedCurrency,
    to: SupportedCurrency,
) -> Result<int, ConversionError> {
    if value > AMOUNT_MAX {
        Err(ConversionError::AmountTooLarge)
    } else {
        let fi = find_index(t, from);
        let ti = find_index(t, to);
        if fi < 0 || ti < 0 {
            Err(ConversionError::MissingCurrency)
        } else {
            let f = t[fi].1;
            let tr = t[ti].1;
            let q = (value * tr.num * f.den) / (tr.den * f.num);
            if q > u64::MAX {
                Err(ConversionError::AmountTooLarge)
            } else {
                Ok(q)
            }
        }
    }
}

proof fn lemma_convert_bounds(value: int, f: Rate, t: Rate)
    requires
        0 <= value <= AMOUNT_MAX,
        rate_wf(f),
        rate_wf(t),
    ensures
        0 <= value * t.num <= 0xffff_ffff_ffff_ffff_ffff_ffff,
        0 <= value * t.num * f.den <= u128::MAX,
        1 <= t.den * f.num <= u128::MAX,
{
    assert(0 <= value * t.num <= 0xffff_ffff_ffff_ffff_ffff_ffff) by (nonlinear_arith)
        requires
            0 <= value <= AMOUNT_MAX,
            1 <= t.num <= RATE_MAX,
    ;
    assert(0 <= value * t.num * f.den <= u128::MAX) by (nonlinear_arith)
        requires
            0 <= value * t.num <= 0xffff_ffff_ffff_ffff_ffff_ffff,
            1 <= f.den <= RATE_MAX,
    ;
    assert(1 <= t.den * f.num <= u128::MAX) by (nonlinear_arith)
        requires
            1 <= t.den <= RATE_MAX,
            1 <= f.num <= RATE_MAX,
    ;
}

/// Replaces the rate of `c` in `table`, or appends it.
fn upsert(table: &mut Vec<(SupportedCurrency, Rate)>, c: SupportedCurrency, r: Rate)
    ensures
        final (table)@ == spec_upsert(old(table)@, c, r),
{
    let mut i: usize = 0;
    while i < table.len()
        invariant
            table@ == old(table)@,
            i <= table@.len(),
            forall|j: int| 0 <= j < i ==> (#[trigger] table@[j]).0 != c,
        decreases table@.len() - i,
    {
        if table[i].0 == c {
            proof {
                lemma_find_index_at(table@, c, i as int);
            }
            table.set(i, (c, r));
            return ;
        }
        i = i + 1;
    }
    proof {
        lemma_find_index_none(table@, c);
    }
    table.push((c, r));
}

/// Converting an amount from a currency to itself returns it unchanged.
pub proof fn lemma_convert_identity(
    t: Seq<(SupportedCurrency, Rate)>,
    value: int,
    c: SupportedCurrency,
)
    requires
        table_wf(t),
        0 <= value <= AMOUNT_MAX,
        find_index(t, c) >= 0,
    ensures
        spec_convert(t, value, c, c) == Ok::<int, ConversionError>(value),
{
    lemma_find_index_props(t, c);
    let r = t[find_index(t, c)].1;
    assert(r.den * r.num >= 1) by (nonlinear_arith)
        requires
            r.den >= 1,
            r.num >= 1,
    ;
    assert(value * r.num * r.den == (r.den * r.num) * value) by (nonlinear_arith);
    lemma_div_multiples_vanish(value, r.den * r.num);
}

/// An amount as an exact fraction, converted from one rate to another:
/// `a / from * to` as a fraction.
pub open spec fn conv_frac(an: int, ad: int, from: Rate, to: Rate) -> (int, int) {
    (an * to.num * from.den, ad * to.den * from.num)
}

/// Equality of fractions by cross-multiplication.
pub open spec fn frac_eq(x: (int, int), y: (int, int)) -> bool {
    x.0 * y.1 == y.0 * x.1
}

/// Converting through an intermediate currency is exactly the same, as a
/// fraction, as converting directly: rounding aside,
/// `convert(convert(a, from, to), to, to2) == convert(a, from, to2)`.
proof fn lemma_chain_identity(a: int, b: int, c: int, d: int, e: int, g: int, h: int, k: int)
    ensures
        ((((a * e) * d) * g) * h) * ((b * k) * c) == ((a * g) * d) * ((((b * h) * c) * k) * e),
{
    let adg = (a * g) * d;
    let bck = (b * c) * k;
    assert((((a * e) * d) * g) * h == (adg * e) * h) by (nonlinear_arith)
        requires
            adg == (a * g) * d,
    ;
    assert((b * k) * c == bck) by (nonlinear_arith)
        requires
            bck == (b * c) * k,
    ;
    assert(((adg * e) * h) * bck == adg * (bck * (e * h))) by (nonlinear_arith);
    assert((((b * h) * c) * k) * e == bck * (e * h)) by (nonlinear_arith)
        requires
            bck == (b * c) * k,
    ;
}

pub proof fn lemma_convert_chain(an: int, ad: int, f: Rate, t: Rate, t2: Rate)
    ensures
        frac_eq(
            conv_frac(conv_frac(an, ad, f, t).0, conv_frac(an, ad, f, t).1, t, t2),
            conv_frac(an, ad, f, t2),
        ),
{
    let chain = conv_frac(conv_frac(an, ad, f, t).0, conv_frac(an, ad, f, t).1, t, t2);
    let direct = conv_frac(an, ad, f, t2);
    lemma_chain_identity(
        an,
        ad,
        f.num as int,
        f.den as int,
        t.num as int,
        t2.num as int,
        t.den as int,
        t2.den as int,
    );
}

} // verus!

