//! The currency catalog and guesser: per currency an ordered list of the
//! textual and symbolic tokens historically used for it, a code matcher, and
//! a similarity-based guess for free-text price strings.

use vstd::prelude::*;

use crate::currency::{lemma_code_injective, spec_code, SupportedCurrency};
use crate::text::{contains_str, is_substring_of, str_eq};

verus! {

pub open spec fn min_nat(a: nat, b: nat) -> nat {
    if a <= b {
        a
    } else {
        b
    }
}

/// The minimum number of character insertions, deletions and substitutions
/// that turn `a` into `b`.
pub open spec fn edit_dist(a: Seq<char>, b: Seq<char>) -> nat
    decreases a.len() + b.len(),
{
    if a.len() == 0 {
        b.len()
    } else if b.len() == 0 {
        a.len()
    } else {
        let sub_cost: nat = if a.last() == b.last() {
            0
        } else {
            1
        };
        min_nat(
            min_nat((edit_dist(a.drop_last(), b) + 1) as nat, (edit_dist(a, b.drop_last()) + 1) as nat),
            (edit_dist(a.drop_last(), b.drop_last()) + sub_cost) as nat,
        )
    }
}

/// Relies on strsim::levenshtein: it returns the minimum number of character
/// insertions, deletions and substitutions required to change one string
/// into the other.
#[verifier::external_body]
fn levenshtein(a: &str, b: &str) -> (d: usize)
    ensures
        d == edit_dist(a@, b@),
{
    strsim::levenshtein(a, b)
}

/// One registered currency with its known textual and symbolic tokens.
pub struct CurrencyEntry {
    pub currency: SupportedCurrency,
    pub symbols: Vec<String>,
}

pub open spec fn entry_view(e: CurrencyEntry) -> (SupportedCurrency, Seq<Seq<char>>) {
    (e.currency, e.symbols.deep_view())
}

/// The fixed registration order and token lists of the catalog, as the
/// reference exchange-rate feed supported them.
pub open spec fn registry_entry(i: int) -> (SupportedCurrency, Seq<Seq<char>>) {
    if i == 0 {
        (SupportedCurrency::EUR, seq!["€"@])
    } else if i == 1 {
        (SupportedCurrency::USD, seq!["$"@])
    } else if i == 2 {
        (SupportedCurrency::JPY, seq!["¥"@, "YEN"@])
    } else if i == 3 {
        (SupportedCurrency::BGN, seq!["лв"@])
    } else if i == 4 {
        (SupportedCurrency::CZK, seq!["Kč"@])
    } else if i == 5 {
        (SupportedCurrency::DKK, seq!["kr"@])
    } else if i == 6 {
        (SupportedCurrency::GBP, seq!["£"@])
    } else if i == 7 {
        (SupportedCurrency::HUF, seq!["Ft"@])
    } else if i == 8 {
        (SupportedCurrency::PLN, seq!["zł"@])
    } else if i == 9 {
        (SupportedCurrency::RON, seq!["lei"@])
    } else if i == 10 {
        (SupportedCurrency::SEK, seq!["kr"@])
    } else if i == 11 {
        (SupportedCurrency::CHF, seq!["Fr"@])
    } else if i == 12 {
        (SupportedCurrency::ISK, seq!["kr"@])
    } else if i == 13 {
        (SupportedCurrency::NOK, seq!["kr"@])
    } else if i == 14 {
        (SupportedCurrency::HRK, seq!["kn"@])
    } else if i == 15 {
        (SupportedCurrency::RUB, seq!["ру"@])
    } else if i == 16 {
        (SupportedCurrency::TRY, seq!["₺"@])
    } else if i == 17 {
        (SupportedCurrency::AUD, seq!["$"@, "A$"@])
    } else if i == 18 {
        (SupportedCurrency::BRL, seq!["R$"@])
    } else if i == 19 {
        (SupportedCurrency::CAD, seq!["$"@, "C$"@])
    } else if i == 20 {
        (SupportedCurrency::CNY, seq!["¥"@])
    } else if i == 21 {
        (SupportedCurrency::HKD, seq!["$"@, "HK$"@])
    } else if i == 22 {
        (SupportedCurrency::IDR, seq!["Rp"@])
    } else if i == 23 {
        (SupportedCurrency::ILS, seq!["₪"@])
    } else if i == 24 {
        (SupportedCurrency::INR, seq!["₹"@])
    } else if i == 25 {
        (SupportedCurrency::KRW, seq!["₩"@])
    } else if i == 26 {
        (SupportedCurrency::MXN, seq!["$"@])
    } else if i == 27 {
        (SupportedCurrency::MYR, seq!["RM"@])
    } else if i == 28 {
        (SupportedCurrency::NZD, seq!["$"@])
    } else if i == 29 {
        (SupportedCurrency::PHP, seq!["₱"@])
    } else if i == 30 {
        (SupportedCurrency::SGD, seq!["$"@])
    } else if i == 31 {
        (SupportedCurrency::THB, seq!["฿"@])
    } else {
        (SupportedCurrency::ZAR, seq!["R"@])
    }
}

pub open spec fn spec_registry() -> Seq<(SupportedCurrency, Seq<Seq<char>>)> {
    Seq::new(33, |i: int| registry_entry(i))
}

/// Whether the code of `c` hits `value`: equality when `exact`, otherwise
/// substring containment.
pub open spec fn code_matches(c: SupportedCurrency, value: Seq<char>, exact: bool) -> bool {
    if exact {
        value == spec_code(c)
    } else {
        is_substring_of(spec_code(c), value)
    }
}

pub open spec fn match_code_rec(
    entries: Seq<(SupportedCurrency, Seq<Seq<char>>)>,
    value: Seq<char>,
    exact: bool,
) -> Option<SupportedCurrency>
    decreases entries.len(),
{
    if entries.len() == 0 {
        None
    } else if code_matches(entries[0].0, value, exact) {
        Some(entries[0].0)
    } else {
        match_code_rec(entries.drop_first(), value, exact)
    }
}

/// The first registered currency whose code hits `value`.
pub open spec fn spec_match_code(value: Seq<char>, exact: bool) -> Option<SupportedCurrency> {
    match_code_rec(spec_registry(), value, exact)
}

/// The registry of supported currencies and the tokens used for them.
pub struct CurrencyGuesser {
    currencies: Vec<CurrencyEntry>,
}

impl CurrencyGuesser {
    /// The guesser holds exactly the fixed registry, in registration order.
    pub closed spec fn wf(&self) -> bool {
        &&& self.currencies@.len() == 33
        &&& forall|i: int|
            0 <= i < 33 ==> #[trigger] entry_view(self.currencies@[i]) == registry_entry(i)
    }

    /// The catalog of all currencies supported by the exchange-rate
    /// reference feed, with the tokens in their registration order.
    pub fn new() -> (r: CurrencyGuesser)
        ensures
            r.wf(),
    {
        let mut v: Vec<CurrencyEntry> = Vec::new();
        v.push(entry1(SupportedCurrency::EUR, "€"));
        v.push(entry1(SupportedCurrency::USD, "$"));
        v.push(entry2(SupportedCurrency::JPY, "¥", "YEN"));
        v.push(entry1(SupportedCurrency::BGN, "лв"));
        v.push(entry1(SupportedCurrency::CZK, "Kč"));
        v.push(entry1(SupportedCurrency::DKK, "kr"));
        v.push(entry1(SupportedCurrency::GBP, "£"));
        v.push(entry1(SupportedCurrency::HUF, "Ft"));
        v.push(entry1(SupportedCurrency::PLN, "zł"));
        v.push(entry1(SupportedCurrency::RON, "lei"));
        v.push(entry1(SupportedCurrency::SEK, "kr"));
        v.push(entry1(SupportedCurrency::CHF, "Fr"));
        v.push(entry1(SupportedCurrency::ISK, "kr"));
        v.push(entry1(SupportedCurrency::NOK, "kr"));
        v.push(entry1(SupportedCurrency::HRK, "kn"));
        v.push(entry1(SupportedCurrency::RUB, "ру"));
        v.push(entry1(SupportedCurrency::TRY, "₺"));
        v.push(entry2(SupportedCurrency::AUD, "$", "A$"));
        v.push(entry1(SupportedCurrency::BRL, "R$"));
        v.push(entry2(SupportedCurrency::CAD, "$", "C$"));
        v.push(entry1(SupportedCurrency::CNY, "¥"));
        v.push(entry2(SupportedCurrency::HKD, "$", "HK$"));
        v.push(entry1(SupportedCurrency::IDR, "Rp"));
        v.push(entry1(SupportedCurrency::ILS, "₪"));
        v.push(entry1(SupportedCurrency::INR, "₹"));
        v.push(entry1(SupportedCurrency::KRW, "₩"));
        v.push(entry1(SupportedCurrency::MXN, "$"));
        v.push(entry1(SupportedCurrency::MYR, "RM"));
        v.push(entry1(SupportedCurrency::NZD, "$"));
        v.push(entry1(SupportedCurrency::PHP, "₱"));
        v.push(entry1(SupportedCurrency::SGD, "$"));
        v.push(entry1(SupportedCurrency::THB, "฿"));
        v.push(entry1(SupportedCurrency::ZAR, "R"));
        let r = CurrencyGuesser { currencies: v };
        proof {
            assert forall|i: int| 0 <= i < 33 implies #[trigger] entry_view(r.currencies@[i])
                == registry_entry(i) by {
                assert(entry_view(r.currencies@[i]).1 =~= registry_entry(i).1);
            }
        }
        r
    }

    /// The first registered currency whose code string equals
    /// (`exact_match`) or is contained in `value`.
    pub fn guess_currency_from_code(&self, value: String, exact_match: bool) -> (r: Option<
        SupportedCurrency,
    >)
        requires
            self.wf(),
        ensures
            r == spec_match_code(value@, exact_match),
    {
        let mut i: usize = 0;
        proof {
            assert(spec_registry().skip(0) =~= spec_registry());
        }
        while i < 33
            invariant
                self.wf(),
                i <= 33,
                spec_match_code(value@, exact_match) == match_code_rec(
                    spec_registry().skip(i as int),
                    value@,
                    exact_match,
                ),
            decreases 33 - i,
        {
            let entry = &self.currencies[i];
            let code = entry.currency.to_string();
            proof {
                assert(entry_view(self.currencies@[i as int]) == registry_entry(i as int));
                assert(spec_registry().skip(i as int)[0] == spec_registry()[i as int]);
            }
            let hit = if exact_match {
                str_eq(value.as_str(), code.as_str())
            } else {
                contains_str(value.as_str(), code.as_str())
            };
            if hit {
                return Some(entry.currency);
            }
            proof {
                assert(spec_registry().skip(i as int).drop_first() =~= spec_registry().skip(
                    i + 1,
                ));
            }
            i = i + 1;
        }
        proof {
            assert(spec_registry().skip(33) =~= Seq::<(
                SupportedCurrency,
                Seq<Seq<char>>,
            )>::empty());
        }
        None
    }
}

/// The normalized similarity of `value` to one token, as the fraction
/// `1 - d/l` represented by the pair `(d, l)`: `d` the edit distance, `l`
/// the greater of the two character counts.  Two empty strings, where the
/// fraction would be undefined, count as fully similar.
pub open spec fn sym_sim(value: Seq<char>, sym: Seq<char>) -> (int, int) {
    let l: int = if value.len() >= sym.len() {
        value.len() as int
    } else {
        sym.len() as int
    };
    if l == 0 {
        (0, 1)
    } else {
        (edit_dist(value, sym) as int, l)
    }
}

/// The pair `(d, l)` stands for the similarity `1 - d/l`; one similarity is
/// strictly greater than another exactly when its distance fraction is
/// strictly smaller.
pub open spec fn sim_gt(s1: (int, int), s2: (int, int)) -> bool {
    s1.0 * s2.1 < s2.0 * s1.1
}

/// The best similarity of `value` against the tokens of one registry entry,
/// starting from the zero similarity `(1, 1)`; an earlier token keeps its
/// place on ties.
pub open spec fn entry_best(value: Seq<char>, syms: Seq<Seq<char>>) -> (int, int)
    decreases syms.len(),
{
    if syms.len() == 0 {
        (1, 1)
    } else {
        let prev = entry_best(value, syms.drop_last());
        let cur = sym_sim(value, syms.last());
        if sim_gt(cur, prev) {
            cur
        } else {
            prev
        }
    }
}

/// The best similarity over the registry prefix `entries` together with the
/// currency that reached it; an earlier currency keeps its place on ties, and
/// the currency stays `None` while no similarity exceeds zero.
pub open spec fn guess_sim_rec(
    entries: Seq<(SupportedCurrency, Seq<Seq<char>>)>,
    value: Seq<char>,
) -> ((int, int), Option<SupportedCurrency>)
    decreases entries.len(),
{
    if entries.len() == 0 {
        ((1, 1), None)
    } else {
        let prev = guess_sim_rec(entries.drop_last(), value);
        let cur = entry_best(value, entries.last().1);
        if sim_gt(cur, prev.0) {
            (cur, Some(entries.last().0))
        } else {
            prev
        }
    }
}

/// The guess for a free-text price string: the first currency whose code is
/// contained in it, else the currency of highest token similarity, else none
/// when every similarity is zero.
pub open spec fn spec_guess(value: Seq<char>) -> Option<SupportedCurrency> {
    match spec_match_code(value, false) {
        Some(c) => Some(c),
        None => guess_sim_rec(spec_registry(), value).1,
    }
}

/// The comparison `d1/l1 < d2/l2` of two distance fractions, by
/// cross-multiplication.
fn frac_lt(d1: usize, l1: usize, d2: usize, l2: usize) -> (r: bool)
    ensures
        r == ((d1 as int) * (l2 as int) < (d2 as int) * (l1 as int)),
{
    proof {
        assert((d1 as int) * (l2 as int) <= u128::MAX && (d2 as int) * (l1 as int)
            <= u128::MAX) by (nonlinear_arith)
            requires
                d1 <= u64::MAX && l2 <= u64::MAX && d2 <= u64::MAX && l1 <= u64::MAX,
        ;
    }
    (d1 as u128) * (l2 as u128) < (d2 as u128) * (l1 as u128)
}

impl CurrencyGuesser {
    /// Checks the passed value for supported currency codes and currency
    /// symbols and returns the currency code on a match; `None` when no
    /// token resembles the value at all.
    pub fn guess_currency(&self, value: String) -> (r: Option<SupportedCurrency>)
        requires
            self.wf(),
        ensures
            r == spec_guess(value@),
    {
        if let Some(c) = self.guess_currency_from_code(value.clone(), false) {
            return Some(c);
        }
        let vlen = value.as_str().unicode_len();
        let mut best_d: usize = 1;
        let mut best_l: usize = 1;
        let mut best: Option<SupportedCurrency> = None;
        let mut i: usize = 0;
        proof {
            assert(spec_registry().take(0) =~= Seq::<(
                SupportedCurrency,
                Seq<Seq<char>>,
            )>::empty());
        }
        while i < 33
            invariant
                self.wf(),
                i <= 33,
                vlen == value@.len(),
                guess_sim_rec(spec_registry().take(i as int), value@) == (
                    (best_d as int, best_l as int),
                    best,
                ),
            decreases 33 - i,
        {
            let entry = &self.currencies[i];
            let nsyms = entry.symbols.len();
            let mut cur_d: usize = 1;
            let mut cur_l: usize = 1;
            let mut j: usize = 0;
            proof {
                assert(entry_view(self.currencies@[i as int]) == registry_entry(i as int));
                assert(registry_entry(i as int).1.take(0) =~= Seq::<Seq<char>>::empty());
            }
            while j < nsyms
                invariant
                    self.wf(),
                    i < 33,
                    j <= nsyms,
                    vlen == value@.len(),
                    entry == &self.currencies@[i as int],
                    nsyms == entry.symbols@.len(),
                    entry_view(self.currencies@[i as int]) == registry_entry(i as int),
                    entry_best(value@, registry_entry(i as int).1.take(j as int)) == (
                        cur_d as int,
                        cur_l as int,
                    ),
                decreases nsyms - j,
            {
                let sym = &entry.symbols[j];
                proof {
                    assert(entry.symbols.deep_view()[j as int] == entry.symbols@[j as int]@);
                    assert(registry_entry(i as int).1[j as int] == sym@);
                }
                let d = levenshtein(value.as_str(), sym.as_str());
                let slen = sym.as_str().unicode_len();
                let l = if vlen >= slen {
                    vlen
                } else {
                    slen
                };
                let sd: usize = if l == 0 {
                    0
                } else {
                    d
                };
                let sl: usize = if l == 0 {
                    1
                } else {
                    l
                };
                proof {
                    assert((sd as int, sl as int) == sym_sim(value@, sym@));
                }
                if frac_lt(sd, sl, cur_d, cur_l) {
                    cur_d = sd;
                    cur_l = sl;
                }
                proof {
                    assert(registry_entry(i as int).1.take(j + 1).drop_last() =~= registry_entry(
                        i as int,
                    ).1.take(j as int));
                    assert(registry_entry(i as int).1.take(j + 1).last() == registry_entry(
                        i as int,
                    ).1[j as int]);
                }
                j = j + 1;
            }
            proof {
                assert(registry_entry(i as int).1.take(nsyms as int) =~= registry_entry(
                    i as int,
                ).1);
            }
            if frac_lt(cur_d, cur_l, best_d, best_l) {
                best_d = cur_d;
                best_l = cur_l;
                best = Some(entry.currency);
            }
            proof {
                assert(spec_registry().take(i + 1).drop_last() =~= spec_registry().take(i as int));
                assert(spec_registry().take(i + 1).last() == spec_registry()[i as int]);
            }
            i = i + 1;
        }
        proof {
            assert(spec_registry().take(33) =~= spec_registry());
        }
        best
    }
}

/// A substring of the same length as the whole string is the whole string.
pub proof fn lemma_substring_same_len(n: Seq<char>, h: Seq<char>)
    requires
        n.len() == h.len(),
    ensures
        is_substring_of(n, h) <==> n == h,
{
    if is_substring_of(n, h) {
        let k = choose|k: int|
            0 <= k <= h.len() - n.len() && #[trigger] h.subrange(k, k + n.len()) == n;
        assert(h.subrange(0, h.len() as int) =~= h);
    }
    if n == h {
        assert(h.subrange(0, 0 + n.len() as int) =~= h);
    }
}

/// The position of a currency in the registration order.
pub open spec fn currency_index(c: SupportedCurrency) -> int {
    match c {
        SupportedCurrency::EUR => 0,
        SupportedCurrency::USD => 1,
        SupportedCurrency::JPY => 2,
        SupportedCurrency::BGN => 3,
        SupportedCurrency::CZK => 4,
        SupportedCurrency::DKK => 5,
        SupportedCurrency::GBP => 6,
        SupportedCurrency::HUF => 7,
        SupportedCurrency::PLN => 8,
        SupportedCurrency::RON => 9,
        SupportedCurrency::SEK => 10,
        SupportedCurrency::CHF => 11,
        SupportedCurrency::ISK => 12,
        SupportedCurrency::NOK => 13,
        SupportedCurrency::HRK => 14,
        SupportedCurrency::RUB => 15,
        SupportedCurrency::TRY => 16,
        SupportedCurrency::AUD => 17,
        SupportedCurrency::BRL => 18,
        SupportedCurrency::CAD => 19,
        SupportedCurrency::CNY => 20,
        SupportedCurrency::HKD => 21,
        SupportedCurrency::IDR => 22,
        SupportedCurrency::ILS => 23,
        SupportedCurrency::INR => 24,
        SupportedCurrency::KRW => 25,
        SupportedCurrency::MXN => 26,
        SupportedCurrency::MYR => 27,
        SupportedCurrency::NZD => 28,
        SupportedCurrency::PHP => 29,
        SupportedCurrency::SGD => 30,
        SupportedCurrency::THB => 31,
        SupportedCurrency::ZAR => 32,
    }
}

proof fn lemma_match_code_rec_finds(
    entries: Seq<(SupportedCurrency, Seq<Seq<char>>)>,
    c: SupportedCurrency,
)
    requires
        exists|i: int| 0 <= i < entries.len() && (#[trigger] entries[i]).0 == c,
        forall|i: int|
            0 <= i < entries.len() ==> (code_matches((#[trigger] entries[i]).0, spec_code(c), false)
                <==> entries[i].0 == c),
    ensures
        match_code_rec(entries, spec_code(c), false) == Some(c),
    decreases entries.len(),
{
    if code_matches(entries[0].0, spec_code(c), false) {
        assert(entries[0].0 == c);
    } else {
        assert(entries[0].0 != c);
        let i = choose|i: int| 0 <= i < entries.len() && (#[trigger] entries[i]).0 == c;
        assert(entries.drop_first()[i - 1] == entries[i]);
        assert forall|k: int| 0 <= k < entries.drop_first().len() implies (code_matches(
            (#[trigger] entries.drop_first()[k]).0,
            spec_code(c),
            false,
        ) <==> entries.drop_first()[k].0 == c) by {
            assert(entries.drop_first()[k] == entries[k + 1]);
        }
        lemma_match_code_rec_finds(entries.drop_first(), c);
    }
}

/// Exact self-match: guessing a supported currency code always yields that
/// currency, because code containment is checked before any similarity.
pub proof fn lemma_guess_code_self(c: SupportedCurrency)
    ensures
        spec_guess(spec_code(c)) == Some(c),
{
    crate::currency::reveal_codes();
    assert(spec_registry()[currency_index(c)].0 == c);
    assert forall|i: int| 0 <= i < spec_registry().len() implies (code_matches(
        (#[trigger] spec_registry()[i]).0,
        spec_code(c),
        false,
    ) <==> spec_registry()[i].0 == c) by {
        let d = spec_registry()[i].0;
        lemma_substring_same_len(spec_code(d), spec_code(c));
        lemma_code_injective(d, c);
    }
    lemma_match_code_rec_finds(spec_registry(), c);
}

fn entry1(c: SupportedCurrency, s: &str) -> (e: CurrencyEntry)
    ensures
        e.currency == c,
        e.symbols.deep_view() == seq![s@],
{
    let mut symbols: Vec<String> = Vec::new();
    symbols.push(String::from_str(s));
    proof {
        assert(symbols.deep_view() =~= seq![s@]);
    }
    CurrencyEntry { currency: c, symbols }
}

fn entry2(c: SupportedCurrency, s1: &str, s2: &str) -> (e: CurrencyEntry)
    ensures
        e.currency == c,
        e.symbols.deep_view() == seq![s1@, s2@],
{
    let mut symbols: Vec<String> = Vec::new();
    symbols.push(String::from_str(s1));
    symbols.push(String::from_str(s2));
    proof {
        assert(symbols.deep_view() =~= seq![s1@, s2@]);
    }
    CurrencyEntry { currency: c, symbols }
}

} // verus!
