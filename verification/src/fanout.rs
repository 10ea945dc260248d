//! The enrichment and aggregation step of the concurrent fan-out engine.
//!
//! The engine proper drives one worker per registered source adapter and
//! joins them at a rendezvous; what each worker computes on the adapter's
//! answer — currency guessing, conversion to the target currency, tax and
//! shipping lookup — and what the aggregated result collection holds is
//! decided here, on the adapters' reports as plain values.

use vstd::prelude::*;

use crate::config::{spec_shipping, spec_used_currency, spec_used_tax_rate, Configuration};
use crate::conversion::{spec_convert, CurrencyConversion, Rate};
use crate::currency::{spec_code, SupportedCurrency};
use crate::guesser::{spec_guess, CurrencyGuesser};
use crate::prices::Price;

verus! {

/// A pair of candidate prices, the lowest new and the lowest used one, as a
/// source adapter reports them.
pub struct Prices {
    pub new: Option<Price>,
    pub used: Option<Price>,
}

/// What one source adapter reported for one item in one check cycle: its
/// candidates, or an opaque error text that is only logged.
pub struct AdapterReport {
    pub module: String,
    pub outcome: Result<Prices, String>,
}

/// How an enriched record `r` relates to the raw candidate `p`: the raw
/// fields are untouched; when the raw currency token can be guessed and the
/// raw amount converted to the configured target currency, the converted
/// amount, target currency, tax rate and shipping cost (the latter two keyed
/// by the raw currency) are filled in; otherwise the record keeps its
/// raw-only form, its converted fields left at their defaults.
pub open spec fn spec_enriched(
    p: Price,
    r: Price,
    table: Seq<(SupportedCurrency, Rate)>,
    config: Configuration,
) -> bool {
    &&& r.id == p.id
    &&& r.item_id == p.item_id
    &&& r.price == p.price
    &&& r.currency == p.currency
    &&& r.url == p.url
    &&& r.module == p.module
    &&& r.condition == p.condition
    &&& r.timestamp == p.timestamp
    &&& match spec_guess(p.currency@) {
        None => r.converted_price == p.converted_price && r.converted_currency
            == p.converted_currency && r.taxes == p.taxes && r.shipping == p.shipping,
        Some(c) => match spec_convert(table, p.price as int, c, spec_used_currency(config)) {
            Ok(v) => r.converted_price == v && r.converted_currency@ == spec_code(
                spec_used_currency(config),
            ) && r.taxes == spec_used_tax_rate(config, c) && r.shipping == spec_shipping(
                config,
                c,
            ),
            Err(_) => r.converted_price == p.converted_price && r.converted_currency
                == p.converted_currency && r.taxes == p.taxes && r.shipping == p.shipping,
        },
    }
}

/// Enriches one candidate price through the conversion table and the
/// configured tax and shipping lookups.  A price whose currency cannot be
/// guessed, or whose currency is missing from the snapshot, is kept in its
/// raw-only form rather than dropped, so the record still carries both
/// representations.
pub fn enrich_price(
    price: Price,
    guesser: &CurrencyGuesser,
    conversion: &CurrencyConversion,
    config: &Configuration,
) -> (r: Price)
    requires
        guesser.wf(),
        conversion.wf(),
    ensures
        spec_enriched(price, r, conversion.exchange_rates@, *config),
{
    match guesser.guess_currency(price.currency.clone()) {
        Some(c) => {
            let target = config.get_used_currency();
            match conversion.convert_price_to(price.price, c, target) {
                Ok(v) => {
                    let mut p = price;
                    p.converted_price = v;
                    p.converted_currency = target.to_string();
                    p.taxes = config.get_used_tax_rate(c);
                    p.shipping = config.get_shipping(c);
                    p
                },
                Err(_) => price,
            }
        },
        None => price,
    }
}

pub open spec fn opt_seq(p: Option<Price>) -> Seq<Price> {
    match p {
        Some(q) => seq![q],
        None => Seq::empty(),
    }
}

/// The candidates one report contributes: the new one, then the used one;
/// a failed adapter contributes nothing.
pub open spec fn report_candidates(rep: AdapterReport) -> Seq<Price> {
    match rep.outcome {
        Ok(pr) => opt_seq(pr.new) + opt_seq(pr.used),
        Err(_) => Seq::empty(),
    }
}

/// All candidates of a report list, in report order.
pub open spec fn spec_candidates(reports: Seq<AdapterReport>) -> Seq<Price>
    decreases reports.len(),
{
    if reports.len() == 0 {
        Seq::empty()
    } else {
        spec_candidates(reports.drop_last()) + report_candidates(reports.last())
    }
}

/// Checks all adapters' reports for the prices of one item: every candidate
/// of every successful report, enriched, in report order.  One adapter's
/// failure contributes nothing and never blocks the others.
pub fn check_item(
    reports: Vec<AdapterReport>,
    guesser: &CurrencyGuesser,
    conversion: &CurrencyConversion,
    config: &Configuration,
) -> (out: Vec<Price>)
    requires
        guesser.wf(),
        conversion.wf(),
    ensures
        out@.len() == spec_candidates(reports@).len(),
        forall|i: int|
            0 <= i < out@.len() ==> spec_enriched(
                spec_candidates(reports@)[i],
                #[trigger] out@[i],
                conversion.exchange_rates@,
                *config,
            ),
{
    let ghost all = reports@;
    let mut rest = reports;
    let mut out: Vec<Price> = Vec::new();
    let mut i: usize = 0;
    let n = rest.len();
    proof {
        assert(all.len() == n);
        assert(all.take(0) =~= Seq::<AdapterReport>::empty());
        assert(all.skip(0) =~= all);
    }
    while rest.len() > 0
        invariant
            guesser.wf(),
            conversion.wf(),
            i <= all.len() <= usize::MAX,
            rest@ == all.skip(i as int),
            out@.len() == spec_candidates(all.take(i as int)).len(),
            forall|j: int|
                0 <= j < out@.len() ==> spec_enriched(
                    spec_candidates(all.take(i as int))[j],
                    #[trigger] out@[j],
                    conversion.exchange_rates@,
                    *config,
                ),
        decreases rest@.len(),
    {
        let rep = rest.remove(0);
        proof {
            assert(rep == all[i as int]);
            assert(all.skip(i as int).remove(0) =~= all.skip(i + 1));
            assert(all.take(i + 1).drop_last() =~= all.take(i as int));
            assert(all.take(i + 1).last() == all[i as int]);
        }
        let ghost before = spec_candidates(all.take(i as int));
        match rep.outcome {
            Ok(prices) => {
                if let Some(p) = prices.new {
                    let e = enrich_price(p, guesser, conversion, config);
                    out.push(e);
                }
                if let Some(p) = prices.used {
                    let e = enrich_price(p, guesser, conversion, config);
                    out.push(e);
                }
                proof {
                    assert(spec_candidates(all.take(i + 1)) =~= before + report_candidates(
                        all[i as int],
                    ));
                }
            },
            Err(_) => {
                proof {
                    assert(spec_candidates(all.take(i + 1)) =~= before);
                }
            },
        }
        i = i + 1;
    }
    proof {
        assert(all.skip(i as int).len() == 0);
        assert(i == all.len());
        assert(all.take(i as int) =~= all);
    }
    out
}

/// Fan-out isolation: a failed adapter's report can be struck from the list
/// without changing what the aggregation collects — the result is the union
/// of the other adapters' candidates.
pub proof fn lemma_failed_adapter_isolated(reports: Seq<AdapterReport>, i: int)
    requires
        0 <= i < reports.len(),
        reports[i].outcome is Err,
    ensures
        spec_candidates(reports) == spec_candidates(reports.remove(i)),
    decreases reports.len(),
{
    if i == reports.len() - 1 {
        assert(reports.remove(i) =~= reports.drop_last());
        assert(spec_candidates(reports) =~= spec_candidates(reports.drop_last()));
    } else {
        assert(reports.remove(i).drop_last() =~= reports.drop_last().remove(i));
        assert(reports.remove(i).last() == reports.last());
        lemma_failed_adapter_isolated(reports.drop_last(), i);
    }
}

/// The aggregation returns at most two entries per adapter.
pub proof fn lemma_candidates_len(reports: Seq<AdapterReport>)
    ensures
        spec_candidates(reports).len() <= 2 * reports.len(),
    decreases reports.len(),
{
    if reports.len() > 0 {
        lemma_candidates_len(reports.drop_last());
    }
}

} // verus!
