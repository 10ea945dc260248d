//! The pure pieces of the marketplace source adapters: the plain shapes of
//! their API answers, URL building, and the selection of candidate prices
//! from parsed listings.  The HTTP requests and HTML scraping around these
//! are external capabilities and not part of the library.

use vstd::prelude::*;

use crate::amount::spec_parse_cents;
use crate::currency::SupportedCurrency;
use crate::guesser::CurrencyGuesser;
use crate::items::{Item, ItemConditions};
use crate::prices::Price;
use crate::text::str_eq;

verus! {

/// One listed item of the amiami search API answer.
pub struct ApiItem {
    pub gcode: String,
    pub gname: String,
    pub thumb_url: String,
    /// The lowest offered price in whole currency units, when one is listed.
    pub min_price: Option<u64>,
    pub maker_name: String,
    pub instock_flg: u8,
    pub condition_flg: u8,
}

pub open spec fn spec_amiami_url(gcode: Seq<char>) -> Seq<char> {
    "https://www.amiami.com/eng/detail/?gcode="@ + gcode
}

impl ApiItem {
    /// The shop URL of the listed item.
    pub fn get_figure_url(&self) -> (r: String)
        ensures
            r@ == spec_amiami_url(self.gcode@),
    {
        let mut m = String::from_str("https://www.amiami.com/eng/detail/?gcode=");
        m.append(self.gcode.as_str());
        m
    }
}

/// An amiami listing that can become a candidate price: in stock, with a
/// listed price small enough for the cents type.
pub open spec fn amiami_eligible(it: ApiItem) -> bool {
    it.instock_flg == 1 && (it.min_price matches Some(v) && v <= u64::MAX / 100)
}

/// The index of the listing that fills one slot: the last eligible listing
/// of the wanted condition (zero `condition_flg` means new).
pub open spec fn spec_amiami_pick(items: Seq<ApiItem>, want_used: bool) -> Option<int>
    decreases items.len(),
{
    if items.len() == 0 {
        None
    } else if amiami_eligible(items.last()) && (items.last().condition_flg != 0) == want_used {
        Some(items.len() - 1)
    } else {
        spec_amiami_pick(items.drop_last(), want_used)
    }
}

/// How a candidate price of the amiami adapter relates to the listing it
/// came from.
pub open spec fn spec_amiami_price(p: Price, it: ApiItem, item: Item, used: bool) -> bool {
    &&& p.item_id == item.id
    &&& it.min_price matches Some(v) && p.price == v * 100
    &&& p.currency@ == "JPY"@
    &&& p.converted_price == 0
    &&& p.url@ == spec_amiami_url(it.gcode@)
    &&& p.module@ == "amiami.com"@
    &&& p.condition == (if used {
        ItemConditions::Used
    } else {
        ItemConditions::New
    })
}

/// Builds the two candidate slots from the amiami search answer: for each of
/// the new and used conditions, the last in-stock listing of that condition,
/// priced in yen.
pub fn amiami_select_prices(items: Vec<ApiItem>, item: &Item) -> (r: (Option<Price>, Option<
    Price,
>))
    ensures
        match r.0 {
            Some(p) => spec_amiami_pick(items@, false) matches Some(i) && spec_amiami_price(
                p,
                items@[i],
                *item,
                false,
            ),
            None => spec_amiami_pick(items@, false) is None,
        },
        match r.1 {
            Some(p) => spec_amiami_pick(items@, true) matches Some(i) && spec_amiami_price(
                p,
                items@[i],
                *item,
                true,
            ),
            None => spec_amiami_pick(items@, true) is None,
        },
{
    let ghost all = items@;
    let mut rest = items;
    let mut new_price: Option<Price> = None;
    let mut used_price: Option<Price> = None;
    let mut i: usize = 0;
    let n = rest.len();
    proof {
        assert(all.skip(0) =~= all);
        assert(all.take(0) =~= Seq::<ApiItem>::empty());
    }
    while rest.len() > 0
        invariant
            i <= all.len(),
            all.len() == n,
            rest@ == all.skip(i as int),
            match new_price {
                Some(p) => spec_amiami_pick(all.take(i as int), false) matches Some(j)
                    && spec_amiami_price(p, all[j], *item, false),
                None => spec_amiami_pick(all.take(i as int), false) is None,
            },
            match used_price {
                Some(p) => spec_amiami_pick(all.take(i as int), true) matches Some(j)
                    && spec_amiami_price(p, all[j], *item, true),
                None => spec_amiami_pick(all.take(i as int), true) is None,
            },
        decreases rest@.len(),
    {
        let api_item = rest.remove(0);
        proof {
            assert(api_item == all[i as int]);
            assert(all.skip(i as int).remove(0) =~= all.skip(i + 1));
            assert(all.take(i + 1).drop_last() =~= all.take(i as int));
            assert(all.take(i + 1).last() == all[i as int]);
            assert(all.take(i + 1)[i as int] == all[i as int]);
        }
        if api_item.instock_flg == 1 {
            if let Some(v) = api_item.min_price {
                if v <= u64::MAX / 100 {
                    let used = api_item.condition_flg != 0;
                    let cond = if used {
                        ItemConditions::Used
                    } else {
                        ItemConditions::New
                    };
                    let url = api_item.get_figure_url();
                    let p = Price::new(
                        item,
                        v * 100,
                        SupportedCurrency::JPY,
                        url,
                        String::from_str("amiami.com"),
                        cond,
                    );
                    if used {
                        used_price = Some(p);
                    } else {
                        new_price = Some(p);
                    }
                }
            }
        }
        i = i + 1;
    }
    proof {
        assert(all.skip(i as int).len() == 0);
        assert(all.take(i as int) =~= all);
    }
    (new_price, used_price)
}

/// One search hit of the solarisjapan search API answer.
pub struct ApiSearchItem {
    pub handle: String,
    pub matches: HighlightResult,
}

pub struct HighlightResult {
    pub ean: SearchMatch,
}

pub struct SearchMatch {
    pub match_level: String,
}

pub open spec fn spec_solaris_url(handle: Seq<char>) -> Seq<char> {
    "https://solarisjapan.com/products/"@ + handle
}

impl ApiSearchItem {
    /// The shop URL of the search hit.
    pub fn get_url(&self) -> (r: String)
        ensures
            r@ == spec_solaris_url(self.handle@),
    {
        let mut m = String::from_str("https://solarisjapan.com/products/");
        m.append(self.handle.as_str());
        m
    }
}

/// The index of the hit to use: the first whose catalog-code match is exact
/// ("full"), or the first hit at all.
pub open spec fn spec_closest_index(hits: Seq<ApiSearchItem>) -> int {
    if exists|i: int| 0 <= i < hits.len() && (#[trigger] hits[i]).matches.ean.match_level@
        == "full"@ {
        choose|i: int|
            0 <= i < hits.len() && (#[trigger] hits[i]).matches.ean.match_level@ == "full"@
            && forall|j: int|
                0 <= j < i ==> (#[trigger] hits[j]).matches.ean.match_level@ != "full"@
    } else {
        0
    }
}

/// The position of the first exact catalog-code match among the hits.
fn find_full_match(hits: &Vec<ApiSearchItem>) -> (r: Option<usize>)
    ensures
        match r {
            Some(i) => i < hits@.len() && hits@[i as int].matches.ean.match_level@ == "full"@
                && forall|j: int|
                0 <= j < i ==> (#[trigger] hits@[j]).matches.ean.match_level@ != "full"@,
            None => forall|j: int|
                0 <= j < hits@.len() ==> (#[trigger] hits@[j]).matches.ean.match_level@
                    != "full"@,
        },
{
    let mut i: usize = 0;
    while i < hits.len()
        invariant
            i <= hits@.len(),
            forall|j: int|
                0 <= j < i ==> (#[trigger] hits@[j]).matches.ean.match_level@ != "full"@,
        decreases hits@.len() - i,
    {
        if str_eq(hits[i].matches.ean.match_level.as_str(), "full") {
            return Some(i);
        }
        i = i + 1;
    }
    None
}

/// Picks the closest search hit: the first exact catalog-code match, or,
/// when no hit matches exactly, the first hit.
pub fn get_closest_search_result(hits: Vec<ApiSearchItem>) -> (r: Option<ApiSearchItem>)
    requires
        hits@.len() > 0,
    ensures
        r matches Some(h) && h == hits@[spec_closest_index(hits@)],
        0 <= spec_closest_index(hits@) < hits@.len(),
{
    let idx: usize = match find_full_match(&hits) {
        Some(i) => {
            proof {
                let w = i as int;
                assert(0 <= w < hits@.len() && (#[trigger] hits@[w]).matches.ean.match_level@
                    == "full"@);
                let c = spec_closest_index(hits@);
                assert(hits@[c].matches.ean.match_level@ == "full"@ && forall|j: int|
                    0 <= j < c ==> (#[trigger] hits@[j]).matches.ean.match_level@ != "full"@);
                assert(c == w);
            }
            i
        },
        None => {
            proof {
                assert(!(exists|j: int|
                    0 <= j < hits@.len() && (#[trigger] hits@[j]).matches.ean.match_level@
                        == "full"@));
            }
            0
        },
    };
    let mut rest = hits;
    let h = rest.remove(idx);
    Some(h)
}

/// One product variant of the solarisjapan shop API answer: a condition
/// title and a decimal price in yen.
pub struct ProductVariant {
    pub title: String,
    pub price: String,
}

/// A variant's price parses into the cents type.
pub open spec fn variant_price_ok(v: ProductVariant) -> bool {
    spec_parse_cents(v.price@) matches Some(c) && c <= u64::MAX
}

/// The slots that the variants fill, or the index of the first variant
/// whose price cannot be read.  A price of `"0"` means not available and is
/// skipped; a variant with an unknown title is ignored; the last variant of
/// a condition wins its slot.
pub open spec fn spec_solaris_slots(variants: Seq<ProductVariant>) -> Result<
    (Option<int>, Option<int>),
    int,
>
    decreases variants.len(),
{
    if variants.len() == 0 {
        Ok((None, None))
    } else {
        match spec_solaris_slots(variants.drop_last()) {
            Err(i) => Err(i),
            Ok((new_slot, used_slot)) => {
                let v = variants.last();
                if v.price@ == "0"@ {
                    Ok((new_slot, used_slot))
                } else if !variant_price_ok(v) {
                    Err(variants.len() - 1)
                } else if v.title@ == "Brand New"@ {
                    Ok((Some(variants.len() - 1), used_slot))
                } else if v.title@ == "Pre Owned"@ {
                    Ok((new_slot, Some(variants.len() - 1)))
                } else {
                    Ok((new_slot, used_slot))
                }
            },
        }
    }
}

proof fn lemma_solaris_err_absorbs(variants: Seq<ProductVariant>, i: int, j: int)
    requires
        0 <= i <= j <= variants.len(),
        spec_solaris_slots(variants.take(i)) is Err,
    ensures
        spec_solaris_slots(variants.take(j)) is Err,
    decreases j - i,
{
    if i < j {
        assert(variants.take(i + 1).drop_last() =~= variants.take(i));
        lemma_solaris_err_absorbs(variants, i + 1, j);
    }
}

/// How a candidate price of the solarisjapan adapter relates to the variant
/// that filled its slot.
pub open spec fn spec_solaris_price(
    p: Price,
    v: ProductVariant,
    item: Item,
    url: Seq<char>,
    used: bool,
) -> bool {
    &&& p.item_id == item.id
    &&& spec_parse_cents(v.price@) == Some(p.price as int)
    &&& p.currency@ == "JPY"@
    &&& p.converted_price == 0
    &&& p.url@ == url
    &&& p.module@ == "solarisjapan.com"@
    &&& p.condition == (if used {
        ItemConditions::Used
    } else {
        ItemConditions::New
    })
}

/// Builds the two candidate slots from a product's variants, all priced in
/// yen and located at `url`.  A variant price that cannot be read fails the
/// whole adapter answer, as an opaque adapter error.
pub fn solaris_select_prices(variants: Vec<ProductVariant>, item: &Item, url: &str) -> (r: Result<
    (Option<Price>, Option<Price>),
    crate::amount::AmountError,
>)
    ensures
        match r {
            Ok((new_price, used_price)) => spec_solaris_slots(variants@) matches Ok(slots) && {
                &&& match new_price {
                    Some(p) => slots.0 matches Some(i) && spec_solaris_price(
                        p,
                        variants@[i],
                        *item,
                        url@,
                        false,
                    ),
                    None => slots.0 is None,
                }
                &&& match used_price {
                    Some(p) => slots.1 matches Some(i) && spec_solaris_price(
                        p,
                        variants@[i],
                        *item,
                        url@,
                        true,
                    ),
                    None => slots.1 is None,
                }
            },
            Err(_) => spec_solaris_slots(variants@) is Err,
        },
{
    let ghost all = variants@;
    let mut rest = variants;
    let mut new_price: Option<Price> = None;
    let mut used_price: Option<Price> = None;
    let mut i: usize = 0;
    let n = rest.len();
    proof {
        assert(all.skip(0) =~= all);
        assert(all.take(0) =~= Seq::<ProductVariant>::empty());
    }
    while rest.len() > 0
        invariant
            all == variants@,
            i <= all.len(),
            all.len() == n,
            rest@ == all.skip(i as int),
            spec_solaris_slots(all.take(i as int)) matches Ok(slots) && {
                &&& match new_price {
                    Some(p) => slots.0 matches Some(j) && spec_solaris_price(
                        p,
                        all[j],
                        *item,
                        url@,
                        false,
                    ),
                    None => slots.0 is None,
                }
                &&& match used_price {
                    Some(p) => slots.1 matches Some(j) && spec_solaris_price(
                        p,
                        all[j],
                        *item,
                        url@,
                        true,
                    ),
                    None => slots.1 is None,
                }
            },
        decreases rest@.len(),
    {
        let variant = rest.remove(0);
        proof {
            assert(variant == all[i as int]);
            assert(all.skip(i as int).remove(0) =~= all.skip(i + 1));
            assert(all.take(i + 1).drop_last() =~= all.take(i as int));
            assert(all.take(i + 1).last() == all[i as int]);
        }
        if str_eq(variant.price.as_str(), "0") {
            i = i + 1;
            continue ;
        }
        let cents = match CurrencyGuesser::get_currency_value(variant.price) {
            Ok(c) => c,
            Err(e) => {
                proof {
                    assert(all.take(i + 1).last().price@ != "0"@);
                    assert(!variant_price_ok(all.take(i + 1).last()));
                    assert(spec_solaris_slots(all.take(i + 1)) is Err);
                    lemma_solaris_err_absorbs(all, i + 1, all.len() as int);
                    assert(all.take(all.len() as int) =~= all);
                    assert(spec_solaris_slots(variants@) is Err);
                }
                return Err(e);
            },
        };
        let used = if str_eq(variant.title.as_str(), "Brand New") {
            false
        } else if str_eq(variant.title.as_str(), "Pre Owned") {
            true
        } else {
            i = i + 1;
            continue ;
        };
        let p = Price::new(
            item,
            cents,
            SupportedCurrency::JPY,
            String::from_str(url),
            String::from_str("solarisjapan.com"),
            if used {
                ItemConditions::Used
            } else {
                ItemConditions::New
            },
        );
        if used {
            used_price = Some(p);
        } else {
            new_price = Some(p);
        }
        i = i + 1;
    }
    proof {
        assert(all.skip(i as int).len() == 0);
        assert(all.take(i as int) =~= all);
    }
    Ok((new_price, used_price))
}

pub open spec fn spec_search_url(jan: int) -> Seq<char> {
    "https://myfigurecollection.net/browse.v4.php?barcode="@ + crate::text::spec_int_str(jan)
}

/// The barcode search URL of the item's catalog code.
pub fn get_figure_search_url(item: &Item) -> (r: String)
    ensures
        r@ == spec_search_url(item.jan as int),
{
    let mut m = String::from_str("https://myfigurecollection.net/browse.v4.php?barcode=");
    let jan = crate::text::i64_to_string(item.jan);
    m.append(jan.as_str());
    m
}

} // verus!
