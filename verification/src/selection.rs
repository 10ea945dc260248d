//! Selecting candidate prices from collected listings: the lowest sale by
//! raw price, per item condition, or by converted total, and the set
//! difference that recovers used sales from a shop that lists new ones
//! separately.

use vstd::prelude::*;

use crate::items::ItemConditions;
use crate::prices::Price;
use crate::text::str_eq;

verus! {

/// The index of the cheapest listing by raw price; the earliest of equally
/// cheap listings wins.
pub open spec fn spec_lowest_raw(prices: Seq<Price>) -> Option<int>
    decreases prices.len(),
{
    if prices.len() == 0 {
        None
    } else {
        let j = prices.len() - 1;
        match spec_lowest_raw(prices.drop_last()) {
            None => Some(j as int),
            Some(k) => if prices[j as int].price < prices[k].price {
                Some(j as int)
            } else {
                Some(k)
            },
        }
    }
}

proof fn lemma_lowest_raw_range(prices: Seq<Price>)
    ensures
        spec_lowest_raw(prices) matches Some(k) ==> 0 <= k < prices.len(),
    decreases prices.len(),
{
    if prices.len() > 0 {
        lemma_lowest_raw_range(prices.drop_last());
    }
}

/// The cheapest listing by raw price.
pub fn lowest_by_raw_price(prices: Vec<Price>) -> (r: Option<Price>)
    ensures
        match r {
            Some(p) => spec_lowest_raw(prices@) matches Some(j) && p == prices@[j],
            None => prices@.len() == 0,
        },
{
    let ghost all = prices@;
    let mut rest = prices;
    let n = rest.len();
    let mut best: Option<Price> = None;
    let mut i: usize = 0;
    proof {
        assert(all.skip(0) =~= all);
        assert(all.take(0) =~= Seq::<Price>::empty());
    }
    while rest.len() > 0
        invariant
            all == prices@,
            all.len() == n,
            i <= all.len(),
            rest@ == all.skip(i as int),
            match best {
                Some(p) => spec_lowest_raw(all.take(i as int)) matches Some(j) && p == all[j],
                None => i == 0,
            },
        decreases rest@.len(),
    {
        let p = rest.remove(0);
        proof {
            assert(p == all[i as int]);
            assert(all.skip(i as int).remove(0) =~= all.skip(i + 1));
            assert(all.take(i + 1).drop_last() =~= all.take(i as int));
            assert(all.take(i + 1).last() == all[i as int]);
            assert(all.take(i + 1)[i as int] == all[i as int]);
            lemma_lowest_raw_range(all.take(i as int));
        }
        best = match best {
            None => Some(p),
            Some(b) => {
                if p.price < b.price {
                    Some(p)
                } else {
                    Some(b)
                }
            },
        };
        i = i + 1;
    }
    proof {
        assert(all.skip(i as int).len() == 0);
        assert(all.take(i as int) =~= all);
    }
    best
}

/// The index of the cheapest listing of one item condition by raw price;
/// the earliest of equally cheap listings wins.
pub open spec fn spec_lowest_by_cond(prices: Seq<Price>, cond: ItemConditions) -> Option<int>
    decreases prices.len(),
{
    if prices.len() == 0 {
        None
    } else {
        let j = prices.len() - 1;
        let prev = spec_lowest_by_cond(prices.drop_last(), cond);
        if prices[j as int].condition != cond {
            prev
        } else {
            match prev {
                None => Some(j as int),
                Some(k) => if prices[j as int].price < prices[k].price {
                    Some(j as int)
                } else {
                    Some(k)
                },
            }
        }
    }
}

proof fn lemma_lowest_by_cond_range(prices: Seq<Price>, cond: ItemConditions)
    ensures
        spec_lowest_by_cond(prices, cond) matches Some(k) ==> 0 <= k < prices.len(),
    decreases prices.len(),
{
    if prices.len() > 0 {
        lemma_lowest_by_cond_range(prices.drop_last(), cond);
    }
}

/// Splits the collected listings into the cheapest new and the cheapest
/// used one, by raw price; listings of unspecified condition fill neither
/// slot.
pub fn select_lowest_prices(collected: Vec<Price>) -> (r: (Option<Price>, Option<Price>))
    ensures
        match r.0 {
            Some(p) => spec_lowest_by_cond(collected@, ItemConditions::New) matches Some(j) && p
                == collected@[j],
            None => spec_lowest_by_cond(collected@, ItemConditions::New) is None,
        },
        match r.1 {
            Some(p) => spec_lowest_by_cond(collected@, ItemConditions::Used) matches Some(j) && p
                == collected@[j],
            None => spec_lowest_by_cond(collected@, ItemConditions::Used) is None,
        },
{
    let ghost all = collected@;
    let mut rest = collected;
    let n = rest.len();
    let mut best_new: Option<Price> = None;
    let mut best_used: Option<Price> = None;
    let mut i: usize = 0;
    proof {
        assert(all.skip(0) =~= all);
        assert(all.take(0) =~= Seq::<Price>::empty());
    }
    while rest.len() > 0
        invariant
            all == collected@,
            all.len() == n,
            i <= all.len(),
            rest@ == all.skip(i as int),
            match best_new {
                Some(p) => spec_lowest_by_cond(all.take(i as int), ItemConditions::New)
                    matches Some(j) && p == all[j],
                None => spec_lowest_by_cond(all.take(i as int), ItemConditions::New) is None,
            },
            match best_used {
                Some(p) => spec_lowest_by_cond(all.take(i as int), ItemConditions::Used)
                    matches Some(j) && p == all[j],
                None => spec_lowest_by_cond(all.take(i as int), ItemConditions::Used) is None,
            },
        decreases rest@.len(),
    {
        let p = rest.remove(0);
        proof {
            assert(p == all[i as int]);
            assert(all.skip(i as int).remove(0) =~= all.skip(i + 1));
            assert(all.take(i + 1).drop_last() =~= all.take(i as int));
            assert(all.take(i + 1).last() == all[i as int]);
            assert(all.take(i + 1)[i as int] == all[i as int]);
            lemma_lowest_by_cond_range(all.take(i as int), ItemConditions::New);
            lemma_lowest_by_cond_range(all.take(i as int), ItemConditions::Used);
        }
        match p.condition {
            ItemConditions::New => {
                best_new = match best_new {
                    None => Some(p),
                    Some(b) => {
                        if p.price < b.price {
                            Some(p)
                        } else {
                            Some(b)
                        }
                    },
                };
            },
            ItemConditions::Used => {
                best_used = match best_used {
                    None => Some(p),
                    Some(b) => {
                        if p.price < b.price {
                            Some(p)
                        } else {
                            Some(b)
                        }
                    },
                };
            },
            ItemConditions::All => {},
        }
        i = i + 1;
    }
    proof {
        assert(all.skip(i as int).len() == 0);
        assert(all.take(i as int) =~= all);
    }
    (best_new, best_used)
}

/// The taxed total of `a` is strictly below that of `b`, compared exactly
/// as fractions.
pub open spec fn spec_total_lt(a: Price, b: Price) -> bool {
    (a.converted_price + a.shipping) * (10000 + a.taxes) < (b.converted_price + b.shipping) * (10000
        + b.taxes)
}

fn total_lt(a: &Price, b: &Price) -> (r: bool)
    ensures
        r == spec_total_lt(*a, *b),
{
    proof {
        lemma_total_cmp_bounds(a.converted_price as int, a.shipping as int, a.taxes as int);
        lemma_total_cmp_bounds(b.converted_price as int, b.shipping as int, b.taxes as int);
    }
    ((a.converted_price as u128) + (a.shipping as u128)) * (10000 + a.taxes as u128) < ((
    b.converted_price as u128) + (b.shipping as u128)) * (10000 + b.taxes as u128)
}

proof fn lemma_total_cmp_bounds(conv: int, ship: int, tax: int)
    requires
        0 <= conv <= u64::MAX,
        0 <= ship <= u64::MAX,
        0 <= tax <= u32::MAX,
    ensures
        0 <= (conv + ship) * (10000 + tax) <= u128::MAX,
{
    assert(0 <= (conv + ship) * (10000 + tax) <= u128::MAX) by (nonlinear_arith)
        requires
            0 <= conv + ship <= 2 * (u64::MAX as int),
            0 <= tax <= u32::MAX,
    ;
}

/// The index of the sale with the lowest taxed total; the earliest of
/// equally cheap sales wins.
pub open spec fn spec_lowest_total(sales: Seq<Price>) -> Option<int>
    decreases sales.len(),
{
    if sales.len() == 0 {
        None
    } else {
        let j = sales.len() - 1;
        match spec_lowest_total(sales.drop_last()) {
            None => Some(j as int),
            Some(k) => if spec_total_lt(sales[j as int], sales[k]) {
                Some(j as int)
            } else {
                Some(k)
            },
        }
    }
}

proof fn lemma_lowest_total_range(sales: Seq<Price>)
    ensures
        spec_lowest_total(sales) matches Some(k) ==> 0 <= k < sales.len(),
    decreases sales.len(),
{
    if sales.len() > 0 {
        lemma_lowest_total_range(sales.drop_last());
    }
}

/// The sale with the lowest converted total including shipping and taxes.
pub fn lowest_by_converted_total(sales: Vec<Price>) -> (r: Option<Price>)
    ensures
        match r {
            Some(p) => spec_lowest_total(sales@) matches Some(j) && p == sales@[j],
            None => sales@.len() == 0,
        },
{
    let ghost all = sales@;
    let mut rest = sales;
    let n = rest.len();
    let mut best: Option<Price> = None;
    let mut i: usize = 0;
    proof {
        assert(all.skip(0) =~= all);
        assert(all.take(0) =~= Seq::<Price>::empty());
    }
    while rest.len() > 0
        invariant
            all == sales@,
            all.len() == n,
            i <= all.len(),
            rest@ == all.skip(i as int),
            match best {
                Some(p) => spec_lowest_total(all.take(i as int)) matches Some(j) && p == all[j],
                None => i == 0,
            },
        decreases rest@.len(),
    {
        let p = rest.remove(0);
        proof {
            assert(p == all[i as int]);
            assert(all.skip(i as int).remove(0) =~= all.skip(i + 1));
            assert(all.take(i + 1).drop_last() =~= all.take(i as int));
            assert(all.take(i + 1).last() == all[i as int]);
            assert(all.take(i + 1)[i as int] == all[i as int]);
            lemma_lowest_total_range(all.take(i as int));
        }
        best = match best {
            None => Some(p),
            Some(b) => {
                if total_lt(&p, &b) {
                    Some(p)
                } else {
                    Some(b)
                }
            },
        };
        i = i + 1;
    }
    proof {
        assert(all.skip(i as int).len() == 0);
        assert(all.take(i as int) =~= all);
    }
    best
}

/// Some sale of `news` is located at `u`.
pub open spec fn url_in(news: Seq<Price>, u: Seq<char>) -> bool {
    exists|j: int| 0 <= j < news.len() && (#[trigger] news[j]).url@ == u
}

/// The sales of `alls` that are not listed among `news`, marked used.
pub open spec fn spec_used_sales(alls: Seq<Price>, news: Seq<Price>) -> Seq<Price>
    decreases alls.len(),
{
    if alls.len() == 0 {
        Seq::empty()
    } else {
        let prev = spec_used_sales(alls.drop_last(), news);
        if url_in(news, alls.last().url@) {
            prev
        } else {
            prev + seq![Price { condition: ItemConditions::Used, ..alls.last() }]
        }
    }
}

fn url_in_exec(news: &Vec<Price>, u: &str) -> (r: bool)
    ensures
        r == url_in(news@, u@),
{
    let mut j: usize = 0;
    while j < news.len()
        invariant
            j <= news@.len(),
            forall|k: int| 0 <= k < j ==> (#[trigger] news@[k]).url@ != u@,
        decreases news@.len() - j,
    {
        if str_eq(news[j].url.as_str(), u) {
            return true;
        }
        j = j + 1;
    }
    false
}

/// The used sales: every sale of the full listing whose ad URL does not
/// appear among the new sales, with its condition set to used.  The shop
/// does not mark used sales itself, so they are recovered by difference.
pub fn get_used_sales(all_sales: Vec<Price>, new_sales: &Vec<Price>) -> (r: Vec<Price>)
    ensures
        r@ == spec_used_sales(all_sales@, new_sales@),
{
    let ghost all = all_sales@;
    let mut rest = all_sales;
    let n = rest.len();
    let mut sales: Vec<Price> = Vec::new();
    let mut i: usize = 0;
    proof {
        assert(all.skip(0) =~= all);
        assert(all.take(0) =~= Seq::<Price>::empty());
    }
    while rest.len() > 0
        invariant
            all == all_sales@,
            all.len() == n,
            i <= all.len(),
            rest@ == all.skip(i as int),
            sales@ == spec_used_sales(all.take(i as int), new_sales@),
        decreases rest@.len(),
    {
        let p = rest.remove(0);
        proof {
            assert(p == all[i as int]);
            assert(all.skip(i as int).remove(0) =~= all.skip(i + 1));
            assert(all.take(i + 1).drop_last() =~= all.take(i as int));
            assert(all.take(i + 1).last() == all[i as int]);
        }
        if !url_in_exec(new_sales, p.url.as_str()) {
            let mut q = p;
            q.condition = ItemConditions::Used;
            sales.push(q);
            proof {
                assert(sales@ =~= spec_used_sales(all.take(i + 1), new_sales@));
            }
        }
        i = i + 1;
    }
    proof {
        assert(all.skip(i as int).len() == 0);
        assert(all.take(i as int) =~= all);
    }
    sales
}

} // verus!
