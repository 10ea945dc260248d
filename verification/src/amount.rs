//! Parsing of free-text price amounts into whole hundredths ("cents").
//!
//! Both `.` and `,` occur in the wild as decimal or as thousands separators.
//! The rule, matching the reference feed's price strings: the last separator
//! is the decimal separator when exactly two digits follow it; every
//! separator is a grouping separator when exactly three digits follow the
//! last one; anything else is malformed.

use vstd::prelude::*;

use crate::guesser::CurrencyGuesser;
use crate::text::is_digit_char;

verus! {

/// Why an amount string yields no value.
#[derive(Clone, Copy, Debug, PartialEq, Eq, Structural)]
pub enum AmountError {
    /// The string does not follow the amount grammar.
    Malformed,
    /// The amount is a well-formed number too large for the cents type.
    OutOfRange,
}

/// A grouping or decimal separator.
pub open spec fn is_sep(c: char) -> bool {
    c == '.' || c == ','
}

/// The numeric value of a digit character; other characters count zero.
pub open spec fn digit_val(c: char) -> int {
    if is_digit_char(c) {
        c as int - 48
    } else {
        0
    }
}

/// The characters of `s` with all separators removed.
pub open spec fn strip_seps(s: Seq<char>) -> Seq<char>
    decreases s.len(),
{
    if s.len() == 0 {
        Seq::empty()
    } else if is_sep(s.last()) {
        strip_seps(s.drop_last())
    } else {
        strip_seps(s.drop_last()).push(s.last())
    }
}

/// The base-ten value of a digit string.
pub open spec fn digits_value(s: Seq<char>) -> int
    decreases s.len(),
{
    if s.len() == 0 {
        0
    } else {
        digits_value(s.drop_last()) * 10 + digit_val(s.last())
    }
}

/// The index of the last separator in `s`, or `-1` when there is none.
pub open spec fn last_sep_index(s: Seq<char>) -> int
    decreases s.len(),
{
    if s.len() == 0 {
        -1
    } else if is_sep(s.last()) {
        s.len() - 1
    } else {
        last_sep_index(s.drop_last())
    }
}

/// Every character is a digit or a separator.
pub open spec fn all_amount_chars(s: Seq<char>) -> bool {
    forall|i: int| 0 <= i < s.len() ==> is_digit_char(s[i]) || is_sep(s[i])
}

/// The amount named by `s`, in cents, or `None` when `s` is malformed.
pub open spec fn spec_parse_cents(s: Seq<char>) -> Option<int> {
    if !(all_amount_chars(s) && strip_seps(s).len() > 0) {
        None
    } else {
        let p = last_sep_index(s);
        if p == -1 {
            Some(digits_value(strip_seps(s)) * 100)
        } else if s.len() - 1 - p == 2 {
            Some(digits_value(strip_seps(s.take(p))) * 100 + digits_value(s.skip(p + 1)))
        } else if s.len() - 1 - p == 3 {
            Some(digits_value(strip_seps(s)) * 100)
        } else {
            None
        }
    }
}

proof fn lemma_digits_value_nonneg(s: Seq<char>)
    ensures
        digits_value(s) >= 0,
    decreases s.len(),
{
    if s.len() > 0 {
        lemma_digits_value_nonneg(s.drop_last());
    }
}

/// Reading further characters never shrinks the accumulated digit value.
proof fn lemma_digits_prefix_le(s: Seq<char>, j: int, k: int)
    requires
        0 <= j <= k <= s.len(),
    ensures
        digits_value(strip_seps(s.take(j))) <= digits_value(strip_seps(s.take(k))),
    decreases k - j,
{
    if j < k {
        lemma_digits_prefix_le(s, j, k - 1);
        assert(s.take(k).drop_last() =~= s.take(k - 1));
        assert(s.take(k).last() == s[k - 1]);
        lemma_digits_value_nonneg(strip_seps(s.take(k - 1)));
        if is_sep(s[k - 1]) {
            assert(strip_seps(s.take(k)) == strip_seps(s.take(k - 1)));
        } else {
            let prev = strip_seps(s.take(k - 1));
            assert(strip_seps(s.take(k)) == prev.push(s[k - 1]));
            assert(prev.push(s[k - 1]).drop_last() =~= prev);
            assert(prev.push(s[k - 1]).last() == s[k - 1]);
            assert(digits_value(prev.push(s[k - 1])) == digits_value(prev) * 10 + digit_val(
                s[k - 1],
            ));
        }
    }
}

/// A separator at `k` pushes the last separator index at least to `k`.
pub(crate) proof fn lemma_sep_at(s: Seq<char>, k: int)
    requires
        0 <= k < s.len(),
        is_sep(s[k]),
    ensures
        last_sep_index(s) >= k,
    decreases s.len(),
{
    if !is_sep(s.last()) {
        assert(s.drop_last()[k] == s[k]);
        lemma_sep_at(s.drop_last(), k);
    }
}

/// Without separators there is no last separator.
pub(crate) proof fn lemma_no_sep(s: Seq<char>)
    requires
        forall|j: int| 0 <= j < s.len() ==> !is_sep(#[trigger] s[j]),
    ensures
        last_sep_index(s) == -1,
    decreases s.len(),
{
    if s.len() > 0 {
        assert(!is_sep(s[s.len() - 1]));
        assert forall|j: int| 0 <= j < s.drop_last().len() implies !is_sep(
            #[trigger] s.drop_last()[j],
        ) by {
            assert(s.drop_last()[j] == s[j]);
        }
        lemma_no_sep(s.drop_last());
    }
}

/// After the last separator only non-separators follow.
pub(crate) proof fn lemma_last_sep_props(s: Seq<char>)
    ensures
        -1 <= last_sep_index(s) < s.len(),
        last_sep_index(s) >= 0 ==> is_sep(s[last_sep_index(s)]),
        forall|j: int| last_sep_index(s) < j < s.len() ==> !is_sep(#[trigger] s[j]),
    decreases s.len(),
{
    if s.len() > 0 && !is_sep(s.last()) {
        lemma_last_sep_props(s.drop_last());
        assert forall|j: int| last_sep_index(s) < j < s.len() implies !is_sep(#[trigger] s[j]) by {
            if j < s.len() - 1 {
                assert(s.drop_last()[j] == s[j]);
            }
        }
    }
}

/// Accumulates the digits of `s` up to (excluding) `end`, skipping
/// separators; reports `OutOfRange` when the value leaves the cents type.
pub(crate) fn acc_digits(s: &str, end: usize) -> (r: Result<u64, AmountError>)
    requires
        end <= s@.len(),
        forall|j: int| 0 <= j < end ==> is_digit_char(s@[j]) || is_sep(s@[j]),
    ensures
        match r {
            Ok(w) => w == digits_value(strip_seps(s@.take(end as int))),
            Err(e) => e == AmountError::OutOfRange && digits_value(
                strip_seps(s@.take(end as int)),
            ) > u64::MAX,
        },
{
    let mut acc: u64 = 0;
    let mut i: usize = 0;
    proof {
        assert(s@.take(0) =~= Seq::<char>::empty());
    }
    while i < end
        invariant
            end <= s@.len(),
            i <= end,
            forall|j: int| 0 <= j < end ==> is_digit_char(s@[j]) || is_sep(s@[j]),
            acc == digits_value(strip_seps(s@.take(i as int))),
        decreases end - i,
    {
        let c = s.get_char(i);
        let u = c as u32;
        proof {
            assert(s@.take(i + 1).drop_last() =~= s@.take(i as int));
            assert(s@.take(i + 1).last() == s@[i as int]);
        }
        if 48 <= u && u <= 57 {
            proof {
                assert(is_digit_char(s@[i as int]) && !is_sep(s@[i as int]));
                let prev = strip_seps(s@.take(i as int));
                assert(strip_seps(s@.take(i + 1)) == prev.push(s@[i as int]));
                assert(prev.push(s@[i as int]).drop_last() =~= prev);
                assert(prev.push(s@[i as int]).last() == s@[i as int]);
                assert(digits_value(prev.push(s@[i as int])) == digits_value(prev) * 10
                    + digit_val(s@[i as int]));
            }
            let next: u128 = (acc as u128) * 10 + ((u - 48) as u128);
            if next > u64::MAX as u128 {
                proof {
                    lemma_digits_prefix_le(s@, i + 1, end as int);
                }
                return Err(AmountError::OutOfRange);
            }
            acc = next as u64;
        } else {
            proof {
                assert(is_sep(s@[i as int]));
                assert(strip_seps(s@.take(i + 1)) == strip_seps(s@.take(i as int)));
            }
        }
        i = i + 1;
    }
    Ok(acc)
}

proof fn lemma_digits_value_pair(a: char, b: char)
    ensures
        digits_value(seq![a, b]) == digit_val(a) * 10 + digit_val(b),
{
    assert(digits_value(Seq::<char>::empty()) == 0);
    assert(seq![a].drop_last() =~= Seq::<char>::empty());
    assert(seq![a].last() == a);
    assert(digits_value(seq![a]) == digit_val(a));
    assert(seq![a, b].drop_last() =~= seq![a]);
    assert(seq![a, b].last() == b);
    assert(digits_value(seq![a, b]) == digits_value(seq![a]) * 10 + digit_val(b));
}

impl CurrencyGuesser {
    /// Retrieves the numerical value of the passed amount, in cents.
    #[verifier::rlimit(60)]
    pub fn get_currency_value(value: String) -> (r: Result<u64, AmountError>)
        ensures
            match r {
                Ok(v) => spec_parse_cents(value@) == Some(v as int),
                Err(AmountError::Malformed) => spec_parse_cents(value@) is None,
                Err(AmountError::OutOfRange) => spec_parse_cents(value@) matches Some(v) && v
                    > u64::MAX,
            },
    {
        let s = value.as_str();
        proof {
            assert(s@ == value@);
        }
        let n = s.unicode_len();
        let mut last_sep: usize = 0;
        let mut has_sep: bool = false;
        let mut digit_count: usize = 0;
        let mut i: usize = 0;
        proof {
            assert(s@.take(0) =~= Seq::<char>::empty());
        }
        while i < n
            invariant
                s@ == value@,
                n == s@.len(),
                i <= n,
                forall|j: int| 0 <= j < i ==> is_digit_char(s@[j]) || is_sep(s@[j]),
                if has_sep {
                    last_sep < i && last_sep_index(s@.take(i as int)) == last_sep
                } else {
                    last_sep_index(s@.take(i as int)) == -1
                },
                digit_count == strip_seps(s@.take(i as int)).len(),
                digit_count <= i,
            decreases n - i,
        {
            let c = s.get_char(i);
            let u = c as u32;
            proof {
                assert(s@.take(i + 1).drop_last() =~= s@.take(i as int));
                assert(s@.take(i + 1).last() == s@[i as int]);
            }
            if 48 <= u && u <= 57 {
                proof {
                    assert(strip_seps(s@.take(i + 1)) == strip_seps(s@.take(i as int)).push(
                        s@[i as int],
                    ));
                }
                digit_count = digit_count + 1;
            } else if c == '.' || c == ',' {
                last_sep = i;
                has_sep = true;
            } else {
                proof {
                    assert(!(is_digit_char(s@[i as int]) || is_sep(s@[i as int])));
                    assert(!all_amount_chars(s@));
                    assert(s@ == value@);
                    assert(spec_parse_cents(value@) is None);
                }
                return Err(AmountError::Malformed);
            }
            i = i + 1;
        }
        proof {
            assert(s@.take(n as int) =~= s@);
        }
        if digit_count == 0 {
            return Err(AmountError::Malformed);
        }
        if !has_sep {
            // a plain integer amount
            let whole = match acc_digits(s, n) {
                Ok(w) => w,
                Err(e) => {
                    proof {
                        lemma_mul_100_grows(digits_value(strip_seps(s@)));
                    }
                    return Err(e);
                },
            };
            if whole > u64::MAX / 100 {
                proof {
                    lemma_cents_bound(whole as int);
                }
                return Err(AmountError::OutOfRange);
            }
            return Ok(whole * 100);
        }
        proof {
            lemma_last_sep_props(s@);
        }
        let tail = n - 1 - last_sep;
        if tail == 2 {
            // decimal separator with two digits of cents
            let whole = match acc_digits(s, last_sep) {
                Ok(w) => w,
                Err(e) => {
                    proof {
                        lemma_digits_value_nonneg(s@.skip(last_sep + 1));
                        lemma_mul_100_grows(digits_value(strip_seps(s@.take(last_sep as int))));
                    }
                    return Err(e);
                },
            };
            proof {
                assert(is_digit_char(s@[last_sep + 1]) && is_digit_char(s@[last_sep + 2]));
            }
            let d1 = s.get_char(last_sep + 1);
            let d2 = s.get_char(last_sep + 2);
            let frac: u64 = ((d1 as u32 - 48) * 10 + (d2 as u32 - 48)) as u64;
            proof {
                assert(s@.skip(last_sep + 1) =~= seq![s@[last_sep + 1], s@[last_sep + 2]]);
                lemma_digits_value_pair(s@[last_sep + 1], s@[last_sep + 2]);
                assert(frac == digits_value(s@.skip(last_sep + 1)));
                assert(0 <= frac <= 99);
            }
            if whole > (u64::MAX - frac) / 100 {
                proof {
                    lemma_cents_frac_bound(whole as int, frac as int);
                }
                return Err(AmountError::OutOfRange);
            }
            proof {
                lemma_cents_frac_fits(whole as int, frac as int);
            }
            return Ok(whole * 100 + frac);
        }
        if tail == 3 {
            // every separator is a grouping separator
            let whole = match acc_digits(s, n) {
                Ok(w) => w,
                Err(e) => {
                    proof {
                        lemma_mul_100_grows(digits_value(strip_seps(s@)));
                    }
                    return Err(e);
                },
            };
            if whole > u64::MAX / 100 {
                proof {
                    lemma_cents_bound(whole as int);
                }
                return Err(AmountError::OutOfRange);
            }
            return Ok(whole * 100);
        }
        Err(AmountError::Malformed)
    }
}

proof fn lemma_mul_100_grows(v: int)
    requires
        v > u64::MAX,
    ensures
        v * 100 > u64::MAX,
        v * 100 + 99 > u64::MAX,
{
    assert(v * 100 >= v) by (nonlinear_arith)
        requires
            v >= 0,
    ;
}

proof fn lemma_cents_bound(w: int)
    requires
        w > u64::MAX as int / 100,
    ensures
        w * 100 > u64::MAX,
{
    assert(w >= u64::MAX as int / 100 + 1);
    assert(w * 100 >= (u64::MAX as int / 100 + 1) * 100) by (nonlinear_arith)
        requires
            w >= u64::MAX as int / 100 + 1,
    ;
}

proof fn lemma_cents_frac_bound(w: int, f: int)
    requires
        0 <= f,
        w > (u64::MAX - f) / 100,
    ensures
        w * 100 + f > u64::MAX,
{
    assert(w >= (u64::MAX - f) / 100 + 1);
    assert(w * 100 >= ((u64::MAX - f) / 100 + 1) * 100) by (nonlinear_arith)
        requires
            w >= (u64::MAX - f) / 100 + 1,
    ;
}

proof fn lemma_cents_frac_fits(w: int, f: int)
    requires
        0 <= w,
        0 <= f <= 99,
        w <= (u64::MAX - f) / 100,
    ensures
        w * 100 + f <= u64::MAX,
{
    assert(w * 100 <= ((u64::MAX - f) / 100) * 100) by (nonlinear_arith)
        requires
            0 <= w <= (u64::MAX - f) / 100,
    ;
}

} // verus!
