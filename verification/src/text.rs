//! Small verified string utilities shared by the rest of the library:
//! exact string comparison, substring search, and decimal rendering of
//! integers and money amounts.

use vstd::prelude::*;

verus! {

/// An ASCII decimal digit.
pub open spec fn is_digit_char(c: char) -> bool {
    '0' <= c && c <= '9'
}

/// Character-for-character equality of two string slices.
pub fn str_eq(a: &str, b: &str) -> (r: bool)
    ensures
        r == (a@ == b@),
{
    let alen = a.unicode_len();
    let blen = b.unicode_len();
    if alen != blen {
        return false;
    }
    let mut i: usize = 0;
    while i < alen
        invariant
            alen == a@.len(),
            blen == b@.len(),
            alen == blen,
            i <= alen,
            forall|j: int| 0 <= j < i ==> a@[j] == b@[j],
        decreases alen - i,
    {
        if a.get_char(i) != b.get_char(i) {
            return false;
        }
        i = i + 1;
    }
    proof {
        assert(a@ =~= b@);
    }
    true
}

/// `needle` occurs as a contiguous run of characters inside `hay`.
pub open spec fn is_substring_of(needle: Seq<char>, hay: Seq<char>) -> bool {
    exists|k: int|
        0 <= k <= hay.len() - needle.len() && #[trigger] hay.subrange(k, k + needle.len())
            == needle
}

/// Substring search over the characters of two string slices.
pub fn contains_str(hay: &str, needle: &str) -> (r: bool)
    ensures
        r == is_substring_of(needle@, hay@),
{
    let nlen = needle.unicode_len();
    let hlen = hay.unicode_len();
    if nlen > hlen {
        return false;
    }
    let mut k: usize = 0;
    while k <= hlen - nlen
        invariant
            nlen == needle@.len(),
            hlen == hay@.len(),
            nlen <= hlen,
            k <= hlen - nlen + 1,
            forall|k2: int|
                0 <= k2 < k ==> #[trigger] hay@.subrange(k2, k2 + nlen) != needle@,
        decreases hlen - nlen - k + 1,
    {
        let mut j: usize = 0;
        let mut same: bool = true;
        while j < nlen
            invariant
                nlen == needle@.len(),
                hlen == hay@.len(),
                k + nlen <= hlen,
                j <= nlen,
                same == (forall|m: int| 0 <= m < j ==> hay@[k + m] == needle@[m]),
            decreases nlen - j,
        {
            if hay.get_char(k + j) != needle.get_char(j) {
                proof {
                    assert(hay@[k + j] != needle@[j as int]);
                }
                same = false;
                j = nlen;
            } else {
                j = j + 1;
            }
        }
        if same {
            proof {
                assert(hay@.subrange(k as int, k + nlen) =~= needle@);
            }
            return true;
        }
        proof {
            assert(hay@.subrange(k as int, k + nlen) != needle@) by {
                let m = choose|m: int| 0 <= m < nlen && hay@[k + m] != needle@[m];
                assert(hay@.subrange(k as int, k + nlen)[m] == hay@[k + m]);
            }
        }
        k = k + 1;
    }
    false
}

/// The character for one decimal digit.
pub open spec fn digit_char(d: int) -> char {
    if d == 0 {
        '0'
    } else if d == 1 {
        '1'
    } else if d == 2 {
        '2'
    } else if d == 3 {
        '3'
    } else if d == 4 {
        '4'
    } else if d == 5 {
        '5'
    } else if d == 6 {
        '6'
    } else if d == 7 {
        '7'
    } else if d == 8 {
        '8'
    } else {
        '9'
    }
}

/// Decimal rendering of a natural number, most significant digit first.
pub open spec fn spec_dec_str(n: nat) -> Seq<char>
    decreases n,
{
    if n < 10 {
        seq![digit_char(n as int)]
    } else {
        spec_dec_str(n / 10) + seq![digit_char((n % 10) as int)]
    }
}

fn digit_to_string(d: u64) -> (r: String)
    requires
        d < 10,
    ensures
        r@ == seq![digit_char(d as int)],
{
    let s: &str = if d == 0 {
        "0"
    } else if d == 1 {
        "1"
    } else if d == 2 {
        "2"
    } else if d == 3 {
        "3"
    } else if d == 4 {
        "4"
    } else if d == 5 {
        "5"
    } else if d == 6 {
        "6"
    } else if d == 7 {
        "7"
    } else if d == 8 {
        "8"
    } else {
        "9"
    };
    proof {
        reveal_strlit("0");
        reveal_strlit("1");
        reveal_strlit("2");
        reveal_strlit("3");
        reveal_strlit("4");
        reveal_strlit("5");
        reveal_strlit("6");
        reveal_strlit("7");
        reveal_strlit("8");
        reveal_strlit("9");
        assert(s@ =~= seq![digit_char(d as int)]);
    }
    String::from_str(s)
}

/// Decimal rendering of an unsigned machine integer.
pub fn u64_to_string(n: u64) -> (r: String)
    ensures
        r@ == spec_dec_str(n as nat),
    decreases n,
{
    if n < 10 {
        digit_to_string(n)
    } else {
        let mut s = u64_to_string(n / 10);
        let d = digit_to_string(n % 10);
        s.append(d.as_str());
        s
    }
}

/// Decimal rendering of a signed machine integer, with a leading minus
/// sign for negative values.
pub open spec fn spec_int_str(n: int) -> Seq<char> {
    if n >= 0 {
        spec_dec_str(n as nat)
    } else {
        seq!['-'] + spec_dec_str((-n) as nat)
    }
}

pub fn i64_to_string(n: i64) -> (r: String)
    ensures
        r@ == spec_int_str(n as int),
{
    if n >= 0 {
        u64_to_string(n as u64)
    } else {
        let magnitude: u64 = ((-(n + 1)) as u64) + 1;
        proof {
            assert(magnitude == -(n as int));
        }
        let mut s = String::from_str("-");
        proof {
            reveal_strlit("-");
            assert(s@ =~= seq!['-']);
        }
        let rest = u64_to_string(magnitude);
        s.append(rest.as_str());
        s
    }
}

/// A money amount in hundredths, rendered with two places after the
/// decimal point, e.g. `12345` becomes `123.45`.
pub open spec fn spec_cents_str(c: nat) -> Seq<char> {
    spec_dec_str(c / 100) + seq!['.', digit_char(((c % 100) / 10) as int), digit_char(
        ((c % 100) % 10) as int,
    )]
}

pub fn format_cents(c: u64) -> (r: String)
    ensures
        r@ == spec_cents_str(c as nat),
{
    let mut s = u64_to_string(c / 100);
    let dot = String::from_str(".");
    proof {
        reveal_strlit(".");
        assert(dot@ =~= seq!['.']);
    }
    s.append(dot.as_str());
    let tens = digit_to_string((c % 100) / 10);
    s.append(tens.as_str());
    let ones = digit_to_string((c % 100) % 10);
    s.append(ones.as_str());
    proof {
        assert(s@ =~= spec_cents_str(c as nat));
    }
    s
}

/// The elements of `terms`, separated by single spaces.
pub open spec fn spec_joined(terms: Seq<Seq<char>>) -> Seq<char>
    decreases terms.len(),
{
    if terms.len() == 0 {
        Seq::empty()
    } else if terms.len() == 1 {
        terms[0]
    } else {
        spec_joined(terms.drop_last()) + seq![' '] + terms.last()
    }
}

/// Joins search terms with single spaces, as the info adapters do when
/// they compose an item's English search term.
pub fn join_terms(terms: &Vec<String>) -> (r: String)
    ensures
        r@ == spec_joined(terms.deep_view()),
{
    let mut s = String::new();
    let mut i: usize = 0;
    let space = String::from_str(" ");
    proof {
        reveal_strlit(" ");
        assert(space@ =~= seq![' ']);
    }
    while i < terms.len()
        invariant
            i <= terms@.len(),
            space@ == seq![' '],
            s@ == spec_joined(terms.deep_view().take(i as int)),
        decreases terms@.len() - i,
    {
        if i > 0 {
            s.append(space.as_str());
        }
        s.append(terms[i].as_str());
        proof {
            assert(terms.deep_view().take(i + 1).drop_last() =~= terms.deep_view().take(i as int));
            assert(terms.deep_view().take(i + 1).last() == terms.deep_view()[i as int]);
            if i == 0 {
                assert(s@ =~= spec_joined(terms.deep_view().take(i + 1)));
            }
        }
        i = i + 1;
    }
    proof {
        assert(terms.deep_view().take(terms@.len() as int) =~= terms.deep_view());
    }
    s
}

} // verus!
