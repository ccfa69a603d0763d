//! Verified string utilities: substring search, prefix tests, and
//! splitting on separator characters. All contracts are stated over the
//! `Seq<char>` views of `&str` and `String`.

use vstd::prelude::*;

verus! {

use vstd::string::StrSliceExecFns;

/// The needle `n` occurs in `h` starting at position `i`.
pub open spec fn contains_at(h: Seq<char>, n: Seq<char>, i: int) -> bool {
    0 <= i && i + n.len() <= h.len() && h.subrange(i, i + n.len()) == n
}

/// The needle `n` occurs somewhere in `h` (an empty needle always does).
pub open spec fn contains_seq(h: Seq<char>, n: Seq<char>) -> bool {
    exists|i: int| contains_at(h, n, i)
}

/// `p` is a prefix of `s`.
pub open spec fn starts_with_seq(s: Seq<char>, p: Seq<char>) -> bool {
    p.len() <= s.len() && s.subrange(0, p.len() as int) == p
}

/// `p` is a suffix of `s`.
pub open spec fn ends_with_seq(s: Seq<char>, p: Seq<char>) -> bool {
    p.len() <= s.len() && s.subrange(s.len() - p.len(), s.len() as int) == p
}

/// Index of the first occurrence of `c` in `s`; `s.len()` when absent.
pub open spec fn first_ix(s: Seq<char>, c: char) -> int
    decreases s.len(),
{
    if s.len() == 0 {
        0
    } else if s[0] == c {
        0
    } else {
        1 + first_ix(s.drop_first(), c)
    }
}

/// Index of the last occurrence of `c` in `s`; `-1` when absent.
pub open spec fn last_ix(s: Seq<char>, c: char) -> int
    decreases s.len(),
{
    if s.len() == 0 {
        -1
    } else if s[s.len() - 1] == c {
        s.len() - 1
    } else {
        last_ix(s.take(s.len() - 1), c)
    }
}

pub proof fn lemma_first_ix(s: Seq<char>, c: char)
    ensures
        0 <= first_ix(s, c) <= s.len(),
        first_ix(s, c) < s.len() ==> s[first_ix(s, c)] == c,
        forall|j: int| 0 <= j < first_ix(s, c) ==> s[j] != c,
    decreases s.len(),
{
    if s.len() > 0 && s[0] != c {
        lemma_first_ix(s.drop_first(), c);
        assert forall|j: int| 0 <= j < first_ix(s, c) implies s[j] != c by {
            if j > 0 {
                assert(s.drop_first()[j - 1] == s[j]);
            }
        }
    }
}

pub proof fn lemma_last_ix(s: Seq<char>, c: char)
    ensures
        -1 <= last_ix(s, c) < s.len(),
        last_ix(s, c) >= 0 ==> s[last_ix(s, c)] == c,
        forall|j: int| last_ix(s, c) < j < s.len() ==> s[j] != c,
    decreases s.len(),
{
    if s.len() > 0 && s[s.len() - 1] != c {
        lemma_last_ix(s.take(s.len() - 1), c);
        assert forall|j: int| last_ix(s, c) < j < s.len() implies s[j] != c by {
            if j < s.len() - 1 {
                assert(s.take(s.len() - 1)[j] == s[j]);
            }
        }
    }
}

/// The needle occurs at position `i` of the haystack.
pub fn match_at(hay: &str, needle: &str, i: usize) -> (r: bool)
    requires
        i + needle@.len() <= hay@.len(),
    ensures
        r == contains_at(hay@, needle@, i as int),
{
    let hlen = hay.unicode_len();
    let nlen = needle.unicode_len();
    let mut j: usize = 0;
    while j < nlen
        invariant
            hlen == hay@.len(),
            i + nlen <= hlen,
            nlen == needle@.len(),
            0 <= j <= nlen,
            forall|l: int| 0 <= l < j ==> hay@[i + l] == needle@[l],
        decreases nlen - j,
    {
        if hay.get_char(i + j) != needle.get_char(j) {
            assert(hay@.subrange(i as int, i + needle@.len())[j as int] != needle@[j as int]);
            return false;
        }
        j += 1;
    }
    assert(hay@.subrange(i as int, i + needle@.len()) =~= needle@);
    true
}

/// Substring search over characters, as the standard `contains` on strings.
pub fn str_contains(hay: &str, needle: &str) -> (r: bool)
    ensures
        r == contains_seq(hay@, needle@),
{
    let hlen = hay.unicode_len();
    let nlen = needle.unicode_len();
    if nlen > hlen {
        return false;
    }
    let mut i: usize = 0;
    while i <= hlen - nlen
        invariant
            hlen == hay@.len(),
            nlen == needle@.len(),
            nlen <= hlen,
            0 <= i <= hlen - nlen,
            forall|k: int| 0 <= k < i ==> !contains_at(hay@, needle@, k),
        decreases hlen - nlen - i,
    {
        if match_at(hay, needle, i) {
            return true;
        }
        if i == hlen - nlen {
            return false;
        }
        i += 1;
    }
    false
}

/// Character-for-character string equality.
pub fn str_eq(a: &str, b: &str) -> (r: bool)
    ensures
        r == (a@ == b@),
{
    let alen = a.unicode_len();
    let blen = b.unicode_len();
    if alen != blen {
        return false;
    }
    let mut i: usize = 0;
    while i < alen
        invariant
            alen == a@.len(),
            alen == b@.len(),
            0 <= i <= alen,
            forall|j: int| 0 <= j < i ==> a@[j] == b@[j],
        decreases alen - i,
    {
        if a.get_char(i) != b.get_char(i) {
            return false;
        }
        i += 1;
    }
    assert(a@ =~= b@);
    true
}

/// Prefix test over characters.
pub fn str_starts_with(s: &str, p: &str) -> (r: bool)
    ensures
        r == starts_with_seq(s@, p@),
{
    let slen = s.unicode_len();
    let plen = p.unicode_len();
    if plen > slen {
        return false;
    }
    match_at(s, p, 0)
}

/// The characters of `s` before the first occurrence of `c`
/// (all of `s` when `c` is absent).
pub fn prefix_before_first(s: &str, c: char) -> (r: String)
    ensures
        r@ == s@.take(first_ix(s@, c)),
{
    proof {
        lemma_first_ix(s@, c);
    }
    let slen = s.unicode_len();
    let mut i: usize = 0;
    while i < slen
        invariant
            slen == s@.len(),
            0 <= i <= slen,
            forall|j: int| 0 <= j < i ==> s@[j] != c,
            0 <= first_ix(s@, c) <= s@.len(),
            first_ix(s@, c) < s@.len() ==> s@[first_ix(s@, c)] == c,
            forall|j: int| 0 <= j < first_ix(s@, c) ==> s@[j] != c,
        decreases slen - i,
    {
        if s.get_char(i) == c {
            assert(first_ix(s@, c) == i);
            let pre = s.substring_char(0, i);
            assert(pre@ =~= s@.take(first_ix(s@, c)));
            return pre.to_owned();
        }
        i += 1;
    }
    assert(first_ix(s@, c) == s@.len());
    assert(s@ =~= s@.take(first_ix(s@, c)));
    s.to_owned()
}

/// The characters of `s` after the last occurrence of `c`
/// (all of `s` when `c` is absent).
pub fn suffix_after_last(s: &str, c: char) -> (r: String)
    ensures
        r@ == s@.subrange(last_ix(s@, c) + 1, s@.len() as int),
{
    proof {
        lemma_last_ix(s@, c);
    }
    let slen = s.unicode_len();
    let mut i: usize = slen;
    while i > 0
        invariant
            slen == s@.len(),
            0 <= i <= slen,
            forall|j: int| i <= j < slen ==> s@[j] != c,
            -1 <= last_ix(s@, c) < s@.len(),
            last_ix(s@, c) >= 0 ==> s@[last_ix(s@, c)] == c,
            forall|j: int| last_ix(s@, c) < j < s@.len() ==> s@[j] != c,
        decreases i,
    {
        if s.get_char(i - 1) == c {
            assert(last_ix(s@, c) == i - 1);
            let suf = s.substring_char(i, slen);
            assert(suf@ =~= s@.subrange(last_ix(s@, c) + 1, s@.len() as int));
            return suf.to_owned();
        }
        i -= 1;
    }
    assert(last_ix(s@, c) == -1);
    assert(s@ =~= s@.subrange(last_ix(s@, c) + 1, s@.len() as int));
    s.to_owned()
}

/// The string `x` occurs (by characters) in the list.
pub open spec fn seq_contains_str(s: Seq<String>, x: Seq<char>) -> bool {
    exists|i: int| 0 <= i < s.len() && s[i]@ == x
}

/// Whether the list holds the string, character for character.
pub fn vec_contains_str(v: &Vec<String>, x: &str) -> (r: bool)
    ensures
        r == seq_contains_str(v@, x@),
{
    let mut i: usize = 0;
    while i < v.len()
        invariant
            0 <= i <= v@.len(),
            forall|k: int| 0 <= k < i ==> v@[k]@ != x@,
        decreases v@.len() - i,
    {
        if str_eq(v[i].as_str(), x) {
            return true;
        }
        i += 1;
    }
    false
}

/// The value of the first pair whose key matches, if any.
pub open spec fn assoc_first(s: Seq<(String, String)>, key: Seq<char>) -> Option<Seq<char>>
    decreases s.len(),
{
    if s.len() == 0 {
        None
    } else if s[0].0@ == key {
        Some(s[0].1@)
    } else {
        assoc_first(s.drop_first(), key)
    }
}

/// Look a key up in an association list; the first match wins.
pub fn assoc_lookup(v: &Vec<(String, String)>, key: &str) -> (r: Option<String>)
    ensures
        match r {
            Some(t) => assoc_first(v@, key@) == Some(t@),
            None => assoc_first(v@, key@) is None,
        },
{
    let mut i: usize = 0;
    proof {
        assert(v@.skip(0int) =~= v@);
    }
    while i < v.len()
        invariant
            0 <= i <= v@.len(),
            assoc_first(v@, key@) == assoc_first(v@.skip(i as int), key@),
        decreases v@.len() - i,
    {
        proof {
            assert(v@.skip(i as int)[0] == v@[i as int]);
            assert(v@.skip(i as int).drop_first() =~= v@.skip(i + 1));
        }
        if str_eq(v[i].0.as_str(), key) {
            return Some(v[i].1.clone());
        }
        i += 1;
    }
    proof {
        assert(v@.skip(v@.len() as int).len() == 0);
    }
    None
}

/// The needle's first occurrence in the haystack is at `i`.
pub open spec fn is_first_occ(h: Seq<char>, n: Seq<char>, i: int) -> bool {
    contains_at(h, n, i) && forall|k: int| 0 <= k < i ==> !contains_at(h, n, k)
}

/// The position of the needle's first occurrence (meaningful only when
/// the haystack contains the needle).
pub open spec fn first_occ(h: Seq<char>, n: Seq<char>) -> int {
    choose|i: int| is_first_occ(h, n, i)
}

/// A witnessed first occurrence pins `first_occ` down.
pub proof fn lemma_first_occ_is(h: Seq<char>, n: Seq<char>, i: int)
    requires
        is_first_occ(h, n, i),
    ensures
        first_occ(h, n) == i,
{
    assert(exists|w: int| is_first_occ(h, n, w));
    let w = first_occ(h, n);
    assert(is_first_occ(h, n, w));
}

/// The position of the needle's first occurrence, if any.
pub fn find_first(hay: &str, needle: &str) -> (r: Option<usize>)
    ensures
        match r {
            Some(i) => is_first_occ(hay@, needle@, i as int) && i + needle@.len() <= hay@.len(),
            None => !contains_seq(hay@, needle@),
        },
{
    let hlen = hay.unicode_len();
    let nlen = needle.unicode_len();
    if nlen > hlen {
        return None;
    }
    let mut i: usize = 0;
    while i <= hlen - nlen
        invariant
            hlen == hay@.len(),
            nlen == needle@.len(),
            nlen <= hlen,
            0 <= i <= hlen - nlen,
            forall|k: int| 0 <= k < i ==> !contains_at(hay@, needle@, k),
        decreases hlen - nlen - i,
    {
        if match_at(hay, needle, i) {
            return Some(i);
        }
        if i == hlen - nlen {
            return None;
        }
        i += 1;
    }
    None
}

/// The strings of the list are pairwise distinct, by characters.
pub open spec fn views_distinct(s: Seq<String>) -> bool {
    forall|p: int, q: int| 0 <= p < q < s.len() ==> s[p]@ != s[q]@
}

/// Every filtered string comes from the original list.
pub proof fn lemma_string_filter_subset(c: Seq<String>, pred: spec_fn(String) -> bool, i: int)
    requires
        0 <= i < c.filter(pred).len(),
    ensures
        exists|j: int| 0 <= j < c.len() && c[j] == c.filter(pred)[i],
    decreases c.len(),
{
    reveal(Seq::filter);
    if c.len() > 0 {
        let fd = c.drop_last().filter(pred);
        if i < fd.len() {
            lemma_string_filter_subset(c.drop_last(), pred, i);
            let j = choose|j: int| 0 <= j < c.drop_last().len() && c.drop_last()[j] == fd[i];
            assert(c[j] == c.filter(pred)[i]);
        } else {
            assert(c[c.len() - 1] == c.filter(pred)[i]);
        }
    }
}

/// Pairwise-distinct strings stay pairwise distinct under filtering.
pub proof fn lemma_string_filter_distinct(c: Seq<String>, pred: spec_fn(String) -> bool)
    requires
        views_distinct(c),
    ensures
        views_distinct(c.filter(pred)),
    decreases c.len(),
{
    reveal(Seq::filter);
    if c.len() > 0 {
        assert(views_distinct(c.drop_last()));
        lemma_string_filter_distinct(c.drop_last(), pred);
        let f = c.filter(pred);
        let fd = c.drop_last().filter(pred);
        assert forall|p: int, q: int| 0 <= p < q < f.len() implies f[p]@ != f[q]@ by {
            if pred(c.last()) && q == f.len() - 1 {
                assert(f[p] == fd[p]);
                lemma_string_filter_subset(c.drop_last(), pred, p);
                let j = choose|j: int| 0 <= j < c.drop_last().len() && c.drop_last()[j] == fd[p];
                assert(c[j] == fd[p]);
                assert(c[j]@ != c[c.len() - 1]@);
            } else {
                assert(f[p] == fd[p] && f[q] == fd[q]);
            }
        }
        assert(views_distinct(f));
    }
}

} // verus!
