//! The structural grammar of a three-word address, and verified checkers
//! that decide it over a sequence of characters.
//!
//! A *strict span* `[i, j)` of a character sequence is three non-empty runs
//! of word characters joined by two single separator characters. Because
//! eleven of the twelve separators are themselves word characters, the
//! decomposition is not unique; a span has the shape when *some* choice of
//! the two separator positions works, which is what the specs state.
//!
//! A *group span* generalises the groups: each of the three is,
//! independently of the others, one to four sub-words joined by single
//! plain or no-break spaces. It covers addresses written with multi-token
//! place names before resolution, and subsumes the strict span as the case
//! where every group is a single sub-word.
//!
//! A *near span* is the near-miss variant: three word runs joined by runs of
//! one or two near-miss separator characters, used for "did you mean" hints.

use vstd::prelude::*;

use crate::alphabet::is_joiner;
use crate::alphabet::is_near_sep;
use crate::alphabet::is_separator;
use crate::alphabet::is_word_char;
use crate::alphabet::joiner_char;
use crate::alphabet::near_sep_char;
use crate::alphabet::separator_char;
use crate::alphabet::word_char;

verus! {

/// Every character of `t[i..j)` is a word character.
pub open spec fn word_range(t: Seq<char>, i: int, j: int) -> bool {
    forall|k: int| i <= k < j ==> is_word_char(#[trigger] t[k])
}

/// `t[i..j)` decomposes as three non-empty word runs with single separators
/// at positions `k1` and `k2`.
pub open spec fn strict_pair(t: Seq<char>, i: int, k1: int, k2: int, j: int) -> bool {
    &&& 0 <= i < k1
    &&& k1 + 1 < k2
    &&& k2 + 1 < j <= t.len()
    &&& is_separator(t[k1])
    &&& is_separator(t[k2])
    &&& word_range(t, i, k1)
    &&& word_range(t, k1 + 1, k2)
    &&& word_range(t, k2 + 1, j)
}

/// `t[i..j)` has the strict three-word shape for some separator positions.
pub open spec fn strict_span(t: Seq<char>, i: int, j: int) -> bool {
    exists|k1: int, k2: int| strict_pair(t, i, k1, k2, j)
}

/// Decides [`word_range`].
pub fn word_range_check(cs: &Vec<char>, i: usize, j: usize) -> (b: bool)
    requires
        i <= j <= cs.len(),
    ensures
        b == word_range(cs@, i as int, j as int),
{
    let mut k = i;
    while k < j
        invariant
            i <= k <= j <= cs.len(),
            forall|m: int| i <= m < k ==> is_word_char(#[trigger] cs@[m]),
        decreases j - k,
    {
        if !word_char(cs[k]) {
            assert(!is_word_char(cs@[k as int]));
            return false;
        }
        k += 1;
    }
    true
}

/// Decides [`strict_span`].
pub fn strict_span_check(cs: &Vec<char>, i: usize, j: usize) -> (b: bool)
    requires
        i <= j <= cs.len(),
    ensures
        b == strict_span(cs@, i as int, j as int),
{
    if j - i < 5 {
        assert(forall|k1: int, k2: int| !strict_pair(cs@, i as int, k1, k2, j as int));
        return false;
    }
    let mut k1 = i + 1;
    while k1 < j - 3
        invariant
            i + 1 <= k1 <= j - 3,
            i + 5 <= j <= cs.len(),
            forall|a: int, b: int| a < k1 ==> !strict_pair(cs@, i as int, a, b, j as int),
        decreases j - k1,
    {
        if separator_char(cs[k1]) && word_range_check(cs, i, k1) {
            let mut k2 = k1 + 2;
            while k2 < j - 1
                invariant
                    k1 + 2 <= k2 <= j - 1,
                    i + 1 <= k1 < j - 3,
                    i + 5 <= j <= cs.len(),
                    is_separator(cs@[k1 as int]),
                    word_range(cs@, i as int, k1 as int),
                    forall|b: int| b < k2 ==> !strict_pair(cs@, i as int, k1 as int, b, j as int),
                decreases j - k2,
            {
                if separator_char(cs[k2])
                    && word_range_check(cs, k1 + 1, k2)
                    && word_range_check(cs, k2 + 1, j)
                {
                    assert(strict_pair(cs@, i as int, k1 as int, k2 as int, j as int));
                    return true;
                }
                k2 += 1;
            }
        }
        assert(forall|b: int| !strict_pair(cs@, i as int, k1 as int, b, j as int));
        k1 += 1;
    }
    assert(forall|a: int, b: int| !strict_pair(cs@, i as int, a, b, j as int)) by {
        assert(forall|a: int, b: int| strict_pair(cs@, i as int, a, b, j as int) ==> a < j - 3);
    }
    false
}

/// Every character of `t[i..j)` may stand inside a word group: a word
/// character or a sub-word joiner.
pub open spec fn group_chars(t: Seq<char>, i: int, j: int) -> bool {
    forall|k: int| i <= k < j ==> is_word_char(#[trigger] t[k]) || is_joiner(t[k])
}

/// How many joiners stand in `t[i..j)`.
pub open spec fn joiner_count(t: Seq<char>, i: int, j: int) -> int
    decreases j - i,
{
    if i >= j {
        0
    } else {
        joiner_count(t, i, j - 1) + if is_joiner(t[j - 1]) {
            1int
        } else {
            0int
        }
    }
}

pub proof fn lemma_joiner_count_bounds(t: Seq<char>, i: int, j: int)
    requires
        i <= j,
    ensures
        0 <= joiner_count(t, i, j) <= j - i,
    decreases j - i,
{
    if i < j {
        lemma_joiner_count_bounds(t, i, j - 1);
    }
}

/// `t[i..j)` is one word group: one to four non-empty word runs joined by
/// single joiners (so up to three joiners, none at either edge, no two
/// adjacent).
pub open spec fn word_group(t: Seq<char>, i: int, j: int) -> bool {
    &&& 0 <= i < j <= t.len()
    &&& group_chars(t, i, j)
    &&& !is_joiner(t[i])
    &&& !is_joiner(t[j - 1])
    &&& forall|k: int| i <= k < j - 1 ==> !(is_joiner(#[trigger] t[k]) && is_joiner(t[k + 1]))
    &&& joiner_count(t, i, j) <= 3
}

/// Decides [`word_group`].
pub fn word_group_check(cs: &Vec<char>, i: usize, j: usize) -> (b: bool)
    requires
        i <= j <= cs.len(),
    ensures
        b == word_group(cs@, i as int, j as int),
{
    if i >= j {
        return false;
    }
    let mut count: usize = 0;
    let mut prev_joiner = false;
    let mut k = i;
    while k < j
        invariant
            i <= k <= j <= cs.len(),
            i < j,
            count == joiner_count(cs@, i as int, k as int),
            group_chars(cs@, i as int, k as int),
            k > i ==> !is_joiner(cs@[i as int]),
            k > i ==> prev_joiner == is_joiner(cs@[k - 1]),
            k == i ==> !prev_joiner,
            forall|m: int|
                i <= m < k - 1 ==> !(is_joiner(#[trigger] cs@[m]) && is_joiner(cs@[m + 1])),
        decreases j - k,
    {
        let c = cs[k];
        let jn = joiner_char(c);
        if !word_char(c) && !jn {
            assert(!word_group(cs@, i as int, j as int));
            return false;
        }
        if jn {
            if k == i {
                return false;
            }
            if prev_joiner {
                assert(is_joiner(cs@[k - 1]) && is_joiner(cs@[k as int]));
                return false;
            }
            proof {
                lemma_joiner_count_bounds(cs@, i as int, k as int);
            }
            count += 1;
        }
        prev_joiner = jn;
        k += 1;
    }
    if prev_joiner {
        return false;
    }
    count <= 3
}

/// `t[i..j)` decomposes as three word groups with single separators at
/// positions `k1` and `k2`.
pub open spec fn group_pair(t: Seq<char>, i: int, k1: int, k2: int, j: int) -> bool {
    &&& 0 <= i
    &&& k1 + 1 <= k2
    &&& k2 + 1 <= j <= t.len()
    &&& is_separator(t[k1])
    &&& is_separator(t[k2])
    &&& word_group(t, i, k1)
    &&& word_group(t, k1 + 1, k2)
    &&& word_group(t, k2 + 1, j)
}

/// `t[i..j)` has the three-group shape for some separator positions, each
/// group independently one to four sub-words.
pub open spec fn group_span(t: Seq<char>, i: int, j: int) -> bool {
    exists|k1: int, k2: int| group_pair(t, i, k1, k2, j)
}

/// Decides [`group_span`].
pub fn group_span_check(cs: &Vec<char>, i: usize, j: usize) -> (b: bool)
    requires
        i <= j <= cs.len(),
    ensures
        b == group_span(cs@, i as int, j as int),
{
    if j - i < 5 {
        assert(forall|k1: int, k2: int| !group_pair(cs@, i as int, k1, k2, j as int));
        return false;
    }
    let mut k1 = i + 1;
    while k1 < j - 3
        invariant
            i + 1 <= k1 <= j - 3,
            i + 5 <= j <= cs.len(),
            forall|a: int, b: int| a < k1 ==> !group_pair(cs@, i as int, a, b, j as int),
        decreases j - k1,
    {
        if separator_char(cs[k1]) && word_group_check(cs, i, k1) {
            let mut k2 = k1 + 2;
            while k2 < j - 1
                invariant
                    k1 + 2 <= k2 <= j - 1,
                    i + 1 <= k1 < j - 3,
                    i + 5 <= j <= cs.len(),
                    is_separator(cs@[k1 as int]),
                    word_group(cs@, i as int, k1 as int),
                    forall|b: int| b < k2 ==> !group_pair(cs@, i as int, k1 as int, b, j as int),
                decreases j - k2,
            {
                if separator_char(cs[k2])
                    && word_group_check(cs, k1 + 1, k2)
                    && word_group_check(cs, k2 + 1, j)
                {
                    assert(group_pair(cs@, i as int, k1 as int, k2 as int, j as int));
                    return true;
                }
                k2 += 1;
            }
            assert(forall|b: int| !group_pair(cs@, i as int, k1 as int, b, j as int)) by {
                assert(forall|b: int|
                    group_pair(cs@, i as int, k1 as int, b, j as int) ==> b < j - 1);
            }
        } else {
            assert(forall|b: int| !group_pair(cs@, i as int, k1 as int, b, j as int));
        }
        k1 += 1;
    }
    assert(forall|a: int, b: int| !group_pair(cs@, i as int, a, b, j as int)) by {
        assert(forall|a: int, b: int| group_pair(cs@, i as int, a, b, j as int) ==> a < j - 3);
    }
    false
}

/// A word run has no joiners in it: joiners are white space, which word
/// characters exclude.
proof fn lemma_word_range_joiner_count(t: Seq<char>, a: int, b: int)
    requires
        a <= b,
        word_range(t, a, b),
    ensures
        joiner_count(t, a, b) == 0,
    decreases b - a,
{
    if a < b {
        lemma_word_range_joiner_count(t, a, b - 1);
        assert(is_word_char(t[b - 1]));
    }
}

/// A non-empty word run is a word group of a single sub-word.
proof fn lemma_word_run_is_group(t: Seq<char>, a: int, b: int)
    requires
        0 <= a < b <= t.len(),
        word_range(t, a, b),
    ensures
        word_group(t, a, b),
{
    lemma_word_range_joiner_count(t, a, b);
    assert(is_word_char(t[a]));
    assert(is_word_char(t[b - 1]));
    assert forall|k: int| a <= k < b - 1 implies !(is_joiner(#[trigger] t[k]) && is_joiner(
        t[k + 1],
    )) by {
        assert(is_word_char(t[k]));
    }
}

/// A strict span is a group span: every single-sub-word group is a group.
pub proof fn lemma_strict_span_is_group_span(t: Seq<char>, i: int, j: int)
    requires
        strict_span(t, i, j),
    ensures
        group_span(t, i, j),
{
    let (k1, k2) = choose|k1: int, k2: int| strict_pair(t, i, k1, k2, j);
    assert(strict_pair(t, i, k1, k2, j));
    lemma_word_run_is_group(t, i, k1);
    lemma_word_run_is_group(t, k1 + 1, k2);
    lemma_word_run_is_group(t, k2 + 1, j);
    assert(group_pair(t, i, k1, k2, j));
}

/// `t[m..)` decomposes as a word run, a run of `l2` near-miss separators at
/// `k2`, and a final word run reaching the end of `t`.
pub open spec fn near_tail_at(t: Seq<char>, m: int, k2: int, l2: int) -> bool {
    &&& 0 <= m < k2
    &&& l2 == 1 || l2 == 2
    &&& k2 + l2 < t.len()
    &&& word_range(t, m, k2)
    &&& is_near_sep(t[k2])
    &&& (l2 == 2 ==> is_near_sep(t[k2 + 1]))
    &&& word_range(t, k2 + l2, t.len() as int)
}

/// `t[m..)` is two word runs joined by one run of 1-2 near-miss separators.
pub open spec fn near_tail(t: Seq<char>, m: int) -> bool {
    exists|k2: int, l2: int| near_tail_at(t, m, k2, l2)
}

/// `t[i..)` decomposes as a word run, a run of `l1` near-miss separators at
/// `k1`, and a [`near_tail`] after them.
pub open spec fn near_span_at(t: Seq<char>, i: int, k1: int, l1: int) -> bool {
    &&& 0 <= i < k1
    &&& l1 == 1 || l1 == 2
    &&& k1 + l1 <= t.len()
    &&& word_range(t, i, k1)
    &&& is_near_sep(t[k1])
    &&& (l1 == 2 ==> is_near_sep(t[k1 + 1]))
    &&& near_tail(t, k1 + l1)
}

/// `t[i..)` is three word runs joined by two runs of 1-2 near-miss
/// separators each.
pub open spec fn near_span(t: Seq<char>, i: int) -> bool {
    exists|k1: int, l1: int| near_span_at(t, i, k1, l1)
}

/// Decides [`near_tail`].
pub fn near_tail_check(cs: &Vec<char>, m: usize) -> (b: bool)
    requires
        m <= cs.len(),
    ensures
        b == near_tail(cs@, m as int),
{
    let n = cs.len();
    if n < 1 || m >= n - 1 {
        assert(forall|a: int, l: int| !near_tail_at(cs@, m as int, a, l));
        return false;
    }
    let mut k2 = m + 1;
    while k2 < n - 1
        invariant
            m + 1 <= k2 <= n - 1,
            n == cs.len(),
            forall|a: int, l: int| a < k2 ==> !near_tail_at(cs@, m as int, a, l),
        decreases n - k2,
    {
        if near_sep_char(cs[k2]) && word_range_check(cs, m, k2) {
            if word_range_check(cs, k2 + 1, n) {
                assert(near_tail_at(cs@, m as int, k2 as int, 1));
                return true;
            }
            if k2 + 2 < n && near_sep_char(cs[k2 + 1]) && word_range_check(cs, k2 + 2, n) {
                assert(near_tail_at(cs@, m as int, k2 as int, 2));
                return true;
            }
        }
        assert(forall|l: int| !near_tail_at(cs@, m as int, k2 as int, l));
        k2 += 1;
    }
    assert(forall|a: int, l: int| !near_tail_at(cs@, m as int, a, l)) by {
        assert(forall|a: int, l: int| near_tail_at(cs@, m as int, a, l) ==> a < n - 1);
    }
    false
}

/// Decides [`near_span`].
pub fn near_span_check(cs: &Vec<char>, i: usize) -> (b: bool)
    requires
        i <= cs.len(),
    ensures
        b == near_span(cs@, i as int),
{
    let n = cs.len();
    if i >= n {
        assert(forall|a: int, l: int| !near_span_at(cs@, i as int, a, l));
        return false;
    }
    let mut k1 = i + 1;
    while k1 < n
        invariant
            i + 1 <= k1 <= n,
            n == cs.len(),
            forall|a: int, l: int| a < k1 ==> !near_span_at(cs@, i as int, a, l),
        decreases n - k1,
    {
        if near_sep_char(cs[k1]) && word_range_check(cs, i, k1) {
            if near_tail_check(cs, k1 + 1) {
                assert(near_span_at(cs@, i as int, k1 as int, 1));
                return true;
            }
            if k1 + 1 < n && near_sep_char(cs[k1 + 1]) && near_tail_check(cs, k1 + 2) {
                assert(near_span_at(cs@, i as int, k1 as int, 2));
                return true;
            }
        }
        assert(forall|l: int| !near_span_at(cs@, i as int, k1 as int, l)) by {
            assert(forall|l: int|
                near_span_at(cs@, i as int, k1 as int, l) && l == 2 ==> near_tail(
                    cs@,
                    k1 + 2,
                ));
        }
        k1 += 1;
    }
    assert(forall|a: int, l: int| !near_span_at(cs@, i as int, a, l)) by {
        assert(forall|a: int, l: int| near_span_at(cs@, i as int, a, l) ==> a < n);
    }
    false
}

} // verus!
