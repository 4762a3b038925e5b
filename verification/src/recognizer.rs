//! The public text-recognition engine.
//!
//! * [`is_possible_3wa`] — does the whole string, after any run of leading
//!   slashes, have the three-word shape, each group one to four sub-words?
//! * [`did_you_mean`] — is the whole string, after at most one leading
//!   slash, a near miss written with wrong separators?
//! * [`find_possible_3wa`] — every non-overlapping strict-shaped substring
//!   of a free-form text, leftmost first and each as long as possible.
//!
//! All three are total: they never fail, whatever the input holds.

use vstd::prelude::*;
use vstd::string::StrSliceExecFns;

use crate::alphabet::is_joiner;
use crate::alphabet::is_word_char;
use crate::shape::group_pair;
use crate::shape::group_span;
use crate::shape::group_span_check;
use crate::shape::lemma_strict_span_is_group_span;
use crate::shape::near_span;
use crate::shape::near_span_check;
use crate::shape::strict_pair;
use crate::shape::strict_span;
use crate::shape::strict_span_check;

verus! {

/// The string has the shape of a three-word address: ignoring any run of
/// leading slashes (addresses are conventionally displayed with a `///`
/// prefix), the whole remainder is three word groups joined by two
/// separators, each group independently one to four space-joined
/// sub-words.
pub open spec fn possible_spec(t: Seq<char>) -> bool {
    exists|p: int|
        0 <= p <= t.len() && (forall|k: int| 0 <= k < p ==> t[k] == '/') && group_span(
            t,
            p,
            t.len() as int,
        )
}

/// The string is a near miss: ignoring at most one leading slash, the whole
/// remainder is three word runs joined by runs of one or two near-miss
/// separator characters.
pub open spec fn near_miss_spec(t: Seq<char>) -> bool {
    near_span(t, 0) || (t.len() > 0 && t[0] == '/' && near_span(t, 1))
}

/// The characters of `s` as a vector.
fn chars_vec(s: &str) -> (cs: Vec<char>)
    ensures
        cs@ == s@,
{
    let n = s.unicode_len();
    let mut cs: Vec<char> = Vec::new();
    let mut i: usize = 0;
    while i < n
        invariant
            i <= n,
            n as int == s@.len(),
            cs@.len() == i as int,
            forall|m: int| 0 <= m < i ==> cs@[m] == s@[m],
        decreases n - i,
    {
        let c = s.get_char(i);
        cs.push(c);
        i += 1;
    }
    proof {
        assert(cs@ =~= s@);
    }
    cs
}

/// A group span begins with a word character.
proof fn lemma_span_first_char(t: Seq<char>, i: int, j: int)
    requires
        group_span(t, i, j),
    ensures
        0 <= i < j <= t.len(),
        is_word_char(t[i]),
{
    let (k1, k2) = choose|k1: int, k2: int| group_pair(t, i, k1, k2, j);
    assert(group_pair(t, i, k1, k2, j));
    assert(is_word_char(t[i]) || is_joiner(t[i]));
    assert(!is_joiner(t[i]));
}

/// Decides whether a string looks like a three-word address.
///
/// Returns true exactly when [`possible_spec`] holds of the input: after
/// any run of leading slashes, the remainder is three word groups joined by
/// two separators. Returns false for everything else, the empty string
/// included; it never fails.
pub fn is_possible_3wa(input: &str) -> (b: bool)
    ensures
        b == possible_spec(input@),
{
    let cs = chars_vec(input);
    let n = cs.len();
    let mut p: usize = 0;
    while p < n && cs[p] == '/'
        invariant
            p <= n,
            n == cs@.len(),
            cs@ == input@,
            forall|k: int| 0 <= k < p ==> cs@[k] == '/',
        decreases n - p,
    {
        p += 1;
    }
    let found = group_span_check(&cs, p, n);
    proof {
        let t = cs@;
        let len = t.len() as int;
        if found {
            assert(possible_spec(t));
        } else if possible_spec(t) {
            let p2 = choose|p2: int|
                0 <= p2 <= t.len() && (forall|k: int| 0 <= k < p2 ==> t[k] == '/') && group_span(
                    t,
                    p2,
                    t.len() as int,
                );
            lemma_span_first_char(t, p2, len);
            if p2 < p {
                assert(t[p2] == '/');
                assert(false);
            } else if p2 > p {
                assert(t[p as int] == '/');
                assert(false);
            } else {
                assert(false);
            }
        }
    }
    found
}

/// Decides whether a string is a near miss for a three-word address,
/// written with wrong separators such as spaces or hyphens.
///
/// Returns true exactly when [`near_miss_spec`] holds of the input; a
/// string without any separator-like character at all is plain text and
/// yields false. It never fails.
pub fn did_you_mean(input: &str) -> (b: bool)
    ensures
        b == near_miss_spec(input@),
{
    let cs = chars_vec(input);
    if near_span_check(&cs, 0) {
        return true;
    }
    if cs.len() > 0 && cs[0] == '/' && near_span_check(&cs, 1) {
        return true;
    }
    false
}

/// The strict span predicate as the scanner sees it. Kept opaque so that
/// proofs about the scan treat a span as a unit instead of unfolding its
/// decomposition; [`reveal`] connects it back where the decomposition is
/// needed.
#[verifier::opaque]
pub open spec fn scan_span(t: Seq<char>, i: int, j: int) -> bool {
    strict_span(t, i, j)
}

/// Some strict span starts at `i`.
pub open spec fn match_at(t: Seq<char>, i: int) -> bool {
    exists|j: int| i < j <= t.len() && scan_span(t, i, j)
}

/// The end of the longest strict span starting at `i`.
pub open spec fn match_end(t: Seq<char>, i: int) -> int {
    choose|j: int|
        i < j <= t.len() && scan_span(t, i, j) && (forall|j2: int|
            j < j2 <= t.len() ==> !scan_span(t, i, j2))
}

/// Every strict-shaped substring of `t` from position `i` on: scan left to
/// right, commit to the longest span at the leftmost position where one
/// starts, and continue from its end.
pub open spec fn matches_from(t: Seq<char>, i: int) -> Seq<Seq<char>>
    decreases t.len() - i,
{
    if i < 0 || i >= t.len() {
        Seq::empty()
    } else {
        let j = match_end(t, i);
        if match_at(t, i) && i < j <= t.len() {
            seq![t.subrange(i, j)] + matches_from(t, j)
        } else {
            matches_from(t, i + 1)
        }
    }
}

/// What [`find_possible_3wa`] returns, as a sequence of character
/// sequences.
pub open spec fn find_spec(t: Seq<char>) -> Seq<Seq<char>> {
    matches_from(t, 0)
}

/// Among the strict spans starting at `i`, a longest one exists.
#[verifier::rlimit(50)]
proof fn lemma_max_span_end(t: Seq<char>, i: int, j: int)
    requires
        i < j <= t.len(),
        scan_span(t, i, j),
    ensures
        exists|jm: int|
            i < jm <= t.len() && scan_span(t, i, jm) && (forall|j2: int|
                jm < j2 <= t.len() ==> !scan_span(t, i, j2)),
    decreases t.len() - j,
{
    if exists|j2: int| j < j2 <= t.len() && scan_span(t, i, j2) {
        let j2 = choose|j2: int| j < j2 <= t.len() && scan_span(t, i, j2);
        lemma_max_span_end(t, i, j2);
    } else {
        assert(i < j <= t.len() && scan_span(t, i, j) && (forall|j2: int|
            j < j2 <= t.len() ==> !scan_span(t, i, j2)));
    }
}

/// When a longest strict span `[i, j)` is known, `matches_from` at `i`
/// yields it and continues from `j`.
#[verifier::rlimit(50)]
proof fn lemma_matches_from_step(t: Seq<char>, i: int, j: int)
    requires
        0 <= i < j <= t.len(),
        scan_span(t, i, j),
        forall|j2: int| j < j2 <= t.len() ==> !scan_span(t, i, j2),
    ensures
        matches_from(t, i) == seq![t.subrange(i, j)] + matches_from(t, j),
{
    assert(match_at(t, i));
    assert(i < j <= t.len() && scan_span(t, i, j) && (forall|j2: int|
        j < j2 <= t.len() ==> !scan_span(t, i, j2)));
    let je = match_end(t, i);
    assert(i < je <= t.len() && scan_span(t, i, je) && (forall|j2: int|
        je < j2 <= t.len() ==> !scan_span(t, i, j2)));
    if je < j {
        assert(!scan_span(t, i, j));
        assert(false);
    }
    if je > j {
        assert(!scan_span(t, i, je));
        assert(false);
    }
}

/// When no strict span starts at `i`, `matches_from` moves one character on.
proof fn lemma_matches_from_skip(t: Seq<char>, i: int)
    requires
        0 <= i < t.len(),
        forall|j2: int| i < j2 <= t.len() ==> !scan_span(t, i, j2),
    ensures
        matches_from(t, i) == matches_from(t, i + 1),
{
    assert(!match_at(t, i));
}

/// The end of the longest strict span starting at `i`, or `None` when no
/// strict span starts there.
fn longest_end(cs: &Vec<char>, i: usize) -> (r: Option<usize>)
    requires
        i <= cs.len(),
    ensures
        match r {
            Some(j) => i < j <= cs.len() && scan_span(cs@, i as int, j as int) && (forall|
                j2: int,
            |
                j < j2 <= cs@.len() ==> !scan_span(cs@, i as int, j2)),
            None => forall|j2: int| i < j2 <= cs@.len() ==> !scan_span(cs@, i as int, j2),
        },
{
    let n = cs.len();
    let mut j = n;
    while j > i
        invariant
            i <= j <= n,
            n == cs@.len(),
            forall|j2: int| j < j2 <= cs@.len() ==> !scan_span(cs@, i as int, j2),
        decreases j,
    {
        let hit = strict_span_check(cs, i, j);
        proof {
            reveal(scan_span);
        }
        if hit {
            return Some(j);
        }
        j -= 1;
    }
    None
}

/// Extracts every three-word-address-shaped substring of a free-form text.
///
/// The result lists, in first-occurrence order and with duplicates kept,
/// every non-overlapping substring in the strict shape: three word runs
/// joined by two single separators. Matching is greedy — at the leftmost
/// position where a span starts, the longest span is taken, and scanning
/// continues from its end. Neither the leading-slash tolerance nor the
/// multi-sub-word groups of [`is_possible_3wa`] apply here. A text
/// without any such substring yields the empty vector; the function never
/// fails.
pub fn find_possible_3wa(input: &str) -> (r: Vec<String>)
    ensures
        r.deep_view() == find_spec(input@),
{
    let cs = chars_vec(input);
    let n = cs.len();
    let mut out: Vec<String> = Vec::new();
    let mut i: usize = 0;
    proof {
        assert(out.deep_view() + matches_from(cs@, 0) =~~= find_spec(cs@));
    }
    while i < n
        invariant
            i <= n,
            n == cs@.len(),
            cs@ == input@,
            out.deep_view() + matches_from(cs@, i as int) =~~= find_spec(cs@),
        decreases n - i,
    {
        let ghost old_dv = out.deep_view();
        match longest_end(&cs, i) {
            Some(j) => {
                let piece = input.substring_char(i, j);
                let owned = piece.to_owned();
                let ghost pv = owned@;
                out.push(owned);
                proof {
                    assert(out.deep_view() =~~= old_dv.push(pv));
                    lemma_matches_from_step(cs@, i as int, j as int);
                    assert(out.deep_view() + matches_from(cs@, j as int) =~~= find_spec(cs@));
                }
                i = j;
            },
            None => {
                proof {
                    lemma_matches_from_skip(cs@, i as int);
                }
                i += 1;
            },
        }
    }
    proof {
        assert(matches_from(cs@, n as int) =~~= Seq::empty());
        assert(out.deep_view() =~~= find_spec(cs@));
    }
    out
}

/// A strict span of `t` is a strict span of the extracted substring.
proof fn lemma_strict_span_shift(t: Seq<char>, a: int, b: int)
    requires
        0 <= a < b <= t.len(),
        scan_span(t, a, b),
    ensures
        strict_span(t.subrange(a, b), 0, b - a),
{
    reveal(scan_span);
    let (k1, k2) = choose|k1: int, k2: int| strict_pair(t, a, k1, k2, b);
    assert(strict_pair(t, a, k1, k2, b));
    let u = t.subrange(a, b);
    assert forall|k: int| 0 <= k < k1 - a implies is_word_char(#[trigger] u[k]) by {
        assert(u[k] == t[a + k]);
        assert(is_word_char(t[a + k]));
    }
    assert forall|k: int| k1 - a + 1 <= k < k2 - a implies is_word_char(#[trigger] u[k]) by {
        assert(u[k] == t[a + k]);
        assert(is_word_char(t[a + k]));
    }
    assert forall|k: int| k2 - a + 1 <= k < b - a implies is_word_char(#[trigger] u[k]) by {
        assert(u[k] == t[a + k]);
        assert(is_word_char(t[a + k]));
    }
    assert(strict_pair(u, 0, k1 - a, k2 - a, b - a));
}

/// Every element of `matches_from(t, i)` is an extracted strict span.
proof fn lemma_matches_from_elements(t: Seq<char>, i: int, m: int)
    requires
        0 <= i,
        0 <= m < matches_from(t, i).len(),
    ensures
        exists|a: int, b: int|
            0 <= a < b <= t.len() && scan_span(t, a, b) && matches_from(t, i)[m] == t.subrange(
                a,
                b,
            ),
    decreases t.len() - i,
{
    if i >= t.len() {
        assert(false);
    } else {
        let j = match_end(t, i);
        if match_at(t, i) && i < j <= t.len() {
            let j0 = choose|j0: int| i < j0 <= t.len() && scan_span(t, i, j0);
            lemma_max_span_end(t, i, j0);
            assert(i < j <= t.len() && scan_span(t, i, j) && (forall|j2: int|
                j < j2 <= t.len() ==> !scan_span(t, i, j2)));
            if m == 0 {
                assert(matches_from(t, i)[0] == t.subrange(i, j));
                assert(0 <= i < j <= t.len() && scan_span(t, i, j) && matches_from(t, i)[0]
                    == t.subrange(i, j));
            } else {
                lemma_matches_from_elements(t, j, m - 1);
                let (a, b) = choose|a: int, b: int|
                    0 <= a < b <= t.len() && scan_span(t, a, b) && matches_from(t, j)[m - 1]
                        == t.subrange(a, b);
                assert(matches_from(t, i)[m] == matches_from(t, j)[m - 1]);
                assert(0 <= a < b <= t.len() && scan_span(t, a, b) && matches_from(t, i)[m]
                    == t.subrange(a, b));
            }
        } else {
            lemma_matches_from_elements(t, i + 1, m);
        }
    }
}

/// Every substring that [`find_possible_3wa`] extracts is itself a
/// possible three-word address: evaluated in isolation it satisfies
/// [`possible_spec`], through the strict shape with no leading slashes.
pub proof fn lemma_found_addresses_shape_valid(t: Seq<char>, m: int)
    requires
        0 <= m < find_spec(t).len(),
    ensures
        possible_spec(find_spec(t)[m]),
{
    lemma_matches_from_elements(t, 0, m);
    let (a, b) = choose|a: int, b: int|
        0 <= a < b <= t.len() && scan_span(t, a, b) && find_spec(t)[m] == t.subrange(a, b);
    lemma_strict_span_shift(t, a, b);
    let u = t.subrange(a, b);
    assert(strict_span(u, 0, u.len() as int));
    lemma_strict_span_is_group_span(u, 0, u.len() as int);
    assert(forall|k: int| 0 <= k < 0 ==> u[k] == '/');
    assert(possible_spec(u));
}

} // verus!
