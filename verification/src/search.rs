//! Fuzzy matching for the search box.

use vstd::prelude::*;
use vstd::utf8::encode_utf8;

use crate::text::{
    chars_of, contains_chars, contains_seq, find_char, find_from, is_ascii_lower, is_ascii_upper,
    lemma_find_from_bounds, occurs_at, trim, trim_chars, utf8_len, utf8_len_at_most,
};

verus! {

/// The character before position `i`, if there is one.
pub open spec fn prev_char(hay: Seq<char>, i: int) -> Option<char> {
    if i <= 0 {
        None
    } else {
        Some(hay[i - 1])
    }
}

/// A match at `current` starts a word: it opens the text, follows a
/// separator, or is a capital after a lower-case letter.
pub open spec fn word_boundary(prev: Option<char>, current: char) -> bool {
    match prev {
        None => true,
        Some(p) => (p == ' ' || p == '_' || p == '-' || p == ':' || p == '/' || p == '('
            || p == '[') || (is_ascii_lower(p) && is_ascii_upper(current)),
    }
}

/// What one matched character adds to the score: ten, then fifteen if it
/// follows the previous match directly or minus two for each skipped
/// character, then twenty at a word boundary.
pub open spec fn step_score(hay: Seq<char>, last: int, i: int) -> int {
    10int + (if last < 0 {
        0int
    } else if i == last + 1 {
        15int
    } else {
        -2 * (i - (last + 1))
    }) + (if word_boundary(prev_char(hay, i), hay[i]) {
        20int
    } else {
        0int
    })
}

/// Matches the first `k` characters of `needle`, each at the first place
/// after the previous match. The result is the position of the last match
/// (-1 before any) and the score so far, or `None` when a character is not
/// found.
pub open spec fn greedy_scan(hay: Seq<char>, needle: Seq<char>, k: nat) -> Option<(int, int)>
    decreases k,
{
    if k == 0 {
        Some((-1, 0))
    } else {
        match greedy_scan(hay, needle, (k - 1) as nat) {
            None => None,
            Some((last, score)) => match find_from(hay, needle[k - 1], last + 1) {
                None => None,
                Some(i) => Some((i, score + step_score(hay, last, i))),
            },
        }
    }
}

/// The score of `needle` against `hay`: `None` when the trimmed needle is
/// empty or not a subsequence of `hay`; a million less the difference of
/// the byte lengths when it occurs as a whole; else the greedy score less
/// the position of the last match.
pub open spec fn fuzzy(hay: Seq<char>, needle: Seq<char>) -> Option<int> {
    let n = trim(needle);
    if n.len() == 0 {
        None
    } else if contains_seq(hay, n) {
        Some(1_000_000 - (encode_utf8(hay).len() - encode_utf8(n).len()))
    } else {
        match greedy_scan(hay, n, n.len()) {
            None => None,
            Some((last, score)) => Some(score - last),
        }
    }
}

/// Texts short enough for every score to fit in an `i64` and every byte
/// length in a `usize`.
pub open spec fn scorable(s: Seq<char>) -> bool {
    &&& s.len() <= 0x1_0000_0000_0000
    &&& encode_utf8(s).len() <= 0x1_0000_0000_0000
    &&& encode_utf8(s).len() <= usize::MAX
}

/// Whether a text is short enough to be scored.
pub fn is_scorable(s: &str) -> (b: bool)
    ensures
        b == scorable(s@),
{
    let chars = chars_of(s);
    if chars.len() as u64 > 0x1_0000_0000_0000u64 {
        return false;
    }
    let limit: u64 = if (usize::MAX as u64) < 0x1_0000_0000_0000u64 {
        usize::MAX as u64
    } else {
        0x1_0000_0000_0000u64
    };
    utf8_len_at_most(&chars, limit)
}

proof fn lemma_greedy_scan_bounds(hay: Seq<char>, needle: Seq<char>, k: nat)
    requires
        k <= needle.len(),
    ensures
        greedy_scan(hay, needle, k) matches Some((last, score)) ==> {
            &&& k - 1 <= last < hay.len()
            &&& -2 * (last + 1) <= score <= 45 * k
        },
    decreases k,
{
    if k > 0 {
        lemma_greedy_scan_bounds(hay, needle, (k - 1) as nat);
        if let Some((last, score)) = greedy_scan(hay, needle, (k - 1) as nat) {
            lemma_find_from_bounds(hay, needle[k - 1], last + 1);
        }
    }
}

proof fn lemma_greedy_scan_stays_none(hay: Seq<char>, needle: Seq<char>, k: nat, m: nat)
    requires
        k <= m,
        greedy_scan(hay, needle, k) is None,
    ensures
        greedy_scan(hay, needle, m) is None,
    decreases m - k,
{
    if k < m {
        lemma_greedy_scan_stays_none(hay, needle, k, (m - 1) as nat);
    }
}

/// A needle that is blank once trimmed matches nothing.
pub proof fn law_blank_needle_matches_nothing(hay: Seq<char>, needle: Seq<char>)
    requires
        trim(needle).len() == 0,
    ensures
        fuzzy(hay, needle) is None,
{
}

/// A needle that occurs as a whole always matches, scoring a million less
/// the bytes of the haystack it does not cover.
pub proof fn law_whole_occurrence_matches(hay: Seq<char>, needle: Seq<char>)
    requires
        trim(needle).len() > 0,
        contains_seq(hay, trim(needle)),
    ensures
        fuzzy(hay, needle) == Some(
            1_000_000 - (encode_utf8(hay).len() - encode_utf8(trim(needle)).len()),
        ),
{
}

/// A needle whose characters do not all appear in order in the haystack
/// does not match.
pub proof fn law_missing_character_no_match(hay: Seq<char>, needle: Seq<char>, k: nat)
    requires
        trim(needle).len() > 0,
        k < trim(needle).len(),
        greedy_scan(hay, trim(needle), k) matches Some((last, _)) && find_from(
            hay,
            trim(needle)[k as int],
            last + 1,
        ) is None,
    ensures
        fuzzy(hay, needle) is None,
{
    let n = trim(needle);
    if !contains_seq(hay, n) {
        lemma_greedy_scan_stays_none(hay, n, k + 1, n.len());
    } else {
        let i = choose|i: int| occurs_at(hay, n, i);
        lemma_occurrence_scans(hay, n, i, k);
    }
}

/// A needle matched only scattered, not as a whole, scores at most 45 for
/// each of its characters: ten per match, fifteen when it follows the last
/// match, twenty at a word boundary, and nothing gained from the last
/// match's position.
pub proof fn law_scattered_score_bound(hay: Seq<char>, needle: Seq<char>)
    requires
        !contains_seq(hay, trim(needle)),
        fuzzy(hay, needle) is Some,
    ensures
        fuzzy(hay, needle)->0 <= 45 * trim(needle).len(),
{
    let n = trim(needle);
    lemma_greedy_scan_bounds(hay, n, n.len());
}

/// Over haystacks of at most 500,000 bytes and trimmed needles of at most
/// 10,000 characters, a haystack that holds the needle as a whole always
/// scores above one that matches it only scattered.
pub proof fn law_whole_beats_scattered(h1: Seq<char>, h2: Seq<char>, needle: Seq<char>)
    requires
        encode_utf8(h1).len() <= 500_000,
        trim(needle).len() <= 10_000,
        contains_seq(h1, trim(needle)),
        !contains_seq(h2, trim(needle)),
        fuzzy(h2, needle) is Some,
    ensures
        fuzzy(h1, needle) is Some,
        fuzzy(h1, needle)->0 > fuzzy(h2, needle)->0,
{
    law_scattered_score_bound(h2, needle);
    assert(45 * trim(needle).len() <= 450_000) by (nonlinear_arith)
        requires
            trim(needle).len() <= 10_000,
    ;
}

/// `find_from` gives the first place at or after `from` that holds `c`.
proof fn lemma_find_from_first(s: Seq<char>, c: char, from: int, i: int)
    requires
        0 <= from <= i < s.len(),
        s[i] == c,
        forall|k: int| from <= k < i ==> s[k] != c,
    ensures
        find_from(s, c, from) == Some(i),
    decreases i - from,
{
    if from < i {
        lemma_find_from_first(s, c, from + 1, i);
    }
}

/// The points a match at `i` earns for starting a word.
pub open spec fn boundary_bonus(hay: Seq<char>, i: int) -> int {
    if word_boundary(prev_char(hay, i), hay[i]) {
        20
    } else {
        0
    }
}

/// A two-character needle that does not occur as a whole, with its first
/// character first found at `i` and its second first found after that at
/// `j`, scores ten for each match, twenty for each that starts a word, less
/// two for every character skipped between them, less the position `j` of
/// the last match: however far apart the two matches are.
pub proof fn law_two_character_score(hay: Seq<char>, needle: Seq<char>, i: int, j: int)
    requires
        trim(needle).len() == 2,
        !contains_seq(hay, trim(needle)),
        0 <= i < j < hay.len(),
        hay[i] == trim(needle)[0],
        forall|k: int| 0 <= k < i ==> hay[k] != trim(needle)[0],
        hay[j] == trim(needle)[1],
        forall|k: int| i < k < j ==> hay[k] != trim(needle)[1],
    ensures
        j > i + 1,
        fuzzy(hay, needle) == Some(
            10 + boundary_bonus(hay, i) + 10 - 2 * (j - i - 1) + boundary_bonus(hay, j) - j,
        ),
{
    let n = trim(needle);
    if j == i + 1 {
        assert(hay.subrange(i, i + 2) =~= n);
        assert(occurs_at(hay, n, i));
    }
    lemma_find_from_first(hay, n[0], 0, i);
    lemma_find_from_first(hay, n[1], i + 1, j);
    assert(greedy_scan(hay, n, 0) == Some((-1int, 0int)));
    assert(greedy_scan(hay, n, 1) == Some((i, step_score(hay, -1, i))));
    assert(greedy_scan(hay, n, 2) == Some((j, step_score(hay, -1, i) + step_score(hay, i, j))));
}

/// A whole occurrence at `i` lets the greedy scan reach at least `k`
/// characters, each match no later than its place in the occurrence.
proof fn lemma_occurrence_scans(hay: Seq<char>, n: Seq<char>, i: int, k: nat)
    requires
        occurs_at(hay, n, i),
        k < n.len(),
    ensures
        greedy_scan(hay, n, k) matches Some((last, _)) && last < i + k && find_from(
            hay,
            n[k as int],
            last + 1,
        ) is Some,
    decreases k,
{
    if k > 0 {
        lemma_occurrence_scans(hay, n, i, (k - 1) as nat);
        let (last, _) = greedy_scan(hay, n, (k - 1) as nat)->0;
        lemma_find_from_bounds(hay, n[k - 1], last + 1);
    }
    let (last, _) = greedy_scan(hay, n, k)->0;
    assert(hay.subrange(i, i + n.len())[k as int] == n[k as int]);
    assert(hay[i + k] == n[k as int]);
    lemma_find_from_bounds(hay, n[k as int], last + 1);
}

/// Whether a match at `current`, after `prev`, starts a word.
pub fn is_word_boundary(prev: Option<char>, current: char) -> (b: bool)
    ensures
        b == word_boundary(prev, current),
{
    match prev {
        None => true,
        Some(p) => (p == ' ' || p == '_' || p == '-' || p == ':' || p == '/' || p == '(' || p
            == '[') || (('a' <= p && p <= 'z') && ('A' <= current && current <= 'Z')),
    }
}

/// Scores `needle` against `haystack`; a higher score is a better match, and
/// `None` means no match. Case matters: callers fold both sides first.
pub fn fuzzy_score(haystack: &str, needle: &str) -> (r: Option<i64>)
    requires
        scorable(haystack@),
        scorable(needle@),
    ensures
        fuzzy(haystack@, needle@) == (match r {
            Some(v) => Some(v as int),
            None => None::<int>,
        }),
{
    let hay = chars_of(haystack);
    let raw = chars_of(needle);
    let pat = trim_chars(&raw);
    if pat.len() == 0 {
        return None;
    }
    if contains_chars(&hay, &pat) {
        let h = haystack.len() as i64;
        let n = utf8_len(&pat) as i64;
        return Some(1_000_000 - (h - n));
    }
    let mut score: i64 = 0;
    let mut last: Option<usize> = None;
    let mut pos: usize = 0;
    let mut k: usize = 0;
    while k < pat.len()
        invariant
            k <= pat@.len(),
            hay@ == haystack@,
            pat@ == trim(needle@),
            pat@.len() > 0,
            !contains_seq(hay@, pat@),
            pat@.len() <= 0x1_0000_0000_0000,
            hay@.len() <= 0x1_0000_0000_0000,
            greedy_scan(hay@, pat@, k as nat) == Some(
                (
                    match last {
                        Some(l) => l as int,
                        None => -1,
                    },
                    score as int,
                ),
            ),
            pos as int == (match last {
                Some(l) => l as int,
                None => -1,
            }) + 1,
            last is None <==> k == 0,
        decreases pat@.len() - k,
    {
        proof {
            lemma_greedy_scan_bounds(hay@, pat@, k as nat);
        }
        let c = pat[k];
        let j = match find_char(&hay, c, pos) {
            Some(j) => j,
            None => {
                proof {
                    lemma_greedy_scan_stays_none(hay@, pat@, (k + 1) as nat, pat@.len());
                }
                return None;
            },
        };
        let ghost old_score = score;
        score = score + 10;
        match last {
            Some(l) => {
                if j == l + 1 {
                    score = score + 15;
                } else {
                    score = score - ((j - (l + 1)) as i64) * 2;
                }
            },
            None => {},
        }
        let prev = if j == 0 {
            None
        } else {
            Some(hay[j - 1])
        };
        if is_word_boundary(prev, hay[j]) {
            score = score + 20;
        }
        assert(score == old_score + step_score(
            hay@,
            match last {
                Some(l) => l as int,
                None => -1,
            },
            j as int,
        ));
        last = Some(j);
        pos = j + 1;
        k = k + 1;
    }
    proof {
        lemma_greedy_scan_bounds(hay@, pat@, k as nat);
    }
    match last {
        Some(l) => {
            score = score - l as i64;
        },
        None => {},
    }
    Some(score)
}

} // verus!
