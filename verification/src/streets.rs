//! The street pattern inside Dutch NA addresses: a word, a space, a house
//! number with an optional letter suffix, and a comma — like
//! `Hoofdstraat 12a,`. The leftmost such span, greedy at every step, is what
//! the geocoder query is built from.

use vstd::prelude::*;
use crate::text;

verus! {

/// An ASCII letter.
pub open spec fn is_letter(c: char) -> bool {
    ('a' <= c && c <= 'z') || ('A' <= c && c <= 'Z')
}

/// The end of the letter run starting at `i`: the first index at or after
/// `i` that is past the end or holds a non-letter.
pub open spec fn letter_end(s: Seq<char>, i: int) -> int
    decreases s.len() - i,
    when 0 <= i <= s.len()
{
    if i < s.len() && is_letter(s[i]) {
        letter_end(s, i + 1)
    } else {
        i
    }
}

/// The end of the digit run starting at `i`.
pub open spec fn digit_end(s: Seq<char>, i: int) -> int
    decreases s.len() - i,
    when 0 <= i <= s.len()
{
    if i < s.len() && text::is_digit(s[i]) {
        digit_end(s, i + 1)
    } else {
        i
    }
}

/// The street pattern matches at `i`: one or more letters, one space, one or
/// more digits, zero or more letters, then a comma, each run taken as long
/// as possible.
pub open spec fn street_match_at(s: Seq<char>, i: int) -> bool {
    0 <= i < s.len() && is_letter(s[i]) && {
        let a = letter_end(s, i);
        a < s.len() && s[a] == ' ' && {
            let b = digit_end(s, a + 1);
            b > a + 1 && {
                let c = letter_end(s, b);
                c < s.len() && s[c] == ','
            }
        }
    }
}

/// One past the comma of the match at `i`.
pub open spec fn street_match_end(s: Seq<char>, i: int) -> int
    recommends
        street_match_at(s, i),
{
    letter_end(s, digit_end(s, letter_end(s, i) + 1)) + 1
}

/// `i` is the leftmost offset where the street pattern matches.
pub open spec fn leftmost_street_match(s: Seq<char>, i: int) -> bool {
    street_match_at(s, i) && forall|k: int| 0 <= k < i ==> !street_match_at(s, k)
}

/// The leftmost match offset is unique.
pub proof fn lemma_leftmost_street_match_unique(s: Seq<char>, i: int, j: int)
    requires
        leftmost_street_match(s, i),
        leftmost_street_match(s, j),
    ensures
        i == j,
{
}

/// The end of the letter run starting at `i`, executably.
fn letter_end_exec(v: &Vec<char>, i: usize) -> (r: usize)
    requires
        i <= v@.len(),
    ensures
        r as int == letter_end(v@, i as int),
        i <= r <= v@.len(),
{
    let n = v.len();
    let mut j = i;
    while j < n && (('a' <= v[j] && v[j] <= 'z') || ('A' <= v[j] && v[j] <= 'Z'))
        invariant
            i <= j <= n,
            n == v@.len(),
            letter_end(v@, i as int) == letter_end(v@, j as int),
        decreases n - j,
    {
        j += 1;
    }
    j
}

/// The end of the digit run starting at `i`, executably.
fn digit_end_exec(v: &Vec<char>, i: usize) -> (r: usize)
    requires
        i <= v@.len(),
    ensures
        r as int == digit_end(v@, i as int),
        i <= r <= v@.len(),
{
    let n = v.len();
    let mut j = i;
    while j < n && '0' <= v[j] && v[j] <= '9'
        invariant
            i <= j <= n,
            n == v@.len(),
            digit_end(v@, i as int) == digit_end(v@, j as int),
        decreases n - j,
    {
        j += 1;
    }
    j
}

/// Whether the street pattern matches at `i`; on a match, one past its
/// final comma.
fn try_street_match_at(v: &Vec<char>, i: usize) -> (r: Option<usize>)
    requires
        i < v@.len(),
    ensures
        match r {
            Some(j) => street_match_at(v@, i as int) && j as int == street_match_end(
                v@,
                i as int,
            ) && i < j <= v@.len(),
            None => !street_match_at(v@, i as int),
        },
{
    let n = v.len();
    let c0 = v[i];
    if !(('a' <= c0 && c0 <= 'z') || ('A' <= c0 && c0 <= 'Z')) {
        return None;
    }
    let a = letter_end_exec(v, i);
    if a >= n || v[a] != ' ' {
        return None;
    }
    let b = digit_end_exec(v, a + 1);
    if b == a + 1 {
        return None;
    }
    let c = letter_end_exec(v, b);
    if c >= n || v[c] != ',' {
        return None;
    }
    Some(c + 1)
}

/// Finds the leftmost street-pattern match, as its start and one past its
/// comma.
pub fn find_street_match(v: &Vec<char>) -> (r: Option<(usize, usize)>)
    ensures
        match r {
            Some(span) => leftmost_street_match(v@, span.0 as int) && span.1 as int
                == street_match_end(v@, span.0 as int) && span.0 < span.1 <= v@.len(),
            None => forall|k: int| !street_match_at(v@, k),
        },
{
    let n = v.len();
    let mut i: usize = 0;
    while i < n
        invariant
            i <= n,
            n == v@.len(),
            forall|k: int| 0 <= k < i ==> !street_match_at(v@, k),
        decreases n - i,
    {
        match try_street_match_at(v, i) {
            Some(j) => {
                return Some((i, j));
            },
            None => {},
        }
        i += 1;
    }
    proof {
        assert(forall|k: int| street_match_at(v@, k) ==> 0 <= k < v@.len());
    }
    None
}

} // verus!
