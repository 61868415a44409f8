//! Clock-time parsing (`HH:MM`, `HH:MM:SS`) and duration arithmetic, as the
//! upstream listings carry them.

use vstd::prelude::*;
use crate::text;

verus! {

/// `i` is the first occurrence of `c` in `s`.
pub open spec fn is_first_at(s: Seq<char>, c: char, i: int) -> bool {
    0 <= i < s.len() && s[i] == c && forall|j: int| 0 <= j < i ==> s[j] != c
}

/// The first occurrence index is unique.
pub proof fn lemma_first_at_unique(s: Seq<char>, c: char, i: int, j: int)
    requires
        is_first_at(s, c, i),
        is_first_at(s, c, j),
    ensures
        i == j,
{
}

/// A sequence of at most two digits reads as a value below one hundred.
pub proof fn lemma_two_digit_value(s: Seq<char>)
    requires
        text::all_digits(s),
        s.len() <= 2,
    ensures
        0 <= text::dec_value(s) < 100,
{
    text::lemma_dec_value_bound(s);
    text::lemma_pow10_increases(s.len() as nat, 2);
    assert(text::pow10(2) == 100) by {
        reveal_with_fuel(text::pow10, 3);
    }
}

/// Reading `s` as `H:MM`: the hour stands before the first colon, the minute
/// after it, each one or two digits, hour below 24 and minute below 60.
pub open spec fn hhmm_split_at(s: Seq<char>, i: int) -> Option<(u32, u32)>
    recommends
        is_first_at(s, ':', i),
{
    let h = s.subrange(0, i);
    let m = s.subrange(i + 1, s.len() as int);
    if 1 <= h.len() <= 2 && 1 <= m.len() <= 2 && text::all_digits(h) && text::all_digits(m)
        && text::dec_value(h) < 24 && text::dec_value(m) < 60 {
        Some((text::dec_value(h) as u32, text::dec_value(m) as u32))
    } else {
        None
    }
}

/// What `parse_hhmm` accepts: an hour and a minute split by the first colon.
pub open spec fn spec_parse_hhmm(s: Seq<char>) -> Option<(u32, u32)> {
    if exists|i: int| is_first_at(s, ':', i) {
        hhmm_split_at(s, choose|i: int| is_first_at(s, ':', i))
    } else {
        None
    }
}

/// Parses a clock time of the form `H:MM` or `HH:MM`.
pub fn parse_hhmm_chars(v: &Vec<char>) -> (r: Option<(u32, u32)>)
    ensures
        r == spec_parse_hhmm(v@),
{
    let n = v.len();
    match text::find_char(v, ':') {
        None => {
            proof {
                assert(forall|i: int| !is_first_at(v@, ':', i));
            }
            None
        },
        Some(i) => {
            proof {
                assert(is_first_at(v@, ':', i as int));
                let w = choose|k: int| is_first_at(v@, ':', k);
                lemma_first_at_unique(v@, ':', w, i as int);
            }
            let hlen = i;
            let mlen = n - i - 1;
            if hlen < 1 || hlen > 2 || mlen < 1 || mlen > 2 {
                return None;
            }
            let h = match text::parse_u64_range(v, 0, i) {
                Some(h) => h,
                None => {
                    return None;
                },
            };
            let m = match text::parse_u64_range(v, i + 1, n) {
                Some(m) => m,
                None => {
                    return None;
                },
            };
            proof {
                lemma_two_digit_value(v@.subrange(0, i as int));
                lemma_two_digit_value(v@.subrange(i as int + 1, n as int));
            }
            if h < 24 && m < 60 {
                Some((h as u32, m as u32))
            } else {
                None
            }
        },
    }
}

/// Parses a clock time of the form `H:MM` or `HH:MM` from a string.
pub fn parse_hhmm(s: &str) -> (r: Option<(u32, u32)>)
    ensures
        r == spec_parse_hhmm(s@),
{
    let v = text::chars_of(s);
    parse_hhmm_chars(&v)
}

/// Reading `s` as `H:MM:SS`: hours before the first colon, then minutes and
/// seconds around the first colon of the remainder, each one or two digits,
/// hours below 24, minutes and seconds below 60.
pub open spec fn hhmmss_split_at(s: Seq<char>, i: int, j: int) -> Option<(u32, u32, u32)>
    recommends
        is_first_at(s, ':', i),
        is_first_at(s.subrange(i + 1, s.len() as int), ':', j),
{
    let h = s.subrange(0, i);
    let rest = s.subrange(i + 1, s.len() as int);
    let m = rest.subrange(0, j);
    let sec = rest.subrange(j + 1, rest.len() as int);
    if 1 <= h.len() <= 2 && 1 <= m.len() <= 2 && 1 <= sec.len() <= 2 && text::all_digits(h)
        && text::all_digits(m) && text::all_digits(sec) && text::dec_value(h) < 24
        && text::dec_value(m) < 60 && text::dec_value(sec) < 60 {
        Some(
            (text::dec_value(h) as u32, text::dec_value(m) as u32, text::dec_value(sec) as u32),
        )
    } else {
        None
    }
}

/// What `parse_hhmmss` accepts.
pub open spec fn spec_parse_hhmmss(s: Seq<char>) -> Option<(u32, u32, u32)> {
    if exists|i: int| is_first_at(s, ':', i) {
        let i = choose|i: int| is_first_at(s, ':', i);
        let rest = s.subrange(i + 1, s.len() as int);
        if exists|j: int| is_first_at(rest, ':', j) {
            hhmmss_split_at(s, i, choose|j: int| is_first_at(rest, ':', j))
        } else {
            None
        }
    } else {
        None
    }
}

/// Parses a clock time of the form `HH:MM:SS` (each part one or two digits).
pub fn parse_hhmmss(s: &str) -> (r: Option<(u32, u32, u32)>)
    ensures
        r == spec_parse_hhmmss(s@),
{
    let v = text::chars_of(s);
    let n = v.len();
    let i = match text::find_char(&v, ':') {
        None => {
            proof {
                assert(forall|k: int| !is_first_at(v@, ':', k));
            }
            return None;
        },
        Some(i) => i,
    };
    proof {
        assert(is_first_at(v@, ':', i as int));
        let w = choose|k: int| is_first_at(v@, ':', k);
        lemma_first_at_unique(v@, ':', w, i as int);
    }
    let rest = text::sub_vec(&v, i + 1, n);
    let j = match text::find_char(&rest, ':') {
        None => {
            proof {
                assert(forall|k: int| !is_first_at(rest@, ':', k));
            }
            return None;
        },
        Some(j) => j,
    };
    proof {
        assert(is_first_at(rest@, ':', j as int));
        let w = choose|k: int| is_first_at(rest@, ':', k);
        lemma_first_at_unique(rest@, ':', w, j as int);
    }
    let hlen = i;
    let mlen = j;
    let slen = rest.len() - j - 1;
    if hlen < 1 || hlen > 2 || mlen < 1 || mlen > 2 || slen < 1 || slen > 2 {
        return None;
    }
    let h = match text::parse_u64_range(&v, 0, i) {
        Some(h) => h,
        None => {
            return None;
        },
    };
    let ghost rest_len = rest@.len();
    let m = match text::parse_u64_range(&rest, 0, j) {
        Some(m) => m,
        None => {
            return None;
        },
    };
    let sec = match text::parse_u64_range(&rest, j + 1, rest.len()) {
        Some(s) => s,
        None => {
            return None;
        },
    };
    proof {
        lemma_two_digit_value(v@.subrange(0, i as int));
        lemma_two_digit_value(rest@.subrange(0, j as int));
        lemma_two_digit_value(rest@.subrange(j as int + 1, rest@.len() as int));
    }
    if h < 24 && m < 60 && sec < 60 {
        Some((h as u32, m as u32, sec as u32))
    } else {
        None
    }
}

/// An accepted `H:MM` time lies within the day.
pub proof fn lemma_parse_hhmm_ranges(s: Seq<char>)
    ensures
        spec_parse_hhmm(s) matches Some(t) ==> t.0 < 24 && t.1 < 60,
{
    if spec_parse_hhmm(s) is Some {
        let i = choose|i: int| is_first_at(s, ':', i);
        let h = s.subrange(0, i);
        let m = s.subrange(i + 1, s.len() as int);
        lemma_two_digit_value(h);
        lemma_two_digit_value(m);
    }
}

/// An accepted `HH:MM:SS` time lies within the day.
pub proof fn lemma_parse_hhmmss_ranges(s: Seq<char>)
    ensures
        spec_parse_hhmmss(s) matches Some(t) ==> t.0 < 24 && t.1 < 60 && t.2 < 60,
{
    if spec_parse_hhmmss(s) is Some {
        let i = choose|i: int| is_first_at(s, ':', i);
        let rest = s.subrange(i + 1, s.len() as int);
        let j = choose|j: int| is_first_at(rest, ':', j);
        lemma_two_digit_value(s.subrange(0, i));
        lemma_two_digit_value(rest.subrange(0, j));
        lemma_two_digit_value(rest.subrange(j + 1, rest.len() as int));
    }
}

/// Seconds in a whole number of hours, minutes and seconds.
pub open spec fn spec_hms_seconds(h: int, m: int, s: int) -> int {
    h * 3600 + m * 60 + s
}

/// The length in whole seconds of a span from a start to an end clock time;
/// `None` when the end lies before the start.
pub open spec fn spec_span_seconds(sh: int, sm: int, eh: int, em: int) -> Option<u64> {
    if spec_hms_seconds(eh, em, 0) >= spec_hms_seconds(sh, sm, 0) {
        Some((spec_hms_seconds(eh, em, 0) - spec_hms_seconds(sh, sm, 0)) as u64)
    } else {
        None
    }
}

/// Seconds from the start time to the end time; `None` when the end lies
/// before the start.
pub fn span_seconds(start_h: u32, start_m: u32, end_h: u32, end_m: u32) -> (r: Option<u64>)
    requires
        start_h < 24,
        start_m < 60,
        end_h < 24,
        end_m < 60,
    ensures
        r == spec_span_seconds(start_h as int, start_m as int, end_h as int, end_m as int),
{
    let start: u32 = start_h * 3600 + start_m * 60;
    let end: u32 = end_h * 3600 + end_m * 60;
    if end >= start {
        Some((end - start) as u64)
    } else {
        None
    }
}

/// Seconds in a duration given as hours, minutes and seconds, the hours
/// taken literally.
pub fn hms_seconds(h: u32, m: u32, s: u32) -> (r: u64)
    requires
        h < 24,
        m < 60,
        s < 60,
    ensures
        r as int == spec_hms_seconds(h as int, m as int, s as int),
{
    (h as u64) * 3600 + (m as u64) * 60 + (s as u64)
}

} // verus!
