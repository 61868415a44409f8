//! Verified text utilities: character-level string handling, decimal
//! formatting and parsing, substring search, and URL percent-encoding.

use vstd::prelude::*;
use vstd::string::StringSliceAdditionalSpecFns;

verus! {

/// An ASCII decimal digit.
pub open spec fn is_digit(c: char) -> bool {
    '0' <= c && c <= '9'
}

/// The numeric value of a decimal digit character.
pub open spec fn digit_val(c: char) -> int {
    c as int - '0' as int
}

/// The character for a decimal digit value.
pub open spec fn digit_char(d: int) -> char
    recommends
        0 <= d < 10,
{
    ((d + 48) as u8) as char
}

/// The decimal rendering of a natural number, most significant digit first.
pub open spec fn dec_string(n: nat) -> Seq<char>
    decreases n,
{
    if n < 10 {
        seq![digit_char(n as int)]
    } else {
        dec_string(n / 10) + seq![digit_char((n % 10) as int)]
    }
}

/// The decimal rendering of an integer, with a leading minus sign when
/// negative.
pub open spec fn int_string(n: int) -> Seq<char> {
    if n < 0 {
        seq!['-'] + dec_string((-n) as nat)
    } else {
        dec_string(n as nat)
    }
}

/// Exactly two digits: tens then ones.
pub open spec fn two_digits(n: int) -> Seq<char>
    recommends
        0 <= n < 100,
{
    seq![digit_char(n / 10), digit_char(n % 10)]
}

/// Every character of the sequence is a decimal digit.
pub open spec fn all_digits(s: Seq<char>) -> bool {
    forall|i: int| 0 <= i < s.len() ==> is_digit(#[trigger] s[i])
}

/// The numeric value of a digit sequence read in base ten.
pub open spec fn dec_value(s: Seq<char>) -> int
    decreases s.len(),
{
    if s.len() == 0 {
        0
    } else {
        dec_value(s.drop_last()) * 10 + digit_val(s.last())
    }
}

/// Ten to the `k`.
pub open spec fn pow10(k: nat) -> int
    decreases k,
{
    if k == 0 {
        1
    } else {
        10 * pow10((k - 1) as nat)
    }
}

/// What `parse_u64_range` accepts: one to eighteen decimal digits.
pub open spec fn spec_parse_u64(s: Seq<char>) -> Option<u64> {
    if 1 <= s.len() <= 18 && all_digits(s) {
        Some(dec_value(s) as u64)
    } else {
        None
    }
}

/// A digit sequence is non-negative and below ten to its length.
pub proof fn lemma_dec_value_bound(s: Seq<char>)
    requires
        all_digits(s),
    ensures
        0 <= dec_value(s) < pow10(s.len()),
    decreases s.len(),
{
    if s.len() > 0 {
        assert(all_digits(s.drop_last())) by {
            assert(forall|i: int|
                0 <= i < s.len() - 1 ==> s.drop_last()[i] == #[trigger] s[i]);
        }
        lemma_dec_value_bound(s.drop_last());
        assert(is_digit(s.last()));
    }
}

/// Ten to any power is positive.
pub proof fn lemma_pow10_pos(k: nat)
    ensures
        1 <= pow10(k),
    decreases k,
{
    if k > 0 {
        lemma_pow10_pos((k - 1) as nat);
    }
}

/// Ten to the power is monotone in the exponent.
pub proof fn lemma_pow10_increases(a: nat, b: nat)
    requires
        a <= b,
    ensures
        1 <= pow10(a) <= pow10(b),
    decreases b,
{
    if a == b {
        lemma_pow10_pos(a);
    } else {
        lemma_pow10_increases(a, (b - 1) as nat);
    }
}

/// The decimal rendering consists of digits, is never empty, and reads back
/// to the number it renders; numbers below ten to the `k` take at most `k`
/// digits.
pub proof fn lemma_dec_string_props(n: nat)
    ensures
        all_digits(dec_string(n)),
        1 <= dec_string(n).len(),
        dec_value(dec_string(n)) == n,
        forall|k: nat| n < pow10(k) && k >= 1 ==> dec_string(n).len() <= k,
        n >= 1 ==> dec_string(n)[0] != '0',
        n == 0 ==> dec_string(n).len() == 1,
    decreases n,
{
    if n < 10 {
        assert(dec_string(n) =~= seq![digit_char(n as int)]);
        assert(dec_string(n).last() == digit_char(n as int));
        assert(dec_string(n).drop_last() =~= Seq::<char>::empty());
        assert(dec_string(n).len() == 1);
        assert(dec_value(Seq::<char>::empty()) == 0);
        assert(digit_val(digit_char(n as int)) == n as int);
    } else {
        lemma_dec_string_props(n / 10);
        let s = dec_string(n);
        assert(s == dec_string(n / 10) + seq![digit_char((n % 10) as int)]);
        assert(s.drop_last() =~= dec_string(n / 10));
        assert(s.last() == digit_char((n % 10) as int));
        assert(all_digits(s)) by {
            assert(forall|i: int|
                0 <= i < s.len() - 1 ==> s[i] == #[trigger] dec_string(n / 10)[i]);
        }
        assert(dec_value(s) == dec_value(dec_string(n / 10)) * 10 + digit_val(
            digit_char((n % 10) as int),
        ));
        assert forall|k: nat| n < pow10(k) && k >= 1 implies s.len() <= k by {
            assert(k >= 2) by {
                if k == 1 {
                    assert(pow10(1nat) == 10) by {
                        reveal_with_fuel(pow10, 2);
                    }
                }
            }
            assert(n / 10 < pow10((k - 1) as nat)) by {
                assert(pow10(k) == 10 * pow10((k - 1) as nat));
            }
        }
    }
}

/// Compares two strings character by character.
pub fn str_eq(a: &str, b: &str) -> (r: bool)
    ensures
        r == (a@ == b@),
{
    let alen = a.unicode_len();
    let blen = b.unicode_len();
    if alen != blen {
        return false;
    }
    let mut i: usize = 0;
    while i < alen
        invariant
            i <= alen,
            alen == a@.len(),
            alen == b@.len(),
            forall|j: int| 0 <= j < i ==> a@[j] == b@[j],
        decreases alen - i,
    {
        if a.get_char(i) != b.get_char(i) {
            return false;
        }
        i += 1;
    }
    proof {
        assert(a@ =~= b@);
    }
    true
}

/// Collects the characters of a string into a vector.
pub fn chars_of(s: &str) -> (r: Vec<char>)
    ensures
        r@ == s@,
{
    let n = s.unicode_len();
    let mut r: Vec<char> = Vec::new();
    let mut i: usize = 0;
    while i < n
        invariant
            i <= n,
            n == s@.len(),
            r@ == s@.subrange(0, i as int),
        decreases n - i,
    {
        r.push(s.get_char(i));
        proof {
            assert(r@ =~= s@.subrange(0, i + 1 as int));
        }
        i += 1;
    }
    proof {
        assert(r@ =~= s@);
    }
    r
}

/// Relies on `std::iter::Iterator::collect` for `String`: collecting
/// characters yields the string of exactly those characters in order.
#[verifier::external_body]
pub fn string_from_chars(v: &Vec<char>) -> (r: String)
    ensures
        r@ == v@,
{
    v.iter().collect()
}

/// Copies the characters of `v` between `from` and `to` into a new vector.
pub fn sub_vec(v: &Vec<char>, from: usize, to: usize) -> (r: Vec<char>)
    requires
        from <= to <= v@.len(),
    ensures
        r@ == v@.subrange(from as int, to as int),
{
    let mut r: Vec<char> = Vec::new();
    let mut i: usize = from;
    while i < to
        invariant
            from <= i <= to <= v@.len(),
            r@ == v@.subrange(from as int, i as int),
        decreases to - i,
    {
        r.push(v[i]);
        proof {
            assert(r@ =~= v@.subrange(from as int, i + 1 as int));
        }
        i += 1;
    }
    r
}

/// Appends two digits, tens then ones.
pub fn two_digit_string(n: u32) -> (r: String)
    requires
        n < 100,
    ensures
        r@ == two_digits(n as int),
{
    let mut v: Vec<char> = Vec::new();
    v.push(((n / 10) as u8 + 48) as char);
    v.push(((n % 10) as u8 + 48) as char);
    proof {
        assert(v@ =~= two_digits(n as int));
    }
    string_from_chars(&v)
}

/// Appends the decimal rendering of `n` to `out`.
pub fn push_u64_dec(out: &mut Vec<char>, n: u64)
    ensures
        final(out)@ == old(out)@ + dec_string(n as nat),
    decreases n,
{
    if n >= 10 {
        push_u64_dec(out, n / 10);
    }
    let d: u8 = (n % 10) as u8;
    out.push((d + 48) as char);
    proof {
        if n >= 10 {
            assert(out@ =~= old(out)@ + dec_string(n as nat));
        } else {
            assert(out@ =~= old(out)@ + dec_string(n as nat));
        }
    }
}

/// The decimal rendering of an unsigned number.
pub fn u64_to_string(n: u64) -> (r: String)
    ensures
        r@ == dec_string(n as nat),
{
    let mut v: Vec<char> = Vec::new();
    push_u64_dec(&mut v, n);
    string_from_chars(&v)
}

/// The decimal rendering of a signed number.
pub fn i64_to_string(n: i64) -> (r: String)
    ensures
        r@ == int_string(n as int),
{
    let mut v: Vec<char> = Vec::new();
    if n < 0 {
        v.push('-');
        let m: u64 = (-(n + 1)) as u64 + 1;
        assert(m as int == -(n as int));
        push_u64_dec(&mut v, m);
        proof {
            assert(v@ =~= int_string(n as int));
        }
    } else {
        push_u64_dec(&mut v, n as u64);
    }
    string_from_chars(&v)
}

/// Parses the characters of `v` between `from` and `to` as an unsigned
/// decimal number of at most eighteen digits.
pub fn parse_u64_range(v: &Vec<char>, from: usize, to: usize) -> (r: Option<u64>)
    requires
        from <= to <= v@.len(),
    ensures
        r == spec_parse_u64(v@.subrange(from as int, to as int)),
{
    let ghost s = v@.subrange(from as int, to as int);
    let len = to - from;
    if len == 0 || len > 18 {
        return None;
    }
    let mut acc: u64 = 0;
    let mut i: usize = from;
    while i < to
        invariant
            from <= i <= to <= v@.len(),
            1 <= to - from <= 18,
            s == v@.subrange(from as int, to as int),
            all_digits(v@.subrange(from as int, i as int)),
            acc as int == dec_value(v@.subrange(from as int, i as int)),
        decreases to - i,
    {
        let c = v[i];
        if !(c >= '0' && c <= '9') {
            proof {
                assert(s[i - from] == c);
                assert(!all_digits(s));
            }
            return None;
        }
        let ghost pre = v@.subrange(from as int, i as int);
        proof {
            lemma_dec_value_bound(pre);
            lemma_pow10_increases(pre.len() as nat, 17);
            assert(pow10(17) == 100_000_000_000_000_000) by {
                reveal_with_fuel(pow10, 18);
            }
        }
        let d: u64 = c as u64 - 48;
        acc = acc * 10 + d;
        i += 1;
        proof {
            let post = v@.subrange(from as int, i as int);
            assert(post.drop_last() =~= pre);
            assert(post.last() == c);
        }
    }
    proof {
        assert(v@.subrange(from as int, i as int) =~= s);
        lemma_dec_value_bound(s);
        lemma_pow10_increases(s.len() as nat, 18);
        assert(pow10(18) == 1_000_000_000_000_000_000) by {
            reveal_with_fuel(pow10, 19);
        }
    }
    Some(acc)
}

/// Whether every character of `v` between `from` and `to` is a digit.
pub fn all_digits_range(v: &Vec<char>, from: usize, to: usize) -> (r: bool)
    requires
        from <= to <= v@.len(),
    ensures
        r == all_digits(v@.subrange(from as int, to as int)),
{
    let ghost s = v@.subrange(from as int, to as int);
    let mut i: usize = from;
    while i < to
        invariant
            from <= i <= to <= v@.len(),
            s == v@.subrange(from as int, to as int),
            forall|j: int| 0 <= j < i - from ==> is_digit(#[trigger] s[j]),
        decreases to - i,
    {
        let c = v[i];
        if !(c >= '0' && c <= '9') {
            proof {
                assert(s[i - from] == c);
            }
            return false;
        }
        i += 1;
    }
    true
}

/// Ten to the `k`, executably, for small exponents.
pub fn pow10_u64(k: usize) -> (r: u64)
    requires
        k <= 9,
    ensures
        r as int == pow10(k as nat),
{
    let mut r: u64 = 1;
    let mut j: usize = 0;
    while j < k
        invariant
            j <= k <= 9,
            r as int == pow10(j as nat),
        decreases k - j,
    {
        proof {
            lemma_pow10_increases(j as nat, 8);
            assert(pow10(8) == 100_000_000) by {
                reveal_with_fuel(pow10, 9);
            }
        }
        r = r * 10;
        j += 1;
    }
    r
}

/// What `parse_i64_range` accepts: an optional minus sign before one to
/// eighteen decimal digits.
pub open spec fn spec_parse_i64(s: Seq<char>) -> Option<i64> {
    if s.len() >= 1 && s[0] == '-' {
        match spec_parse_u64(s.drop_first()) {
            Some(u) => Some((0 - u as int) as i64),
            None => None,
        }
    } else {
        match spec_parse_u64(s) {
            Some(u) => Some(u as int as i64),
            None => None,
        }
    }
}

/// An accepted unsigned number is below ten to the eighteenth.
pub proof fn lemma_parse_u64_bound(s: Seq<char>)
    ensures
        spec_parse_u64(s) matches Some(u) ==> u < 1_000_000_000_000_000_000,
{
    if spec_parse_u64(s) is Some {
        lemma_dec_value_bound(s);
        lemma_pow10_increases(s.len() as nat, 18);
        assert(pow10(18) == 1_000_000_000_000_000_000) by {
            reveal_with_fuel(pow10, 19);
        }
    }
}

/// Parses the characters of `v` between `from` and `to` as a signed decimal
/// number.
pub fn parse_i64_range(v: &Vec<char>, from: usize, to: usize) -> (r: Option<i64>)
    requires
        from <= to <= v@.len(),
    ensures
        r == spec_parse_i64(v@.subrange(from as int, to as int)),
{
    let ghost s = v@.subrange(from as int, to as int);
    if to - from >= 1 && v[from] == '-' {
        proof {
            assert(s.drop_first() =~= v@.subrange(from as int + 1, to as int));
            lemma_parse_u64_bound(s.drop_first());
        }
        match parse_u64_range(v, from + 1, to) {
            Some(u) => Some(-(u as i64)),
            None => None,
        }
    } else {
        proof {
            lemma_parse_u64_bound(s);
        }
        match parse_u64_range(v, from, to) {
            Some(u) => Some(u as i64),
            None => None,
        }
    }
}

/// The decimal rendering of an unsigned number below ten to the eighteenth
/// reads back to that number.
pub proof fn lemma_dec_string_roundtrip(n: u64)
    requires
        n < 1_000_000_000_000_000_000,
    ensures
        spec_parse_u64(dec_string(n as nat)) == Some(n),
{
    lemma_dec_string_props(n as nat);
    assert(pow10(18) == 1_000_000_000_000_000_000) by {
        reveal_with_fuel(pow10, 19);
    }
    assert(dec_string(n as nat).len() <= 18);
}

/// The decimal rendering of a signed number of small enough magnitude reads
/// back to that number.
pub proof fn lemma_int_string_roundtrip(n: i64)
    requires
        -1_000_000_000_000_000_000 < n < 1_000_000_000_000_000_000,
    ensures
        spec_parse_i64(int_string(n as int)) == Some(n),
{
    if n < 0 {
        let m = (0 - n as int) as u64;
        lemma_dec_string_roundtrip(m);
        lemma_dec_string_props(m as nat);
        let s = int_string(n as int);
        assert(s == seq!['-'] + dec_string(m as nat));
        assert(s[0] == '-');
        assert(s.drop_first() =~= dec_string(m as nat));
    } else {
        lemma_dec_string_roundtrip(n as u64);
        lemma_dec_string_props(n as nat);
        let s = int_string(n as int);
        assert(s == dec_string(n as nat));
        assert(all_digits(s));
        assert(s.len() >= 1);
        assert(is_digit(s[0]));
        assert(s[0] != '-');
    }
}

/// The pattern occurs in `s` at offset `i`.
pub open spec fn contains_at(s: Seq<char>, p: Seq<char>, i: int) -> bool {
    0 <= i && i + p.len() <= s.len() && s.subrange(i, i + p.len()) == p
}

/// The pattern occurs somewhere in `s`.
pub open spec fn seq_contains(s: Seq<char>, p: Seq<char>) -> bool {
    exists|i: int| contains_at(s, p, i)
}

/// `s` begins with the pattern.
pub open spec fn starts_with(s: Seq<char>, p: Seq<char>) -> bool {
    contains_at(s, p, 0)
}

/// `s` ends with the pattern.
pub open spec fn ends_with(s: Seq<char>, p: Seq<char>) -> bool {
    p.len() <= s.len() && contains_at(s, p, s.len() - p.len())
}

/// Whether the pattern occurs in `v` at offset `i`.
pub fn matches_at(v: &Vec<char>, p: &str, i: usize) -> (r: bool)
    requires
        i <= v@.len(),
    ensures
        r == contains_at(v@, p@, i as int),
{
    let plen = p.unicode_len();
    let n = v.len();
    if n - i < plen {
        return false;
    }
    let mut j: usize = 0;
    while j < plen
        invariant
            j <= plen,
            plen == p@.len(),
            n == v@.len(),
            i + plen <= n,
            forall|k: int| 0 <= k < j ==> v@[i + k] == p@[k],
        decreases plen - j,
    {
        if v[i + j] != p.get_char(j) {
            proof {
                assert(v@.subrange(i as int, i + p@.len())[j as int] == v@[i + j]);
            }
            return false;
        }
        j += 1;
    }
    proof {
        assert(v@.subrange(i as int, i + p@.len()) =~= p@);
    }
    true
}

/// Whether `v` begins with the pattern.
pub fn starts_with_str(v: &Vec<char>, p: &str) -> (r: bool)
    ensures
        r == starts_with(v@, p@),
{
    matches_at(v, p, 0)
}

/// Whether `v` ends with the pattern.
pub fn ends_with_str(v: &Vec<char>, p: &str) -> (r: bool)
    ensures
        r == ends_with(v@, p@),
{
    let plen = p.unicode_len();
    if plen > v.len() {
        return false;
    }
    matches_at(v, p, v.len() - plen)
}

/// Whether the pattern occurs anywhere in `v`.
pub fn contains_str(v: &Vec<char>, p: &str) -> (r: bool)
    ensures
        r == seq_contains(v@, p@),
{
    let n = v.len();
    let mut i: usize = 0;
    while i < n
        invariant
            i <= n,
            n == v@.len(),
            forall|k: int| 0 <= k < i ==> !contains_at(v@, p@, k),
        decreases n - i,
    {
        if matches_at(v, p, i) {
            return true;
        }
        i += 1;
    }
    let last = matches_at(v, p, n);
    proof {
        assert(forall|k: int| contains_at(v@, p@, k) ==> 0 <= k <= v@.len());
    }
    last
}

/// Finds the first occurrence of `c` in `v`.
pub fn find_char(v: &Vec<char>, c: char) -> (r: Option<usize>)
    ensures
        match r {
            Some(i) => i < v@.len() && v@[i as int] == c && forall|j: int|
                0 <= j < i ==> v@[j] != c,
            None => forall|j: int| 0 <= j < v@.len() ==> v@[j] != c,
        },
{
    let mut i: usize = 0;
    while i < v.len()
        invariant
            i <= v@.len(),
            forall|j: int| 0 <= j < i ==> v@[j] != c,
        decreases v@.len() - i,
    {
        if v[i] == c {
            return Some(i);
        }
        i += 1;
    }
    None
}

/// Finds the last occurrence of `c` in `v`.
pub fn rfind_char(v: &Vec<char>, c: char) -> (r: Option<usize>)
    ensures
        match r {
            Some(i) => i < v@.len() && v@[i as int] == c && forall|j: int|
                i < j < v@.len() ==> v@[j] != c,
            None => forall|j: int| 0 <= j < v@.len() ==> v@[j] != c,
        },
{
    let mut i: usize = v.len();
    while i > 0
        invariant
            i <= v@.len(),
            forall|j: int| i <= j < v@.len() ==> v@[j] != c,
        decreases i,
    {
        i -= 1;
        if v[i] == c {
            return Some(i);
        }
    }
    None
}

/// `s` with every trailing occurrence of the non-empty pattern removed.
pub open spec fn strip_trailing(s: Seq<char>, p: Seq<char>) -> Seq<char>
    decreases s.len(),
{
    if p.len() > 0 && ends_with(s, p) {
        strip_trailing(s.subrange(0, s.len() - p.len()), p)
    } else {
        s
    }
}

/// Removes every trailing occurrence of the pattern.
pub fn strip_trailing_str(v: Vec<char>, p: &str) -> (r: Vec<char>)
    requires
        p@.len() > 0,
    ensures
        r@ == strip_trailing(v@, p@),
{
    let plen = p.unicode_len();
    let mut cur = v;
    while ends_with_str(&cur, p)
        invariant
            plen == p@.len() > 0,
            strip_trailing(cur@, p@) == strip_trailing(v@, p@),
        decreases cur@.len(),
    {
        let next = sub_vec(&cur, 0, cur.len() - plen);
        cur = next;
    }
    cur
}

/// `a` sorts strictly after `b` in the byte order the store compares text
/// with: the first differing character decides, a proper prefix sorts first.
pub open spec fn lex_gt(a: Seq<char>, b: Seq<char>) -> bool
    decreases a.len(),
{
    if b.len() == 0 {
        a.len() > 0
    } else if a.len() == 0 {
        false
    } else if a[0] == b[0] {
        lex_gt(a.drop_first(), b.drop_first())
    } else {
        a[0] > b[0]
    }
}

/// A byte that a URL carries unchanged: an ASCII letter, a digit, or one of
/// `-`, `.`, `_`, `~`.
pub open spec fn is_url_unreserved(b: u8) -> bool {
    (48 <= b <= 57) || (65 <= b <= 90) || (97 <= b <= 122) || b == 45 || b == 46 || b == 95
        || b == 126
}

/// The uppercase hexadecimal digit for a value below sixteen.
pub open spec fn hex_digit(d: int) -> char
    recommends
        0 <= d < 16,
{
    if d < 10 {
        digit_char(d)
    } else {
        ((d + 55) as u8) as char
    }
}

/// The percent-encoding of a byte sequence: unreserved bytes stand as
/// themselves, every other byte as a percent sign and two uppercase
/// hexadecimal digits.
pub open spec fn percent_encoded(bs: Seq<u8>) -> Seq<char>
    decreases bs.len(),
{
    if bs.len() == 0 {
        Seq::empty()
    } else {
        (if is_url_unreserved(bs[0]) {
            seq![bs[0] as char]
        } else {
            seq!['%', hex_digit(bs[0] as int / 16), hex_digit(bs[0] as int % 16)]
        }) + percent_encoded(bs.drop_first())
    }
}

/// Percent-encodes the UTF-8 bytes of a string.
pub fn percent_encode(s: &str) -> (r: String)
    ensures
        r@ == percent_encoded(s.spec_bytes()),
{
    let bs = s.as_bytes_vec();
    let mut out: Vec<char> = Vec::new();
    let mut i: usize = 0;
    proof {
        assert(bs@.subrange(0, bs@.len() as int) =~= bs@);
        assert(Seq::<char>::empty() + percent_encoded(bs@) =~= percent_encoded(bs@));
    }
    while i < bs.len()
        invariant
            i <= bs@.len(),
            bs@ == s.spec_bytes(),
            percent_encoded(bs@) == out@ + percent_encoded(bs@.subrange(i as int, bs@.len() as int)),
        decreases bs@.len() - i,
    {
        let ghost suffix = bs@.subrange(i as int, bs@.len() as int);
        proof {
            assert(suffix.drop_first() =~= bs@.subrange(i + 1 as int, bs@.len() as int));
            assert(suffix[0] == bs@[i as int]);
        }
        let b = bs[i];
        if (48 <= b && b <= 57) || (65 <= b && b <= 90) || (97 <= b && b <= 122) || b == 45 || b
            == 46 || b == 95 || b == 126 {
            out.push(b as char);
        } else {
            out.push('%');
            let hi = b / 16;
            let lo = b % 16;
            out.push(if hi < 10 { (hi + 48) as char } else { (hi + 55) as char });
            out.push(if lo < 10 { (lo + 48) as char } else { (lo + 55) as char });
        }
        i += 1;
        proof {
            assert(out@ + percent_encoded(bs@.subrange(i as int, bs@.len() as int)) =~= percent_encoded(bs@));
        }
    }
    proof {
        assert(bs@.subrange(i as int, bs@.len() as int) =~= Seq::<u8>::empty());
        assert(out@ =~= percent_encoded(bs@));
    }
    string_from_chars(&out)
}

} // verus!
