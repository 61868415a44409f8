//! Decimal coordinate strings, as the upstream listings carry them, read
//! into microdegrees: `"52.09"` becomes `52_090_000`.

use vstd::prelude::*;
use crate::text;
use crate::times::is_first_at;

verus! {

/// The microunit value of the fractional part `"0.<fp>"`, truncated to six
/// digits.
pub open spec fn frac_micro(fp: Seq<char>) -> int {
    if fp.len() >= 6 {
        text::dec_value(fp.subrange(0, 6))
    } else {
        text::dec_value(fp) * text::pow10((6 - fp.len()) as nat)
    }
}

/// An unsigned decimal coordinate in microunits: digits, optionally followed
/// by a decimal point and further digits. The whole part takes at most nine
/// digits; fractional digits beyond the sixth are ignored.
pub open spec fn spec_parse_unsigned_micro(body: Seq<char>) -> Option<int> {
    if exists|i: int| is_first_at(body, '.', i) {
        let i = choose|i: int| is_first_at(body, '.', i);
        let ip = body.subrange(0, i);
        let fp = body.subrange(i + 1, body.len() as int);
        if 1 <= ip.len() <= 9 && text::all_digits(ip) && 1 <= fp.len() && text::all_digits(fp) {
            Some(text::dec_value(ip) * 1_000_000 + frac_micro(fp))
        } else {
            None
        }
    } else {
        if 1 <= body.len() <= 9 && text::all_digits(body) {
            Some(text::dec_value(body) * 1_000_000)
        } else {
            None
        }
    }
}

/// A signed decimal coordinate in microunits: an optional leading minus sign
/// before the unsigned form.
pub open spec fn spec_parse_coord_micro(s: Seq<char>) -> Option<i64> {
    if s.len() >= 1 && s[0] == '-' {
        match spec_parse_unsigned_micro(s.drop_first()) {
            Some(u) => Some((0 - u) as i64),
            None => None,
        }
    } else {
        match spec_parse_unsigned_micro(s) {
            Some(u) => Some(u as i64),
            None => None,
        }
    }
}

/// An accepted unsigned coordinate is below ten to the fifteenth in
/// microunits.
pub proof fn lemma_unsigned_micro_bound(body: Seq<char>)
    ensures
        spec_parse_unsigned_micro(body) matches Some(u) ==> 0 <= u < 1_000_000_000_000_000,
{
    if spec_parse_unsigned_micro(body) is Some {
        assert(text::pow10(9) == 1_000_000_000) by {
            reveal_with_fuel(text::pow10, 10);
        }
        assert(text::pow10(6) == 1_000_000) by {
            reveal_with_fuel(text::pow10, 7);
        }
        if exists|i: int| is_first_at(body, '.', i) {
            let i = choose|i: int| is_first_at(body, '.', i);
            let ip = body.subrange(0, i);
            let fp = body.subrange(i + 1, body.len() as int);
            text::lemma_dec_value_bound(ip);
            text::lemma_pow10_increases(ip.len() as nat, 9);
            lemma_frac_micro_bound(fp);
        } else {
            text::lemma_dec_value_bound(body);
            text::lemma_pow10_increases(body.len() as nat, 9);
        }
    }
}

/// The fractional part contributes less than one whole microunit group.
pub proof fn lemma_frac_micro_bound(fp: Seq<char>)
    requires
        text::all_digits(fp),
    ensures
        0 <= frac_micro(fp) < 1_000_000,
{
    assert(text::pow10(6) == 1_000_000) by {
        reveal_with_fuel(text::pow10, 7);
    }
    if fp.len() >= 6 {
        let head = fp.subrange(0, 6);
        assert(text::all_digits(head)) by {
            assert(forall|j: int| 0 <= j < 6 ==> head[j] == #[trigger] fp[j]);
        }
        text::lemma_dec_value_bound(head);
    } else {
        text::lemma_dec_value_bound(fp);
        text::lemma_pow10_increases(0, fp.len() as nat);
        text::lemma_pow10_increases(0, (6 - fp.len()) as nat);
        assert(text::pow10(fp.len() as nat) * text::pow10((6 - fp.len()) as nat) == text::pow10(6))
            by {
            lemma_pow10_add(fp.len() as nat, (6 - fp.len()) as nat);
        }
        assert(text::dec_value(fp) * text::pow10((6 - fp.len()) as nat) < text::pow10(
            fp.len() as nat,
        ) * text::pow10((6 - fp.len()) as nat)) by (nonlinear_arith)
            requires
                text::dec_value(fp) < text::pow10(fp.len() as nat),
                text::pow10((6 - fp.len()) as nat) >= 1,
        ;
        assert(text::dec_value(fp) * text::pow10((6 - fp.len()) as nat) >= 0) by (nonlinear_arith)
            requires
                text::dec_value(fp) >= 0,
                text::pow10((6 - fp.len()) as nat) >= 1,
        ;
    }
}

/// Ten-to-the distributes over addition of exponents.
pub proof fn lemma_pow10_add(a: nat, b: nat)
    ensures
        text::pow10(a) * text::pow10(b) == text::pow10(a + b),
    decreases a,
{
    if a == 0 {
        assert(text::pow10(0) == 1);
    } else {
        lemma_pow10_add((a - 1) as nat, b);
        assert(text::pow10(a) == 10 * text::pow10((a - 1) as nat));
        assert(text::pow10(a + b) == 10 * text::pow10((a + b - 1) as nat));
        assert(text::pow10(a) * text::pow10(b) == 10 * (text::pow10((a - 1) as nat) * text::pow10(
            b,
        ))) by (nonlinear_arith)
            requires
                text::pow10(a) == 10 * text::pow10((a - 1) as nat),
        ;
    }
}

/// Parses the unsigned decimal form into microunits.
fn parse_unsigned_micro(bv: &Vec<char>) -> (r: Option<u64>)
    ensures
        match r {
            Some(u) => spec_parse_unsigned_micro(bv@) == Some(u as int) && u
                < 1_000_000_000_000_000,
            None => spec_parse_unsigned_micro(bv@) is None,
        },
{
    let n = bv.len();
    proof {
        lemma_unsigned_micro_bound(bv@);
    }
    match text::find_char(bv, '.') {
        None => {
            proof {
                assert(forall|i: int| !is_first_at(bv@, '.', i));
            }
            if n < 1 || n > 9 {
                return None;
            }
            let v = match text::parse_u64_range(bv, 0, n) {
                Some(v) => v,
                None => {
                    proof {
                        assert(bv@.subrange(0, n as int) =~= bv@);
                    }
                    return None;
                },
            };
            proof {
                assert(bv@.subrange(0, n as int) =~= bv@);
                text::lemma_dec_value_bound(bv@);
                text::lemma_pow10_increases(bv@.len() as nat, 9);
                assert(text::pow10(9) == 1_000_000_000) by {
                    reveal_with_fuel(text::pow10, 10);
                }
            }
            Some(v * 1_000_000)
        },
        Some(i) => {
            proof {
                assert(is_first_at(bv@, '.', i as int));
                let w = choose|k: int| is_first_at(bv@, '.', k);
                crate::times::lemma_first_at_unique(bv@, '.', w, i as int);
            }
            let ghost ip = bv@.subrange(0, i as int);
            let ghost fp = bv@.subrange(i as int + 1, n as int);
            let fplen = n - i - 1;
            if i < 1 || i > 9 || fplen < 1 {
                return None;
            }
            if !text::all_digits_range(bv, i + 1, n) {
                return None;
            }
            let ipv = match text::parse_u64_range(bv, 0, i) {
                Some(v) => v,
                None => {
                    return None;
                },
            };
            let k = if fplen >= 6 {
                6
            } else {
                fplen
            };
            proof {
                assert(text::all_digits(bv@.subrange(i as int + 1, i as int + 1 + k))) by {
                    assert(forall|j: int|
                        0 <= j < k ==> bv@.subrange(i as int + 1, i as int + 1 + k)[j]
                            == #[trigger] fp[j]);
                }
            }
            let fv = match text::parse_u64_range(bv, i + 1, i + 1 + k) {
                Some(v) => v,
                None => {
                    proof {
                        assert(false);
                    }
                    return None;
                },
            };
            let scale = text::pow10_u64(6 - k);
            proof {
                text::lemma_dec_value_bound(ip);
                text::lemma_pow10_increases(ip.len() as nat, 9);
                assert(text::pow10(9) == 1_000_000_000) by {
                    reveal_with_fuel(text::pow10, 10);
                }
                lemma_frac_micro_bound(fp);
                let sub = bv@.subrange(i as int + 1, i as int + 1 + k);
                if fplen >= 6 {
                    assert(sub =~= fp.subrange(0, 6));
                } else {
                    assert(sub =~= fp);
                }
                text::lemma_dec_value_bound(sub);
                text::lemma_pow10_increases(sub.len() as nat, 6);
                assert(text::pow10(6) == 1_000_000) by {
                    reveal_with_fuel(text::pow10, 7);
                }
            }
            Some(ipv * 1_000_000 + fv * scale)
        },
    }
}

/// Parses a signed decimal coordinate into microunits: an optional minus
/// sign, up to nine whole digits, optionally a point and at least one
/// fractional digit, of which the first six count.
pub fn parse_coord_micro(v: &Vec<char>) -> (r: Option<i64>)
    ensures
        r == spec_parse_coord_micro(v@),
{
    let neg = v.len() >= 1 && v[0] == '-';
    let body = if neg {
        text::sub_vec(v, 1, v.len())
    } else {
        text::sub_vec(v, 0, v.len())
    };
    proof {
        if neg {
            assert(body@ =~= v@.drop_first());
        } else {
            assert(body@ =~= v@);
        }
    }
    match parse_unsigned_micro(&body) {
        Some(u) => {
            if neg {
                Some(-(u as i64))
            } else {
                Some(u as i64)
            }
        },
        None => None,
    }
}

} // verus!
