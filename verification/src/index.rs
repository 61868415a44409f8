//! The meeting index: an embedded relational store holding the committed
//! snapshot of meetings, rebuilt by a staged import that commits only when it
//! is non-empty, and searched with an optional distance constraint.
//!
//! The store is modeled as a sequence of rows, each row a sequence of 21
//! optional text cells in schema order; coordinates travel as microdegree
//! integers and come back the same way. The model assumes the ownership
//! discipline of the deployment: the index owns its database file, and while
//! a handle is open the file changes only through that handle.

use vstd::prelude::*;
use vstd::multiset::Multiset;
use crate::model::{Contact, Location, Meeting, MeetingTime, OnlineOptions, Organization, Position,
    SearchMeeting, WeekDay};
use crate::text;

verus! {

/// One stored row: 21 optional text cells in schema order — name, org,
/// notes, source, updated_at, country, region, location_name,
/// location_notes, latitude, longitude, address, online, online_url,
/// online_notes, phone, email, duration, day, hour, minute.
pub type RowCells = Seq<Option<Seq<char>>>;

/// A distance constraint: a center in microdegrees and a radius in
/// nano-kilometers.
#[derive(Debug, Clone, Copy, PartialEq, Eq, Structural)]
pub struct DistanceSearch {
    pub latitude_micro: i64,
    pub longitude_micro: i64,
    pub distance_nano_km: i64,
}

/// What a search asks for.
#[derive(Debug, Clone, Copy, PartialEq, Eq, Structural)]
pub struct SearchOptions {
    pub distance: Option<DistanceSearch>,
}

/// Why an index operation failed.
#[derive(Debug)]
pub enum IndexError {
    SqliteError(rusqlite::Error),
}

/// The distance the store computes for a row during a distance search: the
/// Haversine distance with earth radius 6371 km between two points given in
/// microdegrees, in nano-kilometers, rounded to the nearest integer.
pub uninterp spec fn haversine_nano_km(lat1: int, lon1: int, lat2: int, lon2: int) -> int;

/// The view of an optional text.
pub open spec fn opt_text(o: Option<String>) -> Option<Seq<char>> {
    match o {
        Some(s) => Some(s@),
        None => None,
    }
}

/// A cell read as a signed integer.
pub open spec fn cell_int(c: Option<Seq<char>>) -> Option<i64> {
    match c {
        Some(t) => text::spec_parse_i64(t),
        None => None,
    }
}

/// A cell read as an unsigned integer.
pub open spec fn cell_nat(c: Option<Seq<char>>) -> Option<u64> {
    match c {
        Some(t) => text::spec_parse_u64(t),
        None => None,
    }
}

/// The row a meeting is stored as.
pub open spec fn spec_encode_meeting(m: Meeting) -> RowCells {
    seq![
        Some(m.name@),
        Some(m.org.id_name()),
        opt_text(m.notes),
        Some(m.source@),
        Some(m.updated_at@),
        opt_text(m.location.country),
        opt_text(m.location.region),
        opt_text(m.location.name),
        opt_text(m.location.notes),
        match m.location.position {
            Some(p) => Some(text::int_string(p.latitude_micro as int)),
            None => None,
        },
        match m.location.position {
            Some(p) => Some(text::int_string(p.longitude_micro as int)),
            None => None,
        },
        opt_text(m.location.address),
        Some(if m.online_options.is_online { "1"@ } else { "0"@ }),
        opt_text(m.online_options.url),
        opt_text(m.online_options.notes),
        opt_text(m.contact.phone),
        opt_text(m.contact.email),
        match m.duration {
            Some(d) => Some(text::dec_string(d as nat)),
            None => None,
        },
        match m.time {
            MeetingTime::Recurring { day, hour, minute } => Some(text::int_string(day.index())),
        },
        match m.time {
            MeetingTime::Recurring { day, hour, minute } => Some(text::int_string(hour as int)),
        },
        match m.time {
            MeetingTime::Recurring { day, hour, minute } => Some(text::int_string(minute as int)),
        },
    ]
}

/// The predicate selecting rows that decode, as one value, so that every
/// contract filters by the same function.
pub open spec fn decodes_pred() -> spec_fn(RowCells) -> bool {
    |c: RowCells| row_decodes(c)
}

/// The predicate selecting rows within a distance search, as one value.
pub open spec fn within_pred(lat: int, lon: int, radius: int) -> spec_fn(RowCells) -> bool {
    |c: RowCells| row_within(c, lat, lon, radius)
}

/// The rows of `rs` that decode, in order.
pub open spec fn decodable_rows(rs: Seq<RowCells>) -> Seq<RowCells> {
    rs.filter(decodes_pred())
}

/// `v` decodes the rows of `rs` in order: one result per decodable row of
/// `rs`, each carrying the decode of its row.
pub open spec fn decodes_rows_in_order(rs: Seq<RowCells>, v: Seq<SearchMeeting>) -> bool {
    &&& v.len() == decodable_rows(rs).len()
    &&& forall|k: int|
        0 <= k < v.len() ==> decoded_matches(decodable_rows(rs)[k], (#[trigger] v[k]).meeting)
}

/// Filtering a sequence commutes with passing to its multiset.
pub proof fn lemma_filter_to_multiset<A>(s: Seq<A>, pred: spec_fn(A) -> bool)
    ensures
        s.filter(pred).to_multiset() == s.to_multiset().filter(pred),
    decreases s.len(),
{
    broadcast use vstd::seq_lib::group_to_multiset_ensures;
    broadcast use vstd::multiset::group_multiset_axioms;
    reveal(Seq::filter);
    if s.len() == 0 {
        assert(s.to_multiset().len() == 0);
        assert(s.to_multiset() =~= Multiset::<A>::empty()) by {
            vstd::multiset::lemma_multiset_empty_len(s.to_multiset());
        }
        assert(s.filter(pred).to_multiset().len() == 0);
        assert(s.filter(pred).to_multiset() =~= Multiset::<A>::empty()) by {
            vstd::multiset::lemma_multiset_empty_len(s.filter(pred).to_multiset());
        }
        assert(s.to_multiset().filter(pred) =~= Multiset::<A>::empty()) by {
            assert(forall|v: A|
                s.to_multiset().filter(pred).count(v) == Multiset::<A>::empty().count(v));
        }
    } else {
        let rest = s.drop_last();
        let last = s.last();
        lemma_filter_to_multiset(rest, pred);
        assert(s =~= rest.push(last));
        assert(rest.push(last).to_multiset() =~= rest.to_multiset().insert(last));
        if pred(last) {
            assert(s.filter(pred) == rest.filter(pred).push(last));
            assert(rest.filter(pred).push(last).to_multiset() =~= rest.filter(
                pred,
            ).to_multiset().insert(last));
            assert(rest.to_multiset().insert(last).filter(pred) =~= rest.to_multiset().filter(
                pred,
            ).insert(last)) by {
                assert(forall|v: A|
                    rest.to_multiset().insert(last).filter(pred).count(v) == rest.to_multiset(
                    ).filter(pred).insert(last).count(v));
            }
        } else {
            assert(s.filter(pred) == rest.filter(pred));
            assert(rest.to_multiset().insert(last).filter(pred) =~= rest.to_multiset().filter(
                pred,
            )) by {
                assert(forall|v: A|
                    rest.to_multiset().insert(last).filter(pred).count(v) == rest.to_multiset(
                    ).filter(pred).count(v));
            }
        }
    }
}

/// Text the store hands back unchanged from an INTEGER-typed column: a
/// canonical decimal, without leading zeros or a sign.
pub open spec fn canonical_nat_text(t: Seq<char>) -> bool {
    &&& text::all_digits(t)
    &&& 1 <= t.len() <= 18
    &&& (t.len() == 1 || t[0] != '0')
}

/// Text that survives the coordinate columns' round trip through degrees: a
/// canonical signed decimal whose magnitude stays on the globe's microdegree
/// range.
pub open spec fn canonical_coord_text(t: Seq<char>) -> bool {
    if t.len() >= 1 && t[0] == '-' {
        &&& canonical_nat_text(t.drop_first())
        &&& 1 <= text::dec_value(t.drop_first()) <= 180_000_000
    } else {
        &&& canonical_nat_text(t)
        &&& text::dec_value(t) <= 180_000_000
    }
}

/// Cells the store hands back exactly as given. SQLite canonicalizes what it
/// stores by column affinity, so the numeric columns must be given canonical
/// decimals, the timestamp must not look like a number (a colon suffices,
/// and every RFC 3339 instant has one), and the online flag is the stored
/// `1` or `0`.
pub open spec fn canonical_row(c: RowCells) -> bool {
    &&& c.len() == 21
    &&& c[4] matches Some(ts) && ts.contains(':')
    &&& (c[9] matches Some(t) ==> canonical_coord_text(t))
    &&& (c[10] matches Some(t) ==> canonical_coord_text(t))
    &&& (c[12] == Some("1"@) || c[12] == Some("0"@))
    &&& (c[17] matches Some(t) ==> canonical_nat_text(t))
    &&& (c[18] matches Some(t) ==> canonical_nat_text(t))
    &&& (c[19] matches Some(t) ==> canonical_nat_text(t))
    &&& (c[20] matches Some(t) ==> canonical_nat_text(t))
}

/// The coordinate cells of a row decode cleanly: either both are present,
/// parse, and lie on the globe, or the position counts as absent.
pub open spec fn row_position_ok(c: RowCells) -> bool {
    match (c[9], c[10]) {
        (Some(a), Some(b)) => {
            &&& text::spec_parse_i64(a) matches Some(la) && -90_000_000 <= la <= 90_000_000
            &&& text::spec_parse_i64(b) matches Some(lo) && -180_000_000 <= lo <= 180_000_000
        },
        _ => true,
    }
}

/// The position a row decodes to.
pub open spec fn row_position(c: RowCells) -> Option<Position> {
    match (c[9], c[10]) {
        (Some(a), Some(b)) => match (text::spec_parse_i64(a), text::spec_parse_i64(b)) {
            (Some(la), Some(lo)) => Some(Position { latitude_micro: la, longitude_micro: lo }),
            _ => None,
        },
        _ => None,
    }
}

/// A row decodes back into a meeting: the required cells are present, the
/// organization and numbers parse, and the time fields name a time of day.
pub open spec fn row_decodes(c: RowCells) -> bool {
    &&& c.len() == 21
    &&& c[0] is Some
    &&& c[1] matches Some(o) && Organization::spec_parse(o) is Ok
    &&& c[3] is Some
    &&& c[4] matches Some(ts) && ts.contains(':')
    &&& row_position_ok(c)
    &&& c[12] matches Some(f) && (f == "1"@ || f == "0"@)
    &&& c[12] == Some("0"@) ==> c[13] is None
    &&& match c[17] {
        Some(t) => text::spec_parse_u64(t) matches Some(d) && d < 1_000_000_000_000_000_000,
        None => true,
    }
    &&& cell_nat(c[18]) matches Some(d) && d <= 6
    &&& cell_nat(c[19]) matches Some(h) && h < 24
    &&& cell_nat(c[20]) matches Some(mi) && mi < 60
}

/// The meeting `m` is what the row `c` decodes to, field by field.
pub open spec fn decoded_matches(c: RowCells, m: Meeting) -> bool {
    &&& c[0] == Some(m.name@)
    &&& c[1] matches Some(o) && Organization::spec_parse(o) == Ok::<
        Organization,
        crate::model::OrganizationParseError,
    >(m.org)
    &&& opt_text(m.notes) == c[2]
    &&& c[3] == Some(m.source@)
    &&& c[4] == Some(m.updated_at@)
    &&& opt_text(m.location.country) == c[5]
    &&& opt_text(m.location.region) == c[6]
    &&& opt_text(m.location.name) == c[7]
    &&& opt_text(m.location.notes) == c[8]
    &&& m.location.position == row_position(c)
    &&& opt_text(m.location.address) == c[11]
    &&& m.online_options.is_online == (c[12] == Some("1"@))
    &&& opt_text(m.online_options.url) == c[13]
    &&& opt_text(m.online_options.notes) == c[14]
    &&& opt_text(m.contact.phone) == c[15]
    &&& opt_text(m.contact.email) == c[16]
    &&& m.duration == match c[17] {
        Some(t) => Some(text::spec_parse_u64(t)->0),
        None => None::<u64>,
    }
    &&& m.time == (MeetingTime::Recurring {
        day: WeekDay::with_index(cell_nat(c[18])->0 as int),
        hour: cell_nat(c[19])->0 as i32,
        minute: cell_nat(c[20])->0 as i32,
    })
    &&& m.valid()
}

/// Two meetings carry the same data, compared by the views of their texts.
pub open spec fn meeting_like(a: Meeting, b: Meeting) -> bool {
    &&& a.name@ == b.name@
    &&& a.org == b.org
    &&& opt_text(a.notes) == opt_text(b.notes)
    &&& a.source@ == b.source@
    &&& a.updated_at@ == b.updated_at@
    &&& opt_text(a.contact.email) == opt_text(b.contact.email)
    &&& opt_text(a.contact.phone) == opt_text(b.contact.phone)
    &&& a.location.position == b.location.position
    &&& opt_text(a.location.name) == opt_text(b.location.name)
    &&& opt_text(a.location.notes) == opt_text(b.location.notes)
    &&& opt_text(a.location.country) == opt_text(b.location.country)
    &&& opt_text(a.location.region) == opt_text(b.location.region)
    &&& opt_text(a.location.address) == opt_text(b.location.address)
    &&& a.online_options.is_online == b.online_options.is_online
    &&& opt_text(a.online_options.url) == opt_text(b.online_options.url)
    &&& opt_text(a.online_options.notes) == opt_text(b.online_options.notes)
    &&& a.time == b.time
    &&& a.duration == b.duration
}

/// Round trip: the row a valid meeting is stored as decodes, and anything it
/// decodes to carries the same data.
pub proof fn lemma_encode_decode_roundtrip(m: Meeting)
    requires
        m.valid(),
    ensures
        row_decodes(spec_encode_meeting(m)),
        forall|m2: Meeting|
            decoded_matches(spec_encode_meeting(m), m2) ==> meeting_like(m2, m),
{
    let c = spec_encode_meeting(m);
    crate::model::lemma_org_id_roundtrip(m.org);
    reveal_strlit("1");
    reveal_strlit("0");
    assert("1"@[0] == '1');
    assert("0"@[0] == '0');
    assert("1"@ != "0"@);
    match m.location.position {
        Some(p) => {
            text::lemma_int_string_roundtrip(p.latitude_micro);
            text::lemma_int_string_roundtrip(p.longitude_micro);
        },
        None => {},
    }
    match m.duration {
        Some(d) => {
            text::lemma_dec_string_roundtrip(d);
        },
        None => {},
    }
    match m.time {
        MeetingTime::Recurring { day, hour, minute } => {
            let di: i64 = day.index() as i64;
            text::lemma_int_string_roundtrip(di);
            text::lemma_int_string_roundtrip(hour as i64);
            text::lemma_int_string_roundtrip(minute as i64);
            assert(text::int_string(day.index()) == text::dec_string(day.index() as nat));
            assert(text::int_string(hour as int) == text::dec_string(hour as nat));
            assert(text::int_string(minute as int) == text::dec_string(minute as nat));
            text::lemma_dec_string_roundtrip(day.index() as u64);
            text::lemma_dec_string_roundtrip(hour as u64);
            text::lemma_dec_string_roundtrip(minute as u64);
            crate::model::lemma_week_day_index_roundtrip(day.index(), day);
        },
    }
}

/// The row a valid meeting is stored as is canonical: the store hands it
/// back unchanged.
pub proof fn lemma_encode_canonical(m: Meeting)
    requires
        m.valid(),
    ensures
        canonical_row(spec_encode_meeting(m)),
{
    let c = spec_encode_meeting(m);
    match m.location.position {
        Some(p) => {
            lemma_int_text_canonical(p.latitude_micro as int, 90_000_000);
            lemma_int_text_canonical(p.longitude_micro as int, 180_000_000);
        },
        None => {},
    }
    match m.duration {
        Some(d) => {
            text::lemma_dec_string_props(d as nat);
            assert(text::pow10(18) == 1_000_000_000_000_000_000) by {
                reveal_with_fuel(text::pow10, 19);
            }
            assert(canonical_nat_text(text::dec_string(d as nat)));
        },
        None => {},
    }
    match m.time {
        MeetingTime::Recurring { day, hour, minute } => {
            lemma_int_text_canonical(day.index(), 180_000_000);
            lemma_int_text_canonical(hour as int, 180_000_000);
            lemma_int_text_canonical(minute as int, 180_000_000);
            assert(canonical_nat_text(text::int_string(day.index())));
            assert(canonical_nat_text(text::int_string(hour as int)));
            assert(canonical_nat_text(text::int_string(minute as int)));
        },
    }
}

/// The decimal text of an integer of small magnitude is canonical, and a
/// magnitude within the bound keeps it a coordinate text.
pub proof fn lemma_int_text_canonical(n: int, bound: int)
    requires
        -n <= bound <= 180_000_000,
        n <= bound,
    ensures
        n >= 0 ==> canonical_nat_text(text::int_string(n)) && text::dec_value(
            text::int_string(n),
        ) == n,
        canonical_coord_text(text::int_string(n)),
{
    if n >= 0 {
        text::lemma_dec_string_props(n as nat);
        assert(text::int_string(n) == text::dec_string(n as nat));
        assert(text::pow10(18) == 1_000_000_000_000_000_000) by {
            reveal_with_fuel(text::pow10, 19);
        }
        assert(text::pow10(9) == 1_000_000_000) by {
            reveal_with_fuel(text::pow10, 10);
        }
        text::lemma_dec_value_bound(text::dec_string(n as nat));
        assert(text::dec_string(n as nat).len() <= 18);
        if n >= 1 {
            assert(text::int_string(n)[0] != '0');
        }
    } else {
        let m = (0 - n) as nat;
        text::lemma_dec_string_props(m);
        let s = text::int_string(n);
        assert(s == seq!['-'] + text::dec_string(m));
        assert(s[0] == '-');
        assert(s.drop_first() =~= text::dec_string(m));
        assert(text::pow10(9) == 1_000_000_000) by {
            reveal_with_fuel(text::pow10, 10);
        }
        assert(text::dec_string(m).len() <= 18) by {
            assert(text::pow10(18) == 1_000_000_000_000_000_000) by {
                reveal_with_fuel(text::pow10, 19);
            }
        }
        assert(text::dec_string(m)[0] != '0');
    }
}

/// Encodes a meeting into its stored row.
pub fn encode_meeting(m: &Meeting) -> (r: Vec<Option<String>>)
    requires
        m.valid(),
    ensures
        r@.len() == 21,
        r.deep_view() == spec_encode_meeting(*m),
{
    let mut c: Vec<Option<String>> = Vec::new();
    c.push(Some(m.name.clone()));
    c.push(Some(m.org.to_string()));
    c.push(m.notes.clone());
    c.push(Some(m.source.clone()));
    c.push(Some(m.updated_at.clone()));
    c.push(m.location.country.clone());
    c.push(m.location.region.clone());
    c.push(m.location.name.clone());
    c.push(m.location.notes.clone());
    c.push(
        match &m.location.position {
            Some(p) => Some(text::i64_to_string(p.latitude_micro)),
            None => None,
        },
    );
    c.push(
        match &m.location.position {
            Some(p) => Some(text::i64_to_string(p.longitude_micro)),
            None => None,
        },
    );
    c.push(m.location.address.clone());
    c.push(
        Some(
            if m.online_options.is_online {
                String::from_str("1")
            } else {
                String::from_str("0")
            },
        ),
    );
    c.push(m.online_options.url.clone());
    c.push(m.online_options.notes.clone());
    c.push(m.contact.phone.clone());
    c.push(m.contact.email.clone());
    c.push(
        match m.duration {
            Some(d) => Some(text::u64_to_string(d)),
            None => None,
        },
    );
    match &m.time {
        MeetingTime::Recurring { day, hour, minute } => {
            c.push(Some(text::i64_to_string(day.to_day_index() as i64)));
            c.push(Some(text::i64_to_string(*hour as i64)));
            c.push(Some(text::i64_to_string(*minute as i64)));
        },
    }
    proof {
        assert(c.deep_view() =~= spec_encode_meeting(*m));
    }
    c
}

/// Decodes one stored row back into a meeting; rows that do not decode are
/// the caller's to skip.
pub fn decode_row(cells: &Vec<Option<String>>) -> (r: Option<Meeting>)
    ensures
        r is Some <==> row_decodes(cells.deep_view()),
        r matches Some(m) ==> decoded_matches(cells.deep_view(), m),
{
    let ghost c = cells.deep_view();
    if cells.len() != 21 {
        return None;
    }
    let name = match &cells[0] {
        Some(s) => s.clone(),
        None => {
            return None;
        },
    };
    let org = match &cells[1] {
        Some(s) => match Organization::from_str(s.as_str()) {
            Ok(o) => o,
            Err(_) => {
                return None;
            },
        },
        None => {
            return None;
        },
    };
    let source = match &cells[3] {
        Some(s) => s.clone(),
        None => {
            return None;
        },
    };
    let updated_at = match &cells[4] {
        Some(s) => s.clone(),
        None => {
            return None;
        },
    };
    let ts_chars = text::chars_of(updated_at.as_str());
    if text::find_char(&ts_chars, ':').is_none() {
        return None;
    }
    let position = match (&cells[9], &cells[10]) {
        (Some(a), Some(b)) => {
            let av = text::chars_of(a.as_str());
            let bv = text::chars_of(b.as_str());
            proof {
                assert(av@.subrange(0, av@.len() as int) =~= a@);
                assert(bv@.subrange(0, bv@.len() as int) =~= b@);
            }
            let la = match text::parse_i64_range(&av, 0, av.len()) {
                Some(la) => la,
                None => {
                    return None;
                },
            };
            let lo = match text::parse_i64_range(&bv, 0, bv.len()) {
                Some(lo) => lo,
                None => {
                    return None;
                },
            };
            match Position::checked_new(la, lo) {
                Some(p) => Some(p),
                None => {
                    return None;
                },
            }
        },
        _ => None,
    };
    proof {
        reveal_strlit("1");
        reveal_strlit("0");
        assert("1"@[0] == '1');
        assert("0"@[0] == '0');
        assert("1"@ != "0"@);
    }
    let is_online = match &cells[12] {
        Some(f) => {
            if text::str_eq(f.as_str(), "1") {
                true
            } else if text::str_eq(f.as_str(), "0") {
                false
            } else {
                return None;
            }
        },
        None => {
            return None;
        },
    };
    if !is_online {
        match &cells[13] {
            Some(_) => {
                return None;
            },
            None => {},
        }
    }
    let duration = match &cells[17] {
        Some(t) => {
            let tv = text::chars_of(t.as_str());
            proof {
                assert(tv@.subrange(0, tv@.len() as int) =~= t@);
                text::lemma_parse_u64_bound(t@);
            }
            match text::parse_u64_range(&tv, 0, tv.len()) {
                Some(d) => Some(d),
                None => {
                    return None;
                },
            }
        },
        None => None,
    };
    let day = match &cells[18] {
        Some(t) => {
            let tv = text::chars_of(t.as_str());
            proof {
                assert(tv@.subrange(0, tv@.len() as int) =~= t@);
            }
            match text::parse_u64_range(&tv, 0, tv.len()) {
                Some(d) => {
                    match WeekDay::checked_from_day_index(d) {
                        Some(day) => day,
                        None => {
                            return None;
                        },
                    }
                },
                None => {
                    return None;
                },
            }
        },
        None => {
            return None;
        },
    };
    let hour = match &cells[19] {
        Some(t) => {
            let tv = text::chars_of(t.as_str());
            proof {
                assert(tv@.subrange(0, tv@.len() as int) =~= t@);
            }
            match text::parse_u64_range(&tv, 0, tv.len()) {
                Some(h) if h < 24 => h as i32,
                _ => {
                    return None;
                },
            }
        },
        None => {
            return None;
        },
    };
    let minute = match &cells[20] {
        Some(t) => {
            let tv = text::chars_of(t.as_str());
            proof {
                assert(tv@.subrange(0, tv@.len() as int) =~= t@);
            }
            match text::parse_u64_range(&tv, 0, tv.len()) {
                Some(mi) if mi < 60 => mi as i32,
                _ => {
                    return None;
                },
            }
        },
        None => {
            return None;
        },
    };
    Some(
        Meeting {
            name,
            org,
            notes: cells[2].clone(),
            source,
            updated_at,
            contact: Contact { email: cells[16].clone(), phone: cells[15].clone() },
            location: Location {
                position,
                name: cells[7].clone(),
                notes: cells[8].clone(),
                country: cells[5].clone(),
                region: cells[6].clone(),
                address: cells[11].clone(),
            },
            online_options: OnlineOptions {
                url: cells[13].clone(),
                notes: cells[14].clone(),
                is_online,
            },
            time: MeetingTime::Recurring { day, hour, minute },
            duration,
        },
    )
}

/// What the store's committed snapshot holds, behind the given connection:
/// its rows, in unspecified order.
pub uninterp spec fn stored_rows(conn: rusqlite::Connection) -> Seq<RowCells>;

/// What the open write transaction behind the given connection has staged.
pub uninterp spec fn txn_rows(conn: rusqlite::Connection) -> Seq<RowCells>;

/// The meeting index: a connection to the store, modeled by the sequence of
/// rows its committed snapshot holds.
pub struct MeetingIndex {
    conn: rusqlite::Connection,
}

impl MeetingIndex {
    /// The rows of the committed snapshot, in unspecified order.
    pub closed spec fn rows(self) -> Seq<RowCells> {
        stored_rows(self.conn)
    }

    /// Relies on rusqlite's `Connection::open_with_flags` and `execute`:
    /// opens or creates the database file and creates the `meetings` table
    /// if it is absent. Coordinates already in the file are sanitized to the
    /// model: pairs off the globe become NULL (the position invariant), and
    /// the rest are snapped to the microdegree grid, so that the distance a
    /// search computes is a function of a row's microdegree cells. Nothing
    /// else is assumed about the rows already there.
    #[verifier::external_body]
    fn open_raw(path: &str) -> Result<MeetingIndex, rusqlite::Error> {
        let conn = rusqlite::Connection::open_with_flags(
            std::path::Path::new(path),
            rusqlite::OpenFlags::SQLITE_OPEN_CREATE | rusqlite::OpenFlags::SQLITE_OPEN_READ_WRITE,
        )?;
        conn.execute(
            "CREATE TABLE IF NOT EXISTS meetings (name TEXT NOT NULL, org TEXT NOT NULL, notes TEXT NULL, source TEXT NOT NULL, updated_at DATETIME NOT NULL, country TEXT NULL, region TEXT NULL, location_name TEXT NULL, location_notes TEXT NULL, latitude REAL NULL, longitude REAL NULL, address TEXT NULL, online INTEGER NOT NULL, online_url TEXT NULL, online_notes TEXT NULL, phone TEXT NULL, email TEXT NULL, duration INTEGER NULL, day INTEGER NULL, hour INTEGER NULL, minute INTEGER NULL)",
            [],
        )?;
        conn.execute_batch(
            "UPDATE meetings SET latitude = NULL, longitude = NULL WHERE latitude IS NOT NULL AND (latitude < -90 OR latitude > 90 OR longitude IS NULL OR longitude < -180 OR longitude > 180); UPDATE meetings SET latitude = ROUND(latitude*1000000)/1000000, longitude = ROUND(longitude*1000000)/1000000 WHERE latitude IS NOT NULL;",
        )?;
        Ok(MeetingIndex { conn })
    }

    /// Opens the index at the given file path, creating the store on first
    /// use.
    pub fn open(path: &str) -> Result<MeetingIndex, IndexError> {
        match MeetingIndex::open_raw(path) {
            Ok(idx) => Ok(idx),
            Err(e) => Err(IndexError::SqliteError(e)),
        }
    }

    /// Relies on rusqlite's `execute_batch` running `BEGIN IMMEDIATE`: opens
    /// the write transaction whose staged rows start as the snapshot.
    #[verifier::external_body]
    fn begin_raw(self) -> (r: Result<MeetingImport, rusqlite::Error>)
        ensures
            r matches Ok(im) ==> stored_rows(im.index.conn) == stored_rows(self.conn) && txn_rows(
                im.index.conn,
            ) == stored_rows(self.conn) && im.added == 0,
    {
        match self.conn.execute_batch("BEGIN IMMEDIATE") {
            Ok(()) => Ok(MeetingImport { index: self, added: 0 }),
            Err(e) => Err(e),
        }
    }

    /// Begins an import: opens the write transaction. At most one import
    /// exists per index, which the handle owning the index enforces.
    pub fn start_import(self) -> (r: Result<MeetingImport, IndexError>)
        ensures
            r matches Ok(im) ==> im.base() == self.rows() && im.staged_rows() == self.rows()
                && im.added() == 0,
    {
        match self.begin_raw() {
            Ok(im) => Ok(im),
            Err(e) => Err(IndexError::SqliteError(e)),
        }
    }

    /// Relies on rusqlite's `prepare` and `query_map` over a SELECT of every
    /// row, each column cast to text and the coordinates read back as
    /// microdegree integers (exact for the globe's range): returns exactly
    /// the rows of the snapshot, in unspecified order.
    #[verifier::external_body]
    fn select_all(&self) -> (r: Result<Vec<Vec<Option<String>>>, rusqlite::Error>)
        ensures
            r matches Ok(rows) ==> rows.deep_view().to_multiset() == stored_rows(
                self.conn,
            ).to_multiset(),
    {
        let mut stmt = self.conn.prepare(
            "SELECT CAST(name AS TEXT), CAST(org AS TEXT), CAST(notes AS TEXT), CAST(source AS TEXT), CAST(updated_at AS TEXT), CAST(country AS TEXT), CAST(region AS TEXT), CAST(location_name AS TEXT), CAST(location_notes AS TEXT), CAST(CAST(ROUND(latitude*1000000) AS INTEGER) AS TEXT), CAST(CAST(ROUND(longitude*1000000) AS INTEGER) AS TEXT), CAST(address AS TEXT), CAST(online AS TEXT), CAST(online_url AS TEXT), CAST(online_notes AS TEXT), CAST(phone AS TEXT), CAST(email AS TEXT), CAST(duration AS TEXT), CAST(day AS TEXT), CAST(hour AS TEXT), CAST(minute AS TEXT) FROM meetings",
        )?;
        let rows = stmt.query_map([], |row| {
            let mut cells: Vec<Option<String>> = Vec::new();
            for i in 0..21 {
                cells.push(row.get(i)?);
            }
            Ok(cells)
        })?;
        rows.collect()
    }

    /// Relies on rusqlite's `prepare` and `query_map` over a SELECT whose
    /// first column is the store's Haversine distance, rounded to
    /// nano-kilometers, with the rows filtered to distances below the radius
    /// and ordered by that distance: returns exactly the rows of the
    /// snapshot within the radius, each with its distance, nearest first.
    #[verifier::external_body]
    fn select_within(&self, lat: i64, lon: i64, radius: i64) -> (r: Result<
        Vec<(i64, Vec<Option<String>>)>,
        rusqlite::Error,
    >)
        ensures
            r matches Ok(pairs) ==> {
                &&& pairs@.map_values(|x: (i64, Vec<Option<String>>)| x.1.deep_view()).to_multiset()
                    == stored_rows(self.conn).to_multiset().filter(
                    within_pred(lat as int, lon as int, radius as int),
                )
                &&& forall|i: int|
                    0 <= i < pairs@.len() ==> {
                        let c = (#[trigger] pairs@[i]).1.deep_view();
                        &&& row_within(c, lat as int, lon as int, radius as int)
                        &&& pairs@[i].0 as int == haversine_nano_km(
                            lat as int,
                            lon as int,
                            cell_int(c[9])->0 as int,
                            cell_int(c[10])->0 as int,
                        )
                        &&& pairs@[i].0 < radius
                    }
                &&& forall|i: int, j: int|
                    0 <= i <= j < pairs@.len() ==> (#[trigger] pairs@[i]).0 <= (
                    #[trigger] pairs@[j]).0
            },
    {
        let sql = format!(
            "SELECT CAST(ROUND(12742 * ASIN(SQRT((1 - COS((latitude - CAST({lat} AS REAL)/1000000) * (ACOS(-1)/180))) / 2 + COS(CAST({lat} AS REAL)/1000000 * (ACOS(-1)/180)) * COS(latitude * (ACOS(-1)/180)) * (1 - COS((longitude - CAST({lon} AS REAL)/1000000) * (ACOS(-1)/180))) / 2)) * 1000000000) AS INTEGER) AS distance, CAST(name AS TEXT), CAST(org AS TEXT), CAST(notes AS TEXT), CAST(source AS TEXT), CAST(updated_at AS TEXT), CAST(country AS TEXT), CAST(region AS TEXT), CAST(location_name AS TEXT), CAST(location_notes AS TEXT), CAST(CAST(ROUND(latitude*1000000) AS INTEGER) AS TEXT), CAST(CAST(ROUND(longitude*1000000) AS INTEGER) AS TEXT), CAST(address AS TEXT), CAST(online AS TEXT), CAST(online_url AS TEXT), CAST(online_notes AS TEXT), CAST(phone AS TEXT), CAST(email AS TEXT), CAST(duration AS TEXT), CAST(day AS TEXT), CAST(hour AS TEXT), CAST(minute AS TEXT) FROM meetings WHERE distance < {radius} ORDER BY distance",
        );
        let mut stmt = self.conn.prepare(sql.as_str())?;
        let rows = stmt.query_map([], |row| {
            let d: i64 = row.get(0)?;
            let mut cells: Vec<Option<String>> = Vec::new();
            for i in 1..22 {
                cells.push(row.get(i)?);
            }
            Ok((d, cells))
        })?;
        rows.collect()
    }

    /// Searches the snapshot. Without a distance constraint every row that
    /// decodes is returned; with one, exactly the rows within the radius,
    /// each with its distance, in non-decreasing distance order. Rows that
    /// do not decode are skipped silently.
    pub fn search(&self, opts: &SearchOptions) -> (r: Result<Vec<SearchMeeting>, IndexError>)
        ensures
            r matches Ok(v) ==> match opts.distance {
                None => {
                    &&& v@.len() == self.rows().to_multiset().filter(decodes_pred()).len()
                    &&& exists|rs: Seq<RowCells>|
                        #[trigger] rs.to_multiset() == self.rows().to_multiset()
                            && decodes_rows_in_order(rs, v@)
                    &&& (forall|c: RowCells|
                        self.rows().to_multiset().contains(c) ==> #[trigger] row_decodes(c))
                        ==> v@.len() == self.rows().len()
                    &&& forall|k: int|
                        0 <= k < v@.len() ==> {
                            &&& (#[trigger] v@[k]).distance_nano_km is None
                            &&& v@[k].meeting.valid()
                            &&& exists|c: RowCells|
                                self.rows().to_multiset().contains(c) && decoded_matches(
                                    c,
                                    v@[k].meeting,
                                )
                        }
                },
                Some(ds) => {
                    &&& v@.len() == self.rows().to_multiset().filter(
                        within_pred(
                            ds.latitude_micro as int,
                            ds.longitude_micro as int,
                            ds.distance_nano_km as int,
                        ),
                    ).filter(decodes_pred()).len()
                    &&& exists|rs: Seq<RowCells>|
                        #[trigger] rs.to_multiset() == self.rows().to_multiset().filter(
                            within_pred(
                                ds.latitude_micro as int,
                                ds.longitude_micro as int,
                                ds.distance_nano_km as int,
                            ),
                        ) && decodes_rows_in_order(rs, v@)
                    &&& (forall|c: RowCells|
                        self.rows().to_multiset().contains(c) ==> #[trigger] row_decodes(c))
                        ==> v@.len() == self.rows().to_multiset().filter(
                        within_pred(
                            ds.latitude_micro as int,
                            ds.longitude_micro as int,
                            ds.distance_nano_km as int,
                        ),
                    ).len()
                    &&& forall|k: int|
                        0 <= k < v@.len() ==> {
                            &&& (#[trigger] v@[k]).meeting.valid()
                            &&& v@[k].meeting.location.position matches Some(p)
                                && v@[k].distance_nano_km matches Some(d) && d as int
                                == haversine_nano_km(
                                ds.latitude_micro as int,
                                ds.longitude_micro as int,
                                p.latitude_micro as int,
                                p.longitude_micro as int,
                            ) && d < ds.distance_nano_km
                            &&& exists|c: RowCells|
                                self.rows().to_multiset().contains(c) && decoded_matches(
                                    c,
                                    v@[k].meeting,
                                )
                        }
                    &&& forall|k1: int, k2: int|
                        0 <= k1 <= k2 < v@.len() ==> (#[trigger] v@[k1]).distance_nano_km->0 <= (
                        #[trigger] v@[k2]).distance_nano_km->0
                },
            },
    {
        match &opts.distance {
            None => {
                let rows = match self.select_all() {
                    Ok(rows) => rows,
                    Err(e) => {
                        return Err(IndexError::SqliteError(e));
                    },
                };
                let ghost all = rows.deep_view();
                let mut out: Vec<SearchMeeting> = Vec::new();
                let mut i: usize = 0;
                proof {
                    broadcast use vstd::seq_lib::group_to_multiset_ensures;
                    reveal(Seq::filter);
                    assert(all.take(0) =~= Seq::<RowCells>::empty());
                }
                while i < rows.len()
                    invariant
                        i <= rows@.len(),
                        all == rows.deep_view(),
                        all.to_multiset() == self.rows().to_multiset(),
                        all.len() == rows@.len(),
                        out@.len() <= i,
                        (forall|j: int| 0 <= j < i ==> row_decodes(#[trigger] all[j])) ==> out@.len()
                            == i,
                        out@.len() == decodable_rows(all.take(i as int)).len(),
                        forall|k: int|
                            0 <= k < out@.len() ==> decoded_matches(
                                decodable_rows(all.take(i as int))[k],
                                (#[trigger] out@[k]).meeting,
                            ),
                        forall|k: int|
                            0 <= k < out@.len() ==> {
                                &&& (#[trigger] out@[k]).distance_nano_km is None
                                &&& out@[k].meeting.valid()
                                &&& exists|c: RowCells|
                                    self.rows().to_multiset().contains(c) && decoded_matches(
                                        c,
                                        out@[k].meeting,
                                    )
                            },
                    decreases rows@.len() - i,
                {
                    proof {
                        broadcast use vstd::multiset::axiom_filter_count;
                        broadcast use vstd::seq_lib::group_to_multiset_ensures;
                        assert(all[i as int] == rows@[i as int].deep_view());
                        assert(all.contains(all[i as int]));
                        assert(all.to_multiset().count(all[i as int]) > 0);
                        assert(self.rows().to_multiset().contains(all[i as int]));
                    }
                    match decode_row(&rows[i]) {
                        Some(m) => {
                            out.push(SearchMeeting { meeting: m, distance_nano_km: None });
                        },
                        None => {},
                    }
                    i += 1;
                    proof {
                        reveal(Seq::filter);
                        assert(all.take(i as int).drop_last() =~= all.take(i - 1));
                        assert(all.take(i as int).last() == all[i - 1]);
                    }
                }
                proof {
                    broadcast use vstd::seq_lib::group_to_multiset_ensures;
                    assert(all.len() == all.to_multiset().len());
                    assert(self.rows().len() == self.rows().to_multiset().len());
                    assert(all.take(all.len() as int) =~= all);
                    assert(decodes_rows_in_order(all, out@));
                    lemma_filter_to_multiset(all, decodes_pred());
                    assert(all.filter(decodes_pred()).len() == all.filter(
                        decodes_pred(),
                    ).to_multiset().len());
                    assert(out@.len() == self.rows().to_multiset().filter(decodes_pred()).len());
                    if forall|c: RowCells|
                        self.rows().to_multiset().contains(c) ==> #[trigger] row_decodes(c) {
                        assert forall|j: int| 0 <= j < all.len() implies row_decodes(
                            #[trigger] all[j],
                        ) by {
                            broadcast use vstd::multiset::axiom_filter_count;
                            broadcast use vstd::seq_lib::group_to_multiset_ensures;
                            assert(all.contains(all[j]));
                            assert(all.to_multiset().count(all[j]) > 0);
                            assert(self.rows().to_multiset().contains(all[j]));
                        }
                        assert(out@.len() == all.len());
                        assert(all.len() == all.to_multiset().len());
                        assert(self.rows().len() == self.rows().to_multiset().len());
                    }
                }
                Ok(out)
            },
            Some(ds) => {
                let pairs = match self.select_within(
                    ds.latitude_micro,
                    ds.longitude_micro,
                    ds.distance_nano_km,
                ) {
                    Ok(pairs) => pairs,
                    Err(e) => {
                        return Err(IndexError::SqliteError(e));
                    },
                };
                let ghost lat = ds.latitude_micro as int;
                let ghost lon = ds.longitude_micro as int;
                let ghost radius = ds.distance_nano_km as int;
                let ghost cellseq = pairs@.map_values(
                    |x: (i64, Vec<Option<String>>)| x.1.deep_view(),
                );
                let mut out: Vec<SearchMeeting> = Vec::new();
                let mut i: usize = 0;
                proof {
                    broadcast use vstd::seq_lib::group_to_multiset_ensures;
                    reveal(Seq::filter);
                    assert(cellseq.take(0) =~= Seq::<RowCells>::empty());
                }
                while i < pairs.len()
                    invariant
                        i <= pairs@.len(),
                        lat == ds.latitude_micro as int,
                        lon == ds.longitude_micro as int,
                        radius == ds.distance_nano_km as int,
                        cellseq == pairs@.map_values(
                            |x: (i64, Vec<Option<String>>)| x.1.deep_view(),
                        ),
                        cellseq.to_multiset() == self.rows().to_multiset().filter(
                            within_pred(lat, lon, radius),
                        ),
                        cellseq.len() == pairs@.len(),
                        forall|j: int|
                            0 <= j < pairs@.len() ==> {
                                let c = (#[trigger] pairs@[j]).1.deep_view();
                                &&& row_within(c, lat, lon, radius)
                                &&& pairs@[j].0 as int == haversine_nano_km(
                                    lat,
                                    lon,
                                    cell_int(c[9])->0 as int,
                                    cell_int(c[10])->0 as int,
                                )
                                &&& pairs@[j].0 < radius
                            },
                        forall|j1: int, j2: int|
                            0 <= j1 <= j2 < pairs@.len() ==> (#[trigger] pairs@[j1]).0 <= (
                            #[trigger] pairs@[j2]).0,
                        out@.len() <= i,
                        (forall|j: int| 0 <= j < i ==> row_decodes(#[trigger] cellseq[j]))
                            ==> out@.len() == i,
                        out@.len() == decodable_rows(cellseq.take(i as int)).len(),
                        forall|k: int|
                            0 <= k < out@.len() ==> decoded_matches(
                                decodable_rows(cellseq.take(i as int))[k],
                                (#[trigger] out@[k]).meeting,
                            ),
                        forall|k: int|
                            0 <= k < out@.len() ==> {
                                &&& (#[trigger] out@[k]).meeting.valid()
                                &&& out@[k].meeting.location.position matches Some(p)
                                    && out@[k].distance_nano_km matches Some(d) && d as int
                                    == haversine_nano_km(
                                    lat,
                                    lon,
                                    p.latitude_micro as int,
                                    p.longitude_micro as int,
                                ) && d < ds.distance_nano_km
                                &&& exists|c: RowCells|
                                    self.rows().to_multiset().contains(c) && decoded_matches(
                                        c,
                                        out@[k].meeting,
                                    )
                            },
                        forall|k1: int, k2: int|
                            0 <= k1 <= k2 < out@.len() ==> (#[trigger] out@[k1]).distance_nano_km->0
                                <= (#[trigger] out@[k2]).distance_nano_km->0,
                        forall|k: int, j: int|
                            0 <= k < out@.len() && i <= j < pairs@.len() ==> (
                            #[trigger] out@[k]).distance_nano_km->0 <= (#[trigger] pairs@[j]).0,
                    decreases pairs@.len() - i,
                {
                    let d = pairs[i].0;
                    let ghost c = pairs@[i as int].1.deep_view();
                    proof {
                        broadcast use vstd::multiset::axiom_filter_count;
                        broadcast use vstd::seq_lib::group_to_multiset_ensures;
                        assert(cellseq[i as int] == c);
                        assert(cellseq.contains(c));
                        assert(cellseq.to_multiset().count(c) > 0);
                        assert(self.rows().to_multiset().filter(
                            within_pred(lat, lon, radius),
                        ).count(c) > 0);
                        assert(self.rows().to_multiset().contains(c));
                    }
                    match decode_row(&pairs[i].1) {
                        Some(m) => {
                            proof {
                                assert(decoded_matches(c, m));
                                assert(row_within(c, lat, lon, radius));
                                assert(m.location.position == row_position(c));
                                assert(cell_int(c[9]) matches Some(la) && cell_int(c[10]) matches Some(lo)
                                    && row_position(c) == Some(
                                    Position { latitude_micro: la, longitude_micro: lo },
                                ));
                                assert(d as int == haversine_nano_km(
                                    lat,
                                    lon,
                                    cell_int(c[9])->0 as int,
                                    cell_int(c[10])->0 as int,
                                ));
                            }
                            out.push(SearchMeeting { meeting: m, distance_nano_km: Some(d) });
                            proof {
                                let k = out@.len() - 1;
                                assert(out@[k].meeting == m);
                                assert(out@[k].distance_nano_km == Some(d));
                                assert(d == pairs@[i as int].0);
                                assert(pairs@[i as int].0 < radius);
                                assert(radius == ds.distance_nano_km as int);
                                assert(d < ds.distance_nano_km);
                                assert(m.location.position matches Some(p) && d as int
                                    == haversine_nano_km(
                                    lat,
                                    lon,
                                    p.latitude_micro as int,
                                    p.longitude_micro as int,
                                ));
                            }
                        },
                        None => {},
                    }
                    i += 1;
                    proof {
                        reveal(Seq::filter);
                        assert(cellseq.take(i as int).drop_last() =~= cellseq.take(i - 1));
                        assert(cellseq.take(i as int).last() == cellseq[i - 1]);
                    }
                }
                proof {
                    broadcast use vstd::seq_lib::group_to_multiset_ensures;
                    assert(cellseq.len() == cellseq.to_multiset().len());
                    assert(cellseq.take(cellseq.len() as int) =~= cellseq);
                    assert(decodes_rows_in_order(cellseq, out@));
                    lemma_filter_to_multiset(cellseq, decodes_pred());
                    assert(cellseq.filter(decodes_pred()).len() == cellseq.filter(
                        decodes_pred(),
                    ).to_multiset().len());
                    assert(out@.len() == self.rows().to_multiset().filter(
                        within_pred(lat, lon, radius),
                    ).filter(decodes_pred()).len());
                    if forall|c: RowCells|
                        self.rows().to_multiset().contains(c) ==> #[trigger] row_decodes(c) {
                        assert forall|j: int| 0 <= j < cellseq.len() implies row_decodes(
                            #[trigger] cellseq[j],
                        ) by {
                            broadcast use vstd::multiset::axiom_filter_count;
                            broadcast use vstd::seq_lib::group_to_multiset_ensures;
                            assert(cellseq.contains(cellseq[j]));
                            assert(cellseq.to_multiset().count(cellseq[j]) > 0);
                            assert(self.rows().to_multiset().filter(
                                within_pred(lat, lon, radius),
                            ).count(cellseq[j]) > 0);
                            assert(self.rows().to_multiset().contains(cellseq[j]));
                        }
                        assert(out@.len() == cellseq.len());
                        assert(cellseq.len() == cellseq.to_multiset().len());
                    }
                }
                Ok(out)
            },
        }
    }
}

/// A row lies within a distance search: its coordinate cells parse and the
/// store's distance from the center is below the radius.
pub open spec fn row_within(c: RowCells, lat: int, lon: int, radius: int) -> bool {
    &&& c.len() == 21
    &&& cell_int(c[9]) matches Some(la) && cell_int(c[10]) matches Some(lo) && haversine_nano_km(
        lat,
        lon,
        la as int,
        lo as int,
    ) < radius
}

/// An open import: the write transaction over the index, with the rows it
/// has staged and the count of meetings added so far.
pub struct MeetingImport {
    index: MeetingIndex,
    added: usize,
}

impl MeetingImport {
    /// The snapshot the import began over, which survives an abandoned
    /// import.
    pub closed spec fn base(self) -> Seq<RowCells> {
        stored_rows(self.index.conn)
    }

    /// The rows staged so far, which a commit makes the snapshot.
    pub closed spec fn staged_rows(self) -> Seq<RowCells> {
        txn_rows(self.index.conn)
    }

    /// How many meetings were added so far.
    pub closed spec fn added(self) -> int {
        self.added as int
    }

    /// Relies on rusqlite's `execute` of a single-row INSERT inside the open
    /// transaction, the coordinate cells converted to degrees in the store:
    /// appends exactly this row to the staged rows. Only canonical rows are
    /// admitted, because the store canonicalizes by column affinity: a
    /// non-canonical number text, or a numeric-looking timestamp, would come
    /// back changed.
    #[verifier::external_body]
    fn insert_row(&mut self, row: &Vec<Option<String>>) -> (r: Result<(), rusqlite::Error>)
        requires
            row@.len() == 21,
            canonical_row(row.deep_view()),
        ensures
            stored_rows(final(self).index.conn) == stored_rows(old(self).index.conn),
            final(self).added == old(self).added,
            r is Ok ==> txn_rows(final(self).index.conn) == txn_rows(old(self).index.conn).push(
                row.deep_view(),
            ),
            r is Err ==> txn_rows(final(self).index.conn) == txn_rows(old(self).index.conn),
    {
        self.index.conn.execute(
            "INSERT INTO meetings(name, org, notes, source, updated_at, country, region, location_name, location_notes, latitude, longitude, address, online, online_url, online_notes, phone, email, duration, day, hour, minute) VALUES(?1, ?2, ?3, ?4, ?5, ?6, ?7, ?8, ?9, CAST(?10 AS REAL)/1000000, CAST(?11 AS REAL)/1000000, ?12, ?13, ?14, ?15, ?16, ?17, ?18, ?19, ?20, ?21)",
            rusqlite::params_from_iter(row.iter()),
        )?;
        Ok(())
    }

    /// Relies on rusqlite's `execute` of `DELETE FROM meetings` inside the
    /// open transaction: the staged rows become empty.
    #[verifier::external_body]
    fn delete_all(&mut self) -> (r: Result<(), rusqlite::Error>)
        ensures
            stored_rows(final(self).index.conn) == stored_rows(old(self).index.conn),
            final(self).added == old(self).added,
            r is Ok ==> txn_rows(final(self).index.conn) == Seq::<RowCells>::empty(),
            r is Err ==> txn_rows(final(self).index.conn) == txn_rows(old(self).index.conn),
    {
        self.index.conn.execute("DELETE FROM meetings", [])?;
        Ok(())
    }

    /// Relies on rusqlite's `execute_batch` of `COMMIT`: the staged rows
    /// become the snapshot, atomically.
    #[verifier::external_body]
    fn commit_raw(self) -> (r: Result<MeetingIndex, rusqlite::Error>)
        ensures
            r matches Ok(idx) ==> stored_rows(idx.conn) == txn_rows(self.index.conn),
    {
        match self.index.conn.execute_batch("COMMIT") {
            Ok(()) => Ok(self.index),
            Err(e) => Err(e),
        }
    }

    /// Relies on rusqlite's `execute_batch` of `ROLLBACK`: the staged rows
    /// are discarded and the snapshot the import began over stays.
    #[verifier::external_body]
    fn rollback_raw(self) -> (r: Result<MeetingIndex, rusqlite::Error>)
        ensures
            r matches Ok(idx) ==> stored_rows(idx.conn) == stored_rows(self.index.conn),
    {
        match self.index.conn.execute_batch("ROLLBACK") {
            Ok(()) => Ok(self.index),
            Err(e) => Err(e),
        }
    }

    /// Deletes every staged row; the importer calls this before adding.
    pub fn remove_old_meetings(&mut self) -> (r: Result<(), IndexError>)
        ensures
            final(self).base() == old(self).base(),
            final(self).added() == old(self).added(),
            r is Ok ==> final(self).staged_rows() == Seq::<RowCells>::empty(),
            r is Err ==> final(self).staged_rows() == old(self).staged_rows(),
    {
        match self.delete_all() {
            Ok(()) => Ok(()),
            Err(e) => Err(IndexError::SqliteError(e)),
        }
    }

    /// Stages every meeting of the batch, in order, and counts it. On an
    /// error the count is unchanged and a prefix of the batch is staged; the
    /// import is then the caller's to abandon.
    pub fn add_meetings(&mut self, meetings: &Vec<Meeting>) -> (r: Result<(), IndexError>)
        requires
            forall|k: int| 0 <= k < meetings@.len() ==> (#[trigger] meetings@[k]).valid(),
            old(self).added() + meetings@.len() <= usize::MAX,
        ensures
            final(self).base() == old(self).base(),
            r is Ok ==> final(self).staged_rows() == old(self).staged_rows()
                + meetings@.map_values(|m: Meeting| spec_encode_meeting(m)) && final(self).added()
                == old(self).added() + meetings@.len(),
            r is Err ==> final(self).added() == old(self).added() && exists|k: int|
                0 <= k <= meetings@.len() && final(self).staged_rows() == old(self).staged_rows()
                    + meetings@.take(k).map_values(|m: Meeting| spec_encode_meeting(m)),
    {
        let mut count: usize = 0;
        let mut j: usize = 0;
        while j < meetings.len()
            invariant
                j <= meetings@.len(),
                count == j,
                forall|k: int| 0 <= k < meetings@.len() ==> (#[trigger] meetings@[k]).valid(),
                old(self).added() + meetings@.len() <= usize::MAX,
                self.base() == old(self).base(),
                self.added() == old(self).added(),
                self.staged_rows() == old(self).staged_rows() + meetings@.take(
                    j as int,
                ).map_values(|m: Meeting| spec_encode_meeting(m)),
            decreases meetings@.len() - j,
        {
            let row = encode_meeting(&meetings[j]);
            proof {
                lemma_encode_canonical(meetings@[j as int]);
            }
            match self.insert_row(&row) {
                Ok(()) => {},
                Err(e) => {
                    return Err(IndexError::SqliteError(e));
                },
            }
            j += 1;
            proof {
                assert(meetings@.take(j as int) =~= meetings@.take(j - 1).push(
                    meetings@[j - 1],
                ));
                assert(meetings@.take(j as int).map_values(
                    |m: Meeting| spec_encode_meeting(m),
                ) =~= meetings@.take(j - 1).map_values(|m: Meeting| spec_encode_meeting(m)).push(
                    spec_encode_meeting(meetings@[j - 1]),
                ));
                assert(self.staged_rows() =~= old(self).staged_rows() + meetings@.take(
                    j as int,
                ).map_values(|m: Meeting| spec_encode_meeting(m)));
            }
            count += 1;
        }
        proof {
            assert(meetings@.take(meetings@.len() as int) =~= meetings@);
        }
        self.added = self.added + count;
        Ok(())
    }

    /// How many meetings this import has added.
    pub fn meetings_added(&self) -> (r: usize)
        ensures
            r as int == self.added(),
    {
        self.added
    }

    /// Commits: the staged rows become the snapshot, atomically.
    pub fn commit(self) -> (r: Result<MeetingIndex, IndexError>)
        ensures
            r matches Ok(idx) ==> idx.rows() == self.staged_rows(),
    {
        match self.commit_raw() {
            Ok(idx) => Ok(idx),
            Err(e) => Err(IndexError::SqliteError(e)),
        }
    }

    /// Abandons the import: the staged rows are discarded and the snapshot
    /// the import began over stays.
    pub fn abandon(self) -> (r: Result<MeetingIndex, IndexError>)
        ensures
            r matches Ok(idx) ==> idx.rows() == self.base(),
    {
        match self.rollback_raw() {
            Ok(idx) => Ok(idx),
            Err(e) => Err(IndexError::SqliteError(e)),
        }
    }

    /// The empty-import guard: commits only when at least one meeting was
    /// added, and otherwise abandons, so that an adapter-wide outage never
    /// replaces the snapshot with nothing.
    pub fn finish(self) -> (r: Result<(MeetingIndex, usize), IndexError>)
        ensures
            r matches Ok(p) ==> p.1 as int == self.added() && (self.added() > 0 ==> p.0.rows()
                == self.staged_rows()) && (self.added() == 0 ==> p.0.rows() == self.base()),
    {
        let n = self.meetings_added();
        if n > 0 {
            match self.commit() {
                Ok(idx) => Ok((idx, n)),
                Err(e) => Err(e),
            }
        } else {
            match self.abandon() {
                Ok(idx) => Ok((idx, n)),
                Err(e) => Err(e),
            }
        }
    }
}

} // verus!
