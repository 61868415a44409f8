//! The Dutch NA listing: a plain JSON API whose records carry a 1-based
//! weekday (Monday = 1), `H:MM` start and finish times, and a free-form
//! address from which a geocoder query is synthesized.

use vstd::prelude::*;
use crate::json;
use crate::model::{Contact, FetchMeeting, Location, Meeting, MeetingTime, OnlineOptions,
    Organization, WeekDay};
use crate::source::MeetingFetchError;
use crate::streets;
use crate::text;
use crate::times;

verus! {

/// The listing endpoint.
pub const NA_HOLLAND_URL: &'static str = "https://www.na-holland.nl/api/v1/meetings";

/// One record of the upstream listing, with every field the upstream
/// promises.
#[derive(Debug, Clone, PartialEq)]
pub struct NaRecord {
    pub id: i64,
    pub province_name: String,
    pub city_name: String,
    pub weekday: u64,
    pub start: String,
    pub finish: String,
    pub address: String,
    pub contact: String,
    pub details: String,
}

/// The record text carries every field the upstream promises, well-typed,
/// the weekday small enough for its one-byte wire type.
pub open spec fn na_record_fields_ok(t: Seq<char>) -> bool {
    &&& json::json_i64_field(t, "id"@) is Some
    &&& json::json_str_field(t, "province_name"@) is Some
    &&& json::json_str_field(t, "city_name"@) is Some
    &&& json::json_u64_field(t, "weekday"@) matches Some(w) && w <= 255
    &&& json::json_str_field(t, "start"@) is Some
    &&& json::json_str_field(t, "finish"@) is Some
    &&& json::json_str_field(t, "address"@) is Some
    &&& json::json_str_field(t, "contact"@) is Some
    &&& json::json_str_field(t, "details"@) is Some
}

/// `r` carries exactly the record text's fields.
pub open spec fn na_record_view_matches(t: Seq<char>, r: NaRecord) -> bool {
    &&& json::json_i64_field(t, "id"@) == Some(r.id)
    &&& json::json_str_field(t, "province_name"@) == Some(r.province_name@)
    &&& json::json_str_field(t, "city_name"@) == Some(r.city_name@)
    &&& json::json_u64_field(t, "weekday"@) == Some(r.weekday)
    &&& json::json_str_field(t, "start"@) == Some(r.start@)
    &&& json::json_str_field(t, "finish"@) == Some(r.finish@)
    &&& json::json_str_field(t, "address"@) == Some(r.address@)
    &&& json::json_str_field(t, "contact"@) == Some(r.contact@)
    &&& json::json_str_field(t, "details"@) == Some(r.details@)
}

/// Reads one record out of its JSON text; `None` exactly when a field is
/// missing or of the wrong type.
pub fn na_record_from_json(record: &str) -> (r: Option<NaRecord>)
    ensures
        r is Some <==> na_record_fields_ok(record@),
        r matches Some(nr) ==> na_record_view_matches(record@, nr),
{
    let id = match json::parse_i64_field(record, "id") {
        Some(v) => v,
        None => {
            return None;
        },
    };
    let province_name = match json::parse_str_field(record, "province_name") {
        Some(v) => v,
        None => {
            return None;
        },
    };
    let city_name = match json::parse_str_field(record, "city_name") {
        Some(v) => v,
        None => {
            return None;
        },
    };
    let weekday = match json::parse_u64_field(record, "weekday") {
        Some(v) => v,
        None => {
            return None;
        },
    };
    if weekday > 255 {
        return None;
    }
    let start = match json::parse_str_field(record, "start") {
        Some(v) => v,
        None => {
            return None;
        },
    };
    let finish = match json::parse_str_field(record, "finish") {
        Some(v) => v,
        None => {
            return None;
        },
    };
    let address = match json::parse_str_field(record, "address") {
        Some(v) => v,
        None => {
            return None;
        },
    };
    let contact = match json::parse_str_field(record, "contact") {
        Some(v) => v,
        None => {
            return None;
        },
    };
    let details = match json::parse_str_field(record, "details") {
        Some(v) => v,
        None => {
            return None;
        },
    };
    Some(
        NaRecord {
            id,
            province_name,
            city_name,
            weekday,
            start,
            finish,
            address,
            contact,
            details,
        },
    )
}

/// Synthesizes the geocoder query: the leftmost street-pattern match in the
/// address, its comma dropped, then a space and the city name.
pub fn na_position_query(address: &str, city: &str) -> (r: Option<String>)
    ensures
        (exists|i: int| streets::leftmost_street_match(address@, i)) ==> r is Some,
        r matches Some(q) ==> exists|i: int|
            streets::leftmost_street_match(address@, i) && q@ == address@.subrange(
                i,
                streets::street_match_end(address@, i) - 1,
            ) + " "@ + city@,
        (forall|i: int| !streets::street_match_at(address@, i)) ==> r is None,
{
    let v = text::chars_of(address);
    match streets::find_street_match(&v) {
        Some((i, j)) => {
            let street = text::sub_vec(&v, i, j - 1);
            let mut q = text::string_from_chars(&street);
            q.append(" ");
            q.append(city);
            proof {
                assert(q@ =~= v@.subrange(i as int, streets::street_match_end(v@, i as int) - 1)
                    + " "@ + city@);
            }
            Some(q)
        },
        None => None,
    }
}

/// Whether a record converts: both clock times parse and the weekday is
/// 1-based within the week.
pub open spec fn na_record_converts(rec: NaRecord) -> bool {
    &&& times::spec_parse_hhmm(rec.start@) is Some
    &&& times::spec_parse_hhmm(rec.finish@) is Some
    &&& 1 <= rec.weekday <= 7
}

/// `fm` is the normalization of `rec` ingested at `now`, field by field.
pub open spec fn na_converted(rec: NaRecord, now: Seq<char>, fm: FetchMeeting) -> bool {
    let (sh, sm) = times::spec_parse_hhmm(rec.start@)->0;
    let (eh, em) = times::spec_parse_hhmm(rec.finish@)->0;
    &&& fm.meeting.name@ == "NA Holland | "@ + rec.city_name@ + " "@ + rec.address@
    &&& fm.meeting.org == Organization::NarcoticsAnonymous
    &&& fm.meeting.notes matches Some(d) && d@ == rec.details@
    &&& fm.meeting.source@ == "https://www.na-holland.nl/#/meetings/"@ + text::int_string(
        rec.id as int,
    )
    &&& fm.meeting.updated_at@ == now
    &&& fm.meeting.contact.email is None
    &&& fm.meeting.contact.phone is None
    &&& fm.meeting.online_options.url is None
    &&& fm.meeting.online_options.notes is None
    &&& fm.meeting.online_options.is_online == (rec.province_name@ == "ONLINE"@)
    &&& fm.meeting.location.position is None
    &&& fm.meeting.location.name is None
    &&& fm.meeting.location.notes is None
    &&& fm.meeting.location.country matches Some(c) && c@ == "Nederland"@
    &&& fm.meeting.location.region matches Some(p) && p@ == rec.province_name@
    &&& fm.meeting.location.address matches Some(a) && a@ == rec.address@
    &&& fm.meeting.time matches MeetingTime::Recurring { day, hour, minute } && day.index()
        == rec.weekday - 1 && hour == sh as i32 && minute == sm as i32
    &&& fm.meeting.duration == times::spec_span_seconds(sh as int, sm as int, eh as int, em as int)
    &&& (exists|i: int| streets::leftmost_street_match(rec.address@, i)) ==> fm.position_query
        is Some
    &&& fm.position_query matches Some(q) ==> exists|i: int|
        streets::leftmost_street_match(rec.address@, i) && q@ == rec.address@.subrange(
            i,
            streets::street_match_end(rec.address@, i) - 1,
        ) + " "@ + rec.city_name@
    &&& (forall|i: int| !streets::street_match_at(rec.address@, i)) ==> fm.position_query is None
    &&& fm.meeting.valid()
}

/// Normalizes one upstream record. A record that converts yields a meeting
/// whose every field is pinned by `na_converted`; one that does not is
/// dropped.
pub fn na_record_to_fetch_meeting(rec: &NaRecord, now: &str) -> (r: Option<FetchMeeting>)
    requires
        now@.contains(':'),
    ensures
        r is Some <==> na_record_converts(*rec),
        r matches Some(fm) ==> na_converted(*rec, now@, fm),
{
    proof {
        times::lemma_parse_hhmm_ranges(rec.start@);
        times::lemma_parse_hhmm_ranges(rec.finish@);
    }
    let (start_h, start_m) = match times::parse_hhmm(rec.start.as_str()) {
        Some(t) => t,
        None => {
            return None;
        },
    };
    let (end_h, end_m) = match times::parse_hhmm(rec.finish.as_str()) {
        Some(t) => t,
        None => {
            return None;
        },
    };
    if rec.weekday < 1 || rec.weekday > 7 {
        return None;
    }
    let query = na_position_query(rec.address.as_str(), rec.city_name.as_str());
    let mut name = String::from_str("NA Holland | ");
    name.append(rec.city_name.as_str());
    name.append(" ");
    name.append(rec.address.as_str());
    let mut source = String::from_str("https://www.na-holland.nl/#/meetings/");
    let id_text = text::i64_to_string(rec.id);
    source.append(id_text.as_str());
    let duration = times::span_seconds(start_h, start_m, end_h, end_m);
    let is_online = text::str_eq(rec.province_name.as_str(), "ONLINE");
    proof {
        assert(name@ =~= "NA Holland | "@ + rec.city_name@ + " "@ + rec.address@);
        assert(source@ =~= "https://www.na-holland.nl/#/meetings/"@ + text::int_string(
            rec.id as int,
        ));
    }
    Some(
        FetchMeeting {
            position_query: query,
            meeting: Meeting {
                name,
                org: Organization::NarcoticsAnonymous,
                notes: Some(rec.details.clone()),
                source,
                updated_at: String::from_str(now),
                contact: Contact { email: None, phone: None },
                online_options: OnlineOptions { url: None, notes: None, is_online },
                location: Location {
                    position: None,
                    name: None,
                    notes: None,
                    country: Some(String::from_str("Nederland")),
                    region: Some(rec.province_name.clone()),
                    address: Some(rec.address.clone()),
                },
                time: MeetingTime::Recurring {
                    day: WeekDay::from_day_index((rec.weekday - 1) as u8),
                    hour: start_h as i32,
                    minute: start_m as i32,
                },
                duration,
            },
        },
    )
}

/// The predicate selecting records that convert, as one value.
pub open spec fn na_converts_pred() -> spec_fn(NaRecord) -> bool {
    |nr: NaRecord| na_record_converts(nr)
}

/// The records of `recs` were extracted into `nrs`, and `ms` is exactly the
/// normalization of the converting ones, in order.
pub open spec fn na_batch_converts(
    recs: Seq<Seq<char>>,
    nrs: Seq<NaRecord>,
    now: Seq<char>,
    ms: Seq<FetchMeeting>,
) -> bool {
    &&& nrs.len() == recs.len()
    &&& forall|k: int| 0 <= k < recs.len() ==> na_record_view_matches(recs[k], #[trigger] nrs[k])
    &&& ms.len() == nrs.filter(na_converts_pred()).len()
    &&& forall|j: int|
        0 <= j < ms.len() ==> na_converted(nrs.filter(na_converts_pred())[j], now, (
        #[trigger] ms[j]))
}

/// The body decodes: it is a JSON object whose `meetings` array holds only
/// well-typed records.
pub open spec fn na_body_ok(body: Seq<char>) -> bool {
    &&& json::json_array_field(body, "meetings"@) is Some
    &&& forall|k: int|
        0 <= k < json::json_array_field(body, "meetings"@)->0.len()
            ==> na_record_fields_ok(#[trigger] json::json_array_field(body, "meetings"@)->0[k])
}

/// Parses the whole listing body and normalizes every record: the body must
/// be a JSON object with a `meetings` array of well-typed records, and the
/// result is exactly the converting records' meetings, in order; records
/// that do not convert are dropped silently.
pub fn na_parse_response(body: &str, now: &str) -> (r: Result<
    Vec<FetchMeeting>,
    MeetingFetchError,
>)
    requires
        now@.contains(':'),
    ensures
        r is Ok <==> na_body_ok(body@),
        r matches Ok(ms) ==> exists|nrs: Seq<NaRecord>|
            #[trigger] na_batch_converts(
                json::json_array_field(body@, "meetings"@)->0,
                nrs,
                now@,
                ms@,
            ),
        r matches Ok(ms) ==> forall|k: int|
            0 <= k < ms@.len() ==> (#[trigger] ms@[k]).meeting.valid() && ms@[k].meeting.org
                == Organization::NarcoticsAnonymous,
{
    let records = match json::parse_array_field(body, "meetings") {
        Some(a) => a,
        None => {
            return Err(MeetingFetchError::JsonParse);
        },
    };
    let ghost recs = records.deep_view();
    let ghost mut nrs: Seq<NaRecord> = Seq::empty();
    let mut out: Vec<FetchMeeting> = Vec::new();
    let mut i: usize = 0;
    proof {
        reveal(Seq::filter);
        assert(nrs.filter(na_converts_pred()) =~= Seq::<NaRecord>::empty());
    }
    while i < records.len()
        invariant
            now@.contains(':'),
            recs == records.deep_view(),
            recs.len() == records@.len(),
            json::json_array_field(body@, "meetings"@) == Some(recs),
            i <= recs.len(),
            nrs.len() == i,
            forall|k: int| 0 <= k < i ==> na_record_fields_ok(#[trigger] recs[k]),
            forall|k: int| 0 <= k < i ==> na_record_view_matches(recs[k], #[trigger] nrs[k]),
            out@.len() == nrs.filter(na_converts_pred()).len(),
            forall|j: int|
                0 <= j < out@.len() ==> na_converted(nrs.filter(na_converts_pred())[j], now@, (
                #[trigger] out@[j])),
            forall|k: int|
                0 <= k < out@.len() ==> (#[trigger] out@[k]).meeting.valid() && out@[k].meeting.org
                    == Organization::NarcoticsAnonymous,
        decreases records@.len() - i,
    {
        proof {
            assert(recs[i as int] == records@[i as int]@);
        }
        let rec = match na_record_from_json(records[i].as_str()) {
            Some(rec) => rec,
            None => {
                proof {
                    assert(!na_record_fields_ok(recs[i as int]));
                    assert(json::json_array_field(body@, "meetings"@)->0 == recs);
                    assert(!na_body_ok(body@));
                }
                return Err(MeetingFetchError::JsonParse);
            },
        };
        let converted = na_record_to_fetch_meeting(&rec, now);
        let ghost prev = nrs;
        proof {
            nrs = prev.push(rec);
            reveal(Seq::filter);
            assert(nrs.drop_last() =~= prev);
            assert(nrs.last() == rec);
        }
        match converted {
            Some(fm) => {
                out.push(fm);
            },
            None => {},
        }
        i += 1;
    }
    proof {
        assert(na_batch_converts(recs, nrs, now@, out@));
        assert(exists|x: Seq<NaRecord>| #[trigger] na_batch_converts(recs, x, now@, out@));
        assert(json::json_array_field(body@, "meetings"@) == Some(recs));
        assert(json::json_array_field(body@, "meetings"@)->0 == recs);
        assert(exists|x: Seq<NaRecord>|
            #[trigger] na_batch_converts(
                json::json_array_field(body@, "meetings"@)->0,
                x,
                now@,
                out@,
            ));
        assert(na_body_ok(body@));
        assert(forall|k: int| 0 <= k < recs.len() ==> na_record_fields_ok(#[trigger] recs[k]));
    }
    Ok(out)
}

} // verus!
