//! TSML-family WordPress sites: the page embeds a metadata script whose JSON
//! object carries a nonce and the AJAX endpoint; the endpoint answers a list
//! of meeting records with a 0-based weekday (Sunday = 0), `H:MM` times, and
//! coordinates that arrive as either JSON numbers or numeric strings.

use vstd::prelude::*;
use crate::coords;
use crate::html;
use crate::json;
use crate::model::{Contact, Location, Meeting, MeetingTime, OnlineOptions, Organization, Position,
    WeekDay};
use crate::source::MeetingFetchError;
use crate::text;
use crate::times;

verus! {

/// The day with upstream index `d` (Sunday = 0) has canonical index
/// `(d + 6) % 7` (Monday = 0).
pub open spec fn tsml_canon_day(d: int) -> int {
    (d + 6) % 7
}

/// The inverse transform, back to the upstream encoding.
pub open spec fn tsml_upstream_day(c: int) -> int {
    (c + 1) % 7
}

/// The two day transforms invert each other on the week.
pub proof fn lemma_tsml_day_roundtrip(d: int)
    requires
        0 <= d < 7,
    ensures
        0 <= tsml_canon_day(d) < 7,
        tsml_upstream_day(tsml_canon_day(d)) == d,
        0 <= tsml_upstream_day(d) < 7,
        tsml_canon_day(tsml_upstream_day(d)) == d,
{
}

/// The canonical day index for an upstream day index within the week.
pub fn tsml_day_to_canonical(d: u64) -> (r: Option<u8>)
    ensures
        d <= 6 ==> r == Some(tsml_canon_day(d as int) as u8),
        d > 6 ==> r is None,
        r matches Some(c) ==> c < 7,
{
    if d <= 6 {
        Some(((d + 6) % 7) as u8)
    } else {
        None
    }
}

/// The configured sites: each organization with its meetings page.
pub fn tsml_sites() -> (r: Vec<(Organization, &'static str)>)
    ensures
        r@.len() == 2,
        r@[0].0 == Organization::AnonymousAlcoholics,
        r@[0].1@ == "https://alcoholics-anonymous.eu/meetings/?tsml-day=6&tsml-view=map"@,
        r@[1].0 == Organization::DebtorsAnonymous,
        r@[1].1@ == "https://debtorsanonymous.org/meetings/?tsml-day=any"@,
{
    let mut sites: Vec<(Organization, &'static str)> = Vec::new();
    sites.push(
        (
            Organization::AnonymousAlcoholics,
            "https://alcoholics-anonymous.eu/meetings/?tsml-day=6&tsml-view=map",
        ),
    );
    sites.push((Organization::DebtorsAnonymous, "https://debtorsanonymous.org/meetings/?tsml-day=any"));
    sites
}

/// What a TSML page's metadata script provides: the request nonce, the AJAX
/// endpoint, and the site's meeting-type legend.
#[derive(Debug, Clone, PartialEq)]
pub struct TsmlMetadata {
    pub nonce: String,
    pub endpoint: String,
    pub meeting_type_map: Vec<(String, String)>,
}

/// Cuts the embedded JSON object out of the script text: from the first `{`
/// through the last `}`.
pub fn extract_embedded_object(script: &str) -> (r: Result<String, MeetingFetchError>)
    ensures
        r matches Ok(t) ==> exists|a: int, b: int|
            #[trigger] brace_span_at(script@, a, b) && t@ == script@.subrange(a, b + 1),
        r is Ok <==> exists|a: int, b: int|
            0 <= a <= b < script@.len() && script@[a] == '{' && script@[b] == '}',
{
    let v = text::chars_of(script);
    let a = match text::find_char(&v, '{') {
        Some(a) => a,
        None => {
            return Err(MeetingFetchError::unexpected("cannot find the start of the json text"));
        },
    };
    let b = match text::rfind_char(&v, '}') {
        Some(b) => b,
        None => {
            return Err(MeetingFetchError::unexpected("cannot find the end of the json text"));
        },
    };
    if a > b {
        return Err(MeetingFetchError::unexpected("cannot find the end of the json text"));
    }
    let n = v.len();
    assert(b < n);
    let inner = text::sub_vec(&v, a, b + 1);
    proof {
        assert(brace_span_at(v@, a as int, b as int));
    }
    Ok(text::string_from_chars(&inner))
}

/// The metadata object carries a string `nonce`, a string `ajaxurl`, and a
/// `types` legend whose values are all strings.
pub open spec fn tsml_meta_ok(j: Seq<char>) -> bool {
    &&& json::json_wellformed(j)
    &&& json::json_has_field(j, "types"@)
    &&& json::json_object_field_entries(j, "types"@) matches Some(es) && (forall|k: int|
        0 <= k < es.len() ==> (#[trigger] es[k]).1 is Some)
    &&& json::json_has_field(j, "nonce"@)
    &&& json::json_str_field(j, "nonce"@) is Some
    &&& json::json_has_field(j, "ajaxurl"@)
    &&& json::json_str_field(j, "ajaxurl"@) is Some
}

/// `meta` carries exactly the metadata object's fields.
pub open spec fn tsml_meta_matches(j: Seq<char>, meta: TsmlMetadata) -> bool {
    &&& json::json_str_field(j, "nonce"@) == Some(meta.nonce@)
    &&& json::json_str_field(j, "ajaxurl"@) == Some(meta.endpoint@)
    &&& json::json_object_field_entries(j, "types"@) matches Some(es)
        && meta.meeting_type_map@.len() == es.len() && forall|k: int|
        0 <= k < es.len() ==> es[k].0 == (#[trigger] meta.meeting_type_map@[k]).0@ && es[k].1
            == Some(meta.meeting_type_map@[k].1@)
}

/// The page yields metadata: the script element is present, it embeds an
/// object between its first `{` and last `}`, and that object carries the
/// fields.
pub open spec fn tsml_page_meta_ok(html: Seq<char>) -> bool {
    html::element_text_of(html, "tsml_public-js-extra"@) matches Some(script) && exists|
        a: int,
        b: int,
    | #[trigger] brace_span_at(script, a, b) && tsml_meta_ok(script.subrange(a, b + 1))
}

/// Reads the metadata out of a TSML page: locates the script whose id is
/// `tsml_public-js-extra`, cuts out its embedded object, and extracts
/// `nonce`, `ajaxurl` and the `types` legend. Succeeds exactly when the page
/// yields metadata; the error names the first step that failed.
pub fn tsml_metadata_from_page(html: &str) -> (r: Result<TsmlMetadata, MeetingFetchError>)
    ensures
        r is Ok <==> tsml_page_meta_ok(html@),
        r matches Ok(meta) ==> html::element_text_of(html@, "tsml_public-js-extra"@) is Some
            && exists|a: int, b: int|
            #[trigger] brace_span_at(
                html::element_text_of(html@, "tsml_public-js-extra"@)->0,
                a,
                b,
            ) && tsml_meta_matches(
                html::element_text_of(html@, "tsml_public-js-extra"@)->0.subrange(a, b + 1),
                meta,
            ),
{
    let script = match html::element_text_by_id(html, "tsml_public-js-extra") {
        Some(s) => s,
        None => {
            return Err(MeetingFetchError::unexpected("Cannot find tsml metadata script"));
        },
    };
    let json_text = match extract_embedded_object(script.as_str()) {
        Ok(t) => t,
        Err(e) => {
            proof {
                assert(!tsml_page_meta_ok(html@)) by {
                    if tsml_page_meta_ok(html@) {
                        let (a2, b2) = choose|a2: int, b2: int|
                            #[trigger] brace_span_at(script@, a2, b2) && tsml_meta_ok(
                                script@.subrange(a2, b2 + 1),
                            );
                    }
                }
            }
            return Err(e);
        },
    };
    let ghost j = json_text@;
    let ghost (a0, b0) = choose|a0: int, b0: int|
        #[trigger] brace_span_at(script@, a0, b0) && j == script@.subrange(a0, b0 + 1);
    proof {
        lemma_brace_span_unique(script@);
    }
    if !json::parse_wellformed(json_text.as_str()) {
        proof {
            lemma_meta_not_ok(html@, script@, j, a0, b0);
        }
        return Err(MeetingFetchError::JsonParse);
    }
    if !json::parse_has_field(json_text.as_str(), "types") {
        proof {
            lemma_meta_not_ok(html@, script@, j, a0, b0);
        }
        return Err(MeetingFetchError::unexpected("Cannot find 'types' in json"));
    }
    let entries = match json::parse_object_field_entries(json_text.as_str(), "types") {
        Some(e) => e,
        None => {
            proof {
                lemma_meta_not_ok(html@, script@, j, a0, b0);
            }
            return Err(MeetingFetchError::unexpected("'types' is not a json object"));
        },
    };
    let ghost es = entries.deep_view();
    let mut meeting_type_map: Vec<(String, String)> = Vec::new();
    let mut i: usize = 0;
    while i < entries.len()
        invariant
            es == entries.deep_view(),
            es.len() == entries@.len(),
            html::element_text_of(html@, "tsml_public-js-extra"@) == Some(script@),
            brace_span_at(script@, a0, b0),
            j == script@.subrange(a0, b0 + 1),
            json::json_object_field_entries(j, "types"@) == Some(es),
            i <= es.len(),
            meeting_type_map@.len() == i,
            forall|k: int|
                0 <= k < i ==> es[k].0 == (#[trigger] meeting_type_map@[k]).0@ && es[k].1 == Some(
                    meeting_type_map@[k].1@,
                ),
        decreases entries@.len() - i,
    {
        proof {
            assert(es[i as int] == entries@[i as int].deep_view());
        }
        let value = match &entries[i].1 {
            Some(v) => v.clone(),
            None => {
                proof {
                    assert((#[trigger] es[i as int]).1 is None);
                    assert(!tsml_meta_ok(j));
                    lemma_meta_not_ok(html@, script@, j, a0, b0);
                }
                return Err(MeetingFetchError::unexpected("'types.*' is not a string"));
            },
        };
        meeting_type_map.push((entries[i].0.clone(), value));
        i += 1;
    }
    proof {
        assert forall|k: int| 0 <= k < es.len() implies (#[trigger] es[k]).1 is Some by {
            assert(es[k].1 == Some(meeting_type_map@[k].1@));
        }
    }
    if !json::parse_has_field(json_text.as_str(), "nonce") {
        proof {
            lemma_meta_not_ok(html@, script@, j, a0, b0);
        }
        return Err(MeetingFetchError::unexpected("Cannot find 'nonce' in json"));
    }
    let nonce = match json::parse_str_field(json_text.as_str(), "nonce") {
        Some(s) => s,
        None => {
            proof {
                lemma_meta_not_ok(html@, script@, j, a0, b0);
            }
            return Err(MeetingFetchError::unexpected("'nonce' is not a string"));
        },
    };
    if !json::parse_has_field(json_text.as_str(), "ajaxurl") {
        proof {
            lemma_meta_not_ok(html@, script@, j, a0, b0);
        }
        return Err(MeetingFetchError::unexpected("Cannot find 'ajaxurl' in json"));
    }
    let endpoint = match json::parse_str_field(json_text.as_str(), "ajaxurl") {
        Some(s) => s,
        None => {
            proof {
                lemma_meta_not_ok(html@, script@, j, a0, b0);
            }
            return Err(MeetingFetchError::unexpected("'ajaxurl' is not a string"));
        },
    };
    let meta = TsmlMetadata { nonce, endpoint, meeting_type_map };
    proof {
        assert(tsml_meta_ok(j));
        assert(tsml_meta_matches(j, meta));
        assert(tsml_meta_ok(script@.subrange(a0, b0 + 1)));
        assert(exists|a: int, b: int|
            #[trigger] brace_span_at(script@, a, b) && tsml_meta_ok(script@.subrange(a, b + 1)));
        assert(html::element_text_of(html@, "tsml_public-js-extra"@)->0 == script@);
        assert(brace_span_at(
            html::element_text_of(html@, "tsml_public-js-extra"@)->0,
            a0,
            b0,
        ));
        assert(tsml_meta_ok(
            html::element_text_of(html@, "tsml_public-js-extra"@)->0.subrange(a0, b0 + 1),
        ));
        assert(tsml_page_meta_ok(html@));
        assert(exists|a: int, b: int|
            #[trigger] brace_span_at(
                html::element_text_of(html@, "tsml_public-js-extra"@)->0,
                a,
                b,
            ) && tsml_meta_matches(
                html::element_text_of(html@, "tsml_public-js-extra"@)->0.subrange(a, b + 1),
                meta,
            ));
    }
    Ok(meta)
}

/// When the embedded object of the page's script is not metadata-shaped, the
/// page yields no metadata: the brace span is unique, so no other span can
/// be.
pub proof fn lemma_meta_not_ok(
    html: Seq<char>,
    script: Seq<char>,
    j: Seq<char>,
    a0: int,
    b0: int,
)
    requires
        html::element_text_of(html, "tsml_public-js-extra"@) == Some(script),
        brace_span_at(script, a0, b0),
        j == script.subrange(a0, b0 + 1),
        !tsml_meta_ok(j),
    ensures
        !tsml_page_meta_ok(html),
{
    lemma_brace_span_unique(script);
    if tsml_page_meta_ok(html) {
        let (a2, b2) = choose|a2: int, b2: int|
            #[trigger] brace_span_at(script, a2, b2) && tsml_meta_ok(script.subrange(a2, b2 + 1));
        assert(a2 == a0 && b2 == b0);
    }
}

/// Any two first-`{`-to-last-`}` spans of a script whose content differs
/// agree: the span is unique, so the embedded object's properties carry over
/// between its two descriptions.
pub proof fn lemma_brace_span_unique(script: Seq<char>)
    ensures
        forall|a1: int, b1: int, a2: int, b2: int|
            brace_span_at(script, a1, b1) && brace_span_at(script, a2, b2) ==> a1 == a2 && b1
                == b2,
{
    assert forall|a1: int, b1: int, a2: int, b2: int|
        brace_span_at(script, a1, b1) && brace_span_at(script, a2, b2) implies a1 == a2 && b1
        == b2 by {
        if a1 < a2 {
            assert(script[a1] != '{');
        }
        if a2 < a1 {
            assert(script[a2] != '{');
        }
        if b1 < b2 {
            assert(script[b2] != '}');
        }
        if b2 < b1 {
            assert(script[b1] != '}');
        }
    }
}

/// `a` and `b` are the first `{` and the last `}` of the script.
pub open spec fn brace_span_at(script: Seq<char>, a: int, b: int) -> bool {
    &&& 0 <= a <= b < script.len()
    &&& script[a] == '{'
    &&& (forall|k: int| 0 <= k < a ==> script[k] != '{')
    &&& script[b] == '}'
    &&& (forall|k: int| b < k < script.len() ==> script[k] != '}')
}

/// A JSON field that may arrive as a number or as text: a number is carried
/// as its decimal rendering.
#[derive(Debug, Clone, PartialEq)]
pub enum JsonScalar {
    Number(String),
    Text(String),
    Other,
}

/// The permissive unsigned read of a value-or-string field: a JSON integer,
/// or text holding digits.
pub open spec fn spec_scalar_u64(s: JsonScalar) -> Option<u64> {
    match s {
        JsonScalar::Number(t) => text::spec_parse_u64(t@),
        JsonScalar::Text(t) => text::spec_parse_u64(t@),
        JsonScalar::Other => None,
    }
}

/// The permissive coordinate read of a value-or-string field, in
/// microdegrees.
pub open spec fn spec_scalar_coord(s: JsonScalar) -> Option<i64> {
    match s {
        JsonScalar::Number(t) => coords::spec_parse_coord_micro(t@),
        JsonScalar::Text(t) => coords::spec_parse_coord_micro(t@),
        JsonScalar::Other => None,
    }
}

/// Reads a value-or-string field as an unsigned number.
pub fn scalar_u64(s: &JsonScalar) -> (r: Option<u64>)
    ensures
        r == spec_scalar_u64(*s),
{
    match s {
        JsonScalar::Number(t) => {
            let v = text::chars_of(t.as_str());
            proof {
                assert(v@.subrange(0, v@.len() as int) =~= t@);
            }
            text::parse_u64_range(&v, 0, v.len())
        },
        JsonScalar::Text(t) => {
            let v = text::chars_of(t.as_str());
            proof {
                assert(v@.subrange(0, v@.len() as int) =~= t@);
            }
            text::parse_u64_range(&v, 0, v.len())
        },
        JsonScalar::Other => None,
    }
}

/// Reads a value-or-string field as a coordinate in microdegrees.
pub fn scalar_coord(s: &JsonScalar) -> (r: Option<i64>)
    ensures
        r == spec_scalar_coord(*s),
{
    match s {
        JsonScalar::Number(t) => {
            let v = text::chars_of(t.as_str());
            coords::parse_coord_micro(&v)
        },
        JsonScalar::Text(t) => {
            let v = text::chars_of(t.as_str());
            coords::parse_coord_micro(&v)
        },
        JsonScalar::Other => None,
    }
}

/// One record of the endpoint's answer, with the fields the mapping reads.
#[derive(Debug, Clone, PartialEq)]
pub struct TsmlRecord {
    pub name: String,
    pub url: String,
    pub day: Option<JsonScalar>,
    pub time: Option<String>,
    pub end_time: Option<String>,
    pub latitude: JsonScalar,
    pub longitude: JsonScalar,
    pub location: Option<String>,
    pub location_notes: Option<String>,
    pub formatted_address: Option<String>,
    pub region: Option<String>,
    pub sub_region: Option<String>,
    pub email: Option<String>,
    pub phone: Option<String>,
    pub notes: Option<String>,
    pub conference_url: Option<String>,
    pub conference_url_notes: Option<String>,
}

/// An optional text field reads cleanly: when present and not null, it is a
/// string.
pub open spec fn tsml_opt_str_ok(t: Seq<char>, key: Seq<char>) -> bool {
    (json::json_has_field(t, key) && !json::json_field_is_null(t, key))
        ==> json::json_str_field(t, key) is Some
}

/// `o` is the read of an optional text field: the string when present, and
/// absent exactly when the field is absent or null.
pub open spec fn tsml_opt_str_matches(t: Seq<char>, key: Seq<char>, o: Option<String>) -> bool {
    match o {
        Some(x) => json::json_has_field(t, key) && !json::json_field_is_null(t, key)
            && json::json_str_field(t, key) == Some(x@),
        None => !json::json_has_field(t, key) || json::json_field_is_null(t, key),
    }
}

/// `sc` is the read of a value-or-string field: the number's decimal text
/// when the field holds a number, the string when it holds one, and `Other`
/// when it holds neither.
pub open spec fn scalar_matches(t: Seq<char>, key: Seq<char>, sc: JsonScalar) -> bool {
    match sc {
        JsonScalar::Number(x) => json::json_number_field(t, key) == Some(x@),
        JsonScalar::Text(x) => json::json_number_field(t, key) is None && json::json_str_field(
            t,
            key,
        ) == Some(x@),
        JsonScalar::Other => json::json_number_field(t, key) is None && json::json_str_field(
            t,
            key,
        ) is None,
    }
}

/// The record text reads cleanly: name and url are strings, the coordinates
/// are present, and every optional text field is a string when present.
pub open spec fn tsml_record_fields_ok(t: Seq<char>) -> bool {
    &&& json::json_str_field(t, "name"@) is Some
    &&& json::json_str_field(t, "url"@) is Some
    &&& json::json_has_field(t, "latitude"@)
    &&& json::json_has_field(t, "longitude"@)
    &&& tsml_opt_str_ok(t, "time"@)
    &&& tsml_opt_str_ok(t, "end_time"@)
    &&& tsml_opt_str_ok(t, "location"@)
    &&& tsml_opt_str_ok(t, "location_notes"@)
    &&& tsml_opt_str_ok(t, "formatted_address"@)
    &&& tsml_opt_str_ok(t, "region"@)
    &&& tsml_opt_str_ok(t, "sub_region"@)
    &&& tsml_opt_str_ok(t, "email"@)
    &&& tsml_opt_str_ok(t, "phone"@)
    &&& tsml_opt_str_ok(t, "notes"@)
    &&& tsml_opt_str_ok(t, "conference_url"@)
    &&& tsml_opt_str_ok(t, "conference_url_notes"@)
}

/// `r` carries exactly the record text's fields.
pub open spec fn tsml_record_view_matches(t: Seq<char>, r: TsmlRecord) -> bool {
    &&& json::json_str_field(t, "name"@) == Some(r.name@)
    &&& json::json_str_field(t, "url"@) == Some(r.url@)
    &&& match r.day {
        Some(sc) => json::json_has_field(t, "day"@) && !json::json_field_is_null(t, "day"@)
            && scalar_matches(t, "day"@, sc),
        None => !json::json_has_field(t, "day"@) || json::json_field_is_null(t, "day"@),
    }
    &&& scalar_matches(t, "latitude"@, r.latitude)
    &&& scalar_matches(t, "longitude"@, r.longitude)
    &&& tsml_opt_str_matches(t, "time"@, r.time)
    &&& tsml_opt_str_matches(t, "end_time"@, r.end_time)
    &&& tsml_opt_str_matches(t, "location"@, r.location)
    &&& tsml_opt_str_matches(t, "location_notes"@, r.location_notes)
    &&& tsml_opt_str_matches(t, "formatted_address"@, r.formatted_address)
    &&& tsml_opt_str_matches(t, "region"@, r.region)
    &&& tsml_opt_str_matches(t, "sub_region"@, r.sub_region)
    &&& tsml_opt_str_matches(t, "email"@, r.email)
    &&& tsml_opt_str_matches(t, "phone"@, r.phone)
    &&& tsml_opt_str_matches(t, "notes"@, r.notes)
    &&& tsml_opt_str_matches(t, "conference_url"@, r.conference_url)
    &&& tsml_opt_str_matches(t, "conference_url_notes"@, r.conference_url_notes)
}

/// Reads an optional text field: absent or null is `None`, a string is
/// `Some`, any other type rejects the record.
fn opt_str_field(record: &str, key: &str) -> (r: Result<Option<String>, ()>)
    ensures
        r is Ok <==> tsml_opt_str_ok(record@, key@),
        r matches Ok(o) ==> tsml_opt_str_matches(record@, key@, o),
{
    if !json::parse_has_field(record, key) {
        return Ok(None);
    }
    if json::parse_field_is_null(record, key) {
        return Ok(None);
    }
    match json::parse_str_field(record, key) {
        Some(x) => Ok(Some(x)),
        None => Err(()),
    }
}

/// Reads a value-or-string field into a scalar.
fn scalar_field(record: &str, key: &str) -> (r: JsonScalar)
    ensures
        scalar_matches(record@, key@, r),
{
    match json::parse_number_field(record, key) {
        Some(x) => JsonScalar::Number(x),
        None => match json::parse_str_field(record, key) {
            Some(x) => JsonScalar::Text(x),
            None => JsonScalar::Other,
        },
    }
}

/// Reads one record out of its JSON text; `None` exactly when a required
/// field is missing or a text field has another type.
pub fn tsml_record_from_json(record: &str) -> (r: Option<TsmlRecord>)
    ensures
        r is Some <==> tsml_record_fields_ok(record@),
        r matches Some(tr) ==> tsml_record_view_matches(record@, tr),
{
    let name = match json::parse_str_field(record, "name") {
        Some(v) => v,
        None => {
            return None;
        },
    };
    let url = match json::parse_str_field(record, "url") {
        Some(v) => v,
        None => {
            return None;
        },
    };
    let day = if !json::parse_has_field(record, "day") || json::parse_field_is_null(
        record,
        "day",
    ) {
        None
    } else {
        Some(scalar_field(record, "day"))
    };
    if !json::parse_has_field(record, "latitude") {
        return None;
    }
    let latitude = scalar_field(record, "latitude");
    if !json::parse_has_field(record, "longitude") {
        return None;
    }
    let longitude = scalar_field(record, "longitude");
    let time = match opt_str_field(record, "time") {
        Ok(v) => v,
        Err(()) => {
            return None;
        },
    };
    let end_time = match opt_str_field(record, "end_time") {
        Ok(v) => v,
        Err(()) => {
            return None;
        },
    };
    let location = match opt_str_field(record, "location") {
        Ok(v) => v,
        Err(()) => {
            return None;
        },
    };
    let location_notes = match opt_str_field(record, "location_notes") {
        Ok(v) => v,
        Err(()) => {
            return None;
        },
    };
    let formatted_address = match opt_str_field(record, "formatted_address") {
        Ok(v) => v,
        Err(()) => {
            return None;
        },
    };
    let region = match opt_str_field(record, "region") {
        Ok(v) => v,
        Err(()) => {
            return None;
        },
    };
    let sub_region = match opt_str_field(record, "sub_region") {
        Ok(v) => v,
        Err(()) => {
            return None;
        },
    };
    let email = match opt_str_field(record, "email") {
        Ok(v) => v,
        Err(()) => {
            return None;
        },
    };
    let phone = match opt_str_field(record, "phone") {
        Ok(v) => v,
        Err(()) => {
            return None;
        },
    };
    let notes = match opt_str_field(record, "notes") {
        Ok(v) => v,
        Err(()) => {
            return None;
        },
    };
    let conference_url = match opt_str_field(record, "conference_url") {
        Ok(v) => v,
        Err(()) => {
            return None;
        },
    };
    let conference_url_notes = match opt_str_field(record, "conference_url_notes") {
        Ok(v) => v,
        Err(()) => {
            return None;
        },
    };
    Some(
        TsmlRecord {
            name,
            url,
            day,
            time,
            end_time,
            latitude,
            longitude,
            location,
            location_notes,
            formatted_address,
            region,
            sub_region,
            email,
            phone,
            notes,
            conference_url,
            conference_url_notes,
        },
    )
}

/// Whether a record converts: both clock times are present and parse, the
/// day is present and within the upstream week, and the coordinates parse
/// into the surface of the globe.
pub open spec fn tsml_record_converts(rec: TsmlRecord) -> bool {
    &&& rec.time matches Some(t) && times::spec_parse_hhmm(t@) is Some
    &&& rec.end_time matches Some(t) && times::spec_parse_hhmm(t@) is Some
    &&& rec.day matches Some(d) && spec_scalar_u64(d) matches Some(dv) && dv <= 6
    &&& spec_scalar_coord(rec.latitude) matches Some(lat) && -90_000_000 <= lat <= 90_000_000
    &&& spec_scalar_coord(rec.longitude) matches Some(lon) && -180_000_000 <= lon <= 180_000_000
}

/// The meeting is online when the upstream region reads `--Online--`.
pub open spec fn tsml_is_online(region: Option<String>) -> bool {
    region matches Some(re) && re@ == "--Online--"@
}

/// `m` is the normalization of `rec` under `org`, ingested at `now`, field
/// by field.
pub open spec fn tsml_converted(rec: TsmlRecord, org: Organization, now: Seq<char>, m: Meeting) -> bool {
    let (sh, sm) = times::spec_parse_hhmm(rec.time->0@)->0;
    let (eh, em) = times::spec_parse_hhmm(rec.end_time->0@)->0;
    let dv = spec_scalar_u64(rec.day->0)->0;
    &&& m.name == rec.name
    &&& m.org == org
    &&& m.notes == rec.notes
    &&& m.source == rec.url
    &&& m.updated_at@ == now
    &&& m.contact.email == rec.email
    &&& m.contact.phone == rec.phone
    &&& m.online_options.is_online == tsml_is_online(rec.region)
    &&& m.online_options.url == if tsml_is_online(rec.region) {
        rec.conference_url
    } else {
        None::<String>
    }
    &&& m.online_options.notes == rec.conference_url_notes
    &&& m.location.position matches Some(p) && p.latitude_micro as int == spec_scalar_coord(
        rec.latitude,
    )->0 && p.longitude_micro as int == spec_scalar_coord(rec.longitude)->0
    &&& m.location.name == rec.location
    &&& m.location.notes == rec.location_notes
    &&& m.location.country == rec.region
    &&& m.location.region == rec.sub_region
    &&& m.location.address == rec.formatted_address
    &&& m.time matches MeetingTime::Recurring { day, hour, minute } && day.index()
        == tsml_canon_day(dv as int) && hour == sh as i32 && minute == sm as i32
    &&& m.duration == times::spec_span_seconds(sh as int, sm as int, eh as int, em as int)
    &&& m.valid()
}

/// Normalizes one upstream record; the caller's organization wins over
/// anything the record carries. A record that converts yields a meeting
/// whose every field is pinned by `tsml_converted`; one that does not is
/// dropped.
pub fn tsml_record_to_meeting(rec: &TsmlRecord, org: Organization, now: &str) -> (r: Option<
    Meeting,
>)
    requires
        now@.contains(':'),
    ensures
        r is Some <==> tsml_record_converts(*rec),
        r matches Some(m) ==> tsml_converted(*rec, org, now@, m),
{
    let time_text = match &rec.time {
        Some(t) => t,
        None => {
            return None;
        },
    };
    let end_text = match &rec.end_time {
        Some(t) => t,
        None => {
            return None;
        },
    };
    proof {
        times::lemma_parse_hhmm_ranges(time_text@);
        times::lemma_parse_hhmm_ranges(end_text@);
    }
    let (start_h, start_m) = match times::parse_hhmm(time_text.as_str()) {
        Some(t) => t,
        None => {
            return None;
        },
    };
    let (end_h, end_m) = match times::parse_hhmm(end_text.as_str()) {
        Some(t) => t,
        None => {
            return None;
        },
    };
    let day_scalar = match &rec.day {
        Some(d) => d,
        None => {
            return None;
        },
    };
    let day_val = match scalar_u64(day_scalar) {
        Some(d) => d,
        None => {
            return None;
        },
    };
    let canon = match tsml_day_to_canonical(day_val) {
        Some(c) => c,
        None => {
            return None;
        },
    };
    let lat = match scalar_coord(&rec.latitude) {
        Some(l) => l,
        None => {
            return None;
        },
    };
    let lon = match scalar_coord(&rec.longitude) {
        Some(l) => l,
        None => {
            return None;
        },
    };
    let position = match Position::checked_new(lat, lon) {
        Some(p) => p,
        None => {
            return None;
        },
    };
    let is_online = match &rec.region {
        Some(re) => text::str_eq(re.as_str(), "--Online--"),
        None => false,
    };
    let duration = times::span_seconds(start_h, start_m, end_h, end_m);
    Some(
        Meeting {
            name: rec.name.clone(),
            org,
            notes: rec.notes.clone(),
            source: rec.url.clone(),
            updated_at: String::from_str(now),
            contact: Contact { email: rec.email.clone(), phone: rec.phone.clone() },
            online_options: OnlineOptions {
                url: if is_online {
                    rec.conference_url.clone()
                } else {
                    None
                },
                notes: rec.conference_url_notes.clone(),
                is_online,
            },
            location: Location {
                position: Some(position),
                name: rec.location.clone(),
                notes: rec.location_notes.clone(),
                country: rec.region.clone(),
                region: rec.sub_region.clone(),
                address: rec.formatted_address.clone(),
            },
            time: MeetingTime::Recurring {
                day: WeekDay::from_day_index(canon),
                hour: start_h as i32,
                minute: start_m as i32,
            },
            duration,
        },
    )
}

/// The predicate selecting records that convert, as one value.
pub open spec fn tsml_converts_pred() -> spec_fn(TsmlRecord) -> bool {
    |tr: TsmlRecord| tsml_record_converts(tr)
}

/// The records of `recs` were extracted into `trs`, and `ms` is exactly the
/// normalization of the converting ones under `org`, in order.
pub open spec fn tsml_batch_converts(
    recs: Seq<Seq<char>>,
    trs: Seq<TsmlRecord>,
    org: Organization,
    now: Seq<char>,
    ms: Seq<Meeting>,
) -> bool {
    &&& trs.len() == recs.len()
    &&& forall|k: int| 0 <= k < recs.len() ==> tsml_record_view_matches(recs[k], #[trigger] trs[k])
    &&& ms.len() == trs.filter(tsml_converts_pred()).len()
    &&& forall|j: int|
        0 <= j < ms.len() ==> tsml_converted(trs.filter(tsml_converts_pred())[j], org, now, (
        #[trigger] ms[j]))
}

/// The answer decodes: a JSON array holding only well-typed records.
pub open spec fn tsml_answer_ok(body: Seq<char>) -> bool {
    &&& json::json_array_items(body) is Some
    &&& forall|k: int|
        0 <= k < json::json_array_items(body)->0.len() ==> tsml_record_fields_ok(
            #[trigger] json::json_array_items(body)->0[k],
        )
}

/// Parses the endpoint's answer and normalizes every record under the
/// caller's organization: the body must be a JSON array of well-typed
/// records, and the result is exactly the converting records' meetings, in
/// order; records that do not convert are dropped silently.
pub fn tsml_parse_meetings_response(body: &str, org: Organization, now: &str) -> (r: Result<
    Vec<Meeting>,
    MeetingFetchError,
>)
    requires
        now@.contains(':'),
    ensures
        r is Ok <==> tsml_answer_ok(body@),
        r matches Ok(ms) ==> exists|trs: Seq<TsmlRecord>|
            #[trigger] tsml_batch_converts(
                json::json_array_items(body@)->0,
                trs,
                org,
                now@,
                ms@,
            ),
        r matches Ok(ms) ==> forall|k: int|
            0 <= k < ms@.len() ==> (#[trigger] ms@[k]).valid() && ms@[k].org == org,
{
    let records = match json::parse_array_items(body) {
        Some(a) => a,
        None => {
            return Err(MeetingFetchError::JsonParse);
        },
    };
    let ghost recs = records.deep_view();
    let ghost mut trs: Seq<TsmlRecord> = Seq::empty();
    let mut out: Vec<Meeting> = Vec::new();
    let mut i: usize = 0;
    proof {
        reveal(Seq::filter);
        assert(trs.filter(tsml_converts_pred()) =~= Seq::<TsmlRecord>::empty());
    }
    while i < records.len()
        invariant
            now@.contains(':'),
            recs == records.deep_view(),
            recs.len() == records@.len(),
            json::json_array_items(body@) == Some(recs),
            i <= recs.len(),
            trs.len() == i,
            forall|k: int| 0 <= k < i ==> tsml_record_fields_ok(#[trigger] recs[k]),
            forall|k: int| 0 <= k < i ==> tsml_record_view_matches(recs[k], #[trigger] trs[k]),
            out@.len() == trs.filter(tsml_converts_pred()).len(),
            forall|j: int|
                0 <= j < out@.len() ==> tsml_converted(trs.filter(tsml_converts_pred())[j], org, now@, (
                #[trigger] out@[j])),
            forall|k: int|
                0 <= k < out@.len() ==> (#[trigger] out@[k]).valid() && out@[k].org == org,
        decreases records@.len() - i,
    {
        proof {
            assert(recs[i as int] == records@[i as int]@);
        }
        let rec = match tsml_record_from_json(records[i].as_str()) {
            Some(rec) => rec,
            None => {
                proof {
                    assert(!tsml_record_fields_ok(recs[i as int]));
                    assert(json::json_array_items(body@)->0[i as int] == recs[i as int]);
                    assert(!tsml_answer_ok(body@));
                }
                return Err(MeetingFetchError::JsonParse);
            },
        };
        let converted = tsml_record_to_meeting(&rec, org, now);
        let ghost prev = trs;
        proof {
            trs = prev.push(rec);
            reveal(Seq::filter);
            assert(trs.drop_last() =~= prev);
            assert(trs.last() == rec);
        }
        match converted {
            Some(m) => {
                out.push(m);
            },
            None => {},
        }
        i += 1;
    }
    proof {
        assert(tsml_batch_converts(recs, trs, org, now@, out@));
        assert(json::json_array_items(body@) == Some(recs));
        assert(json::json_array_items(body@)->0 == recs);
        assert(forall|k: int| 0 <= k < recs.len() ==> tsml_record_fields_ok(#[trigger] recs[k]));
        assert(tsml_answer_ok(body@));
        assert(exists|x: Seq<TsmlRecord>|
            #[trigger] tsml_batch_converts(json::json_array_items(body@)->0, x, org, now@, out@));
    }
    Ok(out)
}

} // verus!
