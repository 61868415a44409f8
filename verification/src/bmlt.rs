//! The BMLT federation: root servers are discovered through a directory,
//! each answers JSONP whose records carry a 1-based weekday, `HH:MM:SS`
//! times, and coordinates as decimal strings.

use vstd::prelude::*;
use crate::coords;
use crate::json;
use crate::model::{Contact, FetchMeeting, Location, Meeting, MeetingTime, OnlineOptions,
    Organization, Position, WeekDay};
use crate::source::MeetingFetchError;
use crate::text;
use crate::times;

verus! {

/// The federation directory listing the root servers.
pub const BMLT_ROOT_SERVERS_URL: &'static str = "https://tomato.bmltenabled.org/main_server/api/v1/rootservers/";

/// The query string every root server is asked, naming the fields the
/// records must carry.
pub const BMLT_QUERY: &'static str = "switcher=GetSearchResults&get_used_formats&lang_enum=en&data_field_key=location_postal_code_1,duration_time,start_time,time_zone,weekday_tinyint,service_body_bigint,location_province,location_municipality,location_street,location_info,location_neighborhood,formats,comments,location_sub_province,worldid_mixed,root_server_uri,id_bigint,venue_type,meeting_name,location_text,virtual_meeting_link,phone_meeting_number,latitude,longitude,contact_name_1,contact_phone_1,contact_email_1,contact_name_2,contact_phone_2,contact_email_2&callback=callback";

/// One root server of the federation directory.
#[derive(Debug, Clone, PartialEq)]
pub struct BmltServer {
    pub id: i64,
    pub source_id: i64,
    pub name: String,
    pub url: String,
    pub server_info: String,
    pub last_successful_import: String,
}

/// The directory entry's fields are present and well-typed.
pub open spec fn bmlt_server_fields_ok(t: Seq<char>) -> bool {
    &&& json::json_i64_field(t, "id"@) is Some
    &&& json::json_i64_field(t, "source_id"@) is Some
    &&& json::json_str_field(t, "name"@) is Some
    &&& json::json_str_field(t, "url"@) is Some
    &&& json::json_str_field(t, "server_info"@) is Some
    &&& json::json_str_field(t, "last_successful_import"@) is Some
}

/// `r` carries exactly the directory entry's fields.
pub open spec fn bmlt_server_view_matches(t: Seq<char>, r: BmltServer) -> bool {
    &&& json::json_i64_field(t, "id"@) == Some(r.id)
    &&& json::json_i64_field(t, "source_id"@) == Some(r.source_id)
    &&& json::json_str_field(t, "name"@) == Some(r.name@)
    &&& json::json_str_field(t, "url"@) == Some(r.url@)
    &&& json::json_str_field(t, "server_info"@) == Some(r.server_info@)
    &&& json::json_str_field(t, "last_successful_import"@) == Some(r.last_successful_import@)
}

/// Reads one root server out of its JSON text; `None` exactly when a field
/// is missing or of the wrong type.
pub fn bmlt_server_from_json(entry: &str) -> (r: Option<BmltServer>)
    ensures
        r is Some <==> bmlt_server_fields_ok(entry@),
        r matches Some(sv) ==> bmlt_server_view_matches(entry@, sv),
{
    let id = match json::parse_i64_field(entry, "id") {
        Some(v) => v,
        None => {
            return None;
        },
    };
    let source_id = match json::parse_i64_field(entry, "source_id") {
        Some(v) => v,
        None => {
            return None;
        },
    };
    let name = match json::parse_str_field(entry, "name") {
        Some(v) => v,
        None => {
            return None;
        },
    };
    let url = match json::parse_str_field(entry, "url") {
        Some(v) => v,
        None => {
            return None;
        },
    };
    let server_info = match json::parse_str_field(entry, "server_info") {
        Some(v) => v,
        None => {
            return None;
        },
    };
    let last_successful_import = match json::parse_str_field(entry, "last_successful_import") {
        Some(v) => v,
        None => {
            return None;
        },
    };
    Some(BmltServer { id, source_id, name, url, server_info, last_successful_import })
}

/// The directory body decodes: a JSON array of well-typed root servers.
pub open spec fn bmlt_directory_ok(body: Seq<char>) -> bool {
    &&& json::json_array_items(body) is Some
    &&& forall|k: int|
        0 <= k < json::json_array_items(body)->0.len() ==> bmlt_server_fields_ok(
            #[trigger] json::json_array_items(body)->0[k],
        )
}

/// Parses the directory body: a JSON array of root servers, every one
/// well-typed, returned in order.
pub fn bmlt_parse_rootservers(body: &str) -> (r: Result<Vec<BmltServer>, MeetingFetchError>)
    ensures
        r is Ok <==> bmlt_directory_ok(body@),
        r matches Ok(v) ==> v@.len() == json::json_array_items(body@)->0.len() && forall|k: int|
            0 <= k < v@.len() ==> bmlt_server_view_matches(
                json::json_array_items(body@)->0[k],
                #[trigger] v@[k],
            ),
{
    let entries = match json::parse_array_items(body) {
        Some(a) => a,
        None => {
            return Err(MeetingFetchError::JsonParse);
        },
    };
    let ghost es = entries.deep_view();
    let mut out: Vec<BmltServer> = Vec::new();
    let mut i: usize = 0;
    while i < entries.len()
        invariant
            es == entries.deep_view(),
            es.len() == entries@.len(),
            json::json_array_items(body@) == Some(es),
            i <= es.len(),
            out@.len() == i,
            forall|k: int| 0 <= k < i ==> bmlt_server_fields_ok(#[trigger] es[k]),
            forall|k: int| 0 <= k < i ==> bmlt_server_view_matches(es[k], #[trigger] out@[k]),
        decreases entries@.len() - i,
    {
        proof {
            assert(es[i as int] == entries@[i as int]@);
        }
        match bmlt_server_from_json(entries[i].as_str()) {
            Some(s) => {
                out.push(s);
            },
            None => {
                proof {
                    assert(!bmlt_server_fields_ok(es[i as int]));
                    assert(json::json_array_items(body@)->0 == es);
                    assert(!bmlt_directory_ok(body@));
                }
                return Err(MeetingFetchError::JsonParse);
            },
        }
        i += 1;
    }
    proof {
        assert(json::json_array_items(body@) == Some(es));
        assert(json::json_array_items(body@)->0 == es);
        assert(bmlt_directory_ok(body@));
        assert(forall|k: int| 0 <= k < es.len() ==> bmlt_server_fields_ok(#[trigger] es[k]));
        assert(forall|k: int|
            0 <= k < es.len() ==> bmlt_server_view_matches(es[k], #[trigger] out@[k]));
    }
    Ok(out)
}

/// The search URL asked of one root server.
pub fn bmlt_server_query_url(server_url: &str) -> (r: String)
    ensures
        r@ == server_url@ + "client_interface/jsonp/?"@ + BMLT_QUERY@,
{
    let mut url = String::from_str(server_url);
    url.append("client_interface/jsonp/?");
    url.append(BMLT_QUERY);
    proof {
        assert(url@ =~= server_url@ + "client_interface/jsonp/?"@ + BMLT_QUERY@);
    }
    url
}

/// Strips the JSONP wrapping `callback(` ... `);` around a body.
pub fn jsonp_strip(body: &str) -> (r: Result<String, MeetingFetchError>)
    ensures
        r matches Ok(s) ==> text::starts_with(body@, "callback("@) && text::ends_with(
            body@,
            ");"@,
        ) && body@.len() >= 11 && s@ == body@.subrange(9, body@.len() - 2),
        text::starts_with(body@, "callback("@) && text::ends_with(body@, ");"@) && body@.len()
            >= 11 ==> r is Ok,
{
    let v = text::chars_of(body);
    proof {
        reveal_strlit("callback(");
        reveal_strlit(");");
    }
    if !text::starts_with_str(&v, "callback(") || !text::ends_with_str(&v, ");") || v.len() < 11 {
        return Err(MeetingFetchError::unexpected("unexpected jsonp shape"));
    }
    let inner = text::sub_vec(&v, 9, v.len() - 2);
    Ok(text::string_from_chars(&inner))
}

/// One record of a root server's answer, every field as the text the server
/// sent.
#[derive(Debug, Clone, PartialEq)]
pub struct BmltRecord {
    pub id_bigint: String,
    pub weekday_tinyint: String,
    pub start_time: String,
    pub duration_time: String,
    pub formats: String,
    pub longitude: String,
    pub latitude: String,
    pub meeting_name: String,
    pub location_text: String,
    pub location_info: String,
    pub location_street: String,
    pub location_neighborhood: String,
    pub location_municipality: String,
    pub location_sub_province: String,
    pub location_province: String,
    pub location_postal_code_1: String,
    pub comments: String,
    pub contact_phone_2: String,
    pub contact_email_2: String,
    pub contact_name_2: String,
    pub contact_phone_1: String,
    pub contact_email_1: String,
    pub contact_name_1: String,
    pub phone_meeting_number: String,
    pub virtual_meeting_link: String,
    pub root_server_uri: String,
}

/// The record's fields are all present as text, as the field list of the
/// query demands.
pub open spec fn bmlt_record_fields_ok(t: Seq<char>) -> bool {
    &&& json::json_str_field(t, "id_bigint"@) is Some
    &&& json::json_str_field(t, "weekday_tinyint"@) is Some
    &&& json::json_str_field(t, "start_time"@) is Some
    &&& json::json_str_field(t, "duration_time"@) is Some
    &&& json::json_str_field(t, "formats"@) is Some
    &&& json::json_str_field(t, "longitude"@) is Some
    &&& json::json_str_field(t, "latitude"@) is Some
    &&& json::json_str_field(t, "meeting_name"@) is Some
    &&& json::json_str_field(t, "location_text"@) is Some
    &&& json::json_str_field(t, "location_info"@) is Some
    &&& json::json_str_field(t, "location_street"@) is Some
    &&& json::json_str_field(t, "location_neighborhood"@) is Some
    &&& json::json_str_field(t, "location_municipality"@) is Some
    &&& json::json_str_field(t, "location_sub_province"@) is Some
    &&& json::json_str_field(t, "location_province"@) is Some
    &&& json::json_str_field(t, "location_postal_code_1"@) is Some
    &&& json::json_str_field(t, "comments"@) is Some
    &&& json::json_str_field(t, "contact_phone_2"@) is Some
    &&& json::json_str_field(t, "contact_email_2"@) is Some
    &&& json::json_str_field(t, "contact_name_2"@) is Some
    &&& json::json_str_field(t, "contact_phone_1"@) is Some
    &&& json::json_str_field(t, "contact_email_1"@) is Some
    &&& json::json_str_field(t, "contact_name_1"@) is Some
    &&& json::json_str_field(t, "phone_meeting_number"@) is Some
    &&& json::json_str_field(t, "virtual_meeting_link"@) is Some
    &&& json::json_str_field(t, "root_server_uri"@) is Some
}

/// `r` carries exactly the record text's fields.
pub open spec fn bmlt_record_view_matches(t: Seq<char>, r: BmltRecord) -> bool {
    &&& json::json_str_field(t, "id_bigint"@) == Some(r.id_bigint@)
    &&& json::json_str_field(t, "weekday_tinyint"@) == Some(r.weekday_tinyint@)
    &&& json::json_str_field(t, "start_time"@) == Some(r.start_time@)
    &&& json::json_str_field(t, "duration_time"@) == Some(r.duration_time@)
    &&& json::json_str_field(t, "formats"@) == Some(r.formats@)
    &&& json::json_str_field(t, "longitude"@) == Some(r.longitude@)
    &&& json::json_str_field(t, "latitude"@) == Some(r.latitude@)
    &&& json::json_str_field(t, "meeting_name"@) == Some(r.meeting_name@)
    &&& json::json_str_field(t, "location_text"@) == Some(r.location_text@)
    &&& json::json_str_field(t, "location_info"@) == Some(r.location_info@)
    &&& json::json_str_field(t, "location_street"@) == Some(r.location_street@)
    &&& json::json_str_field(t, "location_neighborhood"@) == Some(r.location_neighborhood@)
    &&& json::json_str_field(t, "location_municipality"@) == Some(r.location_municipality@)
    &&& json::json_str_field(t, "location_sub_province"@) == Some(r.location_sub_province@)
    &&& json::json_str_field(t, "location_province"@) == Some(r.location_province@)
    &&& json::json_str_field(t, "location_postal_code_1"@) == Some(r.location_postal_code_1@)
    &&& json::json_str_field(t, "comments"@) == Some(r.comments@)
    &&& json::json_str_field(t, "contact_phone_2"@) == Some(r.contact_phone_2@)
    &&& json::json_str_field(t, "contact_email_2"@) == Some(r.contact_email_2@)
    &&& json::json_str_field(t, "contact_name_2"@) == Some(r.contact_name_2@)
    &&& json::json_str_field(t, "contact_phone_1"@) == Some(r.contact_phone_1@)
    &&& json::json_str_field(t, "contact_email_1"@) == Some(r.contact_email_1@)
    &&& json::json_str_field(t, "contact_name_1"@) == Some(r.contact_name_1@)
    &&& json::json_str_field(t, "phone_meeting_number"@) == Some(r.phone_meeting_number@)
    &&& json::json_str_field(t, "virtual_meeting_link"@) == Some(r.virtual_meeting_link@)
    &&& json::json_str_field(t, "root_server_uri"@) == Some(r.root_server_uri@)
}

/// Reads one meeting record out of its JSON text; `None` exactly when a
/// field is missing or of the wrong type.
pub fn bmlt_record_from_json(record: &str) -> (r: Option<BmltRecord>)
    ensures
        r is Some <==> bmlt_record_fields_ok(record@),
        r matches Some(br) ==> bmlt_record_view_matches(record@, br),
{
    let id_bigint = match json::parse_str_field(record, "id_bigint") {
        Some(v) => v,
        None => {
            return None;
        },
    };
    let weekday_tinyint = match json::parse_str_field(record, "weekday_tinyint") {
        Some(v) => v,
        None => {
            return None;
        },
    };
    let start_time = match json::parse_str_field(record, "start_time") {
        Some(v) => v,
        None => {
            return None;
        },
    };
    let duration_time = match json::parse_str_field(record, "duration_time") {
        Some(v) => v,
        None => {
            return None;
        },
    };
    let formats = match json::parse_str_field(record, "formats") {
        Some(v) => v,
        None => {
            return None;
        },
    };
    let longitude = match json::parse_str_field(record, "longitude") {
        Some(v) => v,
        None => {
            return None;
        },
    };
    let latitude = match json::parse_str_field(record, "latitude") {
        Some(v) => v,
        None => {
            return None;
        },
    };
    let meeting_name = match json::parse_str_field(record, "meeting_name") {
        Some(v) => v,
        None => {
            return None;
        },
    };
    let location_text = match json::parse_str_field(record, "location_text") {
        Some(v) => v,
        None => {
            return None;
        },
    };
    let location_info = match json::parse_str_field(record, "location_info") {
        Some(v) => v,
        None => {
            return None;
        },
    };
    let location_street = match json::parse_str_field(record, "location_street") {
        Some(v) => v,
        None => {
            return None;
        },
    };
    let location_neighborhood = match json::parse_str_field(record, "location_neighborhood") {
        Some(v) => v,
        None => {
            return None;
        },
    };
    let location_municipality = match json::parse_str_field(record, "location_municipality") {
        Some(v) => v,
        None => {
            return None;
        },
    };
    let location_sub_province = match json::parse_str_field(record, "location_sub_province") {
        Some(v) => v,
        None => {
            return None;
        },
    };
    let location_province = match json::parse_str_field(record, "location_province") {
        Some(v) => v,
        None => {
            return None;
        },
    };
    let location_postal_code_1 = match json::parse_str_field(record, "location_postal_code_1") {
        Some(v) => v,
        None => {
            return None;
        },
    };
    let comments = match json::parse_str_field(record, "comments") {
        Some(v) => v,
        None => {
            return None;
        },
    };
    let contact_phone_2 = match json::parse_str_field(record, "contact_phone_2") {
        Some(v) => v,
        None => {
            return None;
        },
    };
    let contact_email_2 = match json::parse_str_field(record, "contact_email_2") {
        Some(v) => v,
        None => {
            return None;
        },
    };
    let contact_name_2 = match json::parse_str_field(record, "contact_name_2") {
        Some(v) => v,
        None => {
            return None;
        },
    };
    let contact_phone_1 = match json::parse_str_field(record, "contact_phone_1") {
        Some(v) => v,
        None => {
            return None;
        },
    };
    let contact_email_1 = match json::parse_str_field(record, "contact_email_1") {
        Some(v) => v,
        None => {
            return None;
        },
    };
    let contact_name_1 = match json::parse_str_field(record, "contact_name_1") {
        Some(v) => v,
        None => {
            return None;
        },
    };
    let phone_meeting_number = match json::parse_str_field(record, "phone_meeting_number") {
        Some(v) => v,
        None => {
            return None;
        },
    };
    let virtual_meeting_link = match json::parse_str_field(record, "virtual_meeting_link") {
        Some(v) => v,
        None => {
            return None;
        },
    };
    let root_server_uri = match json::parse_str_field(record, "root_server_uri") {
        Some(v) => v,
        None => {
            return None;
        },
    };
    Some(
        BmltRecord {
            id_bigint,
            weekday_tinyint,
            start_time,
            duration_time,
            formats,
            longitude,
            latitude,
            meeting_name,
            location_text,
            location_info,
            location_street,
            location_neighborhood,
            location_municipality,
            location_sub_province,
            location_province,
            location_postal_code_1,
            comments,
            contact_phone_2,
            contact_email_2,
            contact_name_2,
            contact_phone_1,
            contact_email_1,
            contact_name_1,
            phone_meeting_number,
            virtual_meeting_link,
            root_server_uri,
        },
    )
}

/// Whether a record converts: both times parse, the weekday is 1-based
/// within the week, and the coordinates parse into the surface of the globe.
pub open spec fn bmlt_record_converts(rec: BmltRecord) -> bool {
    &&& times::spec_parse_hhmmss(rec.start_time@) is Some
    &&& times::spec_parse_hhmmss(rec.duration_time@) is Some
    &&& text::spec_parse_u64(rec.weekday_tinyint@) matches Some(d) && 1 <= d <= 7
    &&& coords::spec_parse_coord_micro(rec.latitude@) matches Some(lat) && -90_000_000 <= lat
        <= 90_000_000
    &&& coords::spec_parse_coord_micro(rec.longitude@) matches Some(lon) && -180_000_000 <= lon
        <= 180_000_000
}

/// The meeting is online when the formats list contains `VM`.
pub open spec fn bmlt_is_online(formats: Seq<char>) -> bool {
    text::seq_contains(formats, "VM"@)
}

/// `fm` is the normalization of `rec` ingested at `now`, field by field.
pub open spec fn bmlt_converted(rec: BmltRecord, now: Seq<char>, fm: FetchMeeting) -> bool {
    let (sh, sm, ss) = times::spec_parse_hhmmss(rec.start_time@)->0;
    let (dh, dm, ds) = times::spec_parse_hhmmss(rec.duration_time@)->0;
    let day_val = text::spec_parse_u64(rec.weekday_tinyint@)->0;
    &&& fm.position_query is None
    &&& fm.meeting.name@ == rec.meeting_name@
    &&& fm.meeting.org == Organization::NarcoticsAnonymous
    &&& fm.meeting.notes == if rec.comments@.len() == 0 {
        None::<String>
    } else {
        Some(rec.comments)
    }
    &&& fm.meeting.source@ == text::strip_trailing(
        text::strip_trailing(rec.root_server_uri@, "/"@),
        "/main_server"@,
    )
    &&& fm.meeting.updated_at@ == now
    &&& fm.meeting.contact.email == if rec.contact_email_1@.len() > 0 {
        Some(rec.contact_email_1)
    } else if rec.contact_email_2@.len() > 0 {
        Some(rec.contact_email_2)
    } else {
        None::<String>
    }
    &&& fm.meeting.contact.phone == if rec.contact_phone_1@.len() > 0 {
        Some(rec.contact_phone_1)
    } else if rec.contact_phone_2@.len() > 0 {
        Some(rec.contact_phone_2)
    } else {
        None::<String>
    }
    &&& fm.meeting.online_options.is_online == bmlt_is_online(rec.formats@)
    &&& fm.meeting.online_options.url == if rec.virtual_meeting_link@.len() > 0
        && bmlt_is_online(rec.formats@) {
        Some(rec.virtual_meeting_link)
    } else {
        None::<String>
    }
    &&& fm.meeting.online_options.notes == if rec.phone_meeting_number@.len() == 0 {
        None::<String>
    } else {
        Some(rec.phone_meeting_number)
    }
    &&& fm.meeting.location.position matches Some(p) && p.latitude_micro as int
        == coords::spec_parse_coord_micro(rec.latitude@)->0 && p.longitude_micro as int
        == coords::spec_parse_coord_micro(rec.longitude@)->0
    &&& fm.meeting.location.name == if rec.location_text@.len() == 0 {
        None::<String>
    } else {
        Some(rec.location_text)
    }
    &&& fm.meeting.location.notes == if rec.location_info@.len() == 0 {
        None::<String>
    } else {
        Some(rec.location_info)
    }
    &&& fm.meeting.location.country matches Some(c) && c@ == "United States"@
    &&& fm.meeting.location.region matches Some(p) && p@ == rec.location_province@
    &&& fm.meeting.location.address == if rec.location_street@.len() > 0 {
        Some(rec.location_street)
    } else {
        None::<String>
    }
    &&& fm.meeting.time matches MeetingTime::Recurring { day, hour, minute }
        && day.index() == day_val - 1 && hour == sh as i32 && minute == sm as i32
    &&& fm.meeting.duration matches Some(d) && d as int == times::spec_hms_seconds(
        dh as int,
        dm as int,
        ds as int,
    )
    &&& fm.meeting.valid()
}

/// Normalizes one upstream record. A record that converts yields a meeting
/// whose every field is pinned by `bmlt_converted`; one that does not is
/// dropped.
pub fn bmlt_record_to_fetch_meeting(rec: &BmltRecord, now: &str) -> (r: Option<FetchMeeting>)
    requires
        now@.contains(':'),
    ensures
        r is Some <==> bmlt_record_converts(*rec),
        r matches Some(fm) ==> bmlt_converted(*rec, now@, fm),
{
    proof {
        times::lemma_parse_hhmmss_ranges(rec.start_time@);
        times::lemma_parse_hhmmss_ranges(rec.duration_time@);
    }
    let (start_h, start_m, _start_s) = match times::parse_hhmmss(rec.start_time.as_str()) {
        Some(t) => t,
        None => {
            return None;
        },
    };
    let (dur_h, dur_m, dur_s) = match times::parse_hhmmss(rec.duration_time.as_str()) {
        Some(t) => t,
        None => {
            return None;
        },
    };
    let weekday_chars = text::chars_of(rec.weekday_tinyint.as_str());
    let day_val = match text::parse_u64_range(&weekday_chars, 0, weekday_chars.len()) {
        Some(d) => d,
        None => {
            return None;
        },
    };
    proof {
        assert(weekday_chars@.subrange(0, weekday_chars@.len() as int) =~= rec.weekday_tinyint@);
    }
    if day_val < 1 || day_val > 7 {
        return None;
    }
    let lat_chars = text::chars_of(rec.latitude.as_str());
    let lat = match coords::parse_coord_micro(&lat_chars) {
        Some(l) => l,
        None => {
            return None;
        },
    };
    let lon_chars = text::chars_of(rec.longitude.as_str());
    let lon = match coords::parse_coord_micro(&lon_chars) {
        Some(l) => l,
        None => {
            return None;
        },
    };
    let position = match Position::checked_new(lat, lon) {
        Some(p) => p,
        None => {
            return None;
        },
    };
    let email = if rec.contact_email_1.as_str().unicode_len() > 0 {
        Some(rec.contact_email_1.clone())
    } else if rec.contact_email_2.as_str().unicode_len() > 0 {
        Some(rec.contact_email_2.clone())
    } else {
        None
    };
    let phone = if rec.contact_phone_1.as_str().unicode_len() > 0 {
        Some(rec.contact_phone_1.clone())
    } else if rec.contact_phone_2.as_str().unicode_len() > 0 {
        Some(rec.contact_phone_2.clone())
    } else {
        None
    };
    let formats_chars = text::chars_of(rec.formats.as_str());
    let is_online = text::contains_str(&formats_chars, "VM");
    let online_url = if rec.virtual_meeting_link.as_str().unicode_len() > 0 && is_online {
        Some(rec.virtual_meeting_link.clone())
    } else {
        None
    };
    let uri_chars = text::chars_of(rec.root_server_uri.as_str());
    proof {
        reveal_strlit("/");
        reveal_strlit("/main_server");
    }
    let stripped = text::strip_trailing_str(
        text::strip_trailing_str(uri_chars, "/"),
        "/main_server",
    );
    let source = text::string_from_chars(&stripped);
    let duration_secs = times::hms_seconds(dur_h, dur_m, dur_s);
    Some(
        FetchMeeting {
            position_query: None,
            meeting: Meeting {
                name: rec.meeting_name.clone(),
                org: Organization::NarcoticsAnonymous,
                notes: if rec.comments.as_str().unicode_len() == 0 {
                    None
                } else {
                    Some(rec.comments.clone())
                },
                source,
                updated_at: String::from_str(now),
                contact: Contact { email, phone },
                online_options: OnlineOptions {
                    url: online_url,
                    notes: if rec.phone_meeting_number.as_str().unicode_len() == 0 {
                        None
                    } else {
                        Some(rec.phone_meeting_number.clone())
                    },
                    is_online,
                },
                location: Location {
                    position: Some(position),
                    name: if rec.location_text.as_str().unicode_len() == 0 {
                        None
                    } else {
                        Some(rec.location_text.clone())
                    },
                    notes: if rec.location_info.as_str().unicode_len() == 0 {
                        None
                    } else {
                        Some(rec.location_info.clone())
                    },
                    country: Some(String::from_str("United States")),
                    region: Some(rec.location_province.clone()),
                    address: if rec.location_street.as_str().unicode_len() > 0 {
                        Some(rec.location_street.clone())
                    } else {
                        None
                    },
                },
                time: MeetingTime::Recurring {
                    day: WeekDay::from_day_index((day_val - 1) as u8),
                    hour: start_h as i32,
                    minute: start_m as i32,
                },
                duration: Some(duration_secs),
            },
        },
    )
}

/// The predicate selecting records that convert, as one value.
pub open spec fn bmlt_converts_pred() -> spec_fn(BmltRecord) -> bool {
    |br: BmltRecord| bmlt_record_converts(br)
}

/// The records of `recs` were extracted into `brs`, and `ms` is exactly the
/// normalization of the converting ones, in order.
pub open spec fn bmlt_batch_converts(
    recs: Seq<Seq<char>>,
    brs: Seq<BmltRecord>,
    now: Seq<char>,
    ms: Seq<FetchMeeting>,
) -> bool {
    &&& brs.len() == recs.len()
    &&& forall|k: int| 0 <= k < recs.len() ==> bmlt_record_view_matches(recs[k], #[trigger] brs[k])
    &&& ms.len() == brs.filter(bmlt_converts_pred()).len()
    &&& forall|j: int|
        0 <= j < ms.len() ==> bmlt_converted(brs.filter(bmlt_converts_pred())[j], now, (
        #[trigger] ms[j]))
}

/// The JSONP answer decodes: it wears the `callback(`...`);` wrapping and
/// the stripped body is a JSON object whose `meetings` array holds only
/// well-typed records.
pub open spec fn bmlt_answer_ok(body: Seq<char>) -> bool {
    &&& text::starts_with(body, "callback("@)
    &&& text::ends_with(body, ");"@)
    &&& body.len() >= 11
    &&& json::json_array_field(body.subrange(9, body.len() - 2), "meetings"@) is Some
    &&& forall|k: int|
        0 <= k < json::json_array_field(body.subrange(9, body.len() - 2), "meetings"@)->0.len()
            ==> bmlt_record_fields_ok(
            #[trigger] json::json_array_field(body.subrange(9, body.len() - 2), "meetings"@)->0[k],
        )
}

/// Parses one root server's JSONP answer and normalizes every record: the
/// stripped body must be a JSON object with a `meetings` array of well-typed
/// records, and the result is exactly the converting records' meetings, in
/// order; records that do not convert are dropped silently.
pub fn bmlt_parse_meetings_response(body: &str, now: &str) -> (r: Result<
    Vec<FetchMeeting>,
    MeetingFetchError,
>)
    requires
        now@.contains(':'),
    ensures
        r is Ok <==> bmlt_answer_ok(body@),
        r matches Ok(ms) ==> exists|brs: Seq<BmltRecord>|
            #[trigger] bmlt_batch_converts(
                json::json_array_field(body@.subrange(9, body@.len() - 2), "meetings"@)->0,
                brs,
                now@,
                ms@,
            ),
        r matches Ok(ms) ==> forall|k: int|
            0 <= k < ms@.len() ==> (#[trigger] ms@[k]).meeting.valid() && ms@[k].meeting.org
                == Organization::NarcoticsAnonymous,
{
    let inner = match jsonp_strip(body) {
        Ok(s) => s,
        Err(e) => {
            return Err(e);
        },
    };
    let records = match json::parse_array_field(inner.as_str(), "meetings") {
        Some(a) => a,
        None => {
            proof {
                assert(inner@ == body@.subrange(9, body@.len() - 2));
                assert(json::json_array_field(body@.subrange(9, body@.len() - 2), "meetings"@)
                    is None);
                assert(!bmlt_answer_ok(body@));
            }
            return Err(MeetingFetchError::JsonParse);
        },
    };
    let ghost recs = records.deep_view();
    let ghost mut brs: Seq<BmltRecord> = Seq::empty();
    let mut out: Vec<FetchMeeting> = Vec::new();
    let mut i: usize = 0;
    proof {
        reveal(Seq::filter);
        assert(brs.filter(bmlt_converts_pred()) =~= Seq::<BmltRecord>::empty());
    }
    while i < records.len()
        invariant
            now@.contains(':'),
            recs == records.deep_view(),
            recs.len() == records@.len(),
            inner@ == body@.subrange(9, body@.len() as int - 2),
            json::json_array_field(inner@, "meetings"@) == Some(recs),
            i <= recs.len(),
            brs.len() == i,
            forall|k: int| 0 <= k < i ==> bmlt_record_fields_ok(#[trigger] recs[k]),
            forall|k: int| 0 <= k < i ==> bmlt_record_view_matches(recs[k], #[trigger] brs[k]),
            out@.len() == brs.filter(bmlt_converts_pred()).len(),
            forall|j: int|
                0 <= j < out@.len() ==> bmlt_converted(brs.filter(bmlt_converts_pred())[j], now@, (
                #[trigger] out@[j])),
            forall|k: int|
                0 <= k < out@.len() ==> (#[trigger] out@[k]).meeting.valid() && out@[k].meeting.org
                    == Organization::NarcoticsAnonymous,
        decreases records@.len() - i,
    {
        proof {
            assert(recs[i as int] == records@[i as int]@);
        }
        let rec = match bmlt_record_from_json(records[i].as_str()) {
            Some(rec) => rec,
            None => {
                proof {
                    assert(!bmlt_record_fields_ok(recs[i as int]));
                    assert(inner@ == body@.subrange(9, body@.len() - 2));
                    assert(json::json_array_field(body@.subrange(9, body@.len() - 2), "meetings"@)
                        == Some(recs));
                    assert(json::json_array_field(
                        body@.subrange(9, body@.len() - 2),
                        "meetings"@,
                    )->0[i as int] == recs[i as int]);
                    assert(!bmlt_answer_ok(body@));
                }
                return Err(MeetingFetchError::JsonParse);
            },
        };
        let converted = bmlt_record_to_fetch_meeting(&rec, now);
        let ghost prev = brs;
        proof {
            brs = prev.push(rec);
            reveal(Seq::filter);
            assert(brs.drop_last() =~= prev);
            assert(brs.last() == rec);
        }
        match converted {
            Some(fm) => {
                out.push(fm);
            },
            None => {},
        }
        i += 1;
    }
    proof {
        assert(bmlt_batch_converts(recs, brs, now@, out@));
        assert(inner@ == body@.subrange(9, body@.len() - 2));
        assert(json::json_array_field(body@.subrange(9, body@.len() - 2), "meetings"@) == Some(
            recs,
        ));
        assert(json::json_array_field(body@.subrange(9, body@.len() - 2), "meetings"@)->0 == recs);
        assert(forall|k: int| 0 <= k < recs.len() ==> bmlt_record_fields_ok(#[trigger] recs[k]));
        assert(bmlt_answer_ok(body@));
        assert(exists|x: Seq<BmltRecord>|
            #[trigger] bmlt_batch_converts(
                json::json_array_field(body@.subrange(9, body@.len() - 2), "meetings"@)->0,
                x,
                now@,
                out@,
            ));
    }
    Ok(out)
}

} // verus!
