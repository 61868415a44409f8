use meeting_indexer::bmlt::{bmlt_parse_meetings_response, bmlt_parse_rootservers,
    bmlt_server_query_url, jsonp_strip, BmltRecord, bmlt_record_to_fetch_meeting, BMLT_QUERY};
use meeting_indexer::model::{MeetingTime, Organization, WeekDay};
use meeting_indexer::na_holland::{na_parse_response, na_position_query, na_record_to_fetch_meeting,
    NaRecord};
use meeting_indexer::streets::find_street_match;
use meeting_indexer::text::chars_of;
use meeting_indexer::tsml::{extract_embedded_object, tsml_day_to_canonical,
    tsml_metadata_from_page, tsml_parse_meetings_response, tsml_sites};

fn na_record() -> NaRecord {
    NaRecord {
        id: 5,
        province_name: String::from("Utrecht"),
        city_name: String::from("Utrecht"),
        weekday: 2,
        start: String::from("19:30"),
        finish: String::from("21:00"),
        address: String::from("Hoofdstraat 12, notes about the door"),
        contact: String::from(""),
        details: String::from("some details"),
    }
}

#[test]
fn street_pattern() {
    let v = chars_of("Hoofdstraat 12, notes");
    let (start, end) = find_street_match(&v).unwrap();
    let text: String = v[start..end].iter().collect();
    assert_eq!(text, "Hoofdstraat 12,");
    let with_suffix = chars_of("go to Dorpsweg 3a, then left");
    let (s2, e2) = find_street_match(&with_suffix).unwrap();
    let text2: String = with_suffix[s2..e2].iter().collect();
    assert_eq!(text2, "Dorpsweg 3a,");
    assert!(find_street_match(&chars_of("no street here")).is_none());
}

#[test]
fn na_query_synthesis() {
    assert_eq!(
        na_position_query("Hoofdstraat 12, notes", "Utrecht"),
        Some(String::from("Hoofdstraat 12 Utrecht"))
    );
    assert_eq!(na_position_query("just a note", "Utrecht"), None);
}

#[test]
fn na_happy_path_record() {
    let rec = na_record();
    let fm = na_record_to_fetch_meeting(&rec, "2024-01-01T00:00:00Z").unwrap();
    assert_eq!(fm.meeting.name, "NA Holland | Utrecht Hoofdstraat 12, notes about the door");
    assert_eq!(fm.meeting.org, Organization::NarcoticsAnonymous);
    assert_eq!(fm.meeting.source, "https://www.na-holland.nl/#/meetings/5");
    assert_eq!(fm.meeting.notes, Some(String::from("some details")));
    assert_eq!(fm.meeting.location.country, Some(String::from("Nederland")));
    assert_eq!(fm.meeting.location.region, Some(String::from("Utrecht")));
    assert!(fm.meeting.location.position.is_none());
    assert!(!fm.meeting.online_options.is_online);
    match fm.meeting.time {
        MeetingTime::Recurring { day, hour, minute } => {
            assert_eq!(day, WeekDay::Tuesday);
            assert_eq!(hour, 19);
            assert_eq!(minute, 30);
        }
    }
    assert_eq!(fm.meeting.duration, Some(5400));
    assert_eq!(fm.position_query, Some(String::from("Hoofdstraat 12 Utrecht")));
}

#[test]
fn na_online_flag_and_drops() {
    let mut rec = na_record();
    rec.province_name = String::from("ONLINE");
    let fm = na_record_to_fetch_meeting(&rec, "2024-01-01T00:00:00Z").unwrap();
    assert!(fm.meeting.online_options.is_online);

    let mut bad_time = na_record();
    bad_time.start = String::from("late");
    assert!(na_record_to_fetch_meeting(&bad_time, "2024-01-01T00:00:00Z").is_none());

    let mut bad_day = na_record();
    bad_day.weekday = 0;
    assert!(na_record_to_fetch_meeting(&bad_day, "2024-01-01T00:00:00Z").is_none());
    bad_day.weekday = 8;
    assert!(na_record_to_fetch_meeting(&bad_day, "2024-01-01T00:00:00Z").is_none());
}

#[test]
fn na_response_parses() {
    let body = r#"{"meetings":[{"id":5,"province_name":"Utrecht","city_name":"Utrecht","weekday":2,"start":"19:30","finish":"21:00","address":"Hoofdstraat 12, notes","contact":"","details":"d"}]}"#;
    let out = na_parse_response(body, "2024-01-01T00:00:00Z").unwrap();
    assert_eq!(out.len(), 1);
    assert_eq!(out[0].position_query, Some(String::from("Hoofdstraat 12 Utrecht")));

    assert!(na_parse_response("{not json", "2024-01-01T00:00:00Z").is_err());
    assert!(na_parse_response(r#"{"meetings":[{"id":5}]}"#, "2024-01-01T00:00:00Z").is_err());
}

fn bmlt_record() -> BmltRecord {
    BmltRecord {
        id_bigint: String::from("77"),
        weekday_tinyint: String::from("2"),
        start_time: String::from("19:00:00"),
        duration_time: String::from("01:30:00"),
        formats: String::from("VM,O"),
        longitude: String::from("-77.03"),
        latitude: String::from("38.89"),
        meeting_name: String::from("Downtown Group"),
        location_text: String::from("Community Hall"),
        location_info: String::from(""),
        location_street: String::from("1 Main St"),
        location_neighborhood: String::from(""),
        location_municipality: String::from(""),
        location_sub_province: String::from(""),
        location_province: String::from("DC"),
        location_postal_code_1: String::from(""),
        comments: String::from(""),
        contact_phone_2: String::from("222"),
        contact_email_2: String::from("b@x.org"),
        contact_name_2: String::from(""),
        contact_phone_1: String::from(""),
        contact_email_1: String::from("a@x.org"),
        contact_name_1: String::from(""),
        phone_meeting_number: String::from(""),
        virtual_meeting_link: String::from("https://z"),
        root_server_uri: String::from("https://na.example.org/main_server"),
    }
}

#[test]
fn bmlt_online_flag() {
    let rec = bmlt_record();
    let fm = bmlt_record_to_fetch_meeting(&rec, "2024-01-01T00:00:00Z").unwrap();
    assert!(fm.meeting.online_options.is_online);
    assert_eq!(fm.meeting.online_options.url, Some(String::from("https://z")));

    let mut offline = bmlt_record();
    offline.formats = String::from("O");
    let fm2 = bmlt_record_to_fetch_meeting(&offline, "2024-01-01T00:00:00Z").unwrap();
    assert!(!fm2.meeting.online_options.is_online);
    assert_eq!(fm2.meeting.online_options.url, None);
}

#[test]
fn bmlt_mapping() {
    let rec = bmlt_record();
    let fm = bmlt_record_to_fetch_meeting(&rec, "2024-01-01T00:00:00Z").unwrap();
    assert_eq!(fm.meeting.org, Organization::NarcoticsAnonymous);
    // weekday_tinyint 2 maps to canonical index 1
    match fm.meeting.time {
        MeetingTime::Recurring { day, hour, minute } => {
            assert_eq!(day.to_day_index(), 1);
            assert_eq!(hour, 19);
            assert_eq!(minute, 0);
        }
    }
    assert_eq!(fm.meeting.duration, Some(5400));
    assert_eq!(fm.meeting.source, "https://na.example.org");
    let p = fm.meeting.location.position.unwrap();
    assert_eq!(p.latitude_micro, 38_890_000);
    assert_eq!(p.longitude_micro, -77_030_000);
    assert_eq!(fm.meeting.contact.email, Some(String::from("a@x.org")));
    assert_eq!(fm.meeting.contact.phone, Some(String::from("222")));
    assert_eq!(fm.meeting.location.country, Some(String::from("United States")));
    assert!(fm.position_query.is_none());

    let mut bad_day = bmlt_record();
    bad_day.weekday_tinyint = String::from("0");
    assert!(bmlt_record_to_fetch_meeting(&bad_day, "2024-01-01T00:00:00Z").is_none());
    bad_day.weekday_tinyint = String::from("8");
    assert!(bmlt_record_to_fetch_meeting(&bad_day, "2024-01-01T00:00:00Z").is_none());
}

#[test]
fn bmlt_jsonp_and_urls() {
    let inner = jsonp_strip("callback({\"meetings\":[]});").unwrap();
    assert_eq!(inner, "{\"meetings\":[]}");
    assert!(jsonp_strip("{\"meetings\":[]}").is_err());
    let url = bmlt_server_query_url("https://na.example.org/");
    assert_eq!(
        url,
        format!("https://na.example.org/client_interface/jsonp/?{}", BMLT_QUERY)
    );
}

#[test]
fn bmlt_response_and_rootservers() {
    let body = "callback({\"meetings\":[{\"id_bigint\":\"77\",\"weekday_tinyint\":\"2\",\"start_time\":\"19:00:00\",\"duration_time\":\"01:30:00\",\"formats\":\"VM\",\"longitude\":\"-77.03\",\"latitude\":\"38.89\",\"meeting_name\":\"G\",\"location_text\":\"\",\"location_info\":\"\",\"location_street\":\"\",\"location_neighborhood\":\"\",\"location_municipality\":\"\",\"location_sub_province\":\"\",\"location_province\":\"DC\",\"location_postal_code_1\":\"\",\"comments\":\"\",\"contact_phone_2\":\"\",\"contact_email_2\":\"\",\"contact_name_2\":\"\",\"contact_phone_1\":\"\",\"contact_email_1\":\"\",\"contact_name_1\":\"\",\"phone_meeting_number\":\"\",\"virtual_meeting_link\":\"\",\"root_server_uri\":\"https://na.example.org\"}]});";
    let out = bmlt_parse_meetings_response(body, "2024-01-01T00:00:00Z").unwrap();
    assert_eq!(out.len(), 1);
    assert!(out[0].meeting.online_options.is_online);
    assert_eq!(out[0].meeting.online_options.url, None);

    let servers = bmlt_parse_rootservers(
        r#"[{"id":1,"source_id":0,"name":"A","url":"https://na.example.org/","server_info":"","last_successful_import":"2024"}]"#,
    )
    .unwrap();
    assert_eq!(servers.len(), 1);
    assert_eq!(servers[0].url, "https://na.example.org/");
}

#[test]
fn tsml_day_shift() {
    // upstream Sunday (0) becomes canonical Sunday (6); upstream 1 becomes Monday (0)
    assert_eq!(tsml_day_to_canonical(0), Some(6));
    assert_eq!(tsml_day_to_canonical(1), Some(0));
    assert_eq!(tsml_day_to_canonical(6), Some(5));
    assert_eq!(tsml_day_to_canonical(7), None);
}

#[test]
fn tsml_embedded_object() {
    let t = extract_embedded_object("var tsml = {\"a\":{\"b\":1}};").unwrap();
    assert_eq!(t, "{\"a\":{\"b\":1}}");
    assert!(extract_embedded_object("no braces").is_err());
}

#[test]
fn tsml_metadata() {
    let html = "<html><body><script id=\"tsml_public-js-extra\">var tsml = {\"nonce\":\"abc123\",\"ajaxurl\":\"https://site.org/wp-admin/admin-ajax.php\",\"types\":{\"O\":\"Open\",\"C\":\"Closed\"}};</script></body></html>";
    let meta = tsml_metadata_from_page(html).unwrap();
    assert_eq!(meta.nonce, "abc123");
    assert_eq!(meta.endpoint, "https://site.org/wp-admin/admin-ajax.php");
    assert_eq!(meta.meeting_type_map.len(), 2);
    assert!(tsml_metadata_from_page("<html></html>").is_err());
}

#[test]
fn tsml_records_value_or_string() {
    let now = "2024-01-01T00:00:00Z";
    // day and coordinates as JSON numbers
    let body_numbers = r#"[{"name":"M1","url":"https://site.org/m1","day":0,"time":"18:00","end_time":"19:00","latitude":52.09,"longitude":5.12}]"#;
    let out = tsml_parse_meetings_response(body_numbers, Organization::DebtorsAnonymous, now)
        .unwrap();
    assert_eq!(out.len(), 1);
    assert_eq!(out[0].org, Organization::DebtorsAnonymous);
    match out[0].time {
        MeetingTime::Recurring { day, hour, minute } => {
            assert_eq!(day, WeekDay::Sunday);
            assert_eq!(hour, 18);
            assert_eq!(minute, 0);
        }
    }
    let p = out[0].location.position.unwrap();
    assert_eq!(p.latitude_micro, 52_090_000);
    assert_eq!(p.longitude_micro, 5_120_000);
    assert_eq!(out[0].duration, Some(3600));

    // day and coordinates as numeric strings
    let body_strings = r#"[{"name":"M2","url":"https://site.org/m2","day":"1","time":"18:00","end_time":"17:00","latitude":"1.5","longitude":"-2.25"}]"#;
    let out2 = tsml_parse_meetings_response(body_strings, Organization::AnonymousAlcoholics, now)
        .unwrap();
    assert_eq!(out2.len(), 1);
    match out2[0].time {
        MeetingTime::Recurring { day, .. } => assert_eq!(day, WeekDay::Monday),
    }
    // an end before the start yields no duration
    assert_eq!(out2[0].duration, None);

    // a record without a day is dropped, not an error
    let body_no_day = r#"[{"name":"M3","url":"https://site.org/m3","time":"18:00","end_time":"19:00","latitude":1,"longitude":2}]"#;
    let out3 = tsml_parse_meetings_response(body_no_day, Organization::AnonymousAlcoholics, now)
        .unwrap();
    assert_eq!(out3.len(), 0);
}

#[test]
fn tsml_online_region() {
    let now = "2024-01-01T00:00:00Z";
    let body = r#"[{"name":"M","url":"https://u","day":1,"time":"18:00","end_time":"19:00","latitude":0,"longitude":0,"region":"--Online--","conference_url":"https://zoom.example"}]"#;
    let out = tsml_parse_meetings_response(body, Organization::AnonymousAlcoholics, now).unwrap();
    assert!(out[0].online_options.is_online);
    assert_eq!(out[0].online_options.url, Some(String::from("https://zoom.example")));
    assert_eq!(out[0].location.country, Some(String::from("--Online--")));

    let body_offline = r#"[{"name":"M","url":"https://u","day":1,"time":"18:00","end_time":"19:00","latitude":0,"longitude":0,"region":"Town","conference_url":"https://zoom.example"}]"#;
    let out2 =
        tsml_parse_meetings_response(body_offline, Organization::AnonymousAlcoholics, now).unwrap();
    assert!(!out2[0].online_options.is_online);
    assert_eq!(out2[0].online_options.url, None);
}

#[test]
fn tsml_site_list() {
    let sites = tsml_sites();
    assert_eq!(sites.len(), 2);
    assert_eq!(sites[0].0, Organization::AnonymousAlcoholics);
    assert_eq!(sites[1].0, Organization::DebtorsAnonymous);
    assert!(sites[0].1.contains("alcoholics-anonymous.eu"));
    assert!(sites[1].1.contains("debtorsanonymous.org"));
}
