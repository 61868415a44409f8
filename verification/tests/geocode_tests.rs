use meeting_indexer::model::Position;
use meeting_indexer::position_lookup::{geocode_request_url, parse_geocode_response,
    rate_limit_wait_ms, PositionLookup, PositionLookupError, API_RATE_LIMIT_MS};

#[test]
fn rate_limit_remainder() {
    assert_eq!(API_RATE_LIMIT_MS, 2000);
    assert_eq!(rate_limit_wait_ms(0), 2000);
    assert_eq!(rate_limit_wait_ms(1500), 500);
    assert_eq!(rate_limit_wait_ms(1999), 1);
    assert_eq!(rate_limit_wait_ms(2000), 0);
    assert_eq!(rate_limit_wait_ms(60_000), 0);
}

#[test]
fn request_url_is_encoded() {
    assert_eq!(
        geocode_request_url("Hoofdstraat 12 Utrecht"),
        "https://positionstack.com/geo_api.php?query=Hoofdstraat%2012%20Utrecht"
    );
}

#[test]
fn response_decoding() {
    let hit = parse_geocode_response(r#"{"data":[{"latitude":52.09,"longitude":5.12}]}"#).unwrap();
    assert_eq!(hit, Some(Position::new(52_090_000, 5_120_000)));

    let miss = parse_geocode_response(r#"{"data":[]}"#).unwrap();
    assert_eq!(miss, None);

    // the first record wins
    let first =
        parse_geocode_response(r#"{"data":[{"latitude":1,"longitude":2},{"latitude":3,"longitude":4}]}"#)
            .unwrap();
    assert_eq!(first, Some(Position::new(1_000_000, 2_000_000)));

    assert!(matches!(
        parse_geocode_response("{oops"),
        Err(PositionLookupError::JsonParseError)
    ));
    assert!(matches!(
        parse_geocode_response(r#"{"nodata":true}"#),
        Err(PositionLookupError::JsonParseError)
    ));

    // an off-globe answer counts as a negative one
    let off = parse_geocode_response(r#"{"data":[{"latitude":200.0,"longitude":0.0}]}"#).unwrap();
    assert_eq!(off, None);
}

#[test]
fn cache_roundtrip() {
    let mut cache = PositionLookup::open(":memory:").unwrap();
    let now = "2024-01-31T12:00:00+00:00";
    let cutoff = "2024-01-01T12:00:00+00:00";

    // cold cache: a miss
    assert!(cache.cache_lookup("Hoofdstraat 12 Utrecht", cutoff).unwrap().is_none());

    // a fresh answer is handed back uncached and then served from the cache
    let pos = Some(Position::new(52_090_000, 5_120_000));
    let first = cache.record_api_result("Hoofdstraat 12 Utrecht", &pos, now).unwrap();
    assert!(!first.cached);
    assert_eq!(first.position, pos);

    let second = cache.cache_lookup("Hoofdstraat 12 Utrecht", cutoff).unwrap().unwrap();
    assert!(second.cached);
    assert_eq!(second.position, pos);

    // a negative answer is cached too
    let neg = cache.record_api_result("nowhere at all", &None, now).unwrap();
    assert!(!neg.cached);
    assert_eq!(neg.position, None);
    let neg_hit = cache.cache_lookup("nowhere at all", cutoff).unwrap().unwrap();
    assert!(neg_hit.cached);
    assert_eq!(neg_hit.position, None);

    // other queries stay misses
    assert!(cache.cache_lookup("something else", cutoff).unwrap().is_none());

    // a newer answer replaces the cached one
    let moved = Some(Position::new(1_000_000, 2_000_000));
    cache.record_api_result("Hoofdstraat 12 Utrecht", &moved, now).unwrap();
    let third = cache.cache_lookup("Hoofdstraat 12 Utrecht", cutoff).unwrap().unwrap();
    assert_eq!(third.position, moved);
}

#[test]
fn cache_entries_expire_past_the_cutoff() {
    let mut cache = PositionLookup::open(":memory:").unwrap();
    let pos = Some(Position::new(52_090_000, 5_120_000));

    // an answer stored long ago is stale once the cutoff passes it
    cache
        .record_api_result("Hoofdstraat 12 Utrecht", &pos, "2020-06-01T00:00:00+00:00")
        .unwrap();
    assert!(
        cache
            .cache_lookup("Hoofdstraat 12 Utrecht", "2024-01-01T12:00:00+00:00")
            .unwrap()
            .is_none()
    );

    // refreshing the entry makes it a hit again
    cache
        .record_api_result("Hoofdstraat 12 Utrecht", &pos, "2024-01-20T00:00:00+00:00")
        .unwrap();
    let hit = cache
        .cache_lookup("Hoofdstraat 12 Utrecht", "2024-01-01T12:00:00+00:00")
        .unwrap()
        .unwrap();
    assert!(hit.cached);
    assert_eq!(hit.position, pos);
}
