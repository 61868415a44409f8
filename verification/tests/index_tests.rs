use meeting_indexer::index::{DistanceSearch, MeetingIndex, SearchOptions};
use meeting_indexer::model::{Contact, Location, Meeting, MeetingTime, OnlineOptions, Organization,
    Position, WeekDay};
use meeting_indexer::server::search_options_from_query;
use meeting_indexer::sync::{apply_position, batch_meetings, needs_position};
use meeting_indexer::model::FetchMeeting;

fn meeting(name: &str, position: Option<Position>) -> Meeting {
    Meeting {
        name: String::from(name),
        org: Organization::NarcoticsAnonymous,
        notes: Some(String::from("notes")),
        source: String::from("https://example.org/listing"),
        updated_at: String::from("2024-01-01T00:00:00Z"),
        contact: Contact { email: Some(String::from("a@b.c")), phone: None },
        location: Location {
            position,
            name: Some(String::from("Hall")),
            notes: None,
            country: Some(String::from("Nederland")),
            region: None,
            address: Some(String::from("Hoofdstraat 12")),
        },
        online_options: OnlineOptions { url: None, notes: None, is_online: false },
        time: MeetingTime::Recurring { day: WeekDay::Tuesday, hour: 19, minute: 30 },
        duration: Some(5400),
    }
}

fn rebuild(index: MeetingIndex, meetings: &Vec<Meeting>) -> MeetingIndex {
    let mut import = index.start_import().unwrap();
    import.remove_old_meetings().unwrap();
    import.add_meetings(meetings).unwrap();
    assert_eq!(import.meetings_added(), meetings.len());
    let (index, n) = import.finish().unwrap();
    assert_eq!(n, meetings.len());
    index
}

#[test]
fn import_and_search_roundtrip() {
    let index = MeetingIndex::open(":memory:").unwrap();
    let ms = vec![
        meeting("one", Some(Position::new(52_090_000, 5_120_000))),
        meeting("two", None),
        meeting("three", Some(Position::new(-10_000_000, 20_000_000))),
    ];
    let index = rebuild(index, &ms);
    let found = index.search(&SearchOptions { distance: None }).unwrap();
    assert_eq!(found.len(), 3);
    let mut names: Vec<String> = found.iter().map(|sm| sm.meeting.name.clone()).collect();
    names.sort();
    assert_eq!(names, vec!["one".to_string(), "three".to_string(), "two".to_string()]);
    for sm in &found {
        assert!(sm.distance_nano_km.is_none());
        assert_eq!(sm.meeting.org, Organization::NarcoticsAnonymous);
        assert_eq!(sm.meeting.updated_at, "2024-01-01T00:00:00Z");
        assert_eq!(sm.meeting.duration, Some(5400));
        match sm.meeting.time {
            MeetingTime::Recurring { day, hour, minute } => {
                assert_eq!(day, WeekDay::Tuesday);
                assert_eq!(hour, 19);
                assert_eq!(minute, 30);
            }
        }
        if sm.meeting.name == "one" {
            assert_eq!(
                sm.meeting.location.position,
                Some(Position::new(52_090_000, 5_120_000))
            );
        }
        if sm.meeting.name == "two" {
            assert!(sm.meeting.location.position.is_none());
        }
    }
}

fn haversine_km(lat1: f64, lon1: f64, lat2: f64, lon2: f64) -> f64 {
    let rad = std::f64::consts::PI / 180.0;
    12742.0
        * ((0.5 - ((lat2 - lat1) * rad).cos() / 2.0
            + (lat1 * rad).cos() * (lat2 * rad).cos() * (1.0 - ((lon2 - lon1) * rad).cos()) / 2.0)
            .sqrt())
        .asin()
}

#[test]
fn distance_search_filters_and_orders() {
    let index = MeetingIndex::open(":memory:").unwrap();
    let ms = vec![
        meeting("origin", Some(Position::new(0, 0))),
        meeting("east", Some(Position::new(0, 1_000_000))),
        meeting("nowhere", None),
    ];
    let index = rebuild(index, &ms);

    // radius 80 km keeps only the origin
    let near = index
        .search(&SearchOptions {
            distance: Some(DistanceSearch {
                latitude_micro: 0,
                longitude_micro: 0,
                distance_nano_km: 80_000_000_000,
            }),
        })
        .unwrap();
    assert_eq!(near.len(), 1);
    assert_eq!(near[0].meeting.name, "origin");
    let d0 = near[0].distance_nano_km.unwrap();
    assert!(d0 >= 0 && d0 < 1_000_000, "origin distance was {d0}");

    // radius 120 km keeps both, nearest first, one degree apart on the equator
    let both = index
        .search(&SearchOptions {
            distance: Some(DistanceSearch {
                latitude_micro: 0,
                longitude_micro: 0,
                distance_nano_km: 120_000_000_000,
            }),
        })
        .unwrap();
    assert_eq!(both.len(), 2);
    assert_eq!(both[0].meeting.name, "origin");
    assert_eq!(both[1].meeting.name, "east");
    let d1 = both[1].distance_nano_km.unwrap() as f64 / 1e9;
    assert!((d1 - 111.19).abs() < 0.05, "one-degree distance was {d1}");

    // the returned distance matches the Haversine formula tightly
    let expected = haversine_km(0.0, 0.0, 0.0, 1.0);
    assert!(
        (d1 - expected).abs() <= expected * 1e-6 + 1e-6,
        "distance {d1} deviates from {expected}"
    );
}

#[test]
fn empty_import_keeps_snapshot() {
    let path = "/tmp/meeting_indexer_empty_guard.db";
    let index = MeetingIndex::open(path).unwrap();
    let ms = vec![meeting("a", None), meeting("b", None), meeting("c", None)];
    let index = rebuild(index, &ms);

    // all adapters failed: nothing is added, the import is refused
    let mut import = index.start_import().unwrap();
    import.remove_old_meetings().unwrap();
    assert_eq!(import.meetings_added(), 0);
    let (index, n) = import.finish().unwrap();
    assert_eq!(n, 0);

    let found = index.search(&SearchOptions { distance: None }).unwrap();
    assert_eq!(found.len(), 3);
}

#[test]
fn commit_swaps_snapshot_atomically() {
    let path = "/tmp/meeting_indexer_swap.db";
    let index = MeetingIndex::open(path).unwrap();
    let index = rebuild(index, &vec![meeting("old", None)]);

    // a reader on its own connection sees the old snapshot while the new
    // import is staged, and the new one only after the commit
    let reader = MeetingIndex::open(path).unwrap();
    let mut import = index.start_import().unwrap();
    import.remove_old_meetings().unwrap();
    import
        .add_meetings(&vec![meeting("new1", None), meeting("new2", None)])
        .unwrap();

    let during = reader.search(&SearchOptions { distance: None }).unwrap();
    assert_eq!(during.len(), 1);
    assert_eq!(during[0].meeting.name, "old");

    let (_index, n) = import.finish().unwrap();
    assert_eq!(n, 2);

    let after = reader.search(&SearchOptions { distance: None }).unwrap();
    assert_eq!(after.len(), 2);
}

#[test]
fn abandoned_import_changes_nothing() {
    let path = "/tmp/meeting_indexer_abandon.db";
    let index = MeetingIndex::open(path).unwrap();
    let index = rebuild(index, &vec![meeting("kept", None)]);

    let mut import = index.start_import().unwrap();
    import.remove_old_meetings().unwrap();
    import.add_meetings(&vec![meeting("discarded", None)]).unwrap();
    let index = import.abandon().unwrap();

    let found = index.search(&SearchOptions { distance: None }).unwrap();
    assert_eq!(found.len(), 1);
    assert_eq!(found[0].meeting.name, "kept");
}

#[test]
fn query_parameter_mapping() {
    let all = search_options_from_query(Some(5_120_000), Some(52_090_000), Some(80_000_000_000));
    assert_eq!(
        all.distance,
        Some(DistanceSearch {
            latitude_micro: 52_090_000,
            longitude_micro: 5_120_000,
            distance_nano_km: 80_000_000_000,
        })
    );
    assert_eq!(search_options_from_query(None, Some(1), Some(2)).distance, None);
    assert_eq!(search_options_from_query(Some(1), None, Some(2)).distance, None);
    assert_eq!(search_options_from_query(Some(1), Some(2), None).distance, None);
    assert_eq!(search_options_from_query(None, None, None).distance, None);
}

#[test]
fn drainer_helpers() {
    let fm = FetchMeeting {
        meeting: meeting("m", None),
        position_query: Some(String::from("Hoofdstraat 12 Utrecht")),
    };
    assert_eq!(needs_position(&fm), Some(String::from("Hoofdstraat 12 Utrecht")));

    let resolved = FetchMeeting {
        meeting: meeting("m", Some(Position::new(1, 2))),
        position_query: Some(String::from("q")),
    };
    assert_eq!(needs_position(&resolved), None);

    let unresolvable = FetchMeeting { meeting: meeting("m", None), position_query: None };
    assert_eq!(needs_position(&unresolvable), None);

    let mut fm2 = fm.clone();
    apply_position(&mut fm2, Some(Position::new(52_090_000, 5_120_000)));
    assert_eq!(
        fm2.meeting.location.position,
        Some(Position::new(52_090_000, 5_120_000))
    );
    assert_eq!(fm2.meeting.name, fm.meeting.name);

    let ms = batch_meetings(&vec![fm, fm2]);
    assert_eq!(ms.len(), 2);
    assert_eq!(ms[0].name, "m");
}
