use meeting_indexer::logo_mapper::map_org_to_logo_url;
use meeting_indexer::model::{MeetingTime, Organization, OrganizationParseError, Position, WeekDay};

#[test]
fn week_day_index_roundtrip() {
    for i in 0u8..7 {
        let day = WeekDay::from_day_index(i);
        assert_eq!(day.to_day_index(), i);
    }
}

#[test]
fn week_day_checked_rejects_out_of_range() {
    for i in 0u64..7 {
        assert!(WeekDay::checked_from_day_index(i).is_some());
    }
    assert!(WeekDay::checked_from_day_index(7).is_none());
    assert!(WeekDay::checked_from_day_index(255).is_none());
}

#[test]
fn week_day_names() {
    assert_eq!(WeekDay::Monday.to_string(), "Monday");
    assert_eq!(WeekDay::Tuesday.to_string(), "Tuesday");
    assert_eq!(WeekDay::Sunday.to_string(), "Sunday");
}

#[test]
fn organization_string_roundtrip() {
    let all = [
        Organization::AnonymousAlcoholics,
        Organization::DebtorsAnonymous,
        Organization::CrystalMethAnonymous,
        Organization::CodependentsAnonymous,
        Organization::NarcoticsAnonymous,
    ];
    for org in all {
        let name = org.to_string();
        assert_eq!(Organization::from_str(name.as_str()), Ok(org));
    }
    assert_eq!(
        Organization::from_str("SomethingElse"),
        Err(OrganizationParseError::UnknownOrg)
    );
    assert_eq!(
        Organization::from_str("anonymousalcoholics"),
        Err(OrganizationParseError::UnknownOrg)
    );
}

#[test]
fn meeting_time_renders() {
    let t = MeetingTime::Recurring { day: WeekDay::Tuesday, hour: 19, minute: 30 };
    assert_eq!(t.to_string(), "Every Tuesday at 19:30");
    let t2 = MeetingTime::Recurring { day: WeekDay::Sunday, hour: 7, minute: 5 };
    assert_eq!(t2.to_string(), "Every Sunday at 07:05");
}

#[test]
fn position_checked_bounds() {
    assert!(Position::checked_new(90_000_000, 180_000_000).is_some());
    assert!(Position::checked_new(-90_000_000, -180_000_000).is_some());
    assert!(Position::checked_new(90_000_001, 0).is_none());
    assert!(Position::checked_new(0, -180_000_001).is_none());
    let p = Position::new(52_090_000, 5_120_000);
    assert_eq!(p.latitude_micro, 52_090_000);
    assert_eq!(p.longitude_micro, 5_120_000);
}

#[test]
fn logo_urls() {
    assert_eq!(map_org_to_logo_url(&Organization::AnonymousAlcoholics), "/logos/aa.png");
    assert_eq!(map_org_to_logo_url(&Organization::DebtorsAnonymous), "/logos/da.png");
    assert_eq!(
        map_org_to_logo_url(&Organization::CrystalMethAnonymous),
        "/logos/cma_resize.webp"
    );
    assert_eq!(map_org_to_logo_url(&Organization::CodependentsAnonymous), "/logos/coda.png");
    assert_eq!(map_org_to_logo_url(&Organization::NarcoticsAnonymous), "/logos/na.png");
}
