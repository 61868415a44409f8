//! Canonical domain model: positions, week days, organizations, meeting
//! times, and the `Meeting` record that every source is normalized into.
//!
//! Coordinates are held in microdegrees (degrees times one million) and
//! durations in whole seconds, so that every field is a plain value with an
//! exact meaning.

use vstd::prelude::*;
use crate::text;

verus! {

/// A day of the week. The canonical index is Monday = 0 .. Sunday = 6.
#[derive(Debug, Clone, Copy, PartialEq, Eq, Structural)]
pub enum WeekDay {
    Monday,
    Tuesday,
    Wednesday,
    Thursday,
    Friday,
    Saturday,
    Sunday,
}

impl WeekDay {
    /// The canonical index of this day: Monday = 0 .. Sunday = 6.
    pub open spec fn index(self) -> int {
        match self {
            WeekDay::Monday => 0,
            WeekDay::Tuesday => 1,
            WeekDay::Wednesday => 2,
            WeekDay::Thursday => 3,
            WeekDay::Friday => 4,
            WeekDay::Saturday => 5,
            WeekDay::Sunday => 6,
        }
    }

    /// The day with the given canonical index.
    pub open spec fn with_index(i: int) -> WeekDay {
        if i == 0 {
            WeekDay::Monday
        } else if i == 1 {
            WeekDay::Tuesday
        } else if i == 2 {
            WeekDay::Wednesday
        } else if i == 3 {
            WeekDay::Thursday
        } else if i == 4 {
            WeekDay::Friday
        } else if i == 5 {
            WeekDay::Saturday
        } else {
            WeekDay::Sunday
        }
    }

    /// The English name of this day.
    pub open spec fn name(self) -> Seq<char> {
        match self {
            WeekDay::Monday => "Monday"@,
            WeekDay::Tuesday => "Tuesday"@,
            WeekDay::Wednesday => "Wednesday"@,
            WeekDay::Thursday => "Thursday"@,
            WeekDay::Friday => "Friday"@,
            WeekDay::Saturday => "Saturday"@,
            WeekDay::Sunday => "Sunday"@,
        }
    }

    /// The day with canonical index `day`; only indices 0 through 6 name a day.
    pub fn from_day_index(day: u8) -> (r: WeekDay)
        requires
            day < 7,
        ensures
            r == WeekDay::with_index(day as int),
            r.index() == day as int,
    {
        match day {
            0 => WeekDay::Monday,
            1 => WeekDay::Tuesday,
            2 => WeekDay::Wednesday,
            3 => WeekDay::Thursday,
            4 => WeekDay::Friday,
            5 => WeekDay::Saturday,
            _ => WeekDay::Sunday,
        }
    }

    /// The canonical index of this day.
    pub fn to_day_index(&self) -> (r: u8)
        ensures
            r as int == self.index(),
            r < 7,
    {
        match self {
            WeekDay::Monday => 0,
            WeekDay::Tuesday => 1,
            WeekDay::Wednesday => 2,
            WeekDay::Thursday => 3,
            WeekDay::Friday => 4,
            WeekDay::Saturday => 5,
            WeekDay::Sunday => 6,
        }
    }

    /// The day with canonical index `day`, or `None` when `day` is out of range.
    pub fn checked_from_day_index(day: u64) -> (r: Option<WeekDay>)
        ensures
            day < 7 ==> r == Some(WeekDay::with_index(day as int)),
            day >= 7 ==> r is None,
    {
        if day < 7 {
            Some(WeekDay::from_day_index(day as u8))
        } else {
            None
        }
    }

    /// The English name of this day.
    pub fn to_string(&self) -> (r: String)
        ensures
            r@ == self.name(),
    {
        match self {
            WeekDay::Monday => String::from_str("Monday"),
            WeekDay::Tuesday => String::from_str("Tuesday"),
            WeekDay::Wednesday => String::from_str("Wednesday"),
            WeekDay::Thursday => String::from_str("Thursday"),
            WeekDay::Friday => String::from_str("Friday"),
            WeekDay::Saturday => String::from_str("Saturday"),
            WeekDay::Sunday => String::from_str("Sunday"),
        }
    }
}

/// Round trip: every canonical index 0..6 names a day that carries that index,
/// and every day is named by its own index.
pub proof fn lemma_week_day_index_roundtrip(i: int, d: WeekDay)
    requires
        0 <= i < 7,
    ensures
        WeekDay::with_index(i).index() == i,
        WeekDay::with_index(d.index()) == d,
{
}

/// The fellowship a meeting belongs to.
#[derive(Debug, Clone, Copy, PartialEq, Eq, Structural, Hash)]
pub enum Organization {
    AnonymousAlcoholics,
    DebtorsAnonymous,
    CrystalMethAnonymous,
    CodependentsAnonymous,
    NarcoticsAnonymous,
}

/// Failure of parsing an organization identifier.
#[derive(Debug, Clone, Copy, PartialEq, Eq, Structural)]
pub enum OrganizationParseError {
    UnknownOrg,
}

impl Organization {
    /// The string identifier of this organization (same casing as the tag).
    pub open spec fn id_name(self) -> Seq<char> {
        match self {
            Organization::AnonymousAlcoholics => "AnonymousAlcoholics"@,
            Organization::DebtorsAnonymous => "DebtorsAnonymous"@,
            Organization::CrystalMethAnonymous => "CrystalMethAnonymous"@,
            Organization::CodependentsAnonymous => "CodependentsAnonymous"@,
            Organization::NarcoticsAnonymous => "NarcoticsAnonymous"@,
        }
    }

    /// Which organization, if any, the string identifies.
    pub open spec fn spec_parse(s: Seq<char>) -> Result<Organization, OrganizationParseError> {
        if s == Organization::AnonymousAlcoholics.id_name() {
            Ok(Organization::AnonymousAlcoholics)
        } else if s == Organization::DebtorsAnonymous.id_name() {
            Ok(Organization::DebtorsAnonymous)
        } else if s == Organization::CrystalMethAnonymous.id_name() {
            Ok(Organization::CrystalMethAnonymous)
        } else if s == Organization::CodependentsAnonymous.id_name() {
            Ok(Organization::CodependentsAnonymous)
        } else if s == Organization::NarcoticsAnonymous.id_name() {
            Ok(Organization::NarcoticsAnonymous)
        } else {
            Err(OrganizationParseError::UnknownOrg)
        }
    }

    /// The string identifier of this organization.
    pub fn to_string(&self) -> (r: String)
        ensures
            r@ == self.id_name(),
    {
        match self {
            Organization::AnonymousAlcoholics => String::from_str("AnonymousAlcoholics"),
            Organization::DebtorsAnonymous => String::from_str("DebtorsAnonymous"),
            Organization::CrystalMethAnonymous => String::from_str("CrystalMethAnonymous"),
            Organization::CodependentsAnonymous => String::from_str("CodependentsAnonymous"),
            Organization::NarcoticsAnonymous => String::from_str("NarcoticsAnonymous"),
        }
    }

    /// Parses a string identifier back into an organization.
    pub fn from_str(s: &str) -> (r: Result<Organization, OrganizationParseError>)
        ensures
            r == Organization::spec_parse(s@),
    {
        if text::str_eq(s, "AnonymousAlcoholics") {
            Ok(Organization::AnonymousAlcoholics)
        } else if text::str_eq(s, "DebtorsAnonymous") {
            Ok(Organization::DebtorsAnonymous)
        } else if text::str_eq(s, "CrystalMethAnonymous") {
            Ok(Organization::CrystalMethAnonymous)
        } else if text::str_eq(s, "CodependentsAnonymous") {
            Ok(Organization::CodependentsAnonymous)
        } else if text::str_eq(s, "NarcoticsAnonymous") {
            Ok(Organization::NarcoticsAnonymous)
        } else {
            Err(OrganizationParseError::UnknownOrg)
        }
    }
}

/// Round trip: parsing the identifier of any organization yields that
/// organization back.
pub proof fn lemma_org_id_roundtrip(o: Organization)
    ensures
        Organization::spec_parse(o.id_name()) == Ok::<Organization, OrganizationParseError>(o),
{
    reveal_strlit("AnonymousAlcoholics");
    reveal_strlit("DebtorsAnonymous");
    reveal_strlit("CrystalMethAnonymous");
    reveal_strlit("CodependentsAnonymous");
    reveal_strlit("NarcoticsAnonymous");
    // The five identifiers have pairwise different lengths.
    assert("AnonymousAlcoholics"@.len() == 19);
    assert("DebtorsAnonymous"@.len() == 16);
    assert("CrystalMethAnonymous"@.len() == 20);
    assert("CodependentsAnonymous"@.len() == 21);
    assert("NarcoticsAnonymous"@.len() == 18);
}

/// A geographic position in microdegrees: one unit is a millionth of a
/// degree. Latitude spans -90 to 90 degrees, longitude -180 to 180.
#[derive(Debug, Clone, Copy, PartialEq, Eq, Structural)]
pub struct Position {
    pub latitude_micro: i64,
    pub longitude_micro: i64,
}

impl Position {
    /// Both coordinates lie within the surface of the globe.
    pub open spec fn valid(self) -> bool {
        &&& -90_000_000 <= self.latitude_micro <= 90_000_000
        &&& -180_000_000 <= self.longitude_micro <= 180_000_000
    }

    /// A position from microdegree coordinates.
    pub fn new(latitude_micro: i64, longitude_micro: i64) -> (r: Position)
        requires
            -90_000_000 <= latitude_micro <= 90_000_000,
            -180_000_000 <= longitude_micro <= 180_000_000,
        ensures
            r.latitude_micro == latitude_micro,
            r.longitude_micro == longitude_micro,
            r.valid(),
    {
        Position { latitude_micro, longitude_micro }
    }

    /// A position from microdegree coordinates, `None` when out of range.
    pub fn checked_new(latitude_micro: i64, longitude_micro: i64) -> (r: Option<Position>)
        ensures
            r == if -90_000_000 <= latitude_micro <= 90_000_000 && -180_000_000
                <= longitude_micro <= 180_000_000 {
                Some(Position { latitude_micro, longitude_micro })
            } else {
                None::<Position>
            },
    {
        if -90_000_000 <= latitude_micro && latitude_micro <= 90_000_000 && -180_000_000
            <= longitude_micro && longitude_micro <= 180_000_000 {
            Some(Position { latitude_micro, longitude_micro })
        } else {
            None
        }
    }
}

/// Where a meeting takes place.
#[derive(Debug, Clone, PartialEq)]
pub struct Location {
    pub position: Option<Position>,
    pub name: Option<String>,
    pub notes: Option<String>,
    pub country: Option<String>,
    pub region: Option<String>,
    pub address: Option<String>,
}

impl Location {
    /// A present position lies within the surface of the globe.
    pub open spec fn valid(self) -> bool {
        self.position is Some ==> self.position->0.valid()
    }
}

/// How to reach the people behind a meeting.
#[derive(Debug, Clone, PartialEq)]
pub struct Contact {
    pub email: Option<String>,
    pub phone: Option<String>,
}

/// Whether and how a meeting can be attended online. A URL is only ever
/// present on meetings that are online.
#[derive(Debug, Clone, PartialEq)]
pub struct OnlineOptions {
    pub url: Option<String>,
    pub notes: Option<String>,
    pub is_online: bool,
}

impl OnlineOptions {
    /// The URL implies the online flag.
    pub open spec fn valid(self) -> bool {
        self.url is Some ==> self.is_online
    }
}

/// When a meeting takes place. Today every meeting recurs weekly; the tagged
/// form leaves room for other schedules.
#[derive(Debug, Clone, PartialEq)]
pub enum MeetingTime {
    Recurring { day: WeekDay, hour: i32, minute: i32 },
}

impl MeetingTime {
    /// Hour and minute name a time of day.
    pub open spec fn valid(self) -> bool {
        match self {
            MeetingTime::Recurring { day, hour, minute } => {
                &&& 0 <= hour < 24
                &&& 0 <= minute < 60
            },
        }
    }

    /// The human-readable form: `Every <day> at <HH>:<MM>`.
    pub open spec fn spec_string(self) -> Seq<char> {
        match self {
            MeetingTime::Recurring { day, hour, minute } => "Every "@ + day.name() + " at "@
                + text::two_digits(hour as int) + ":"@ + text::two_digits(minute as int),
        }
    }

    /// Renders the schedule as `Every <day> at <HH>:<MM>`.
    pub fn to_string(&self) -> (r: String)
        requires
            self.valid(),
        ensures
            r@ == self.spec_string(),
    {
        match self {
            MeetingTime::Recurring { day, hour, minute } => {
                let mut out = String::from_str("Every ");
                let day_name = day.to_string();
                out.append(day_name.as_str());
                out.append(" at ");
                let hh = text::two_digit_string(*hour as u32);
                out.append(hh.as_str());
                out.append(":");
                let mm = text::two_digit_string(*minute as u32);
                out.append(mm.as_str());
                out
            },
        }
    }
}

/// One normalized meeting listing.
#[derive(Debug, Clone, PartialEq)]
pub struct Meeting {
    pub name: String,
    pub org: Organization,
    pub notes: Option<String>,
    /// URL identifying the origin listing.
    pub source: String,
    /// UTC instant of ingestion, as an RFC 3339 text.
    pub updated_at: String,
    pub contact: Contact,
    pub location: Location,
    pub online_options: OnlineOptions,
    pub time: MeetingTime,
    /// Whole seconds.
    pub duration: Option<u64>,
}

impl Meeting {
    /// A field-by-field copy that is provably the same meeting.
    pub fn duplicate(&self) -> (r: Meeting)
        ensures
            r == *self,
    {
        Meeting {
            name: self.name.clone(),
            org: self.org,
            notes: self.notes.clone(),
            source: self.source.clone(),
            updated_at: self.updated_at.clone(),
            contact: Contact {
                email: self.contact.email.clone(),
                phone: self.contact.phone.clone(),
            },
            location: Location {
                position: self.location.position,
                name: self.location.name.clone(),
                notes: self.location.notes.clone(),
                country: self.location.country.clone(),
                region: self.location.region.clone(),
                address: self.location.address.clone(),
            },
            online_options: OnlineOptions {
                url: self.online_options.url.clone(),
                notes: self.online_options.notes.clone(),
                is_online: self.online_options.is_online,
            },
            time: match &self.time {
                MeetingTime::Recurring { day, hour, minute } => MeetingTime::Recurring {
                    day: *day,
                    hour: *hour,
                    minute: *minute,
                },
            },
            duration: self.duration,
        }
    }

    /// Every component invariant holds, the duration is small enough to
    /// survive a decimal round trip of at most eighteen digits, and the
    /// ingestion instant carries a time-of-day colon, as every RFC 3339
    /// instant does (the index stores it in a column that would turn a
    /// numeric-looking text into a number).
    pub open spec fn valid(self) -> bool {
        &&& self.location.valid()
        &&& self.online_options.valid()
        &&& self.time.valid()
        &&& (self.duration is Some ==> self.duration->0 < 1_000_000_000_000_000_000)
        &&& self.updated_at@.contains(':')
    }
}

/// What an adapter hands the pipeline: a normalized meeting, plus an
/// address-shaped query for the geocoder when the upstream supplied no
/// coordinates.
#[derive(Debug, Clone, PartialEq)]
pub struct FetchMeeting {
    pub meeting: Meeting,
    pub position_query: Option<String>,
}

/// One search result: a meeting and, when the search had a center point, the
/// distance from that center in nano-kilometers (micrometers).
#[derive(Debug, Clone, PartialEq)]
pub struct SearchMeeting {
    pub meeting: Meeting,
    pub distance_nano_km: Option<i64>,
}

} // verus!
