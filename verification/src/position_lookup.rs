//! The geocoder's verified half: a persistent cache of answered queries with
//! a thirty-day freshness window, the rate-limit arithmetic, the request URL
//! and the response decoding. The network call, the clock and the sleep live
//! outside the library; they hand plain values in and take plain values out,
//! the clock as RFC 3339 text: the instant of an answer when storing, and
//! the staleness cutoff (now less the window) when looking up.
//!
//! The cache is modeled as a map from query text to the cached answer in
//! microdegrees, a negative answer included, together with the instant it
//! was requested. The model assumes the ownership discipline of the
//! deployment: the geocoder owns its cache file.

use vstd::prelude::*;
use vstd::string::StringSliceAdditionalSpecFns;
use crate::json;
use crate::model::Position;
use crate::text;

verus! {

/// Milliseconds that must pass between two outbound geocoder requests.
pub const API_RATE_LIMIT_MS: u64 = 2000;

/// How long a cached answer stays fresh.
pub const CACHE_TTL_DAYS: u64 = 30;

/// Why a lookup failed.
#[derive(Debug)]
pub enum PositionLookupError {
    SqliteError(rusqlite::Error),
    HttpRequestError,
    JsonParseError,
}

/// A lookup answer: the position, if the service knew one, and whether it
/// came out of the cache.
#[derive(Debug, Clone, Copy, PartialEq, Eq, Structural)]
pub struct PositionLookupValue {
    pub position: Option<Position>,
    pub cached: bool,
}

/// One record of the geocoding service's answer, in microdegrees.
#[derive(Debug, Clone, Copy, PartialEq, Eq, Structural)]
pub struct ApiRecord {
    pub latitude_micro: i64,
    pub longitude_micro: i64,
}

impl ApiRecord {
    /// The record's position, when it lies on the globe.
    pub fn to_position(&self) -> (r: Option<Position>)
        ensures
            r == if -90_000_000 <= self.latitude_micro <= 90_000_000 && -180_000_000
                <= self.longitude_micro <= 180_000_000 {
                Some(
                    Position {
                        latitude_micro: self.latitude_micro,
                        longitude_micro: self.longitude_micro,
                    },
                )
            } else {
                None::<Position>
            },
    {
        Position::checked_new(self.latitude_micro, self.longitude_micro)
    }
}

/// The geocoding service's answer: its records in order.
#[derive(Debug, Clone, PartialEq)]
pub struct ApiData {
    pub data: Vec<ApiRecord>,
}

/// What the cache behind the given connection holds, fresh and stale entries
/// alike: each query's answer in microdegrees, a negative answer as `None`,
/// together with the text rendering of the instant it was requested.
pub uninterp spec fn cached_positions(conn: rusqlite::Connection) -> Map<
    Seq<char>,
    (Option<(i64, i64)>, Seq<char>),
>;

/// The persistent geocoding cache.
pub struct PositionLookup {
    conn: rusqlite::Connection,
}

/// The cached pair read back as a position: present only when it lies on
/// the globe.
pub open spec fn spec_cached_position(e: Option<(i64, i64)>) -> Option<Position> {
    match e {
        Some((la, lo)) => if -90_000_000 <= la <= 90_000_000 && -180_000_000 <= lo
            <= 180_000_000 {
            Some(Position { latitude_micro: la, longitude_micro: lo })
        } else {
            None
        },
        None => None,
    }
}

impl PositionLookup {
    /// The cached answers, keyed by query text, each with the instant it was
    /// requested.
    pub closed spec fn cache(self) -> Map<Seq<char>, (Option<(i64, i64)>, Seq<char>)> {
        cached_positions(self.conn)
    }

    /// Relies on rusqlite's `Connection::open_with_flags` and `execute`:
    /// opens or creates the cache file and creates the `positions` table if
    /// it is absent. Nothing is assumed about the entries already there.
    #[verifier::external_body]
    fn open_raw(path: &str) -> Result<PositionLookup, rusqlite::Error> {
        let conn = rusqlite::Connection::open_with_flags(
            std::path::Path::new(path),
            rusqlite::OpenFlags::SQLITE_OPEN_CREATE | rusqlite::OpenFlags::SQLITE_OPEN_READ_WRITE,
        )?;
        conn.execute(
            "CREATE TABLE IF NOT EXISTS positions (query TEXT NOT NULL PRIMARY KEY, latitude REAL NULL, longitude REAL NULL, requested_at TIMESTAMP DEFAULT CURRENT_TIMESTAMP)",
            [],
        )?;
        Ok(PositionLookup { conn })
    }

    /// Opens the cache at the given file path, creating the store on first
    /// use.
    pub fn open(path: &str) -> Result<PositionLookup, PositionLookupError> {
        match PositionLookup::open_raw(path) {
            Ok(c) => Ok(c),
            Err(e) => Err(PositionLookupError::SqliteError(e)),
        }
    }

    /// Relies on rusqlite's `prepare` and `query_map` over a SELECT keyed by
    /// the query, filtered to entries requested strictly after the cutoff
    /// (byte-order text comparison, which agrees with `lex_gt` for an ASCII
    /// cutoff), the coordinates read back as microdegree integers: a hit is
    /// exactly a fresh entry, and carries the answer the cache holds.
    #[verifier::external_body]
    fn cache_get(&self, query: &str, cutoff: &str) -> (r: Result<
        Option<Option<(i64, i64)>>,
        rusqlite::Error,
    >)
        requires
            vstd::string::is_ascii(cutoff),
        ensures
            r matches Ok(hit) ==> {
                &&& (hit is Some <==> cached_positions(self.conn).contains_key(query@)
                    && text::lex_gt(cached_positions(self.conn)[query@].1, cutoff@))
                &&& (hit matches Some(v) ==> cached_positions(self.conn)[query@].0 == v)
            },
    {
        let mut stmt = self.conn.prepare(
            "SELECT CAST(ROUND(latitude*1000000) AS INTEGER), CAST(ROUND(longitude*1000000) AS INTEGER) FROM positions WHERE query = ?1 AND CAST(requested_at AS TEXT) > ?2",
        )?;
        let mut rows = stmt.query_map([query, cutoff], |row| {
            let la: Option<i64> = row.get(0)?;
            let lo: Option<i64> = row.get(1)?;
            Ok(match (la, lo) {
                (Some(la), Some(lo)) => Some((la, lo)),
                _ => None,
            })
        })?;
        match rows.next() {
            Some(row) => Ok(Some(row?)),
            None => Ok(None),
        }
    }

    /// Relies on rusqlite's `execute` of an upsert keyed by the query, the
    /// coordinates converted to degrees in the store and the request time
    /// stored as the given text: the cache maps the query to exactly this
    /// answer at this instant. Only pairs on the globe are admitted (the
    /// coordinates travel through REAL columns, whose microdegree round trip
    /// is exact only for small magnitudes), and only an ASCII instant with a
    /// time-of-day colon (the column would turn numeric-looking text into a
    /// number).
    #[verifier::external_body]
    fn cache_put(&mut self, query: &str, entry: Option<(i64, i64)>, now: &str) -> (r: Result<
        (),
        rusqlite::Error,
    >)
        requires
            entry matches Some(p) ==> -90_000_000 <= p.0 <= 90_000_000 && -180_000_000 <= p.1
                <= 180_000_000,
            vstd::string::is_ascii(now),
            now@.contains(':'),
        ensures
            r is Ok ==> cached_positions(final(self).conn) == cached_positions(
                old(self).conn,
            ).insert(query@, (entry, now@)),
            r is Err ==> cached_positions(final(self).conn) == cached_positions(old(self).conn),
    {
        let (la, lo) = match entry {
            Some((la, lo)) => (Some(la), Some(lo)),
            None => (None, None),
        };
        self.conn.execute(
            "INSERT OR REPLACE INTO positions (query, latitude, longitude, requested_at) VALUES(?1, CAST(?2 AS REAL)/1000000, CAST(?3 AS REAL)/1000000, ?4)",
            (query, la, lo, now),
        )?;
        Ok(())
    }

    /// Consults the cache. A hit is exactly an entry requested strictly
    /// after the cutoff (the caller passes now less the freshness window);
    /// it carries `cached: true` and the position the cache holds for the
    /// query. A stale or absent entry is a miss, which leaves the service
    /// call to the caller.
    pub fn cache_lookup(&self, query: &str, cutoff: &str) -> (r: Result<
        Option<PositionLookupValue>,
        PositionLookupError,
    >)
        requires
            vstd::string::is_ascii(cutoff),
        ensures
            r matches Ok(hit) ==> {
                &&& (hit is Some <==> self.cache().contains_key(query@) && text::lex_gt(
                    self.cache()[query@].1,
                    cutoff@,
                ))
                &&& (hit matches Some(v) ==> {
                    &&& v.cached == true
                    &&& v.position == spec_cached_position(self.cache()[query@].0)
                    &&& (v.position matches Some(p) ==> p.valid())
                })
            },
    {
        match self.cache_get(query, cutoff) {
            Ok(Some(entry)) => {
                let position = match entry {
                    Some((la, lo)) => Position::checked_new(la, lo),
                    None => None,
                };
                Ok(Some(PositionLookupValue { position, cached: true }))
            },
            Ok(None) => Ok(None),
            Err(e) => Err(PositionLookupError::SqliteError(e)),
        }
    }

    /// Records what the service answered at the given instant, a negative
    /// answer included, and hands it back with `cached: false`.
    pub fn record_api_result(
        &mut self,
        query: &str,
        position: &Option<Position>,
        now: &str,
    ) -> (r: Result<PositionLookupValue, PositionLookupError>)
        requires
            position matches Some(p) ==> p.valid(),
            vstd::string::is_ascii(now),
            now@.contains(':'),
        ensures
            r matches Ok(v) ==> {
                &&& final(self).cache() == old(self).cache().insert(
                    query@,
                    (
                        match *position {
                            Some(p) => Some((p.latitude_micro, p.longitude_micro)),
                            None => None::<(i64, i64)>,
                        },
                        now@,
                    ),
                )
                &&& v.cached == false
                &&& v.position == *position
            },
            r is Err ==> final(self).cache() == old(self).cache(),
    {
        let entry = match position {
            Some(p) => Some((p.latitude_micro, p.longitude_micro)),
            None => None,
        };
        match self.cache_put(query, entry, now) {
            Ok(()) => Ok(PositionLookupValue { position: *position, cached: false }),
            Err(e) => Err(PositionLookupError::SqliteError(e)),
        }
    }
}

/// How long to wait before the next outbound request: the remainder of the
/// two-second window, nothing once it has passed.
pub fn rate_limit_wait_ms(elapsed_ms: u64) -> (r: u64)
    ensures
        r == if elapsed_ms < API_RATE_LIMIT_MS {
            (API_RATE_LIMIT_MS - elapsed_ms) as u64
        } else {
            0u64
        },
        elapsed_ms + r >= API_RATE_LIMIT_MS,
{
    if elapsed_ms < API_RATE_LIMIT_MS {
        API_RATE_LIMIT_MS - elapsed_ms
    } else {
        0
    }
}

/// The service URL for a query, with the query percent-encoded.
pub fn geocode_request_url(query: &str) -> (r: String)
    ensures
        r@ == "https://positionstack.com/geo_api.php?query="@ + text::percent_encoded(
            query.spec_bytes(),
        ),
{
    let mut url = String::from_str("https://positionstack.com/geo_api.php?query=");
    let encoded = text::percent_encode(query);
    url.append(encoded.as_str());
    proof {
        assert(url@ =~= "https://positionstack.com/geo_api.php?query="@ + text::percent_encoded(
            query.spec_bytes(),
        ));
    }
    url
}

/// The record text carries numeric coordinates whose decimal texts read as
/// coordinates.
pub open spec fn api_record_ok(t: Seq<char>) -> bool {
    &&& json::json_number_field(t, "latitude"@) matches Some(la)
        && crate::coords::spec_parse_coord_micro(la) is Some
    &&& json::json_number_field(t, "longitude"@) matches Some(lo)
        && crate::coords::spec_parse_coord_micro(lo) is Some
}

/// The coordinates a record text carries, in microdegrees.
pub open spec fn api_record_value(t: Seq<char>) -> (i64, i64) {
    (
        crate::coords::spec_parse_coord_micro(json::json_number_field(t, "latitude"@)->0)->0,
        crate::coords::spec_parse_coord_micro(json::json_number_field(t, "longitude"@)->0)->0,
    )
}

/// Reads one record of the service's answer; `None` exactly when a
/// coordinate is missing, not a number, or not a plain decimal.
fn api_record_from_json(record: &str) -> (r: Option<ApiRecord>)
    ensures
        r is Some <==> api_record_ok(record@),
        r matches Some(ar) ==> (ar.latitude_micro, ar.longitude_micro) == api_record_value(
            record@,
        ),
{
    let lat_text = match json::parse_number_field(record, "latitude") {
        Some(t) => t,
        None => {
            return None;
        },
    };
    let lat_chars = crate::text::chars_of(lat_text.as_str());
    let latitude_micro = match crate::coords::parse_coord_micro(&lat_chars) {
        Some(v) => v,
        None => {
            return None;
        },
    };
    let lon_text = match json::parse_number_field(record, "longitude") {
        Some(t) => t,
        None => {
            return None;
        },
    };
    let lon_chars = crate::text::chars_of(lon_text.as_str());
    let longitude_micro = match crate::coords::parse_coord_micro(&lon_chars) {
        Some(v) => v,
        None => {
            return None;
        },
    };
    Some(ApiRecord { latitude_micro, longitude_micro })
}

/// Decodes the service's answer: a JSON object whose `data` array carries
/// the candidate records. The position is the first record's, when that
/// record lies on the globe; an empty array, or a first record off the
/// globe, is a negative answer. Succeeds exactly when every record decodes.
pub fn parse_geocode_response(body: &str) -> (r: Result<Option<Position>, PositionLookupError>)
    ensures
        r is Ok <==> (json::json_array_field(body@, "data"@) matches Some(es) && forall|k: int|
            0 <= k < es.len() ==> api_record_ok(#[trigger] es[k])),
        r matches Ok(p) ==> (json::json_array_field(body@, "data"@) matches Some(es) && {
            if es.len() == 0 {
                p is None
            } else {
                p == spec_cached_position(Some(api_record_value(es[0])))
            }
        }),
        r matches Ok(p) ==> (p matches Some(pos) ==> pos.valid()),
{
    let entries = match json::parse_array_field(body, "data") {
        Some(a) => a,
        None => {
            return Err(PositionLookupError::JsonParseError);
        },
    };
    let ghost es = entries.deep_view();
    let mut records: Vec<ApiRecord> = Vec::new();
    let mut i: usize = 0;
    while i < entries.len()
        invariant
            es == entries.deep_view(),
            es.len() == entries@.len(),
            json::json_array_field(body@, "data"@) == Some(es),
            i <= es.len(),
            records@.len() == i,
            forall|k: int| 0 <= k < i ==> api_record_ok(#[trigger] es[k]),
            forall|k: int|
                0 <= k < i ==> ((#[trigger] records@[k]).latitude_micro,
                records@[k].longitude_micro) == api_record_value(es[k]),
        decreases entries@.len() - i,
    {
        proof {
            assert(es[i as int] == entries@[i as int]@);
        }
        match api_record_from_json(entries[i].as_str()) {
            Some(rec) => {
                records.push(rec);
            },
            None => {
                return Err(PositionLookupError::JsonParseError);
            },
        }
        i += 1;
    }
    let data = ApiData { data: records };
    if data.data.len() > 0 {
        Ok(data.data[0].to_position())
    } else {
        Ok(None)
    }
}

} // verus!
