//! The read API's verified half: turning the query parameters of
//! `GET /meetings` into search options. The HTTP plumbing lives outside the
//! library and hands the parameters over as plain values.

use vstd::prelude::*;
use crate::index::{DistanceSearch, SearchOptions};

verus! {

/// Builds the search options: a distance constraint exactly when all three
/// parameters are present; any partial triple means no geographic filter.
pub fn search_options_from_query(
    longitude_micro: Option<i64>,
    latitude_micro: Option<i64>,
    distance_nano_km: Option<i64>,
) -> (r: SearchOptions)
    ensures
        r.distance == (match (longitude_micro, latitude_micro, distance_nano_km) {
            (Some(lon), Some(lat), Some(d)) => Some(
                DistanceSearch {
                    latitude_micro: lat,
                    longitude_micro: lon,
                    distance_nano_km: d,
                },
            ),
            _ => None::<DistanceSearch>,
        }),
{
    match (longitude_micro, latitude_micro, distance_nano_km) {
        (Some(lon), Some(lat), Some(d)) => SearchOptions {
            distance: Some(
                DistanceSearch {
                    latitude_micro: lat,
                    longitude_micro: lon,
                    distance_nano_km: d,
                },
            ),
        },
        _ => SearchOptions { distance: None },
    }
}

} // verus!
