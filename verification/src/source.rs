//! What all source adapters share: the per-batch error kinds and the fetch
//! result shape. Each adapter's network round trips happen outside the
//! library; the library turns the fetched bodies into meetings.

use vstd::prelude::*;

verus! {

/// Why a batch of one adapter failed.
#[derive(Debug, Clone, PartialEq)]
pub enum MeetingFetchError {
    /// A network fetch failed.
    HttpRequest,
    /// The fetched body did not have the expected shape.
    UnexpectedResponse(String),
    /// A structured decode failed.
    JsonParse,
}

impl MeetingFetchError {
    /// Builds the shape error with the given detail text.
    pub fn unexpected(detail: &str) -> (r: MeetingFetchError)
        ensures
            r matches MeetingFetchError::UnexpectedResponse(d) && d@ == detail@,
    {
        MeetingFetchError::UnexpectedResponse(String::from_str(detail))
    }
}

/// A placeholder adapter that yields no meetings.
#[derive(Debug, Clone, Copy, PartialEq, Eq, Structural)]
pub struct AA;

} // verus!
