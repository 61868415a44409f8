//! Error kinds the browser client reports when it fetches the meeting list
//! from the read API. The fetch itself happens outside the library.

use vstd::prelude::*;

verus! {

/// Why fetching the meeting list failed.
#[derive(Debug, Clone, Copy, PartialEq, Eq, Structural)]
pub enum MeetingApiError {
    HttpError,
    JsonParseError,
}

} // verus!
