//! The sync drainer's verified decisions: which meetings still need a
//! geocoder lookup, how a lookup's answer lands in a meeting, and the rows a
//! batch contributes to the index. The channels and task scheduling that
//! drive a sync live outside the library.

use vstd::prelude::*;
use crate::index;
use crate::model::{FetchMeeting, Meeting, Position};

verus! {

/// The geocoder query for a fetched meeting, present exactly when the
/// upstream supplied no coordinates but the adapter supplied a query.
pub fn needs_position(fm: &FetchMeeting) -> (r: Option<String>)
    ensures
        r is Some <==> (fm.meeting.location.position is None && fm.position_query is Some),
        r matches Some(q) ==> q@ == fm.position_query->0@,
{
    if fm.meeting.location.position.is_none() {
        match &fm.position_query {
            Some(q) => Some(q.clone()),
            None => None,
        }
    } else {
        None
    }
}

/// Lands a geocoder answer in the meeting: the resolved position replaces
/// the absent one; everything else stays.
pub fn apply_position(fm: &mut FetchMeeting, position: Option<Position>)
    requires
        position matches Some(p) ==> p.valid(),
        old(fm).meeting.valid(),
    ensures
        final(fm).meeting.location.position == position,
        final(fm).meeting.name == old(fm).meeting.name,
        final(fm).meeting.org == old(fm).meeting.org,
        final(fm).meeting.notes == old(fm).meeting.notes,
        final(fm).meeting.source == old(fm).meeting.source,
        final(fm).meeting.updated_at == old(fm).meeting.updated_at,
        final(fm).meeting.contact == old(fm).meeting.contact,
        final(fm).meeting.location.name == old(fm).meeting.location.name,
        final(fm).meeting.location.notes == old(fm).meeting.location.notes,
        final(fm).meeting.location.country == old(fm).meeting.location.country,
        final(fm).meeting.location.region == old(fm).meeting.location.region,
        final(fm).meeting.location.address == old(fm).meeting.location.address,
        final(fm).meeting.online_options == old(fm).meeting.online_options,
        final(fm).meeting.time == old(fm).meeting.time,
        final(fm).meeting.duration == old(fm).meeting.duration,
        final(fm).position_query == old(fm).position_query,
        final(fm).meeting.valid(),
{
    fm.meeting.location.position = position;
}

/// The meetings of a batch, stripped of their geocoder queries.
pub fn batch_meetings(batch: &Vec<FetchMeeting>) -> (r: Vec<Meeting>)
    ensures
        r@.len() == batch@.len(),
        forall|k: int| 0 <= k < batch@.len() ==> r@[k] == (#[trigger] batch@[k]).meeting,
{
    let mut out: Vec<Meeting> = Vec::new();
    let mut i: usize = 0;
    while i < batch.len()
        invariant
            i <= batch@.len(),
            out@.len() == i,
            forall|k: int| 0 <= k < i ==> out@[k] == (#[trigger] batch@[k]).meeting,
        decreases batch@.len() - i,
    {
        out.push(batch[i].meeting.duplicate());
        proof {
            assert(out@[i as int] == batch@[i as int].meeting);
        }
        i += 1;
    }
    out
}

/// The rows a batch of meetings contributes to the index, in order.
pub open spec fn batch_rows(ms: Seq<Meeting>) -> Seq<index::RowCells> {
    ms.map_values(|m: Meeting| index::spec_encode_meeting(m))
}

/// The rows a batch of valid meetings contributes to the index: every one
/// of them decodes back to a meeting carrying the same data. Together with
/// the import and search contracts, a committed sync answers an unfiltered
/// search with exactly one row per added meeting.
pub proof fn lemma_batch_rows_decode(ms: Seq<Meeting>)
    requires
        forall|k: int| 0 <= k < ms.len() ==> (#[trigger] ms[k]).valid(),
    ensures
        forall|k: int| 0 <= k < ms.len() ==> index::row_decodes(#[trigger] batch_rows(ms)[k]),
        forall|k: int, m2: Meeting|
            0 <= k < ms.len() && #[trigger] index::decoded_matches(batch_rows(ms)[k], m2)
                ==> index::meeting_like(m2, ms[k]),
{
    assert forall|k: int| 0 <= k < ms.len() implies index::row_decodes(
        #[trigger] batch_rows(ms)[k],
    ) by {
        index::lemma_encode_decode_roundtrip(ms[k]);
    }
    assert forall|k: int, m2: Meeting|
        0 <= k < ms.len() && #[trigger] index::decoded_matches(batch_rows(ms)[k], m2) implies
        index::meeting_like(m2, ms[k]) by {
        index::lemma_encode_decode_roundtrip(ms[k]);
    }
}

} // verus!
