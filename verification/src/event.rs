use vstd::prelude::*;
use crate::book::{Level, LevelUpdate};
use crate::venue::Venue;

verus! {

/// What a venue feed reports about its book.
#[derive(Debug, Clone, PartialEq, Eq)]
pub enum BookEvent {
    /// The whole book at sequence number `seq`.
    Snapshot { seq: u64, bids: Vec<Level>, asks: Vec<Level> },
    /// The changes from `prev_seq` up to `seq`.
    Delta { prev_seq: u64, seq: u64, updates: Vec<LevelUpdate> },
    /// The connection dropped; the book is stale until the next snapshot.
    Disconnected,
}

/// A book event tagged with the venue it came from.
#[derive(Debug, Clone, PartialEq, Eq)]
pub struct VenueEvent {
    pub venue: Venue,
    pub event: BookEvent,
}

} // verus!
