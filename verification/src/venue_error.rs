use vstd::prelude::*;
use crate::error::CarryError;
use vstd::std_specs::convert::FromSpecImpl;

verus! {

/// Everything a venue feed can fail with.
#[derive(Debug, Clone, PartialEq, Eq)]
pub enum VenueError {
    /// A message that does not parse; the parser's description.
    Json(String),
    /// A message that parses but breaks a rule of the core types.
    Core(CarryError),
    /// A failure of the websocket; its description.
    WebSocket(String),
    /// The venue closed the connection.
    Closed,
    /// The consumer does not keep up with the feed.
    Overflow,
    /// The book owner asked for a fresh snapshot.
    ResyncRequested,
}

/// A core error raised while handling a venue message.
impl From<CarryError> for VenueError {
    fn from(e: CarryError) -> (r: VenueError) {
        VenueError::Core(e)
    }
}

impl FromSpecImpl<CarryError> for VenueError {
    open spec fn obeys_from_spec() -> bool {
        true
    }

    open spec fn from_spec(e: CarryError) -> VenueError {
        VenueError::Core(e)
    }
}

} // verus!
