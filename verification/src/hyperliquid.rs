use vstd::prelude::*;
use crate::book::Level;
use crate::decimal::Decimal;
use crate::error::CarryError;
use crate::event::BookEvent;
use crate::levels::{all_converted, first_failure, level_error, level_from, level_of, sides_failure};
use crate::venue_error::VenueError;

verus! {

/// A message of Hyperliquid's websocket, by channel.
#[derive(Debug)]
pub enum HlMessage {
    /// An `l2Book` frame: a full snapshot of the book.
    L2Book(HlBook),
    /// The acknowledgement of a subscription.
    SubscriptionResponse,
    Pong,
    /// Any other channel, by name.
    Other(String),
}

/// The kind of message a channel name announces.
#[derive(Debug, Clone, Copy, PartialEq, Eq, Structural)]
pub enum HlChannel {
    L2Book,
    SubscriptionResponse,
    Pong,
    Other,
}

/// An `l2Book` snapshot: `levels[0]` are the bids, `levels[1]` the asks.
#[derive(Debug)]
pub struct HlBook {
    pub coin: String,
    pub time: u64,
    pub levels: [Vec<HlLevel>; 2],
}

/// One level of an `l2Book` side: price, size and number of orders.
#[derive(Debug, Clone, Copy)]
pub struct HlLevel {
    pub px: Decimal,
    pub sz: Decimal,
    pub n: u32,
}

/// The kind of message a channel name announces.
pub open spec fn channel_kind(channel: Seq<char>) -> HlChannel {
    if channel == "l2Book"@ {
        HlChannel::L2Book
    } else if channel == "subscriptionResponse"@ {
        HlChannel::SubscriptionResponse
    } else if channel == "pong"@ {
        HlChannel::Pong
    } else {
        HlChannel::Other
    }
}

/// The kind of message a channel name announces.
pub fn classify_channel(channel: &str) -> (k: HlChannel)
    ensures
        k == channel_kind(channel@),
{
    let c = channel.to_owned();
    if c == "l2Book".to_owned() {
        HlChannel::L2Book
    } else if c == "subscriptionResponse".to_owned() {
        HlChannel::SubscriptionResponse
    } else if c == "pong".to_owned() {
        HlChannel::Pong
    } else {
        HlChannel::Other
    }
}

/// A side of an `l2Book` as `(price, size)` pairs.
pub open spec fn hl_pairs(levels: Seq<HlLevel>) -> Seq<(Decimal, Decimal)> {
    levels.map_values(|l: HlLevel| (l.px, l.sz))
}

/// Converts the levels of one side in order; the first level that fails stops it.
fn convert(levels: &Vec<HlLevel>, tick_size: Decimal) -> (r: Result<Vec<Level>, CarryError>)
    ensures
        match r {
            Ok(out) => all_converted(hl_pairs(levels@), tick_size, out@),
            Err(e) => first_failure(hl_pairs(levels@), tick_size, e),
        },
{
    let ghost pairs = hl_pairs(levels@);
    let mut out: Vec<Level> = Vec::new();
    let mut i: usize = 0;
    while i < levels.len()
        invariant
            i <= levels.len(),
            out@.len() == i,
            pairs == hl_pairs(levels@),
            forall|j: int| 0 <= j < i ==> #[trigger] level_error(pairs[j].0, pairs[j].1, tick_size) is None,
            forall|j: int| 0 <= j < i ==> level_of(pairs[j].0, pairs[j].1, tick_size, #[trigger] out@[j]),
        decreases levels.len() - i,
    {
        let l = levels[i];
        match level_from(l.px, l.sz, tick_size) {
            Ok(level) => out.push(level),
            Err(e) => {
                assert(level_error(pairs[i as int].0, pairs[i as int].1, tick_size) == Some(e));
                return Err(e);
            },
        }
        i = i + 1;
    }
    Ok(out)
}

impl HlBook {
    /// The bids and asks of the snapshot as levels on a grid of `tick_size`; the first
    /// bid, then ask, that cannot be converted fails with its core error.
    pub fn to_levels(&self, tick_size: Decimal) -> (r: Result<(Vec<Level>, Vec<Level>), VenueError>)
        ensures
            match r {
                Ok((bids, asks)) => all_converted(hl_pairs(self.levels[0]@), tick_size, bids@) && all_converted(
                    hl_pairs(self.levels[1]@),
                    tick_size,
                    asks@,
                ),
                Err(err) => err is Core && sides_failure(hl_pairs(self.levels[0]@), hl_pairs(self.levels[1]@), tick_size, err->Core_0),
            },
    {
        let bids = match convert(&self.levels[0], tick_size) {
            Ok(v) => v,
            Err(e) => return Err(VenueError::Core(e)),
        };
        let asks = match convert(&self.levels[1], tick_size) {
            Ok(v) => v,
            Err(e) => return Err(VenueError::Core(e)),
        };
        Ok((bids, asks))
    }
}

/// The book event of a parsed message: an `l2Book` snapshot becomes a `Snapshot` at
/// the book's time; every other message gives no event.
pub fn to_event(message: HlMessage, tick_size: Decimal) -> (r: Result<Option<BookEvent>, VenueError>)
    ensures
        match message {
            HlMessage::L2Book(book) => match r {
                Ok(Some(BookEvent::Snapshot { seq, bids, asks })) => seq == book.time && all_converted(
                    hl_pairs(book.levels[0]@),
                    tick_size,
                    bids@,
                ) && all_converted(hl_pairs(book.levels[1]@), tick_size, asks@),
                Ok(_) => false,
                Err(err) => err is Core && sides_failure(hl_pairs(book.levels[0]@), hl_pairs(book.levels[1]@), tick_size, err->Core_0),
            },
            _ => r == Ok::<Option<BookEvent>, VenueError>(None),
        },
{
    match message {
        HlMessage::L2Book(book) => {
            let (bids, asks) = book.to_levels(tick_size)?;
            Ok(Some(BookEvent::Snapshot { seq: book.time, bids, asks }))
        },
        _ => Ok(None),
    }
}

} // verus!
