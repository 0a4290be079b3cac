use vstd::prelude::*;
use crate::book::{Level, LevelUpdate};
use crate::decimal::Decimal;
use crate::error::CarryError;
use crate::event::BookEvent;
use crate::levels::{all_converted, first_failure, level_error, level_from, level_of, sides_failure};
use crate::side::Side;
use crate::venue_error::VenueError;

verus! {

/// A message of Lighter's websocket, by its `type`.
#[derive(Debug)]
pub enum LighterMessage {
    /// `subscribed/order_book`: the full book.
    Snapshot(LighterBookMsg),
    /// `update/order_book`: the levels that changed.
    Update(LighterBookMsg),
    Pong,
    /// Any other type.
    Other,
}

/// An order book message and the channel it came on.
#[derive(Debug)]
pub struct LighterBookMsg {
    pub channel: String,
    pub order_book: LighterBook,
}

/// A book or a book update. An update covers the nonces from `begin_nonce` to `nonce`.
#[derive(Debug)]
pub struct LighterBook {
    pub asks: Vec<LighterLevel>,
    pub bids: Vec<LighterLevel>,
    pub nonce: u64,
    pub begin_nonce: u64,
}

/// One level: price and size.
#[derive(Debug, Clone, Copy)]
pub struct LighterLevel {
    pub price: Decimal,
    pub size: Decimal,
}

/// A side as `(price, size)` pairs.
pub open spec fn lighter_pairs(levels: Seq<LighterLevel>) -> Seq<(Decimal, Decimal)> {
    levels.map_values(|l: LighterLevel| (l.price, l.size))
}

/// `out` is the converted bids tagged `Bid`, followed by the converted asks tagged `Ask`.
pub open spec fn updates_converted(
    bids: Seq<(Decimal, Decimal)>,
    asks: Seq<(Decimal, Decimal)>,
    tick_size: Decimal,
    out: Seq<LevelUpdate>,
) -> bool {
    &&& out.len() == bids.len() + asks.len()
    &&& forall|i: int| 0 <= i < bids.len() ==> #[trigger] out[i].side == Side::Bid
        && level_of(bids[i].0, bids[i].1, tick_size, Level { tick: out[i].tick, qty: out[i].qty })
    &&& forall|i: int| bids.len() <= i < out.len() ==> #[trigger] out[i].side == Side::Ask
        && level_of(asks[i - bids.len()].0, asks[i - bids.len()].1, tick_size, Level { tick: out[i].tick, qty: out[i].qty })
}

/// Converts the levels of one side in order; the first level that fails stops it.
fn convert(levels: &Vec<LighterLevel>, tick_size: Decimal) -> (r: Result<Vec<Level>, CarryError>)
    ensures
        match r {
            Ok(out) => all_converted(lighter_pairs(levels@), tick_size, out@),
            Err(e) => first_failure(lighter_pairs(levels@), tick_size, e),
        },
{
    let ghost pairs = lighter_pairs(levels@);
    let mut out: Vec<Level> = Vec::new();
    let mut i: usize = 0;
    while i < levels.len()
        invariant
            i <= levels.len(),
            out@.len() == i,
            pairs == lighter_pairs(levels@),
            forall|j: int| 0 <= j < i ==> #[trigger] level_error(pairs[j].0, pairs[j].1, tick_size) is None,
            forall|j: int| 0 <= j < i ==> level_of(pairs[j].0, pairs[j].1, tick_size, #[trigger] out@[j]),
        decreases levels.len() - i,
    {
        let l = levels[i];
        match level_from(l.price, l.size, tick_size) {
            Ok(level) => out.push(level),
            Err(e) => {
                assert(level_error(pairs[i as int].0, pairs[i as int].1, tick_size) == Some(e));
                return Err(e);
            },
        }
        i = i + 1;
    }
    Ok(out)
}

impl LighterBook {
    /// The bids and asks as levels on a grid of `tick_size`; the first bid, then ask,
    /// that cannot be converted fails with its core error.
    pub fn to_levels(&self, tick_size: Decimal) -> (r: Result<(Vec<Level>, Vec<Level>), VenueError>)
        ensures
            match r {
                Ok((bids, asks)) => all_converted(lighter_pairs(self.bids@), tick_size, bids@) && all_converted(
                    lighter_pairs(self.asks@),
                    tick_size,
                    asks@,
                ),
                Err(err) => err is Core && sides_failure(lighter_pairs(self.bids@), lighter_pairs(self.asks@), tick_size, err->Core_0),
            },
    {
        let bids = match convert(&self.bids, tick_size) {
            Ok(v) => v,
            Err(e) => return Err(VenueError::Core(e)),
        };
        let asks = match convert(&self.asks, tick_size) {
            Ok(v) => v,
            Err(e) => return Err(VenueError::Core(e)),
        };
        Ok((bids, asks))
    }

    /// The levels as updates: every bid, then every ask, each tagged with its side; the
    /// first bid, then ask, that cannot be converted fails with its core error.
    pub fn to_updates(&self, tick_size: Decimal) -> (r: Result<Vec<LevelUpdate>, VenueError>)
        ensures
            match r {
                Ok(out) => updates_converted(lighter_pairs(self.bids@), lighter_pairs(self.asks@), tick_size, out@),
                Err(err) => err is Core && sides_failure(lighter_pairs(self.bids@), lighter_pairs(self.asks@), tick_size, err->Core_0),
            },
    {
        let (bids, asks) = self.to_levels(tick_size)?;
        let ghost bp = lighter_pairs(self.bids@);
        let ghost ap = lighter_pairs(self.asks@);
        let mut out: Vec<LevelUpdate> = Vec::new();
        let mut i: usize = 0;
        while i < bids.len()
            invariant
                i <= bids.len(),
                out@.len() == i,
                all_converted(bp, tick_size, bids@),
                forall|j: int| 0 <= j < i ==> #[trigger] out@[j].side == Side::Bid
                    && level_of(bp[j].0, bp[j].1, tick_size, Level { tick: out@[j].tick, qty: out@[j].qty }),
            decreases bids.len() - i,
        {
            let l = bids[i];
            out.push(LevelUpdate { side: Side::Bid, tick: l.tick, qty: l.qty });
            proof {
                assert(level_of(bp[i as int].0, bp[i as int].1, tick_size, bids@[i as int]));
            }
            i = i + 1;
        }
        let mut k: usize = 0;
        while k < asks.len()
            invariant
                k <= asks.len(),
                out@.len() == bids@.len() + k,
                bids@.len() == bp.len(),
                all_converted(ap, tick_size, asks@),
                forall|j: int| 0 <= j < bids@.len() ==> #[trigger] out@[j].side == Side::Bid
                    && level_of(bp[j].0, bp[j].1, tick_size, Level { tick: out@[j].tick, qty: out@[j].qty }),
                forall|j: int| bids@.len() <= j < out@.len() ==> #[trigger] out@[j].side == Side::Ask
                    && level_of(ap[j - bids@.len()].0, ap[j - bids@.len()].1, tick_size, Level { tick: out@[j].tick, qty: out@[j].qty }),
            decreases asks.len() - k,
        {
            let l = asks[k];
            out.push(LevelUpdate { side: Side::Ask, tick: l.tick, qty: l.qty });
            proof {
                assert(level_of(ap[k as int].0, ap[k as int].1, tick_size, asks@[k as int]));
            }
            k = k + 1;
        }
        Ok(out)
    }
}

/// The book event of a parsed message: a snapshot becomes a `Snapshot` at its nonce, an
/// update becomes a `Delta` from its begin nonce to its nonce; every other message gives
/// no event.
pub fn to_event(message: LighterMessage, tick_size: Decimal) -> (r: Result<Option<BookEvent>, VenueError>)
    ensures
        match message {
            LighterMessage::Snapshot(msg) => {
                let b = msg.order_book;
                match r {
                    Ok(Some(BookEvent::Snapshot { seq, bids, asks })) => seq == b.nonce && all_converted(
                        lighter_pairs(b.bids@),
                        tick_size,
                        bids@,
                    ) && all_converted(lighter_pairs(b.asks@), tick_size, asks@),
                    Ok(_) => false,
                    Err(err) => err is Core && sides_failure(lighter_pairs(b.bids@), lighter_pairs(b.asks@), tick_size, err->Core_0),
                }
            },
            LighterMessage::Update(msg) => {
                let b = msg.order_book;
                match r {
                    Ok(Some(BookEvent::Delta { prev_seq, seq, updates })) => prev_seq == b.begin_nonce && seq
                        == b.nonce && updates_converted(lighter_pairs(b.bids@), lighter_pairs(b.asks@), tick_size, updates@),
                    Ok(_) => false,
                    Err(err) => err is Core && sides_failure(lighter_pairs(b.bids@), lighter_pairs(b.asks@), tick_size, err->Core_0),
                }
            },
            _ => r == Ok::<Option<BookEvent>, VenueError>(None),
        },
{
    match message {
        LighterMessage::Snapshot(msg) => {
            let (bids, asks) = msg.order_book.to_levels(tick_size)?;
            Ok(Some(BookEvent::Snapshot { seq: msg.order_book.nonce, bids, asks }))
        },
        LighterMessage::Update(msg) => {
            let updates = msg.order_book.to_updates(tick_size)?;
            Ok(Some(BookEvent::Delta { prev_seq: msg.order_book.begin_nonce, seq: msg.order_book.nonce, updates }))
        },
        _ => Ok(None),
    }
}

} // verus!
