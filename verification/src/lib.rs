//! Core domain types, order book, funding models and slippage walk.
use vstd::prelude::*;

pub mod book;
pub mod book_owner;
pub mod decimal;
pub mod error;
pub mod event;
pub mod feed;
pub mod funding;
pub mod hyperliquid;
pub mod levels;
pub mod lighter;
pub mod price;
pub mod qty;
pub mod side;
pub mod tick;
pub mod venue;
pub mod venue_error;

pub use book::{Fill, Level, LevelUpdate, OrderBook};
pub use decimal::Decimal;
pub use event::{BookEvent, VenueEvent};
pub use error::CarryError;
pub use funding::{LighterFundingParams, lighter_hourly_funding};
pub use price::Price;
pub use qty::Qty;
pub use side::Side;
pub use tick::Tick;
pub use venue::Venue;
pub use venue_error::VenueError;

verus! {

} // verus!
