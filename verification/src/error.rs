use vstd::prelude::*;
use crate::decimal::Decimal;
use crate::tick::Tick;

verus! {

/// Everything the core types and the order book can refuse.
#[derive(Debug, Clone, PartialEq, Eq)]
pub enum CarryError {
    /// A price must be strictly positive.
    InvalidPrice(Decimal),
    /// A quantity must not be below zero.
    InvalidQty(Decimal),
    /// A tick size must be strictly positive.
    InvalidTickSize(Decimal),
    /// The price is not a whole number of ticks.
    OffTick { price: Decimal, tick_size: Decimal },
    /// A computation left the range of the numeric types.
    Overflow,
    /// The venue name is not known.
    UnknownVenue(String),
    /// A funding parameter that must not be negative is.
    InvalidFundingParam { name: &'static str, value: Decimal },
    /// A delta does not continue the book's sequence.
    SequenceGap { expected: u64, got: u64 },
    /// The book waits for a snapshot.
    NotSynced,
    /// The best bid is at or above the best ask.
    CrossedBook { bid: Tick, ask: Tick },
    /// A notional must be strictly positive.
    InvalidNotional(Decimal),
    /// The book side cannot absorb the requested notional.
    InsufficientLiquidity { requested: Decimal, available: Decimal },
}

} // verus!
