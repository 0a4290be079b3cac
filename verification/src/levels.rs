use vstd::prelude::*;
use crate::book::Level;
use crate::decimal::{Decimal, value_le, value_lt, zero_value};
use crate::error::CarryError;
use crate::price::Price;
use crate::qty::Qty;
use crate::tick::{Tick, tick_from_price};

verus! {

/// Why a venue's `(price, size)` pair cannot become a level, checked in the order price,
/// tick, quantity; `None` when it can.
pub open spec fn level_error(price: Decimal, size: Decimal, tick_size: Decimal) -> Option<CarryError> {
    if value_le(price@, zero_value()) {
        Some(CarryError::InvalidPrice(price))
    } else {
        match tick_from_price(price, tick_size) {
            Err(e) => Some(e),
            Ok(_) => if value_lt(size@, zero_value()) {
                Some(CarryError::InvalidQty(size))
            } else {
                None
            },
        }
    }
}

/// `level` is the level a valid `(price, size)` pair becomes.
pub open spec fn level_of(price: Decimal, size: Decimal, tick_size: Decimal, level: Level) -> bool {
    &&& tick_from_price(price, tick_size) == Ok::<u64, CarryError>(level.tick@)
    &&& level.qty@ == size
}

/// Turns a venue's price and size into a level on a grid of `tick_size`.
pub fn level_from(price: Decimal, size: Decimal, tick_size: Decimal) -> (r: Result<Level, CarryError>)
    ensures
        match level_error(price, size, tick_size) {
            Some(e) => r == Err::<Level, CarryError>(e),
            None => (r is Ok && level_of(price, size, tick_size, r->Ok_0)),
        },
{
    let price = Price::new(price)?;
    let tick = Tick::from_price(price, tick_size)?;
    let qty = Qty::new(size)?;
    Ok(Level { tick, qty })
}

/// The first pair of `levels` that cannot be converted fails with `err`.
pub open spec fn first_failure(levels: Seq<(Decimal, Decimal)>, tick_size: Decimal, err: CarryError) -> bool {
    exists|i: int|
        0 <= i < levels.len() && (forall|j: int| 0 <= j < i ==> #[trigger] level_error(levels[j].0, levels[j].1, tick_size) is None)
            && #[trigger] level_error(levels[i].0, levels[i].1, tick_size) == Some(err)
}

/// Every pair of `levels` converts, and `out` holds the converted levels in order.
pub open spec fn all_converted(levels: Seq<(Decimal, Decimal)>, tick_size: Decimal, out: Seq<Level>) -> bool {
    &&& out.len() == levels.len()
    &&& forall|i: int| 0 <= i < levels.len() ==> #[trigger] level_error(levels[i].0, levels[i].1, tick_size) is None
    &&& forall|i: int| 0 <= i < levels.len() ==> level_of(levels[i].0, levels[i].1, tick_size, #[trigger] out[i])
}

/// Converting the bids, then the asks, fails with `err`: the first failing bid, or,
/// when every bid converts, the first failing ask.
pub open spec fn sides_failure(bids: Seq<(Decimal, Decimal)>, asks: Seq<(Decimal, Decimal)>, tick_size: Decimal, err: CarryError) -> bool {
    ||| first_failure(bids, tick_size, err)
    ||| (exists|b: Seq<Level>| all_converted(bids, tick_size, b)) && first_failure(asks, tick_size, err)
}

} // verus!
