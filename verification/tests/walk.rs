use carry::{CarryError, Decimal, Fill, Level, OrderBook, Qty, Side, Tick};

fn level(tick: u64, size: i64) -> Result<Level, CarryError> {
    Ok(Level {
        tick: Tick::new(tick),
        qty: Qty::new(Decimal::new(size, 0))?,
    })
}

fn usd(n: i64) -> Decimal {
    Decimal::new(n, 0)
}

fn book() -> Result<OrderBook, CarryError> {
    let mut book = OrderBook::new(Decimal::one())?;
    book.apply_snapshot(
        1,
        &[level(80, 1)?, level(60, 5)?],
        &[level(100, 1)?, level(105, 4)?, level(110, 10)?],
    )?;
    Ok(book)
}

#[test]
fn buy_inside_top_level_has_no_slippage() -> Result<(), CarryError> {
    let fill = book()?.walk(Side::Ask, usd(50))?;
    assert_eq!(
        fill,
        Fill {
            base_qty: Decimal::new(5, 1),
            notional: usd(50),
            avg_price: usd(100),
            best_price: usd(100),
            worst_price: usd(100),
            levels_used: 1,
            slippage_bps: Decimal::zero(),
        }
    );
    Ok(())
}

#[test]
fn buy_exactly_top_level_stops_at_boundary() -> Result<(), CarryError> {
    let fill = book()?.walk(Side::Ask, usd(100))?;
    assert_eq!(fill.base_qty, Decimal::one());
    assert_eq!(fill.levels_used, 1);
    Ok(())
}

#[test]
fn buy_across_two_levels() -> Result<(), CarryError> {
    let fill = book()?.walk(Side::Ask, usd(205))?;
    assert_eq!(fill.base_qty, usd(2));
    assert_eq!(fill.avg_price, Decimal::new(1025, 1));
    assert_eq!(fill.worst_price, usd(105));
    assert_eq!(fill.levels_used, 2);
    assert_eq!(fill.slippage_bps, usd(250));
    Ok(())
}

#[test]
fn sell_walks_bids_from_highest() -> Result<(), CarryError> {
    let fill = book()?.walk(Side::Bid, usd(140))?;
    assert_eq!(fill.base_qty, usd(2));
    assert_eq!(fill.avg_price, usd(70));
    assert_eq!(fill.best_price, usd(80));
    assert_eq!(fill.worst_price, usd(60));
    assert_eq!(fill.slippage_bps, usd(1250));
    Ok(())
}

#[test]
fn too_large_is_insufficient_liquidity() -> Result<(), CarryError> {
    assert_eq!(
        book()?.walk(Side::Ask, usd(2000)),
        Err(CarryError::InsufficientLiquidity {
            requested: usd(2000),
            available: usd(1620),
        })
    );
    Ok(())
}

#[test]
fn unsynced_book_refuses_to_walk() -> Result<(), CarryError> {
    let book = OrderBook::new(Decimal::one())?;
    assert_eq!(book.walk(Side::Ask, usd(10)), Err(CarryError::NotSynced));
    Ok(())
}

#[test]
fn zero_notional_is_rejected() -> Result<(), CarryError> {
    assert_eq!(
        book()?.walk(Side::Ask, Decimal::zero()),
        Err(CarryError::InvalidNotional(Decimal::zero()))
    );
    Ok(())
}

#[test]
fn bigger_order_never_gets_better_price() -> Result<(), CarryError> {
    let book = book()?;
    let small = book.walk(Side::Ask, usd(50))?;
    let large = book.walk(Side::Ask, usd(205))?;
    assert!(large.avg_price >= small.avg_price);
    Ok(())
}

#[test]
fn empty_side_has_no_liquidity() -> Result<(), CarryError> {
    let mut book = OrderBook::new(Decimal::one())?;
    book.apply_snapshot(1, &[level(90, 1)?], &[])?;
    assert_eq!(
        book.walk(Side::Ask, usd(10)),
        Err(CarryError::InsufficientLiquidity {
            requested: usd(10),
            available: Decimal::zero(),
        })
    );
    Ok(())
}

#[test]
fn negative_notional_is_rejected() -> Result<(), CarryError> {
    assert_eq!(
        book()?.walk(Side::Bid, usd(-5)),
        Err(CarryError::InvalidNotional(usd(-5)))
    );
    Ok(())
}

#[test]
fn tick_zero_level_is_an_invalid_price() -> Result<(), CarryError> {
    let mut book = OrderBook::new(Decimal::one())?;
    book.apply_snapshot(1, &[level(0, 3)?], &[level(5, 1)?])?;
    assert_eq!(
        book.walk(Side::Bid, usd(1)),
        Err(CarryError::InvalidPrice(Decimal::zero()))
    );
    Ok(())
}

#[test]
fn fractional_tick_size_prices_levels() -> Result<(), CarryError> {
    let mut book = OrderBook::new(Decimal::new(5, 1))?;
    book.apply_snapshot(1, &[], &[level(200, 2)?])?;
    let fill = book.walk(Side::Ask, usd(150))?;
    assert_eq!(fill.best_price, usd(100));
    assert_eq!(fill.base_qty, Decimal::new(15, 1));
    Ok(())
}
