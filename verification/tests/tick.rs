use carry::{CarryError, Decimal, Price, Tick};

fn price(mantissa: i64, scale: u32) -> Result<Price, CarryError> {
    Price::new(Decimal::new(mantissa, scale))
}

#[test]
fn from_price_on_tick() -> Result<(), CarryError> {
    let tick_size = Decimal::new(5, 1);
    let tick = Tick::from_price(price(1005, 1)?, tick_size)?;
    assert_eq!(tick.index(), 201);
    Ok(())
}

#[test]
fn round_trip_price_tick_price() -> Result<(), CarryError> {
    let tick_size = Decimal::new(1, 2);
    let p = price(6543210, 2)?;
    let tick = Tick::from_price(p, tick_size)?;
    assert_eq!(tick.to_price(tick_size)?, p);
    Ok(())
}

#[test]
fn from_price_rejects_off_tick() -> Result<(), CarryError> {
    let tick_size = Decimal::new(5, 1);
    let p = price(1003, 1)?;
    assert_eq!(
        Tick::from_price(p, tick_size),
        Err(CarryError::OffTick {
            price: p.value(),
            tick_size
        })
    );
    Ok(())
}

#[test]
fn rejects_non_positive_tick_size() -> Result<(), CarryError> {
    assert_eq!(
        Tick::from_price(price(100, 0)?, Decimal::zero()),
        Err(CarryError::InvalidTickSize(Decimal::zero()))
    );
    assert_eq!(
        Tick::new(1).to_price(Decimal::zero()),
        Err(CarryError::InvalidTickSize(Decimal::zero()))
    );
    Ok(())
}

#[test]
fn zero_tick_is_not_a_valid_price() {
    assert_eq!(
        Tick::new(0).to_price(Decimal::new(1, 2)),
        Err(CarryError::InvalidPrice(Decimal::zero()))
    );
}

#[test]
fn ticks_order_like_prices() -> Result<(), CarryError> {
    let tick_size = Decimal::one();
    let low = Tick::from_price(price(100, 0)?, tick_size)?;
    let high = Tick::from_price(price(101, 0)?, tick_size)?;
    assert!(low < high);
    Ok(())
}

#[test]
fn from_quotient_takes_whole_quotients_only() -> Result<(), CarryError> {
    let p = price(1005, 1)?;
    let tick_size = Decimal::new(5, 1);
    assert_eq!(
        Tick::from_quotient(p, tick_size, Some(Decimal::new(201, 0)))?.index(),
        201
    );
    assert_eq!(
        Tick::from_quotient(p, tick_size, Some(Decimal::new(20100, 2)))?.index(),
        201
    );
    assert_eq!(
        Tick::from_quotient(p, tick_size, Some(Decimal::new(2005, 1))),
        Err(CarryError::OffTick {
            price: p.value(),
            tick_size
        })
    );
    assert_eq!(
        Tick::from_quotient(p, tick_size, Some(Decimal::new(-3, 0))),
        Err(CarryError::Overflow)
    );
    assert_eq!(
        Tick::from_quotient(p, tick_size, None),
        Err(CarryError::Overflow)
    );
    Ok(())
}

#[test]
fn to_price_multiplies_by_the_tick_size() -> Result<(), CarryError> {
    let p = Tick::new(201).to_price(Decimal::new(5, 1))?;
    assert_eq!(p.value(), Decimal::new(1005, 1));
    Ok(())
}

#[test]
fn tick_index_beyond_u64_overflows() -> Result<(), CarryError> {
    let p = price(i64::MAX, 0)?;
    assert_eq!(
        Tick::from_price(p, Decimal::new(1, 10)),
        Err(CarryError::Overflow)
    );
    Ok(())
}

#[test]
fn ticks_order_by_index() {
    assert!(Tick::new(3) < Tick::new(4));
    assert!(Tick::new(4) > Tick::new(3));
    assert_eq!(Tick::new(7).partial_cmp(&Tick::new(7)), Some(std::cmp::Ordering::Equal));
    assert_eq!(Tick::new(7).cmp(&Tick::new(2)), std::cmp::Ordering::Greater);
}

#[test]
fn whole_quotient_at_any_scale_gives_its_tick() {
    let p = Price::new(Decimal::new(1005, 1)).unwrap();
    let tick_size = Decimal::new(5, 1);
    for q in [Decimal::new(201, 0), Decimal::new(2010, 1), Decimal::new(201_000, 3)] {
        assert_eq!(Tick::from_quotient(p, tick_size, Some(q)).unwrap().index(), 201);
    }
}

#[test]
fn exact_tick_prices_round_trip() {
    for tick_size in [Decimal::new(25, 2), Decimal::new(1, 7), Decimal::new(5, 0), Decimal::new(3, 28)] {
        for index in [1u64, 2, 7, 1000, 123_456_789] {
            let tick = Tick::new(index);
            let p = tick.to_price(tick_size).unwrap();
            assert_eq!(Tick::from_price(p, tick_size), Ok(tick));
        }
    }
}

#[test]
fn whole_multiple_written_at_a_smaller_scale_gives_its_tick() {
    let p = Price::new(Decimal::new(1005, 1)).unwrap();
    assert_eq!(Tick::from_price(p, Decimal::new(5, 2)).unwrap().index(), 2010);
    let big = Price::new(Decimal::new(18_446_744_073_709_551, 0)).unwrap();
    assert_eq!(Tick::from_price(big, Decimal::new(1, 3)).unwrap().index(), 18_446_744_073_709_551_000);
}
