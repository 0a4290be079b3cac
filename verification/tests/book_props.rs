use carry::{CarryError, Decimal, Level, LevelUpdate, OrderBook, Qty, Side, Tick};

/// The same number as a `rust_decimal` value, for arithmetic in assertions.
fn rd(d: Decimal) -> rust_decimal::Decimal {
    let mut out = rust_decimal::Decimal::from_i128_with_scale(d.mantissa() as i128, d.scale());
    out.set_sign_negative(d.is_sign_negative());
    out
}

fn tolerance() -> rust_decimal::Decimal {
    rust_decimal::Decimal::new(1, 18)
}

fn level(tick: u64, size: i64) -> Level {
    Level {
        tick: Tick::new(tick),
        qty: Qty::new(Decimal::new(size, 0)).unwrap(),
    }
}

fn update(is_bid: bool, tick: u64, size: i64) -> LevelUpdate {
    LevelUpdate {
        side: if is_bid { Side::Bid } else { Side::Ask },
        tick: Tick::new(tick),
        qty: Qty::new(Decimal::new(size, 0)).unwrap(),
    }
}

#[test]
fn synced_book_is_never_crossed_on_sample_batches() {
    let mut book = OrderBook::new(Decimal::one()).unwrap();
    book.apply_snapshot(0, &[level(10, 3), level(400, 1)], &[level(1000, 2), level(1500, 9)])
        .unwrap();
    let batches = [
        vec![update(true, 500, 4), update(false, 999, 1)],
        vec![update(false, 1000, 0), update(true, 998, 2)],
        vec![update(false, 999, 0), update(true, 1600, 1)],
        vec![update(true, 10, 7)],
    ];
    for (seq, batch) in (1u64..).zip(batches.iter()) {
        let result = book.apply_delta(seq, batch);
        if !book.is_synced() {
            assert!(matches!(result, Err(CarryError::CrossedBook { .. })));
            break;
        }
        if let (Some(bid), Some(ask)) = (book.best_bid(), book.best_ask()) {
            assert!(bid.tick < ask.tick);
        }
    }
    assert!(!book.is_synced());
}

#[test]
fn bigger_buy_never_gets_better_avg_price_on_samples() {
    let mut book = OrderBook::new(Decimal::one()).unwrap();
    book.apply_snapshot(0, &[], &[level(3, 7), level(17, 2), level(40, 11), level(999, 50)])
        .unwrap();
    let sizes = [1i64, 20, 21, 55, 500, 2000, 9999];
    for a in sizes {
        for b in sizes {
            let (small, large) = (a.min(b), a.max(b));
            if let (Ok(s), Ok(l)) = (
                book.walk(Side::Ask, Decimal::new(small, 0)),
                book.walk(Side::Ask, Decimal::new(large, 0)),
            ) {
                assert!(rd(l.avg_price) + tolerance() >= rd(s.avg_price));
            }
        }
    }
}

#[test]
fn sell_avg_price_is_between_best_and_worst_on_samples() {
    let mut book = OrderBook::new(Decimal::one()).unwrap();
    let bids = [level(7, 3), level(90, 4), level(321, 2), level(999, 1)];
    book.apply_snapshot(0, &bids, &[]).unwrap();
    for notional in [1i64, 999, 1000, 1641, 1700, 2000, 2900] {
        if let Ok(fill) = book.walk(Side::Bid, Decimal::new(notional, 0)) {
            assert!(rd(fill.avg_price) <= rd(fill.best_price) + tolerance());
            assert!(rd(fill.avg_price) + tolerance() >= rd(fill.worst_price));
            assert!(fill.slippage_bps >= Decimal::zero());
            assert!(fill.levels_used <= bids.len());
        }
    }
}
