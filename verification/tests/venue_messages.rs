use carry::hyperliquid::{self, HlBook, HlChannel, HlLevel, HlMessage};
use carry::lighter::{self, LighterBook, LighterBookMsg, LighterLevel, LighterMessage};
use carry::{BookEvent, CarryError, Decimal, Level, OrderBook, Qty, Tick, VenueError};

fn tick() -> Decimal {
    Decimal::new(1, 1)
}

fn tick_size() -> Decimal {
    Decimal::new(1, 1)
}

fn level(tick: u64, mantissa: i64, scale: u32) -> Result<Level, CarryError> {
    Ok(Level {
        tick: Tick::new(tick),
        qty: Qty::new(Decimal::new(mantissa, scale))?,
    })
}

fn hl_level(px: i64, px_scale: u32, sz: i64, sz_scale: u32, n: u32) -> HlLevel {
    HlLevel {
        px: Decimal::new(px, px_scale),
        sz: Decimal::new(sz, sz_scale),
        n,
    }
}

/// The `l2Book` frame: BTC at 1758790000000 with two bids and two asks.
fn hl_l2book() -> HlBook {
    HlBook {
        coin: "BTC".to_owned(),
        time: 1_758_790_000_000,
        levels: [
            vec![hl_level(654321, 1, 5, 1, 3), hl_level(654320, 1, 12, 1, 1)],
            vec![hl_level(654322, 1, 75, 2, 2), hl_level(654325, 1, 2, 0, 1)],
        ],
    }
}

fn lighter_level(price: i64, price_scale: u32, size: i64, size_scale: u32) -> LighterLevel {
    LighterLevel {
        price: Decimal::new(price, price_scale),
        size: Decimal::new(size, size_scale),
    }
}

/// The `subscribed/order_book` frame at nonce 5000.
fn lighter_snapshot_book() -> LighterBook {
    LighterBook {
        asks: vec![lighter_level(654322, 1, 75, 2), lighter_level(654325, 1, 2, 0)],
        bids: vec![lighter_level(654321, 1, 5, 1), lighter_level(654320, 1, 12, 1)],
        nonce: 5000,
        begin_nonce: 0,
    }
}

/// The `update/order_book` frame covering 5000..=5007.
fn lighter_update_book() -> LighterBook {
    LighterBook {
        asks: vec![lighter_level(654322, 1, 0, 0)],
        bids: vec![lighter_level(654321, 1, 9, 1)],
        nonce: 5007,
        begin_nonce: 5000,
    }
}

fn lighter_msg(order_book: LighterBook) -> LighterBookMsg {
    LighterBookMsg {
        channel: "order_book:1".to_owned(),
        order_book,
    }
}

fn synced_lighter_book() -> Result<OrderBook, VenueError> {
    let snap = lighter_snapshot_book();
    let (bids, asks) = snap.to_levels(tick_size())?;
    let mut book = OrderBook::new(tick_size()).map_err(VenueError::Core)?;
    book.apply_snapshot(snap.nonce, &bids, &asks).map_err(VenueError::Core)?;
    Ok(book)
}

#[test]
fn hl_book_is_a_snapshot_event() -> Result<(), VenueError> {
    let Some(BookEvent::Snapshot { seq, bids, asks }) =
        hyperliquid::to_event(HlMessage::L2Book(hl_l2book()), tick())?
    else {
        panic!("expected Snapshot");
    };
    assert_eq!(seq, 1_758_790_000_000);
    assert_eq!((bids.len(), asks.len()), (2, 2));
    Ok(())
}

#[test]
fn hl_pong_is_no_event() -> Result<(), VenueError> {
    assert_eq!(hyperliquid::to_event(HlMessage::Pong, tick())?, None);
    Ok(())
}

#[test]
fn lighter_snapshot_and_update_events() -> Result<(), VenueError> {
    let snapshot = LighterMessage::Snapshot(lighter_msg(lighter_snapshot_book()));
    let Some(BookEvent::Snapshot { seq, .. }) = lighter::to_event(snapshot, tick())? else {
        panic!("expected Snapshot");
    };
    assert_eq!(seq, 5000);

    let update = LighterMessage::Update(lighter_msg(lighter_update_book()));
    let Some(BookEvent::Delta {
        prev_seq,
        seq,
        updates,
    }) = lighter::to_event(update, tick())?
    else {
        panic!("expected Delta");
    };
    assert_eq!((prev_seq, seq, updates.len()), (5000, 5007, 2));
    Ok(())
}

#[test]
fn lighter_pong_is_no_event() -> Result<(), VenueError> {
    assert_eq!(lighter::to_event(LighterMessage::Pong, tick())?, None);
    assert_eq!(lighter::to_event(LighterMessage::Other, tick())?, None);
    Ok(())
}

#[test]
fn l2book_feeds_order_book() -> Result<(), VenueError> {
    let msg = hl_l2book();
    let (bids, asks) = msg.to_levels(tick_size())?;
    let mut book = OrderBook::new(tick_size()).map_err(VenueError::Core)?;
    book.apply_snapshot(msg.time, &bids, &asks).map_err(VenueError::Core)?;
    assert_eq!(book.best_bid(), Some(level(654_321, 5, 1)?));
    assert_eq!(book.best_ask(), Some(level(654_322, 75, 2)?));
    Ok(())
}

#[test]
fn subscription_ack_and_unknown_channels_parse() {
    assert_eq!(
        hyperliquid::classify_channel("subscriptionResponse"),
        HlChannel::SubscriptionResponse
    );
    assert_eq!(hyperliquid::classify_channel("pong"), HlChannel::Pong);
    assert_eq!(hyperliquid::classify_channel("l2Book"), HlChannel::L2Book);
    assert_eq!(hyperliquid::classify_channel("trades"), HlChannel::Other);
    assert_eq!(hyperliquid::classify_channel("L2BOOK"), HlChannel::Other);
}

#[test]
fn off_tick_price_is_a_core_error() {
    let result = hl_l2book().to_levels(Decimal::one());
    assert!(matches!(
        result,
        Err(VenueError::Core(CarryError::OffTick { .. }))
    ));
}

#[test]
fn negative_size_is_reported_after_good_bids() {
    let mut book = hl_l2book();
    book.levels[1][1].sz = Decimal::new(-1, 0);
    assert_eq!(
        book.to_levels(tick_size()),
        Err(VenueError::Core(CarryError::InvalidQty(Decimal::new(-1, 0))))
    );
    book.levels[0][0].px = Decimal::zero();
    assert_eq!(
        book.to_levels(tick_size()),
        Err(VenueError::Core(CarryError::InvalidPrice(Decimal::zero())))
    );
}

#[test]
fn snapshot_feeds_order_book() -> Result<(), VenueError> {
    let book = synced_lighter_book()?;
    assert_eq!(book.seq(), Some(5000));
    assert_eq!(book.best_bid(), Some(level(654_321, 5, 1)?));
    assert_eq!(book.best_ask(), Some(level(654_322, 75, 2)?));
    Ok(())
}

#[test]
fn update_applies_when_begin_nonce_matches() -> Result<(), VenueError> {
    let mut book = synced_lighter_book()?;
    let upd = lighter_update_book();
    book.apply_delta_from(upd.begin_nonce, upd.nonce, &upd.to_updates(tick_size())?)
        .map_err(VenueError::Core)?;
    assert_eq!(book.seq(), Some(5007));
    assert_eq!(book.best_bid(), Some(level(654_321, 9, 1)?));
    assert_eq!(book.best_ask(), Some(level(654_325, 2, 0)?));
    Ok(())
}

#[test]
fn update_with_wrong_begin_nonce_is_a_gap() -> Result<(), VenueError> {
    let mut book = synced_lighter_book()?;
    let upd = lighter_update_book();
    let result = book.apply_delta_from(upd.begin_nonce + 1, upd.nonce, &[]);
    assert_eq!(
        result,
        Err(CarryError::SequenceGap {
            expected: 5000,
            got: 5001
        })
    );
    assert!(!book.is_synced());
    Ok(())
}

#[test]
fn to_updates_lists_bids_then_asks() -> Result<(), VenueError> {
    let updates = lighter_update_book().to_updates(tick_size())?;
    assert_eq!(updates.len(), 2);
    assert_eq!(updates[0].side, carry::Side::Bid);
    assert_eq!(updates[0].tick, Tick::new(654_321));
    assert_eq!(updates[1].side, carry::Side::Ask);
    assert!(updates[1].qty.is_zero());
    Ok(())
}
