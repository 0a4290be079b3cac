use carry::book_owner::{Stats, apply_event};
use carry::{BookEvent, CarryError, Decimal, Level, OrderBook, Qty, Tick};

fn level(tick: u64) -> Level {
    Level {
        tick: Tick::new(tick),
        qty: Qty::new(Decimal::one()).unwrap(),
    }
}

fn snapshot(seq: u64) -> BookEvent {
    BookEvent::Snapshot {
        seq,
        bids: vec![level(99)],
        asks: vec![level(101)],
    }
}

#[test]
fn snapshot_is_published() {
    let mut book = OrderBook::new(Decimal::one()).unwrap();
    let mut stats = Stats::new();
    assert_eq!(apply_event(&mut book, snapshot(1), &mut stats), None);
    assert!(book.is_synced());
    assert_eq!(book.best_bid(), Some(level(99)));
    assert_eq!((stats.events, stats.snapshots), (1, 1));
}

#[test]
fn gap_marks_stale_and_requests_resync() {
    let mut book = OrderBook::new(Decimal::one()).unwrap();
    let mut stats = Stats::new();
    apply_event(&mut book, snapshot(1), &mut stats);
    let gap = BookEvent::Delta {
        prev_seq: 5,
        seq: 6,
        updates: vec![],
    };
    assert_eq!(
        apply_event(&mut book, gap, &mut stats),
        Some(CarryError::SequenceGap {
            expected: 1,
            got: 5
        })
    );
    assert!(!book.is_synced());
    assert_eq!(stats.resyncs, 1);
}

#[test]
fn disconnect_marks_stale_without_resync() {
    let mut book = OrderBook::new(Decimal::one()).unwrap();
    let mut stats = Stats::new();
    apply_event(&mut book, snapshot(1), &mut stats);
    assert_eq!(apply_event(&mut book, BookEvent::Disconnected, &mut stats), None);
    assert!(!book.is_synced());
    assert_eq!((stats.disconnects, stats.resyncs), (1, 0));
}

#[test]
fn delta_while_stale_waits_without_resync() {
    let mut book = OrderBook::new(Decimal::one()).unwrap();
    let mut stats = Stats::new();
    let delta = BookEvent::Delta {
        prev_seq: 1,
        seq: 2,
        updates: vec![],
    };
    assert_eq!(apply_event(&mut book, delta, &mut stats), None);
    assert_eq!((stats.events, stats.resyncs), (1, 0));
}

#[test]
fn only_the_counters_an_event_raises_need_room() {
    let mut book = OrderBook::new(Decimal::one()).unwrap();
    let mut stats = Stats {
        events: 0,
        snapshots: 0,
        resyncs: 0,
        disconnects: u64::MAX,
    };
    assert_eq!(apply_event(&mut book, snapshot(1), &mut stats), None);
    assert_eq!(stats.snapshots, 1);
    stats.snapshots = u64::MAX;
    stats.resyncs = u64::MAX;
    stats.disconnects = 0;
    assert_eq!(apply_event(&mut book, BookEvent::Disconnected, &mut stats), None);
    assert_eq!(stats.disconnects, 1);
    assert!(!book.is_synced());
}
