use vstd::prelude::*;
use crate::book::{OrderBook, delta_from_applied, marked_stale, snapshot_applied};
use crate::error::CarryError;
use crate::event::BookEvent;

verus! {

/// Counters kept by a book owner.
#[derive(Debug, Clone, Copy, PartialEq, Eq, Structural)]
pub struct Stats {
    pub events: u64,
    pub snapshots: u64,
    pub resyncs: u64,
    pub disconnects: u64,
}

impl Stats {
    /// All counters at zero.
    pub fn new() -> (s: Self)
        ensures
            s == (Stats { events: 0, snapshots: 0, resyncs: 0, disconnects: 0 }),
    {
        Stats { events: 0, snapshots: 0, resyncs: 0, disconnects: 0 }
    }
}

/// The error that calls for a fresh snapshot: any failure but `NotSynced`, which means
/// the book already waits for one.
pub open spec fn resync_reason(r: Result<(), CarryError>) -> Option<CarryError> {
    match r {
        Ok(()) => None,
        Err(CarryError::NotSynced) => None,
        Err(e) => Some(e),
    }
}

/// `resync` asks for a fresh snapshot exactly when the book operation failed with an error
/// other than `NotSynced`, and then carries that error.
pub open spec fn asks_for_resync(r: Result<(), CarryError>, resync: Option<CarryError>) -> bool {
    &&& (resync is Some) <==> (r is Err && !(r->Err_0 is NotSynced))
    &&& resync is Some ==> r == Err::<(), CarryError>(resync->0)
}

/// Only an operation that failed for a reason other than waiting for a snapshot calls for
/// a resync, and every such failure does, with its own error: a crossed book, a sequence
/// gap or an overflow each ask for a fresh snapshot; success and `NotSynced` never do.
pub proof fn lemma_resync_on_every_failure(r: Result<(), CarryError>)
    ensures
        asks_for_resync(r, resync_reason(r)),
        (r is Err && r->Err_0 is CrossedBook) ==> resync_reason(r) == Some(r->Err_0),
        (r is Err && r->Err_0 is SequenceGap) ==> resync_reason(r) == Some(r->Err_0),
        (r is Err && r->Err_0 is Overflow) ==> resync_reason(r) == Some(r->Err_0),
        r is Ok ==> resync_reason(r) is None,
{
}

/// Applies one feed event to the book and counts it: a snapshot replaces the book, a
/// delta is applied from its range, a disconnection marks the book stale. Returns the
/// error when the book needs a fresh snapshot from the feed. Only the counters that the
/// event can raise need room below `u64::MAX`.
pub fn apply_event(book: &mut OrderBook, event: BookEvent, stats: &mut Stats) -> (resync: Option<CarryError>)
    requires
        old(stats).events < u64::MAX,
        event is Snapshot ==> old(stats).snapshots < u64::MAX,
        event is Disconnected ==> old(stats).disconnects < u64::MAX,
        !(event is Disconnected) ==> old(stats).resyncs < u64::MAX,
    ensures
        final(stats).events == old(stats).events + 1,
        final(stats).resyncs == old(stats).resyncs + (if resync is Some { 1int } else { 0int }),
        match event {
            BookEvent::Snapshot { seq, bids, asks } => {
                &&& final(stats).snapshots == old(stats).snapshots + 1
                &&& final(stats).disconnects == old(stats).disconnects
                &&& exists|r: Result<(), CarryError>| #[trigger] snapshot_applied(*old(book), *final(book), seq, bids@, asks@, r)
                    && resync == resync_reason(r) && asks_for_resync(r, resync)
            },
            BookEvent::Delta { prev_seq, seq, updates } => {
                &&& final(stats).snapshots == old(stats).snapshots
                &&& final(stats).disconnects == old(stats).disconnects
                &&& exists|r: Result<(), CarryError>| #[trigger] delta_from_applied(*old(book), *final(book), prev_seq, seq, updates@, r)
                    && resync == resync_reason(r) && asks_for_resync(r, resync)
            },
            BookEvent::Disconnected => {
                &&& final(stats).snapshots == old(stats).snapshots
                &&& final(stats).disconnects == old(stats).disconnects + 1
                &&& marked_stale(*old(book), *final(book))
                &&& resync is None
            },
        },
{
    stats.events = stats.events + 1;
    let result = match event {
        BookEvent::Snapshot { seq, bids, asks } => {
            stats.snapshots = stats.snapshots + 1;
            let b = bids.as_slice();
            let a = asks.as_slice();
            let r = book.apply_snapshot(seq, b, a);
            assert(snapshot_applied(*old(book), *book, seq, bids@, asks@, r));
            r
        },
        BookEvent::Delta { prev_seq, seq, updates } => {
            let u = updates.as_slice();
            let r = book.apply_delta_from(prev_seq, seq, u);
            assert(delta_from_applied(*old(book), *book, prev_seq, seq, updates@, r));
            r
        },
        BookEvent::Disconnected => {
            stats.disconnects = stats.disconnects + 1;
            book.mark_stale();
            Ok(())
        },
    };
    match result {
        Ok(()) => None,
        Err(CarryError::NotSynced) => None,
        Err(e) => {
            stats.resyncs = stats.resyncs + 1;
            Some(e)
        },
    }
}

} // verus!
