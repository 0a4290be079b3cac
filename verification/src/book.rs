use vstd::prelude::*;
use crate::decimal::{
    Decimal, DecimalValue, decimal_checked_add, decimal_checked_div, decimal_checked_mul,
    decimal_checked_sub, decimal_of, from_num, lemma_decimal_of, value_le, value_lt, zero_value,
};
use crate::tick::price_of_tick;
use crate::error::CarryError;
use crate::qty::Qty;
use crate::side::Side;
use crate::tick::Tick;

verus! {

/// A price level: a tick and the quantity resting there.
#[derive(Debug, Clone, Copy, PartialEq, Eq)]
pub struct Level {
    pub tick: Tick,
    pub qty: Qty,
}

/// A change to one level of one side; a zero quantity removes the level.
#[derive(Debug, Clone, Copy, PartialEq, Eq)]
pub struct LevelUpdate {
    pub side: Side,
    pub tick: Tick,
    pub qty: Qty,
}

/// Levels strictly increasing by tick, none with a zero quantity.
pub open spec fn sorted_levels(s: Seq<Level>) -> bool {
    &&& forall|i: int, j: int| 0 <= i < j < s.len() ==> s[i].tick@ < s[j].tick@
    &&& forall|i: int| 0 <= i < s.len() ==> !(#[trigger] s[i].qty@@).is_zero()
}

/// Some level of `s` sits at tick `k`.
pub open spec fn has_tick(s: Seq<Level>, k: u64) -> bool {
    exists|i: int| 0 <= i < s.len() && #[trigger] s[i].tick@ == k
}

/// The levels as a map from tick index to quantity.
pub open spec fn side_map(s: Seq<Level>) -> Map<u64, Qty> {
    Map::new(
        |k: u64| has_tick(s, k),
        |k: u64| s[choose|i: int| 0 <= i < s.len() && #[trigger] s[i].tick@ == k].qty,
    )
}

/// One level update on a side: a zero quantity removes the tick, any other sets it.
pub open spec fn set_level_map(m: Map<u64, Qty>, tick: u64, qty: Qty) -> Map<u64, Qty> {
    if qty@@.is_zero() {
        m.remove(tick)
    } else {
        m.insert(tick, qty)
    }
}

/// The side after setting each of `levels` in order, starting from `m`.
pub open spec fn set_levels_map(m: Map<u64, Qty>, levels: Seq<Level>) -> Map<u64, Qty>
    decreases levels.len(),
{
    if levels.len() == 0 {
        m
    } else {
        let last = levels.last();
        set_level_map(set_levels_map(m, levels.drop_last()), last.tick@, last.qty)
    }
}

/// Both sides (bids, asks) after applying each of `updates` in order.
pub open spec fn apply_updates_map(
    bids: Map<u64, Qty>,
    asks: Map<u64, Qty>,
    updates: Seq<LevelUpdate>,
) -> (Map<u64, Qty>, Map<u64, Qty>)
    decreases updates.len(),
{
    if updates.len() == 0 {
        (bids, asks)
    } else {
        let (b, a) = apply_updates_map(bids, asks, updates.drop_last());
        let u = updates.last();
        match u.side {
            Side::Bid => (set_level_map(b, u.tick@, u.qty), a),
            Side::Ask => (b, set_level_map(a, u.tick@, u.qty)),
        }
    }
}

/// The highest tick of a side, with its quantity.
pub open spec fn is_best_bid(m: Map<u64, Qty>, r: Option<Level>) -> bool {
    match r {
        None => m.dom().is_empty(),
        Some(l) => m.contains_key(l.tick@) && m[l.tick@] == l.qty && forall|k: u64|
            #[trigger] m.contains_key(k) ==> k <= l.tick@,
    }
}

/// The lowest tick of a side, with its quantity.
pub open spec fn is_best_ask(m: Map<u64, Qty>, r: Option<Level>) -> bool {
    match r {
        None => m.dom().is_empty(),
        Some(l) => m.contains_key(l.tick@) && m[l.tick@] == l.qty && forall|k: u64|
            #[trigger] m.contains_key(k) ==> l.tick@ <= k,
    }
}

/// Some bid is at or above some ask.
pub open spec fn crossed(bids: Map<u64, Qty>, asks: Map<u64, Qty>) -> bool {
    exists|b: u64, a: u64| #[trigger] bids.contains_key(b) && #[trigger] asks.contains_key(a) && b >= a
}

/// Facts about the map of a sorted side.
proof fn lemma_side_map(s: Seq<Level>)
    requires
        sorted_levels(s),
    ensures
        forall|k: u64| #[trigger] side_map(s).contains_key(k) <==> has_tick(s, k),
        forall|i: int|
            0 <= i < s.len() ==> side_map(s).contains_key(#[trigger] s[i].tick@) && side_map(s)[s[i].tick@]
                == s[i].qty,
{
    assert forall|i: int| 0 <= i < s.len() implies side_map(s).contains_key(#[trigger] s[i].tick@)
        && side_map(s)[s[i].tick@] == s[i].qty by {
        let k = s[i].tick@;
        assert(has_tick(s, k));
        let j = choose|j: int| 0 <= j < s.len() && #[trigger] s[j].tick@ == k;
        assert(j == i) by {
            if j < i {
                assert(s[j].tick@ < s[i].tick@);
            } else if j > i {
                assert(s[i].tick@ < s[j].tick@);
            }
        }
    }
}

/// First position whose tick is at or above `t`.
fn lower_bound(levels: &Vec<Level>, t: u64) -> (p: usize)
    requires
        sorted_levels(levels@),
    ensures
        p <= levels.len(),
        forall|i: int| 0 <= i < p ==> #[trigger] levels@[i].tick@ < t,
        forall|i: int| p <= i < levels.len() ==> #[trigger] levels@[i].tick@ >= t,
{
    let mut lo: usize = 0;
    let mut hi: usize = levels.len();
    while lo < hi
        invariant
            0 <= lo <= hi <= levels.len(),
            sorted_levels(levels@),
            forall|i: int| 0 <= i < lo ==> #[trigger] levels@[i].tick@ < t,
            forall|i: int| hi <= i < levels.len() ==> #[trigger] levels@[i].tick@ >= t,
        decreases hi - lo,
    {
        let mid = lo + (hi - lo) / 2;
        if levels[mid].tick.index() < t {
            lo = mid + 1;
        } else {
            hi = mid;
        }
    }
    lo
}

/// Removing the level at `p` removes its tick from the map and keeps the side sorted.
proof fn lemma_remove_at(s: Seq<Level>, p: int)
    requires
        sorted_levels(s),
        0 <= p < s.len(),
    ensures
        sorted_levels(s.remove(p)),
        side_map(s.remove(p)) == side_map(s).remove(s[p].tick@),
{
    let n = s.remove(p);
    let t = s[p].tick@;
    lemma_side_map(s);
    assert forall|i: int, j: int| 0 <= i < j < n.len() implies n[i].tick@ < n[j].tick@ by {
        let si = if i < p { i } else { i + 1 };
        let sj = if j < p { j } else { j + 1 };
        assert(n[i] == s[si] && n[j] == s[sj]);
    }
    assert forall|i: int| 0 <= i < n.len() implies !(#[trigger] n[i].qty@@).is_zero() by {
        let si = if i < p { i } else { i + 1 };
        assert(n[i] == s[si]);
    }
    lemma_side_map(n);
    assert forall|k: u64| #[trigger] side_map(n).contains_key(k) <==> side_map(s).remove(t).contains_key(k) by {
        if has_tick(n, k) {
            let i = choose|i: int| 0 <= i < n.len() && #[trigger] n[i].tick@ == k;
            let si = if i < p { i } else { i + 1 };
            assert(n[i] == s[si]);
        }
        if has_tick(s, k) && k != t {
            let i = choose|i: int| 0 <= i < s.len() && #[trigger] s[i].tick@ == k;
            let ni = if i < p { i } else { i - 1 };
            assert(n[ni] == s[i]);
        }
    }
    assert forall|k: u64| #[trigger] side_map(n).contains_key(k) implies side_map(n)[k] == side_map(s).remove(t)[k] by {
        let i = choose|i: int| 0 <= i < n.len() && #[trigger] n[i].tick@ == k;
        let si = if i < p { i } else { i + 1 };
        assert(n[i] == s[si]);
    }
    assert(side_map(n) =~= side_map(s).remove(t));
}

/// Replacing the level at `p` by a nonzero level at the same tick sets that tick.
proof fn lemma_update_at(s: Seq<Level>, p: int, l: Level)
    requires
        sorted_levels(s),
        0 <= p < s.len(),
        s[p].tick@ == l.tick@,
        !l.qty@@.is_zero(),
    ensures
        sorted_levels(s.update(p, l)),
        side_map(s.update(p, l)) == side_map(s).insert(l.tick@, l.qty),
{
    let n = s.update(p, l);
    let t = l.tick@;
    lemma_side_map(s);
    assert forall|i: int, j: int| 0 <= i < j < n.len() implies n[i].tick@ < n[j].tick@ by {
        assert(n[i].tick@ == s[i].tick@);
        assert(n[j].tick@ == s[j].tick@);
    }
    assert forall|i: int| 0 <= i < n.len() implies !(#[trigger] n[i].qty@@).is_zero() by {
        if i != p {
            assert(n[i] == s[i]);
        }
    }
    lemma_side_map(n);
    assert forall|k: u64| #[trigger] side_map(n).contains_key(k) <==> side_map(s).insert(t, l.qty).contains_key(k) by {
        if has_tick(n, k) {
            let i = choose|i: int| 0 <= i < n.len() && #[trigger] n[i].tick@ == k;
            assert(n[i].tick@ == s[i].tick@);
        }
        if has_tick(s, k) {
            let i = choose|i: int| 0 <= i < s.len() && #[trigger] s[i].tick@ == k;
            assert(n[i].tick@ == s[i].tick@);
        }
        if k == t {
            assert(n[p].tick@ == k);
        }
    }
    assert forall|k: u64| #[trigger] side_map(n).contains_key(k) implies side_map(n)[k] == side_map(s).insert(t, l.qty)[k] by {
        let i = choose|i: int| 0 <= i < n.len() && #[trigger] n[i].tick@ == k;
        if i != p {
            assert(n[i] == s[i]);
        }
    }
    assert(side_map(n) =~= side_map(s).insert(t, l.qty));
}

/// Inserting a nonzero level at its sorted position sets its tick.
proof fn lemma_insert_at(s: Seq<Level>, p: int, l: Level)
    requires
        sorted_levels(s),
        0 <= p <= s.len(),
        forall|i: int| 0 <= i < p ==> #[trigger] s[i].tick@ < l.tick@,
        forall|i: int| p <= i < s.len() ==> #[trigger] s[i].tick@ > l.tick@,
        !l.qty@@.is_zero(),
    ensures
        sorted_levels(s.insert(p, l)),
        side_map(s.insert(p, l)) == side_map(s).insert(l.tick@, l.qty),
{
    let n = s.insert(p, l);
    let t = l.tick@;
    lemma_side_map(s);
    assert forall|i: int, j: int| 0 <= i < j < n.len() implies n[i].tick@ < n[j].tick@ by {
        if i < p && j < p {
            assert(n[i] == s[i] && n[j] == s[j]);
        } else if i < p && j == p {
            assert(n[i] == s[i]);
        } else if i < p {
            assert(n[i] == s[i] && n[j] == s[j - 1]);
        } else if i == p {
            assert(n[j] == s[j - 1]);
        } else {
            assert(n[i] == s[i - 1] && n[j] == s[j - 1]);
        }
    }
    assert forall|i: int| 0 <= i < n.len() implies !(#[trigger] n[i].qty@@).is_zero() by {
        if i < p {
            assert(n[i] == s[i]);
        } else if i > p {
            assert(n[i] == s[i - 1]);
        }
    }
    lemma_side_map(n);
    assert forall|k: u64| #[trigger] side_map(n).contains_key(k) <==> side_map(s).insert(t, l.qty).contains_key(k) by {
        if has_tick(n, k) {
            let i = choose|i: int| 0 <= i < n.len() && #[trigger] n[i].tick@ == k;
            if i < p {
                assert(n[i] == s[i]);
            } else if i > p {
                assert(n[i] == s[i - 1]);
            }
        }
        if has_tick(s, k) {
            let i = choose|i: int| 0 <= i < s.len() && #[trigger] s[i].tick@ == k;
            let ni = if i < p { i } else { i + 1 };
            assert(n[ni] == s[i]);
        }
        if k == t {
            assert(n[p].tick@ == k);
        }
    }
    assert forall|k: u64| #[trigger] side_map(n).contains_key(k) implies side_map(n)[k] == side_map(s).insert(t, l.qty)[k] by {
        let i = choose|i: int| 0 <= i < n.len() && #[trigger] n[i].tick@ == k;
        if i < p {
            assert(n[i] == s[i]);
        } else if i > p {
            assert(n[i] == s[i - 1]);
        }
    }
    assert(side_map(n) =~= side_map(s).insert(t, l.qty));
}

/// Sets one level of a sorted side: a zero quantity removes the tick, any other
/// quantity sets it.
fn set_level(levels: &mut Vec<Level>, tick: Tick, qty: Qty)
    requires
        sorted_levels(old(levels)@),
    ensures
        sorted_levels(final(levels)@),
        side_map(final(levels)@) == set_level_map(side_map(old(levels)@), tick@, qty),
{
    let ghost s = levels@;
    let t = tick.index();
    let p = lower_bound(levels, t);
    proof {
        lemma_side_map(s);
    }
    if p < levels.len() && levels[p].tick.index() == t {
        if qty.is_zero() {
            levels.remove(p);
            proof {
                lemma_remove_at(s, p as int);
            }
        } else {
            levels.set(p, Level { tick, qty });
            proof {
                lemma_update_at(s, p as int, Level { tick, qty });
            }
        }
    } else {
        assert(forall|i: int| p <= i < s.len() ==> #[trigger] s[i].tick@ > t) by {
            assert forall|i: int| p <= i < s.len() implies #[trigger] s[i].tick@ > t by {
                if i > p {
                    assert(s[p as int].tick@ < s[i].tick@);
                }
            }
        }
        assert(!has_tick(s, t));
        if qty.is_zero() {
            assert(side_map(s).remove(t) =~= side_map(s));
        } else {
            levels.insert(p, Level { tick, qty });
            proof {
                lemma_insert_at(s, p as int, Level { tick, qty });
            }
        }
    }
}

/// A copy of a side.
fn copy_levels(levels: &Vec<Level>) -> (r: Vec<Level>)
    ensures
        r@ == levels@,
{
    let mut r: Vec<Level> = Vec::new();
    let mut i: usize = 0;
    while i < levels.len()
        invariant
            i <= levels.len(),
            r@ == levels@.take(i as int),
        decreases levels.len() - i,
    {
        r.push(levels[i]);
        proof {
            assert(levels@.take(i + 1) =~= levels@.take(i as int).push(levels@[i as int]));
        }
        i = i + 1;
    }
    assert(levels@.take(levels.len() as int) =~= levels@);
    r
}

/// `k` is the highest key of `m`.
pub open spec fn is_max_key(m: Map<u64, Qty>, k: u64) -> bool {
    m.contains_key(k) && forall|j: u64| #[trigger] m.contains_key(j) ==> j <= k
}

/// `k` is the lowest key of `m`.
pub open spec fn is_min_key(m: Map<u64, Qty>, k: u64) -> bool {
    m.contains_key(k) && forall|j: u64| #[trigger] m.contains_key(j) ==> k <= j
}

/// What a crossing check leaves: a `CrossedBook` error naming the best bid and best
/// ask when the sides cross, success otherwise.
pub open spec fn crossing_result(bids: Map<u64, Qty>, asks: Map<u64, Qty>, r: Result<(), CarryError>) -> bool {
    if crossed(bids, asks) {
        &&& r is Err
        &&& r->Err_0 is CrossedBook
        &&& is_max_key(bids, r->Err_0->bid@)
        &&& is_min_key(asks, r->Err_0->ask@)
    } else {
        r == Ok::<(), CarryError>(())
    }
}

/// The last level of a sorted side is its best bid; the first is its best ask.
proof fn lemma_best_levels(s: Seq<Level>)
    requires
        sorted_levels(s),
    ensures
        s.len() == 0 ==> side_map(s).dom().is_empty(),
        s.len() > 0 ==> is_best_bid(side_map(s), Some(s.last())),
        s.len() > 0 ==> is_best_ask(side_map(s), Some(s[0])),
{
    lemma_side_map(s);
    if s.len() == 0 {
        assert(side_map(s).dom() =~= Set::empty());
    } else {
        assert forall|k: u64| #[trigger] side_map(s).contains_key(k) implies k <= s.last().tick@ && s[0].tick@ <= k by {
            let i = choose|i: int| 0 <= i < s.len() && #[trigger] s[i].tick@ == k;
            if i < s.len() - 1 {
                assert(s[i].tick@ < s[s.len() - 1].tick@);
            }
            if i > 0 {
                assert(s[0].tick@ < s[i].tick@);
            }
        }
        assert(side_map(s).contains_key(s.last().tick@));
        assert(side_map(s).contains_key(s[0].tick@));
    }
}

/// A limit order book for one market: bids and asks by tick, and the sequence number
/// of the last update applied (`None` while waiting for a snapshot).
#[derive(Debug)]
pub struct OrderBook {
    tick_size: Decimal,
    bids: Vec<Level>,
    asks: Vec<Level>,
    seq: Option<u64>,
}

impl OrderBook {
    #[verifier::type_invariant]
    spec fn inv(self) -> bool {
        &&& value_lt(zero_value(), self.tick_size@)
        &&& sorted_levels(self.bids@)
        &&& sorted_levels(self.asks@)
        &&& self.seq is Some ==> !crossed(side_map(self.bids@), side_map(self.asks@))
    }

    /// The bids, by tick index.
    pub closed spec fn bids_map(&self) -> Map<u64, Qty> {
        side_map(self.bids@)
    }

    /// The asks, by tick index.
    pub closed spec fn asks_map(&self) -> Map<u64, Qty> {
        side_map(self.asks@)
    }

    /// The bid levels from the highest tick down: the order a sell walks them.
    pub closed spec fn bid_levels(&self) -> Seq<Level> {
        self.bids@.reverse()
    }

    /// The ask levels from the lowest tick up: the order a buy walks them.
    pub closed spec fn ask_levels(&self) -> Seq<Level> {
        self.asks@
    }

    /// The sequence number of the last update applied, if synced.
    pub closed spec fn seq_spec(&self) -> Option<u64> {
        self.seq
    }

    pub closed spec fn tick_size_spec(&self) -> Decimal {
        self.tick_size
    }

    /// Creates an empty, unsynced book; the tick size must be strictly positive.
    pub fn new(tick_size: Decimal) -> (r: Result<Self, CarryError>)
        ensures
            value_le(tick_size@, zero_value()) ==> r == Err::<Self, CarryError>(
                CarryError::InvalidTickSize(tick_size),
            ),
            !value_le(tick_size@, zero_value()) ==> (r is Ok && r->Ok_0.bids_map() == Map::<u64, Qty>::empty()
                && r->Ok_0.asks_map() == Map::<u64, Qty>::empty() && r->Ok_0.seq_spec() is None
                && r->Ok_0.tick_size_spec() == tick_size),
    {
        if tick_size.le(&Decimal::zero()) {
            return Err(CarryError::InvalidTickSize(tick_size));
        }
        let book = OrderBook { tick_size, bids: Vec::new(), asks: Vec::new(), seq: None };
        proof {
            lemma_best_levels(book.bids@);
            assert(side_map(book.bids@) =~= Map::<u64, Qty>::empty());
        }
        Ok(book)
    }

    pub fn tick_size(&self) -> (t: Decimal)
        ensures
            t == self.tick_size_spec(),
            value_lt(zero_value(), t@),
    {
        proof {
            use_type_invariant(self);
        }
        self.tick_size
    }

    pub fn seq(&self) -> (s: Option<u64>)
        ensures
            s == self.seq_spec(),
    {
        self.seq
    }

    /// The book holds a snapshot and every update since. A synced book is never
    /// crossed: every bid is below every ask.
    pub fn is_synced(&self) -> (b: bool)
        ensures
            b == self.seq_spec() is Some,
            b ==> !crossed(self.bids_map(), self.asks_map()),
    {
        proof {
            use_type_invariant(self);
        }
        self.seq.is_some()
    }

    /// Forgets the sequence number: the book waits for a snapshot again.
    pub fn mark_stale(&mut self)
        ensures
            marked_stale(*old(self), *final(self)),
    {
        proof {
            use_type_invariant(&*self);
        }
        self.seq = None;
    }

    /// The highest bid; its quantity is never zero, as a zero quantity removes a level.
    pub fn best_bid(&self) -> (r: Option<Level>)
        ensures
            is_best_bid(self.bids_map(), r),
            r matches Some(l) ==> !l.qty@@.is_zero(),
    {
        proof {
            use_type_invariant(self);
            lemma_best_levels(self.bids@);
        }
        let n = self.bids.len();
        if n == 0 {
            None
        } else {
            Some(self.bids[n - 1])
        }
    }

    /// The lowest ask; its quantity is never zero, as a zero quantity removes a level.
    pub fn best_ask(&self) -> (r: Option<Level>)
        ensures
            is_best_ask(self.asks_map(), r),
            r matches Some(l) ==> !l.qty@@.is_zero(),
    {
        proof {
            use_type_invariant(self);
            lemma_best_levels(self.asks@);
        }
        if self.asks.len() == 0 {
            None
        } else {
            Some(self.asks[0])
        }
    }

    /// Checks the two sides for a crossing; a crossed book is left unsynced.
    fn check_not_crossed(&mut self, seq: u64) -> (r: Result<(), CarryError>)
        requires
            old(self).seq is None,
        ensures
            final(self).bids@ == old(self).bids@,
            final(self).asks@ == old(self).asks@,
            final(self).tick_size == old(self).tick_size,
            crossing_result(side_map(old(self).bids@), side_map(old(self).asks@), r),
            r is Ok ==> final(self).seq == Some(seq),
            r is Err ==> final(self).seq is None,
    {
        proof {
            use_type_invariant(&*self);
            lemma_best_levels(self.bids@);
            lemma_best_levels(self.asks@);
        }
        let ghost bm = side_map(self.bids@);
        let ghost am = side_map(self.asks@);
        match (self.best_bid(), self.best_ask()) {
            (Some(bid), Some(ask)) => {
                if bid.tick.index() >= ask.tick.index() {
                    return Err(CarryError::CrossedBook { bid: bid.tick, ask: ask.tick });
                }
                assert(!crossed(bm, am)) by {
                    if crossed(bm, am) {
                        let (b, a) = choose|b: u64, a: u64| #[trigger] bm.contains_key(b) && #[trigger] am.contains_key(a) && b >= a;
                        assert(b <= bid.tick@);
                        assert(ask.tick@ <= a);
                    }
                }
            },
            (None, _) => {
                assert(!crossed(bm, am));
            },
            (_, None) => {
                assert(!crossed(bm, am));
            },
        }
        self.seq = Some(seq);
        Ok(())
    }

    /// Replaces both sides with a snapshot taken at `seq` (zero quantities are skipped);
    /// a crossed snapshot leaves the book unsynced.
    pub fn apply_snapshot(&mut self, seq: u64, bids: &[Level], asks: &[Level]) -> (r: Result<(), CarryError>)
        ensures
            snapshot_applied(*old(self), *final(self), seq, bids@, asks@, r),
    {
        proof {
            use_type_invariant(&*self);
        }
        self.seq = None;
        let mut new_bids: Vec<Level> = Vec::new();
        let mut new_asks: Vec<Level> = Vec::new();
        proof {
            assert(side_map(new_bids@) =~= Map::<u64, Qty>::empty());
            assert(side_map(new_asks@) =~= Map::<u64, Qty>::empty());
        }
        let mut i: usize = 0;
        while i < bids.len()
            invariant
                i <= bids.len(),
                sorted_levels(new_bids@),
                side_map(new_bids@) == set_levels_map(Map::empty(), bids@.take(i as int)),
            decreases bids.len() - i,
        {
            let level = bids[i];
            set_level(&mut new_bids, level.tick, level.qty);
            proof {
                assert(bids@.take(i + 1).drop_last() =~= bids@.take(i as int));
            }
            i = i + 1;
        }
        assert(bids@.take(bids.len() as int) =~= bids@);
        let mut i: usize = 0;
        while i < asks.len()
            invariant
                i <= asks.len(),
                sorted_levels(new_asks@),
                side_map(new_asks@) == set_levels_map(Map::empty(), asks@.take(i as int)),
            decreases asks.len() - i,
        {
            let level = asks[i];
            set_level(&mut new_asks, level.tick, level.qty);
            proof {
                assert(asks@.take(i + 1).drop_last() =~= asks@.take(i as int));
            }
            i = i + 1;
        }
        assert(asks@.take(asks.len() as int) =~= asks@);
        self.bids = new_bids;
        self.asks = new_asks;
        self.check_not_crossed(seq)
    }

    /// Applies level updates in order and moves the sequence number to `seq`; a crossed
    /// result leaves the book unsynced.
    fn apply_levels(&mut self, seq: u64, updates: &[LevelUpdate]) -> (r: Result<(), CarryError>)
        ensures
            updates_applied(*old(self), *final(self), seq, updates@, r),
    {
        proof {
            use_type_invariant(&*self);
        }
        self.seq = None;
        let mut bids: Vec<Level> = Vec::new();
        let mut asks: Vec<Level> = Vec::new();
        std::mem::swap(&mut bids, &mut self.bids);
        std::mem::swap(&mut asks, &mut self.asks);
        let ghost b0 = side_map(bids@);
        let ghost a0 = side_map(asks@);
        proof {
            assert(updates@.take(0) =~= Seq::<LevelUpdate>::empty());
        }
        let mut i: usize = 0;
        while i < updates.len()
            invariant
                i <= updates.len(),
                sorted_levels(bids@),
                sorted_levels(asks@),
                (side_map(bids@), side_map(asks@)) == apply_updates_map(b0, a0, updates@.take(i as int)),
            decreases updates.len() - i,
        {
            let u = updates[i];
            match u.side {
                Side::Bid => set_level(&mut bids, u.tick, u.qty),
                Side::Ask => set_level(&mut asks, u.tick, u.qty),
            }
            proof {
                assert(updates@.take(i + 1).drop_last() =~= updates@.take(i as int));
            }
            i = i + 1;
        }
        assert(updates@.take(updates.len() as int) =~= updates@);
        self.bids = bids;
        self.asks = asks;
        self.check_not_crossed(seq)
    }

    /// Applies a delta that must carry the sequence number right after the book's.
    /// Unsynced: `NotSynced`, nothing changes. A wrong number: `SequenceGap`, and the
    /// book is left unsynced.
    pub fn apply_delta(&mut self, seq: u64, updates: &[LevelUpdate]) -> (r: Result<(), CarryError>)
        ensures
            delta_applied(*old(self), *final(self), seq, updates@, r),
    {
        proof {
            use_type_invariant(&*self);
        }
        let last = match self.seq {
            Some(s) => s,
            None => return Err(CarryError::NotSynced),
        };
        let expected = match last.checked_add(1) {
            Some(e) => e,
            None => return Err(CarryError::Overflow),
        };
        if seq != expected {
            self.seq = None;
            return Err(CarryError::SequenceGap { expected, got: seq });
        }
        self.apply_levels(seq, updates)
    }

    /// Applies a delta covering `prev_seq..=seq`: `prev_seq` must be the book's sequence
    /// number and `seq` must not be below it. Unsynced: `NotSynced`, nothing changes.
    /// Otherwise a mismatch is a `SequenceGap` and leaves the book unsynced.
    pub fn apply_delta_from(&mut self, prev_seq: u64, seq: u64, updates: &[LevelUpdate]) -> (r: Result<(), CarryError>)
        ensures
            delta_from_applied(*old(self), *final(self), prev_seq, seq, updates@, r),
    {
        proof {
            use_type_invariant(&*self);
        }
        let last = match self.seq {
            Some(s) => s,
            None => return Err(CarryError::NotSynced),
        };
        if prev_seq != last {
            self.seq = None;
            return Err(CarryError::SequenceGap { expected: last, got: prev_seq });
        }
        if seq < prev_seq {
            self.seq = None;
            return Err(CarryError::SequenceGap { expected: prev_seq, got: seq });
        }
        self.apply_levels(seq, updates)
    }
}

/// The result of walking a book side for a notional.
#[derive(Debug, Clone, Copy, PartialEq, Eq)]
pub struct Fill {
    pub base_qty: Decimal,
    pub notional: Decimal,
    pub avg_price: Decimal,
    pub best_price: Decimal,
    pub worst_price: Decimal,
    pub levels_used: usize,
    pub slippage_bps: Decimal,
}

/// Progress of a walk: the notional still to fill, the base quantity bought, the best and
/// the last price used, the number of levels used, and whether the notional is filled.
pub struct WalkState {
    pub remaining: DecimalValue,
    pub base_qty: DecimalValue,
    pub best: Option<DecimalValue>,
    pub worst: DecimalValue,
    pub levels_used: nat,
    pub filled: bool,
}

pub open spec fn walk_start(notional: DecimalValue) -> WalkState {
    WalkState {
        remaining: notional,
        base_qty: zero_value(),
        best: None,
        worst: zero_value(),
        levels_used: 0,
        filled: false,
    }
}

/// The price of a level's tick, as `Tick::to_price` gives it on a positive tick size.
pub open spec fn level_price(tick: u64, tick_size: Decimal) -> Result<DecimalValue, CarryError> {
    match price_of_tick(tick, tick_size) {
        None => Err(CarryError::Overflow),
        Some(v) => if value_le(v, zero_value()) {
            Err(CarryError::InvalidPrice(decimal_of(v)))
        } else {
            Ok(v)
        },
    }
}

/// Takes from one level as much of the remaining notional as it holds, at its price.
pub open spec fn walk_step(st: WalkState, level: Level, tick_size: Decimal) -> Result<WalkState, CarryError> {
    match level_price(level.tick@, tick_size) {
        Err(e) => Err(e),
        Ok(price) => match decimal_checked_mul(price, level.qty@@) {
            None => Err(CarryError::Overflow),
            Some(level_notional) => {
                let take = if value_lt(level_notional, st.remaining) {
                    level_notional
                } else {
                    st.remaining
                };
                match decimal_checked_div(take, price) {
                    None => Err(CarryError::Overflow),
                    Some(bought) => match decimal_checked_add(st.base_qty, bought) {
                        None => Err(CarryError::Overflow),
                        Some(base_qty) => {
                            let remaining = decimal_checked_sub(st.remaining, take)->0;
                            Ok(
                                WalkState {
                                    remaining,
                                    base_qty,
                                    best: if st.best is None {
                                        Some(price)
                                    } else {
                                        st.best
                                    },
                                    worst: price,
                                    levels_used: st.levels_used + 1,
                                    filled: remaining.is_zero(),
                                },
                            )
                        },
                    },
                }
            },
        },
    }
}

/// The walk over the first `n` levels; it stops at the first error or once filled.
pub open spec fn walk_prefix(levels: Seq<Level>, tick_size: Decimal, notional: DecimalValue, n: nat) -> Result<WalkState, CarryError>
    decreases n,
{
    if n == 0 {
        Ok(walk_start(notional))
    } else {
        match walk_prefix(levels, tick_size, notional, (n - 1) as nat) {
            Err(e) => Err(e),
            Ok(st) => if st.filled {
                Ok(st)
            } else {
                walk_step(st, levels[n - 1], tick_size)
            },
        }
    }
}

/// The fill once the levels are walked: insufficient liquidity when nothing or not all was
/// filled, else the average price and the slippage against the best price in basis points.
pub open spec fn walk_finish(st: WalkState, side: Side, notional: Decimal) -> Result<Fill, CarryError> {
    match st.best {
        None => Err(
            CarryError::InsufficientLiquidity {
                requested: notional,
                available: decimal_of(zero_value()),
            },
        ),
        Some(best) => if !st.remaining.is_zero() {
            Err(
                CarryError::InsufficientLiquidity {
                    requested: notional,
                    available: decimal_of(decimal_checked_sub(notional@, st.remaining)->0),
                },
            )
        } else {
            match decimal_checked_div(notional@, st.base_qty) {
                None => Err(CarryError::Overflow),
                Some(avg) => {
                    let diff = match side {
                        Side::Ask => decimal_checked_sub(avg, best)->0,
                        Side::Bid => decimal_checked_sub(best, avg)->0,
                    };
                    let worse_by = if value_lt(diff, zero_value()) {
                        zero_value()
                    } else {
                        diff
                    };
                    match decimal_checked_mul(worse_by, from_num(10000, 0)) {
                        None => Err(CarryError::Overflow),
                        Some(scaled) => match decimal_checked_div(scaled, best) {
                            None => Err(CarryError::Overflow),
                            Some(bps) => Ok(
                                Fill {
                                    base_qty: decimal_of(st.base_qty),
                                    notional,
                                    avg_price: decimal_of(avg),
                                    best_price: decimal_of(best),
                                    worst_price: decimal_of(st.worst),
                                    levels_used: st.levels_used as usize,
                                    slippage_bps: decimal_of(bps),
                                },
                            ),
                        },
                    }
                },
            }
        },
    }
}

/// Walking `levels` (best first) to spend `notional`.
pub open spec fn walk_spec(levels: Seq<Level>, side: Side, tick_size: Decimal, notional: Decimal) -> Result<Fill, CarryError> {
    match walk_prefix(levels, tick_size, notional@, levels.len()) {
        Err(e) => Err(e),
        Ok(st) => walk_finish(st, side, notional),
    }
}

/// The prices of a fill that spent `notional` walking `levels` on `side`: the notional is
/// the one asked for, the average price is that notional divided by the base quantity
/// bought, the best price is the first level's price and the worst price the price of the
/// last level used; the slippage is how much worse than the best price the average is
/// (above it for a buy, below it for a sell, and zero when it is not worse), times 10 000,
/// divided by the best price.
pub open spec fn fill_prices(f: Fill, side: Side, levels: Seq<Level>, tick_size: Decimal, notional: Decimal) -> bool {
    &&& f.notional == notional
    &&& match side {
        Side::Ask => decimal_checked_sub(f.avg_price@, f.best_price@),
        Side::Bid => decimal_checked_sub(f.best_price@, f.avg_price@),
    } matches Some(diff) && decimal_checked_mul(
        if value_lt(diff, zero_value()) {
            zero_value()
        } else {
            diff
        },
        from_num(10000, 0),
    ) matches Some(scaled) && decimal_checked_div(scaled, f.best_price@) == Some(f.slippage_bps@)
    &&& decimal_checked_div(notional@, f.base_qty@) == Some(f.avg_price@)
    &&& 1 <= f.levels_used <= levels.len()
    &&& price_of_tick(levels[0].tick@, tick_size) == Some(f.best_price@)
    &&& price_of_tick(levels[f.levels_used - 1].tick@, tick_size) == Some(f.worst_price@)
}

/// What a walk over the first `n` levels has used: consecutive levels from the first, one
/// per step until filled; the best price is the first level's, the last price the last
/// used level's.
proof fn lemma_walk_prefix_levels(levels: Seq<Level>, tick_size: Decimal, notional: DecimalValue, n: nat)
    requires
        n <= levels.len(),
    ensures
        walk_prefix(levels, tick_size, notional, n) matches Ok(st) ==> {
            &&& st.levels_used <= n
            &&& !st.filled ==> st.levels_used == n
            &&& (st.best is Some) == (st.levels_used > 0)
            &&& st.levels_used > 0 ==> {
                &&& price_of_tick(levels[0].tick@, tick_size) == Some(st.best->0)
                &&& price_of_tick(levels[st.levels_used - 1].tick@, tick_size) == Some(st.worst)
            }
        },
    decreases n,
{
    if n > 0 {
        lemma_walk_prefix_levels(levels, tick_size, notional, (n - 1) as nat);
    }
}

/// A successful walk fills exactly the notional asked for, at an average price that is that
/// notional divided by the base quantity bought (the decimal quotient), using consecutive
/// levels from the best: its best price is the first level's price and its worst price the
/// price of the last level used. (Each field is the decimal of the value named here.)
pub proof fn lemma_walk_fill(levels: Seq<Level>, side: Side, tick_size: Decimal, notional: Decimal)
    requires
        levels.len() <= usize::MAX,
    ensures
        walk_spec(levels, side, tick_size, notional) matches Ok(f) ==> {
            &&& f.notional == notional
            &&& exists|b: DecimalValue, q: DecimalValue|
                #![trigger decimal_checked_div(notional@, b), decimal_of(q)]
                decimal_of(b) == f.base_qty && decimal_checked_div(notional@, b) == Some(q)
                    && decimal_of(q) == f.avg_price
            &&& 1 <= f.levels_used <= levels.len()
            &&& price_of_tick(levels[0].tick@, tick_size) matches Some(p) && decimal_of(p) == f.best_price
            &&& price_of_tick(levels[f.levels_used - 1].tick@, tick_size) matches Some(w) && decimal_of(w)
                == f.worst_price
        },
{
    lemma_walk_prefix_levels(levels, tick_size, notional@, levels.len());
    match walk_prefix(levels, tick_size, notional@, levels.len()) {
        Err(_) => {},
        Ok(st) => {
            if walk_finish(st, side, notional) is Ok {
                let avg = decimal_checked_div(notional@, st.base_qty)->0;
                assert(decimal_checked_div(notional@, st.base_qty) == Some(avg));
            }
        },
    }
}

/// Once a walk has failed or filled, further levels change nothing.
proof fn lemma_walk_prefix_stops(levels: Seq<Level>, tick_size: Decimal, notional: DecimalValue, i: nat, j: nat)
    requires
        i <= j,
        match walk_prefix(levels, tick_size, notional, i) {
            Err(_) => true,
            Ok(st) => st.filled,
        },
    ensures
        walk_prefix(levels, tick_size, notional, j) == walk_prefix(levels, tick_size, notional, i),
    decreases j - i,
{
    if i < j {
        lemma_walk_prefix_stops(levels, tick_size, notional, i, (j - 1) as nat);
    }
}

/// A non-negative value with a nonzero mantissa carries no negative sign.
proof fn lemma_nonneg_sign(v: DecimalValue)
    requires
        value_le(zero_value(), v),
        !v.is_zero(),
    ensures
        !v.negative,
{
    crate::decimal::lemma_pow10_positive(v.scale);
    if v.negative {
        let m = v.mantissa as int;
        let d = v.den();
        assert(-m * 1 < 0 * d) by (nonlinear_arith)
            requires
                m > 0,
                d > 0,
        {
        }
    }
}

/// A value without a negative sign is not below zero.
proof fn lemma_unsigned_nonneg(v: DecimalValue)
    requires
        !v.negative,
    ensures
        value_le(zero_value(), v),
{
    crate::decimal::lemma_pow10_positive(v.scale);
    let m = v.mantissa as int;
    let d = v.den();
    assert(m * 1 >= 0 * d) by (nonlinear_arith)
        requires
            m >= 0,
            d > 0,
    {
    }
}

/// The difference of two non-negative decimals.
fn sub_nonneg(a: Decimal, b: Decimal) -> (r: Decimal)
    requires
        value_le(zero_value(), a@),
        value_le(zero_value(), b@),
    ensures
        decimal_checked_sub(a@, b@) == Some(r@),
        value_le(b@, a@) ==> value_le(zero_value(), r@),
{
    match a.checked_sub(b) {
        Some(v) => v,
        None => {
            assert(false);
            a
        },
    }
}

/// Walks `levels` from the front (or from the back when `descending`) spending `notional`.
fn walk_levels(levels: &Vec<Level>, descending: bool, side: Side, tick_size: Decimal, notional: Decimal) -> (r: Result<Fill, CarryError>)
    requires
        value_lt(zero_value(), tick_size@),
        value_lt(zero_value(), notional@),
        sorted_levels(levels@),
    ensures
        r == walk_spec(
            if descending {
                levels@.reverse()
            } else {
                levels@
            },
            side,
            tick_size,
            notional,
        ),
        r is Ok ==> 1 <= r->Ok_0.levels_used <= levels.len(),
        r is Ok ==> value_le(zero_value(), r->Ok_0.slippage_bps@),
        r is Ok ==> fill_prices(
            r->Ok_0,
            side,
            if descending {
                levels@.reverse()
            } else {
                levels@
            },
            tick_size,
            notional,
        ),
{
    let ghost seq = if descending {
        levels@.reverse()
    } else {
        levels@
    };
    let n = levels.len();
    let mut remaining = notional;
    let mut base_qty = Decimal::zero();
    let mut best_price: Option<Decimal> = None;
    let mut worst_price = Decimal::zero();
    let mut levels_used: usize = 0;
    let mut k: usize = 0;
    proof {
        lemma_unsigned_nonneg(zero_value());
    }
    while k < n
        invariant_except_break
            k <= n,
            n == levels.len(),
            seq.len() == n,
            seq == (if descending { levels@.reverse() } else { levels@ }),
            value_lt(zero_value(), tick_size@),
            value_lt(zero_value(), notional@),
            value_le(zero_value(), remaining@),
            value_le(zero_value(), base_qty@),
            best_price matches Some(p) ==> value_lt(zero_value(), p@),
            (best_price is Some) == (levels_used > 0),
            levels_used == k,
            walk_prefix(seq, tick_size, notional@, k as nat) == Ok::<WalkState, CarryError>(
                WalkState {
                    remaining: remaining@,
                    base_qty: base_qty@,
                    best: match best_price {
                        Some(p) => Some(p@),
                        None => None,
                    },
                    worst: worst_price@,
                    levels_used: levels_used as nat,
                    filled: false,
                },
            ),
        ensures
            value_le(zero_value(), base_qty@),
            value_le(zero_value(), remaining@),
            walk_prefix(seq, tick_size, notional@, n as nat) == Ok::<WalkState, CarryError>(
                WalkState {
                    remaining: remaining@,
                    base_qty: base_qty@,
                    best: match best_price {
                        Some(p) => Some(p@),
                        None => None,
                    },
                    worst: worst_price@,
                    levels_used: levels_used as nat,
                    filled: remaining@.is_zero(),
                },
            ),
            levels_used <= n,
            (best_price is Some) == (levels_used > 0),
            remaining@.is_zero() ==> best_price is Some,
            best_price matches Some(p) ==> value_lt(zero_value(), p@),
        decreases n - k,
    {
        let idx = if descending {
            n - 1 - k
        } else {
            k
        };
        let level = levels[idx];
        assert(level == seq[k as int]);
        let ghost st = WalkState {
            remaining: remaining@,
            base_qty: base_qty@,
            best: match best_price {
                Some(p) => Some(p@),
                None => None,
            },
            worst: worst_price@,
            levels_used: levels_used as nat,
            filled: false,
        };
        let price = match level.tick.to_price(tick_size) {
            Ok(p) => p.value(),
            Err(e) => {
                proof {
                    if e is InvalidPrice {
                        lemma_decimal_of(e->InvalidPrice_0);
                    }
                    lemma_walk_prefix_stops(seq, tick_size, notional@, (k + 1) as nat, n as nat);
                }
                return Err(e);
            },
        };
        let level_notional = match price.checked_mul(level.qty.value()) {
            Some(v) => v,
            None => {
                proof {
                    lemma_walk_prefix_stops(seq, tick_size, notional@, (k + 1) as nat, n as nat);
                }
                return Err(CarryError::Overflow);
            },
        };
        proof {
            lemma_unsigned_nonneg(level_notional@);
        }
        let take = remaining.min(level_notional);
        let bought = match take.checked_div(price) {
            Some(v) => v,
            None => {
                proof {
                    lemma_walk_prefix_stops(seq, tick_size, notional@, (k + 1) as nat, n as nat);
                }
                return Err(CarryError::Overflow);
            },
        };
        proof {
            if !take@.is_zero() {
                lemma_nonneg_sign(take@);
            }
            lemma_nonneg_sign(price@);
            lemma_unsigned_nonneg(bought@);
        }
        base_qty = match base_qty.checked_add(bought) {
            Some(v) => v,
            None => {
                proof {
                    lemma_walk_prefix_stops(seq, tick_size, notional@, (k + 1) as nat, n as nat);
                }
                return Err(CarryError::Overflow);
            },
        };
        remaining = sub_nonneg(remaining, take);
        if best_price.is_none() {
            best_price = Some(price);
        }
        worst_price = price;
        levels_used = levels_used + 1;
        k = k + 1;
        if remaining.is_zero() {
            proof {
                lemma_walk_prefix_stops(seq, tick_size, notional@, k as nat, n as nat);
            }
            break;
        }
    }
    let ghost st = WalkState {
        remaining: remaining@,
        base_qty: base_qty@,
        best: match best_price {
            Some(p) => Some(p@),
            None => None,
        },
        worst: worst_price@,
        levels_used: levels_used as nat,
        filled: remaining@.is_zero(),
    };
    let best = match best_price {
        Some(p) => p,
        None => {
            let zero = Decimal::zero();
            proof {
                lemma_decimal_of(zero);
            }
            return Err(CarryError::InsufficientLiquidity { requested: notional, available: zero });
        },
    };
    if !remaining.is_zero() {
        let available = sub_nonneg(notional, remaining);
        proof {
            lemma_decimal_of(available);
        }
        return Err(CarryError::InsufficientLiquidity { requested: notional, available });
    }
    let avg_price = match notional.checked_div(base_qty) {
        Some(v) => v,
        None => return Err(CarryError::Overflow),
    };
    proof {
        lemma_walk_prefix_levels(seq, tick_size, notional@, n as nat);
        lemma_nonneg_sign(notional@);
        if !base_qty@.is_zero() {
            lemma_nonneg_sign(base_qty@);
        }
        lemma_unsigned_nonneg(avg_price@);
        lemma_nonneg_sign(best@);
        lemma_unsigned_nonneg(best@);
    }
    let diff = match side {
        Side::Ask => sub_nonneg(avg_price, best),
        Side::Bid => sub_nonneg(best, avg_price),
    };
    let worse_by = diff.max(Decimal::zero());
    proof {
        lemma_unsigned_nonneg(zero_value());
        if !worse_by@.is_zero() {
            lemma_nonneg_sign(worse_by@);
        }
    }
    let scaled = match worse_by.checked_mul(Decimal::from_u64(10000)) {
        Some(v) => v,
        None => return Err(CarryError::Overflow),
    };
    proof {
        if !scaled@.is_zero() {
            assert(!worse_by@.is_zero());
            lemma_nonneg_sign(worse_by@);
        }
    }
    let slippage_bps = match scaled.checked_div(best) {
        Some(v) => v,
        None => return Err(CarryError::Overflow),
    };
    proof {
        assert(worse_by@ == (if value_lt(diff@, zero_value()) { zero_value() } else { diff@ }));
        assert(decimal_checked_mul(worse_by@, from_num(10000, 0)) == Some(scaled@));
        assert(decimal_checked_div(scaled@, best@) == Some(slippage_bps@));
        lemma_unsigned_nonneg(slippage_bps@);
        lemma_decimal_of(base_qty);
        lemma_decimal_of(avg_price);
        lemma_decimal_of(best);
        lemma_decimal_of(worst_price);
        lemma_decimal_of(slippage_bps);
    }
    Ok(
        Fill {
            base_qty,
            notional,
            avg_price,
            best_price: best,
            worst_price,
            levels_used,
            slippage_bps,
        },
    )
}

impl OrderBook {
    /// The levels a walk on `side` consumes, best first: asks upward, bids downward.
    pub open spec fn walk_levels_of(&self, side: Side) -> Seq<Level> {
        match side {
            Side::Ask => self.ask_levels(),
            Side::Bid => self.bid_levels(),
        }
    }

    /// Fills `notional` against one side: `Side::Ask` buys from the asks upward,
    /// `Side::Bid` sells into the bids downward. An unsynced book or a notional that is
    /// not strictly positive is refused. A fill uses at least one and at most all levels
    /// of that side, and its slippage is never negative.
    pub fn walk(&self, side: Side, notional: Decimal) -> (r: Result<Fill, CarryError>)
        ensures
            self.seq_spec() is None ==> r == Err::<Fill, CarryError>(CarryError::NotSynced),
            (self.seq_spec() is Some && value_le(notional@, zero_value())) ==> r == Err::<Fill, CarryError>(
                CarryError::InvalidNotional(notional),
            ),
            (self.seq_spec() is Some && !value_le(notional@, zero_value())) ==> r == walk_spec(
                self.walk_levels_of(side),
                side,
                self.tick_size_spec(),
                notional,
            ),
            r is Ok ==> 1 <= r->Ok_0.levels_used <= self.walk_levels_of(side).len(),
            r is Ok ==> value_le(zero_value(), r->Ok_0.slippage_bps@),
            r is Ok ==> fill_prices(r->Ok_0, side, self.walk_levels_of(side), self.tick_size_spec(), notional),
    {
        proof {
            use_type_invariant(self);
        }
        if !self.is_synced() {
            return Err(CarryError::NotSynced);
        }
        if notional.le(&Decimal::zero()) {
            return Err(CarryError::InvalidNotional(notional));
        }
        match side {
            Side::Ask => walk_levels(&self.asks, false, side, self.tick_size, notional),
            Side::Bid => walk_levels(&self.bids, true, side, self.tick_size, notional),
        }
    }
}

/// `new` is `old` made stale: same sides and tick size, no sequence number.
pub open spec fn marked_stale(old: OrderBook, new: OrderBook) -> bool {
    &&& new.seq_spec() is None
    &&& new.bids_map() == old.bids_map()
    &&& new.asks_map() == old.asks_map()
    &&& new.tick_size_spec() == old.tick_size_spec()
}

/// `new` holds `updates` applied to `old` at sequence number `seq`: unsynced with a
/// `CrossedBook` error when the result crosses, synced at `seq` otherwise.
pub open spec fn updates_applied(old: OrderBook, new: OrderBook, seq: u64, updates: Seq<LevelUpdate>, r: Result<(), CarryError>) -> bool {
    &&& (new.bids_map(), new.asks_map()) == apply_updates_map(old.bids_map(), old.asks_map(), updates)
    &&& new.tick_size_spec() == old.tick_size_spec()
    &&& crossing_result(new.bids_map(), new.asks_map(), r)
    &&& r is Ok ==> new.seq_spec() == Some(seq)
    &&& r is Err ==> new.seq_spec() is None
}

/// `new` is `old` with both sides replaced by the snapshot `bids`/`asks` taken at `seq`.
pub open spec fn snapshot_applied(old: OrderBook, new: OrderBook, seq: u64, bids: Seq<Level>, asks: Seq<Level>, r: Result<(), CarryError>) -> bool {
    &&& new.bids_map() == set_levels_map(Map::empty(), bids)
    &&& new.asks_map() == set_levels_map(Map::empty(), asks)
    &&& new.tick_size_spec() == old.tick_size_spec()
    &&& crossing_result(new.bids_map(), new.asks_map(), r)
    &&& r is Ok ==> new.seq_spec() == Some(seq)
    &&& r is Err ==> new.seq_spec() is None
}

/// A refused delta: the error `e`, and the book left unsynced with its sides unchanged.
pub open spec fn delta_refused(old: OrderBook, new: OrderBook, e: CarryError, r: Result<(), CarryError>) -> bool {
    &&& r == Err::<(), CarryError>(e)
    &&& new.seq_spec() is None
    &&& new.bids_map() == old.bids_map()
    &&& new.asks_map() == old.asks_map()
    &&& new.tick_size_spec() == old.tick_size_spec()
}

/// What `apply_delta(seq, updates)` does: unsynced, `NotSynced` and nothing changes; at
/// `u64::MAX`, `Overflow` and nothing changes; a `seq` other than the next number, a
/// `SequenceGap`; else the updates are applied.
pub open spec fn delta_applied(old: OrderBook, new: OrderBook, seq: u64, updates: Seq<LevelUpdate>, r: Result<(), CarryError>) -> bool {
    match old.seq_spec() {
        None => r == Err::<(), CarryError>(CarryError::NotSynced) && new == old,
        Some(last) => if last == u64::MAX {
            r == Err::<(), CarryError>(CarryError::Overflow) && new == old
        } else if seq != last + 1 {
            delta_refused(old, new, CarryError::SequenceGap { expected: (last + 1) as u64, got: seq }, r)
        } else {
            updates_applied(old, new, seq, updates, r)
        },
    }
}

/// What `apply_delta_from(prev_seq, seq, updates)` does: unsynced, `NotSynced` and
/// nothing changes; `prev_seq` other than the book's number, or `seq` below `prev_seq`, a
/// `SequenceGap`; else the updates are applied.
pub open spec fn delta_from_applied(old: OrderBook, new: OrderBook, prev_seq: u64, seq: u64, updates: Seq<LevelUpdate>, r: Result<(), CarryError>) -> bool {
    match old.seq_spec() {
        None => r == Err::<(), CarryError>(CarryError::NotSynced) && new == old,
        Some(last) => if prev_seq != last {
            delta_refused(old, new, CarryError::SequenceGap { expected: last, got: prev_seq }, r)
        } else if seq < prev_seq {
            delta_refused(old, new, CarryError::SequenceGap { expected: prev_seq, got: seq }, r)
        } else {
            updates_applied(old, new, seq, updates, r)
        },
    }
}

/// Sequence continuity of `apply_delta`: a delta is applied only when it carries the
/// number right after the book's; on a synced book any other number is refused as a
/// `SequenceGap` from the expected number, and the book is left unsynced with its sides
/// unchanged; an unsynced book refuses every delta and stays as it was.
pub proof fn lemma_delta_needs_next_seq(
    old: OrderBook,
    new: OrderBook,
    seq: u64,
    updates: Seq<LevelUpdate>,
    r: Result<(), CarryError>,
)
    requires
        delta_applied(old, new, seq, updates, r),
    ensures
        r is Ok ==> (old.seq_spec() matches Some(s) && seq == s + 1 && new.seq_spec() == Some(seq)
            && (new.bids_map(), new.asks_map()) == apply_updates_map(old.bids_map(), old.asks_map(), updates)
            && !crossed(new.bids_map(), new.asks_map())),
        old.seq_spec() is Some && old.seq_spec()->0 < u64::MAX && seq != old.seq_spec()->0 + 1 ==> (r
            == Err::<(), CarryError>(
            CarryError::SequenceGap { expected: (old.seq_spec()->0 + 1) as u64, got: seq },
        ) && new.seq_spec() is None && new.bids_map() == old.bids_map() && new.asks_map() == old.asks_map()),
        old.seq_spec() is None ==> (r == Err::<(), CarryError>(CarryError::NotSynced) && new == old),
{
}

/// Sequence continuity of `apply_delta_from`: a ranged delta is applied only when it starts
/// at the book's number and does not end before it starts; a start other than the book's
/// number is refused as a `SequenceGap` from the book's number, and the book is left
/// unsynced with its sides unchanged; an unsynced book refuses every delta.
pub proof fn lemma_delta_from_needs_book_seq(
    old: OrderBook,
    new: OrderBook,
    prev_seq: u64,
    seq: u64,
    updates: Seq<LevelUpdate>,
    r: Result<(), CarryError>,
)
    requires
        delta_from_applied(old, new, prev_seq, seq, updates, r),
    ensures
        r is Ok ==> (old.seq_spec() == Some(prev_seq) && prev_seq <= seq && new.seq_spec() == Some(seq)
            && (new.bids_map(), new.asks_map()) == apply_updates_map(old.bids_map(), old.asks_map(), updates)
            && !crossed(new.bids_map(), new.asks_map())),
        old.seq_spec() is Some && prev_seq != old.seq_spec()->0 ==> (r == Err::<(), CarryError>(
            CarryError::SequenceGap { expected: old.seq_spec()->0, got: prev_seq },
        ) && new.seq_spec() is None && new.bids_map() == old.bids_map() && new.asks_map() == old.asks_map()),
        old.seq_spec() == Some(prev_seq) && seq < prev_seq ==> (r == Err::<(), CarryError>(
            CarryError::SequenceGap { expected: prev_seq, got: seq },
        ) && new.seq_spec() is None),
        old.seq_spec() is None ==> (r == Err::<(), CarryError>(CarryError::NotSynced) && new == old),
{
}

/// A snapshot that crosses is refused with `CrossedBook`, and the book is left unsynced;
/// one that does not cross is accepted and the book is synced at the snapshot's number.
pub proof fn lemma_snapshot_crossing(
    old: OrderBook,
    new: OrderBook,
    seq: u64,
    bids: Seq<Level>,
    asks: Seq<Level>,
    r: Result<(), CarryError>,
)
    requires
        snapshot_applied(old, new, seq, bids, asks, r),
    ensures
        crossed(new.bids_map(), new.asks_map()) ==> (r is Err && r->Err_0 is CrossedBook && new.seq_spec() is None),
        !crossed(new.bids_map(), new.asks_map()) ==> (r == Ok::<(), CarryError>(()) && new.seq_spec() == Some(seq)),
{
}

impl Clone for OrderBook {
    /// A copy of the book with the same sides, tick size and sequence number.
    fn clone(&self) -> (r: Self)
        ensures
            r.bids_map() == self.bids_map(),
            r.asks_map() == self.asks_map(),
            r.seq_spec() == self.seq_spec(),
            r.tick_size_spec() == self.tick_size_spec(),
    {
        proof {
            use_type_invariant(self);
        }
        OrderBook {
            tick_size: self.tick_size,
            bids: copy_levels(&self.bids),
            asks: copy_levels(&self.asks),
            seq: self.seq,
        }
    }
}

} // verus!
