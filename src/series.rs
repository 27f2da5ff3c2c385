//! The reference price series: a point-lookup map from a minute-aligned
//! timestamp to the reference price at that minute.

use vstd::prelude::*;
use std::collections::HashMap;

verus! {

broadcast use vstd::std_specs::hash::group_hash_axioms;

/// The map that a list of `(timestamp, price)` points gives when inserted in
/// order: a later point at the same timestamp replaces an earlier one.
pub open spec fn series_of<P>(points: Seq<(u64, P)>) -> Map<u64, P>
    decreases points.len(),
{
    if points.len() == 0 {
        Map::empty()
    } else {
        series_of(points.drop_last()).insert(points.last().0, points.last().1)
    }
}

/// Reference prices keyed by timestamp. The price type is left open, so
/// that the series can carry whatever representation its user holds.
pub struct PriceSeries<P> {
    prices: HashMap<u64, P>,
}

impl<P> View for PriceSeries<P> {
    type V = Map<u64, P>;

    closed spec fn view(&self) -> Map<u64, P> {
        self.prices@
    }
}

impl<P: Copy> PriceSeries<P> {
    /// A series with no prices.
    pub fn new() -> (r: Self)
        ensures
            r@ == Map::<u64, P>::empty(),
    {
        PriceSeries { prices: HashMap::new() }
    }

    /// Records `price` at `ts`, replacing any price already there.
    pub fn insert(&mut self, ts: u64, price: P)
        ensures
            final(self)@ == old(self)@.insert(ts, price),
    {
        self.prices.insert(ts, price);
    }

    /// Builds the series from candle points, each keyed by its own timestamp
    /// as given; a later point at a timestamp overwrites an earlier one.
    pub fn build(points: &Vec<(u64, P)>) -> (r: Self)
        ensures
            r@ == series_of(points@),
    {
        let mut r = Self::new();
        let mut i: usize = 0;
        while i < points.len()
            invariant
                0 <= i <= points.len(),
                r@ == series_of(points@.take(i as int)),
            decreases points.len() - i,
        {
            let (ts, price) = points[i];
            assert(points@.take(i + 1).drop_last() =~= points@.take(i as int));
            r.insert(ts, price);
            i = i + 1;
        }
        assert(points@.take(points.len() as int) =~= points@);
        r
    }

    /// The price recorded at `ts`, if any.
    pub fn lookup(&self, ts: u64) -> (r: Option<P>)
        ensures
            r == (if self@.contains_key(ts) { Some(self@[ts]) } else { None::<P> }),
    {
        match self.prices.get(&ts) {
            Some(p) => Some(*p),
            None => None,
        }
    }
}

/// A series built from one candle holds that candle's price at its
/// timestamp and nothing at any other timestamp.
pub proof fn lemma_single_point<P>(ts: u64, price: P, other: u64)
    ensures
        series_of(seq![(ts, price)]).contains_key(ts),
        series_of(seq![(ts, price)])[ts] == price,
        other != ts ==> !series_of(seq![(ts, price)]).contains_key(other),
{
    let s = seq![(ts, price)];
    assert(s.drop_last() =~= Seq::<(u64, P)>::empty());
    assert(series_of(s.drop_last()) == Map::<u64, P>::empty());
    assert(series_of(s) == Map::<u64, P>::empty().insert(ts, price));
}

} // verus!
