//! The markout engine: joins each trade to the reference price series at
//! each horizon after the trade's minute.

use vstd::prelude::*;
use crate::horizons::{horizon_label, label_of};
use crate::series::PriceSeries;
use crate::text::chars_of;

verus! {

/// A trade reduced to what the markout needs: when, what, which way, and
/// the price per unit of base asset at which it filled.
pub struct ProcessedFill<P> {
    pub ts: u64,
    pub symbol: String,
    pub maker_order_direction: String,
    pub fill_price: P,
}

/// A trade matched with the reference price at one horizon. The markout
/// itself is `side * (oracle_price - fill_price) / fill_price`.
pub struct MarkoutMatch<P> {
    /// The trade's own timestamp, not its minute.
    pub ts: u64,
    pub symbol: String,
    /// `1` for a long maker, `-1` otherwise.
    pub side: i8,
    pub fill_price: P,
    /// The horizon's label, such as `5m`.
    pub horizon: String,
    /// The reference price at the horizon.
    pub oracle_price: P,
}

/// The content of a [`MarkoutMatch`], with its texts as characters.
pub struct MarkoutView<P> {
    pub ts: u64,
    pub symbol: Seq<char>,
    pub side: i8,
    pub fill_price: P,
    pub horizon: Seq<char>,
    pub oracle_price: P,
}

impl<P> View for MarkoutMatch<P> {
    type V = MarkoutView<P>;

    open spec fn view(&self) -> MarkoutView<P> {
        MarkoutView {
            ts: self.ts,
            symbol: self.symbol@,
            side: self.side,
            fill_price: self.fill_price,
            horizon: self.horizon@,
            oracle_price: self.oracle_price,
        }
    }
}

/// The start of the minute that holds `ts`.
pub open spec fn minute_of(ts: u64) -> int {
    ts - ts % 60
}

/// The timestamp at which the reference price for horizon `h` is read.
pub open spec fn target_of(ts: u64, h: u32) -> int {
    minute_of(ts) + h * 60
}

/// The side of a trade whose maker direction is `dir`: `1` for `long`,
/// `-1` for anything else.
pub open spec fn side_of(dir: Seq<char>) -> i8 {
    if dir == seq!['l', 'o', 'n', 'g'] {
        1i8
    } else {
        -1i8
    }
}

/// Whether the series holds a price at `t`, a timestamp that may lie past
/// the last one that a `u64` can hold.
pub open spec fn priced_at<P>(series: Map<u64, P>, t: int) -> bool {
    0 <= t <= u64::MAX && series.contains_key(t as u64)
}

/// The matches of trade `f` at the horizons `hs`, in the order of `hs`.
pub open spec fn fill_matches<P>(
    series: Map<u64, P>,
    f: ProcessedFill<P>,
    hs: Seq<u32>,
) -> Seq<MarkoutView<P>>
    decreases hs.len(),
{
    if hs.len() == 0 {
        Seq::empty()
    } else {
        let h = hs.last();
        let t = target_of(f.ts, h);
        let earlier = fill_matches(series, f, hs.drop_last());
        if priced_at(series, t) {
            earlier.push(
                MarkoutView {
                    ts: f.ts,
                    symbol: f.symbol@,
                    side: side_of(f.maker_order_direction@),
                    fill_price: f.fill_price,
                    horizon: label_of(h),
                    oracle_price: series[t as u64],
                },
            )
        } else {
            earlier
        }
    }
}

/// All matches of the trades `fills` at the horizons `hs`: trade by trade,
/// and within a trade horizon by horizon. A trade without a direction gives
/// none.
pub open spec fn markout_matches<P>(
    series: Map<u64, P>,
    fills: Seq<ProcessedFill<P>>,
    hs: Seq<u32>,
) -> Seq<MarkoutView<P>>
    decreases fills.len(),
{
    if fills.len() == 0 {
        Seq::empty()
    } else {
        let f = fills.last();
        let earlier = markout_matches(series, fills.drop_last(), hs);
        if f.maker_order_direction@.len() == 0 {
            earlier
        } else {
            earlier + fill_matches(series, f, hs)
        }
    }
}

/// The start of the minute that holds `ts`.
pub fn floor_minute(ts: u64) -> (r: u64)
    ensures
        r == minute_of(ts),
        r <= ts,
        r % 60 == 0,
        ts - r < 60,
{
    ts - (ts % 60)
}

/// The side of a trade whose maker direction is `dir`.
pub fn side_from_direction(dir: &String) -> (r: i8)
    ensures
        r == side_of(dir@),
{
    let d = chars_of(dir.as_str());
    if d.len() == 4 && d[0] == 'l' && d[1] == 'o' && d[2] == 'n' && d[3] == 'g' {
        assert(d@ =~= seq!['l', 'o', 'n', 'g']);
        1
    } else {
        -1
    }
}

/// The matches of every trade in `fills` against `series` at each of
/// `horizons`: for each trade with a direction, and for each horizon in the
/// order given, one match where the series holds a price at the trade's
/// minute plus the horizon. Pairs without a price, and trades without a
/// direction, give none.
pub fn compute_markouts<P: Copy>(
    series: &PriceSeries<P>,
    fills: &Vec<ProcessedFill<P>>,
    horizons: &Vec<u32>,
) -> (r: Vec<MarkoutMatch<P>>)
    ensures
        r@.map_values(|m: MarkoutMatch<P>| m@) == markout_matches(series@, fills@, horizons@),
{
    let mut r: Vec<MarkoutMatch<P>> = Vec::new();
    let mut i: usize = 0;
    while i < fills.len()
        invariant
            0 <= i <= fills.len(),
            r@.map_values(|m: MarkoutMatch<P>| m@) == markout_matches(
                series@,
                fills@.take(i as int),
                horizons@,
            ),
        decreases fills.len() - i,
    {
        let fill = &fills[i];
        assert(fills@.take(i + 1).drop_last() =~= fills@.take(i as int));
        if fill.maker_order_direction.as_str().is_empty() {
            i = i + 1;
            continue;
        }
        let ghost before = r@.map_values(|m: MarkoutMatch<P>| m@);
        let base = floor_minute(fill.ts);
        let side = side_from_direction(&fill.maker_order_direction);
        let mut j: usize = 0;
        while j < horizons.len()
            invariant
                0 <= i < fills.len(),
                0 <= j <= horizons.len(),
                fill == fills@[i as int],
                base == minute_of(fill.ts),
                side == side_of(fill.maker_order_direction@),
                r@.map_values(|m: MarkoutMatch<P>| m@) == before + fill_matches(
                    series@,
                    *fill,
                    horizons@.take(j as int),
                ),
            decreases horizons.len() - j,
        {
            let h = horizons[j];
            assert(horizons@.take(j + 1).drop_last() =~= horizons@.take(j as int));
            let offset: u64 = h as u64 * 60;
            if base <= u64::MAX - offset {
                let target = base + offset;
                match series.lookup(target) {
                    Some(price) => {
                        let m = MarkoutMatch {
                            ts: fill.ts,
                            symbol: fill.symbol.clone(),
                            side,
                            fill_price: fill.fill_price,
                            horizon: horizon_label(h),
                            oracle_price: price,
                        };
                        let ghost old_r = r@;
                        r.push(m);
                        assert(r@.map_values(|m: MarkoutMatch<P>| m@) =~= old_r.map_values(
                            |m: MarkoutMatch<P>| m@,
                        ).push(m@));
                    },
                    None => {},
                }
            }
            j = j + 1;
        }
        assert(horizons@.take(horizons.len() as int) =~= horizons@);
        i = i + 1;
    }
    assert(fills@.take(fills.len() as int) =~= fills@);
    r
}

/// Markouts are a function of their inputs: two runs of
/// [`compute_markouts`] on the same series, trades and horizons give the
/// same matches in the same order.
pub proof fn lemma_markouts_deterministic<P>(
    series: Map<u64, P>,
    fills: Seq<ProcessedFill<P>>,
    hs: Seq<u32>,
    first: Seq<MarkoutMatch<P>>,
    second: Seq<MarkoutMatch<P>>,
)
    requires
        first.map_values(|m: MarkoutMatch<P>| m@) == markout_matches(series, fills, hs),
        second.map_values(|m: MarkoutMatch<P>| m@) == markout_matches(series, fills, hs),
    ensures
        first.len() == second.len(),
        forall|k: int| 0 <= k < first.len() ==> first[k]@ == second[k]@,
{
    assert(first.map_values(|m: MarkoutMatch<P>| m@).len() == first.len());
    assert(second.map_values(|m: MarkoutMatch<P>| m@).len() == second.len());
    assert forall|k: int| 0 <= k < first.len() implies first[k]@ == second[k]@ by {
        assert(first.map_values(|m: MarkoutMatch<P>| m@)[k] == first[k]@);
        assert(second.map_values(|m: MarkoutMatch<P>| m@)[k] == second[k]@);
    };
}

/// A trade with an empty direction adds no match at any horizon, whatever
/// prices the series holds.
pub proof fn lemma_no_direction_no_matches<P>(
    series: Map<u64, P>,
    fills: Seq<ProcessedFill<P>>,
    f: ProcessedFill<P>,
    hs: Seq<u32>,
)
    requires
        f.maker_order_direction@.len() == 0,
    ensures
        markout_matches(series, fills.push(f), hs) == markout_matches(series, fills, hs),
        markout_matches(series, seq![f], hs).len() == 0,
{
    assert(fills.push(f).drop_last() =~= fills);
    assert(seq![f].drop_last() =~= Seq::<ProcessedFill<P>>::empty());
    assert(markout_matches(series, Seq::<ProcessedFill<P>>::empty(), hs) == Seq::<
        MarkoutView<P>,
    >::empty());
}

/// A horizon at which the series holds no price adds no match for a trade.
pub proof fn lemma_unpriced_horizon<P>(
    series: Map<u64, P>,
    f: ProcessedFill<P>,
    hs: Seq<u32>,
    h: u32,
)
    requires
        !priced_at(series, target_of(f.ts, h)),
    ensures
        fill_matches(series, f, hs.push(h)) == fill_matches(series, f, hs),
{
    assert(hs.push(h).drop_last() =~= hs);
}

/// One trade with a direction and one horizon at which the series holds a
/// price give exactly one match: the trade's own timestamp, symbol and fill
/// price, its side, the horizon's label and the price found.
pub proof fn lemma_one_priced_match<P>(series: Map<u64, P>, f: ProcessedFill<P>, h: u32)
    requires
        f.maker_order_direction@.len() > 0,
        priced_at(series, target_of(f.ts, h)),
    ensures
        markout_matches(series, seq![f], seq![h]) == seq![
            MarkoutView {
                ts: f.ts,
                symbol: f.symbol@,
                side: side_of(f.maker_order_direction@),
                fill_price: f.fill_price,
                horizon: label_of(h),
                oracle_price: series[target_of(f.ts, h) as u64],
            },
        ],
{
    assert(seq![f].drop_last() =~= Seq::<ProcessedFill<P>>::empty());
    assert(seq![h].drop_last() =~= Seq::<u32>::empty());
    assert(markout_matches(series, Seq::<ProcessedFill<P>>::empty(), seq![h]) == Seq::<
        MarkoutView<P>,
    >::empty());
    assert(fill_matches(series, f, Seq::<u32>::empty()) == Seq::<MarkoutView<P>>::empty());
    assert(Seq::<MarkoutView<P>>::empty() + fill_matches(series, f, seq![h]) =~= fill_matches(
        series,
        f,
        seq![h],
    ));
}

/// Whether `m` is the match of trade `f` at one of the horizons `hs`.
pub open spec fn is_match_of<P>(
    series: Map<u64, P>,
    f: ProcessedFill<P>,
    hs: Seq<u32>,
    m: MarkoutView<P>,
) -> bool {
    &&& m.ts == f.ts
    &&& m.symbol == f.symbol@
    &&& m.side == side_of(f.maker_order_direction@)
    &&& m.fill_price == f.fill_price
    &&& exists|j: int|
        0 <= j < hs.len() && priced_at(series, #[trigger] target_of(f.ts, hs[j])) && m.horizon
            == label_of(hs[j]) && m.oracle_price == series[target_of(f.ts, hs[j]) as u64]
}

proof fn lemma_fill_matches_origin<P>(series: Map<u64, P>, f: ProcessedFill<P>, hs: Seq<u32>)
    ensures
        forall|k: int|
            0 <= k < fill_matches(series, f, hs).len() ==> is_match_of(
                series,
                f,
                hs,
                #[trigger] fill_matches(series, f, hs)[k],
            ),
    decreases hs.len(),
{
    if hs.len() > 0 {
        let front = hs.drop_last();
        lemma_fill_matches_origin(series, f, front);
        let ms = fill_matches(series, f, hs);
        assert forall|k: int| 0 <= k < ms.len() implies is_match_of(
            series,
            f,
            hs,
            #[trigger] ms[k],
        ) by {
            let earlier = fill_matches(series, f, front);
            if k < earlier.len() {
                assert(is_match_of(series, f, front, earlier[k]));
                let j = choose|j: int|
                    0 <= j < front.len() && priced_at(series, #[trigger] target_of(f.ts, front[j]))
                        && earlier[k].horizon == label_of(front[j]) && earlier[k].oracle_price
                        == series[target_of(f.ts, front[j]) as u64];
                assert(front[j] == hs[j]);
            } else {
                let j = hs.len() - 1;
                assert(target_of(f.ts, hs[j]) == target_of(f.ts, hs.last()));
            }
        };
    }
}

/// Every match comes from a trade with a direction: it carries that
/// trade's own timestamp (not its minute), symbol, side and fill price, and
/// the price that the series holds at one of the horizons after the trade's
/// minute, with that horizon's label.
pub proof fn lemma_match_origin<P>(
    series: Map<u64, P>,
    fills: Seq<ProcessedFill<P>>,
    hs: Seq<u32>,
)
    ensures
        forall|k: int|
            #![trigger markout_matches(series, fills, hs)[k]]
            0 <= k < markout_matches(series, fills, hs).len() ==> exists|i: int|
                0 <= i < fills.len() && fills[i].maker_order_direction@.len() > 0
                    && is_match_of(
                    series,
                    #[trigger] fills[i],
                    hs,
                    markout_matches(series, fills, hs)[k],
                ),
    decreases fills.len(),
{
    if fills.len() > 0 {
        let front = fills.drop_last();
        let f = fills.last();
        lemma_match_origin(series, front, hs);
        lemma_fill_matches_origin(series, f, hs);
        let ms = markout_matches(series, fills, hs);
        let earlier = markout_matches(series, front, hs);
        assert forall|k: int| #![trigger ms[k]] 0 <= k < ms.len() implies exists|i: int|
            0 <= i < fills.len() && fills[i].maker_order_direction@.len() > 0 && is_match_of(
                series,
                #[trigger] fills[i],
                hs,
                ms[k],
            ) by {
            if k < earlier.len() {
                let i = choose|i: int|
                    0 <= i < front.len() && front[i].maker_order_direction@.len() > 0
                        && is_match_of(series, #[trigger] front[i], hs, earlier[k]);
                assert(fills[i] == front[i]);
            } else {
                let i = fills.len() - 1;
                assert(fills[i] == f);
                assert(ms[k] == fill_matches(series, f, hs)[k - earlier.len()]);
            }
        };
    }
}

} // verus!
