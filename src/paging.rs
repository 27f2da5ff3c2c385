//! The decisions of the paginated fetches: the time window, which records
//! of a page to keep, and whether and where to ask for the next page.

use vstd::prelude::*;
use crate::types::{FillData, FillsApiResponse};

verus! {

/// Seconds in a day.
pub const SECONDS_PER_DAY: u64 = 86400;

/// The longest window of trade history that the venue serves, in days.
pub const MAX_FILL_DAYS: u32 = 31;

/// Why a fetch stopped without a result.
#[derive(Debug, Clone, Copy, PartialEq, Eq)]
pub enum FetchError {
    /// More days of trades were asked for than the venue serves.
    WindowTooLong,
    /// The venue answered that the request failed.
    RequestFailed,
}

/// The start of a window of `days` days that ends at `now`.
pub fn cutoff_ts(now: u64, days: u32) -> (r: u64)
    requires
        days * 86400 <= now,
    ensures
        r == now - days * 86400,
{
    now - (days as u64) * SECONDS_PER_DAY
}

/// The start of a window of `days` days of trades that ends at `now`; the
/// venue serves at most `MAX_FILL_DAYS` days.
pub fn fills_cutoff(now: u64, days: u32) -> (r: Result<u64, FetchError>)
    requires
        days <= 31 ==> days * 86400 <= now,
    ensures
        r is Err <==> days > 31,
        r is Err ==> r == Err::<u64, FetchError>(FetchError::WindowTooLong),
        r is Ok ==> r->Ok_0 == now - days * 86400,
{
    if days > MAX_FILL_DAYS {
        Err(FetchError::WindowTooLong)
    } else {
        Ok(cutoff_ts(now, days))
    }
}

/// The records of `s` that are not older than `cutoff`, in order.
pub open spec fn recent_fills(s: Seq<FillData>, cutoff: u64) -> Seq<FillData>
    decreases s.len(),
{
    if s.len() == 0 {
        Seq::empty()
    } else if s.last().ts >= cutoff {
        recent_fills(s.drop_last(), cutoff).push(s.last())
    } else {
        recent_fills(s.drop_last(), cutoff)
    }
}

/// What one page of trade fills contributes, and where to go next.
pub struct FillsStep {
    /// The records of the page inside the window.
    pub records: Vec<FillData>,
    /// The page to ask for next; `None` ends the fetch.
    pub next_page: Option<String>,
}

/// Takes one page of trade fills: a failed page stops the fetch with an
/// error; otherwise the records inside the window are kept, and the fetch
/// goes on to the page that the response names unless this page held no
/// record inside the window.
pub fn fills_step(cutoff: u64, response: FillsApiResponse) -> (r: Result<FillsStep, FetchError>)
    ensures
        r is Err <==> !response.success,
        r is Err ==> r == Err::<FillsStep, FetchError>(FetchError::RequestFailed),
        r is Ok ==> ({
            let step = r->Ok_0;
            &&& step.records@ == recent_fills(response.records@, cutoff)
            &&& step.next_page == (if step.records.len() == 0 {
                None
            } else {
                response.meta.next_page
            })
        }),
{
    if !response.success {
        return Err(FetchError::RequestFailed);
    }
    let ghost all = response.records@;
    let mut kept: Vec<FillData> = Vec::new();
    for rec in it: response.records.into_iter()
        invariant
            it.seq() == all,
            kept@ == recent_fills(all.take(it.index() as int), cutoff),
    {
        assert(all.take(it.index() + 1).drop_last() =~= all.take(it.index() as int));
        if rec.ts >= cutoff {
            kept.push(rec);
        }
    }
    assert(all.take(all.len() as int) =~= all);
    let next = if kept.len() == 0 { None } else { response.meta.next_page };
    Ok(FillsStep { records: kept, next_page: next })
}

/// The positions in `ts` of the timestamps that are not older than
/// `cutoff`, in order.
pub open spec fn recent_positions(ts: Seq<u64>, cutoff: u64) -> Seq<usize>
    decreases ts.len(),
{
    if ts.len() == 0 {
        Seq::empty()
    } else if ts.last() >= cutoff {
        recent_positions(ts.drop_last(), cutoff).push((ts.len() - 1) as usize)
    } else {
        recent_positions(ts.drop_last(), cutoff)
    }
}

/// What one page of candles contributes, and where to go next. Candle
/// pages run backwards in time from a start timestamp.
pub struct CandleStep {
    /// The positions in the page of the candles inside the window.
    pub keep: Vec<usize>,
    /// The start timestamp of the next page; `None` ends the fetch.
    pub next_start: Option<u64>,
}

/// Takes one page of candles, given by their timestamps: an empty page ends
/// the fetch; otherwise the candles inside the window are kept, and the
/// fetch goes on from just before the page's last candle unless that candle
/// is already at or before the cutoff.
pub fn candle_step(cutoff: u64, page_ts: &Vec<u64>) -> (r: CandleStep)
    ensures
        r.keep@ == recent_positions(page_ts@, cutoff),
        r.next_start == (if page_ts.len() == 0 || page_ts@.last() <= cutoff {
            None
        } else {
            Some((page_ts@.last() - 1) as u64)
        }),
{
    let mut keep: Vec<usize> = Vec::new();
    let mut i: usize = 0;
    while i < page_ts.len()
        invariant
            0 <= i <= page_ts.len(),
            keep@ == recent_positions(page_ts@.take(i as int), cutoff),
        decreases page_ts.len() - i,
    {
        assert(page_ts@.take(i + 1).drop_last() =~= page_ts@.take(i as int));
        if page_ts[i] >= cutoff {
            keep.push(i);
        }
        i = i + 1;
    }
    assert(page_ts@.take(page_ts.len() as int) =~= page_ts@);
    if page_ts.len() == 0 {
        return CandleStep { keep, next_start: None };
    }
    let last = page_ts[page_ts.len() - 1];
    let next_start = if last <= cutoff { None } else { Some(last - 1) };
    CandleStep { keep, next_start }
}

/// Whether position `i` of `ts` comes before position `j` when ordering by
/// timestamp, ties kept in the order of the positions.
pub open spec fn comes_before(ts: Seq<u64>, i: usize, j: usize) -> bool {
    ts[i as int] < ts[j as int] || (ts[i as int] == ts[j as int] && i < j)
}

/// The positions of `ts` ordered by timestamp, oldest first; positions with
/// the same timestamp keep the order they had in `ts`. Every position appears
/// exactly once.
pub fn candle_order(ts: &Vec<u64>) -> (r: Vec<usize>)
    ensures
        r.len() == ts.len(),
        forall|k: int| 0 <= k < r.len() ==> r@[k] < ts.len(),
        forall|a: int, b: int| 0 <= a < b < r.len() ==> comes_before(ts@, r@[a], r@[b]),
{
    let mut r: Vec<usize> = Vec::new();
    let mut k: usize = 0;
    while k < ts.len()
        invariant
            0 <= k <= ts.len(),
            r.len() == k,
            forall|q: int| 0 <= q < r.len() ==> r@[q] < k,
            forall|a: int, b: int| 0 <= a < b < r.len() ==> comes_before(ts@, r@[a], r@[b]),
        decreases ts.len() - k,
    {
        let t = ts[k];
        let mut p: usize = 0;
        while p < r.len() && ts[r[p]] <= t
            invariant
                0 <= p <= r.len(),
                r.len() == k,
                k < ts.len(),
                t == ts@[k as int],
                forall|q: int| 0 <= q < r.len() ==> r@[q] < k,
                forall|q: int| 0 <= q < p ==> ts@[r@[q] as int] <= t,
            decreases r.len() - p,
        {
            p = p + 1;
        }
        proof {
            assert forall|q: int| p <= q < r.len() implies ts@[r@[q] as int] > t by {
                if q > p {
                    assert(comes_before(ts@, r@[p as int], r@[q]));
                }
            };
        }
        let ghost old_r = r@;
        r.insert(p, k);
        proof {
            assert forall|a: int, b: int| 0 <= a < b < r.len() implies comes_before(
                ts@,
                r@[a],
                r@[b],
            ) by {
                if a < p && b < p {
                    assert(comes_before(ts@, old_r[a], old_r[b]));
                } else if a > p && b > p {
                    assert(comes_before(ts@, old_r[a - 1], old_r[b - 1]));
                } else if a < p && b > p {
                    assert(comes_before(ts@, old_r[a], old_r[b - 1]));
                }
            };
        }
        k = k + 1;
    }
    r
}

} // verus!
