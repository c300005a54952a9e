//! The paging decisions of fetching every candle of a time range from a
//! venue that hands out candles newest first, a page at a time, each page
//! holding candles before a given time.
use vstd::prelude::*;
use crate::level::{TimeRange, open_end};

verus! {

/// The abstract state of a [`RangeFetch`].
pub struct RangeFetchView {
    /// Candles older than this are not wanted.
    pub start: u64,
    /// The time to ask the next page before (0 asks for the newest page).
    pub end: u64,
    /// Whether every candle is wanted, with no bound on either side.
    pub whole: bool,
    /// Whether the gathering is over.
    pub done: bool,
}

/// The last time wanted from a bounded range: its end, where an end of
/// `u64::MAX - 1` stands for "now".
pub open spec fn effective_end(range: TimeRange, now: u64) -> u64 {
    if range.end == open_end() {
        now
    } else {
        range.end
    }
}

/// The fetch state for `range` when the current time is `now`: the range
/// `0..=0` asks for every candle, starting from the newest page; any other
/// range asks first for the candles before one past its (included) end, so
/// that a candle at the end itself is gathered too. An end of `u64::MAX`
/// has no time past it and is asked for as it is.
pub open spec fn fetch_start(range: TimeRange, now: u64) -> RangeFetchView {
    if range.start == 0 && range.end == 0 {
        RangeFetchView { start: 0, end: 0, whole: true, done: false }
    } else {
        let last = effective_end(range, now);
        RangeFetchView {
            start: range.start,
            end: if last == u64::MAX {
                u64::MAX
            } else {
                (last + 1) as u64
            },
            whole: false,
            done: false,
        }
    }
}

/// Indices, in order, of the first `n` times that are at least `start`.
pub open spec fn indices_at_least(times: Seq<u64>, start: u64, n: int) -> Seq<usize>
    decreases n,
{
    if n <= 0 {
        Seq::empty()
    } else {
        let prev = indices_at_least(times, start, n - 1);
        if times[n - 1] >= start {
            prev.push((n - 1) as usize)
        } else {
            prev
        }
    }
}

/// Every index below `n`, in order.
pub open spec fn all_indices(n: nat) -> Seq<usize> {
    Seq::new(n, |i: int| i as usize)
}

/// The state after a page with candle times `times` (newest first) came in,
/// and the indices of the page's candles to keep. An empty page ends the
/// gathering. Otherwise the oldest time of the page becomes the next `end`
/// and the whole page is kept, unless the range has a start and the page
/// reaches past it: then only the candles at or after the start are kept and
/// the gathering ends.
pub open spec fn fetch_receive(v: RangeFetchView, times: Seq<u64>) -> (RangeFetchView, Seq<usize>) {
    if v.done {
        (v, Seq::empty())
    } else if times.len() == 0 {
        (RangeFetchView { done: true, ..v }, Seq::empty())
    } else {
        let last: u64 = times[times.len() - 1];
        if !v.whole && last < v.start {
            (
                RangeFetchView { done: true, ..v },
                indices_at_least(times, v.start, times.len() as int),
            )
        } else {
            (RangeFetchView { end: last, ..v }, all_indices(times.len()))
        }
    }
}

/// Gathers the candles of a time range page by page.
#[derive(Debug, Clone, Copy)]
pub struct RangeFetch {
    start: u64,
    end: u64,
    whole: bool,
    done: bool,
}

impl View for RangeFetch {
    type V = RangeFetchView;

    closed spec fn view(&self) -> RangeFetchView {
        RangeFetchView { start: self.start, end: self.end, whole: self.whole, done: self.done }
    }
}

impl RangeFetch {
    /// Starts gathering `range`; `now` is the current time in milliseconds,
    /// used when the range runs up to now.
    pub fn new(range: TimeRange, now: u64) -> (r: RangeFetch)
        ensures
            r@ == fetch_start(range, now),
    {
        if range.start == 0 && range.end == 0 {
            RangeFetch { start: 0, end: 0, whole: true, done: false }
        } else {
            let last: u64 = if range.end == u64::MAX - 1 {
                now
            } else {
                range.end
            };
            let end: u64 = if last == u64::MAX {
                u64::MAX
            } else {
                last + 1
            };
            RangeFetch { start: range.start, end, whole: false, done: false }
        }
    }

    /// The time to ask the next page before, or `None` once the gathering is over.
    pub fn request(&self) -> (r: Option<u64>)
        ensures
            r == (if self@.done {
                None
            } else {
                Some(self@.end)
            }),
    {
        if self.done {
            None
        } else {
            Some(self.end)
        }
    }

    /// Takes in a page with candle times `times` (newest first) and gives the
    /// indices of the page's candles to keep, in order.
    pub fn receive(&mut self, times: &Vec<u64>) -> (keep: Vec<usize>)
        ensures
            (final(self)@, keep@) == fetch_receive(old(self)@, times@),
    {
        if self.done {
            return Vec::new();
        }
        let n: usize = times.len();
        if n == 0 {
            self.done = true;
            return Vec::new();
        }
        let last: u64 = times[n - 1];
        if !self.whole && last < self.start {
            let mut keep: Vec<usize> = Vec::new();
            let mut i: usize = 0;
            while i < n
                invariant
                    i <= n == times.len(),
                    keep@ == indices_at_least(times@, self.start, i as int),
                decreases n - i,
            {
                if times[i] >= self.start {
                    keep.push(i);
                }
                i = i + 1;
            }
            self.done = true;
            keep
        } else {
            let mut keep: Vec<usize> = Vec::new();
            let mut i: usize = 0;
            while i < n
                invariant
                    i <= n == times.len(),
                    keep@ == all_indices(i as nat),
                decreases n - i,
            {
                keep.push(i);
                assert(keep@ =~= all_indices((i + 1) as nat));
                i = i + 1;
            }
            self.end = last;
            keep
        }
    }
}

/// The candle times of a page, newest first.
pub open spec fn newest_first(times: Seq<u64>) -> bool {
    forall|a: int, b: int| 0 <= a <= b < times.len() ==> times[a] >= times[b]
}

/// The indices kept by the filter are the in-range ones whose times are at
/// least `start`.
proof fn lemma_indices_at_least(times: Seq<u64>, start: u64, n: int)
    requires
        0 <= n <= times.len(),
        times.len() <= usize::MAX,
    ensures
        forall|m: int|
            0 <= m < indices_at_least(times, start, n).len() ==> {
                let idx: usize = #[trigger] indices_at_least(times, start, n)[m];
                &&& 0 <= idx < n
                &&& times[idx as int] >= start
            },
    decreases n,
{
    if n > 0 {
        lemma_indices_at_least(times, start, n - 1);
        let prev = indices_at_least(times, start, n - 1);
        let cur = indices_at_least(times, start, n);
        assert forall|m: int| 0 <= m < cur.len() implies {
            let idx: usize = #[trigger] cur[m];
            &&& 0 <= idx < n
            &&& times[idx as int] >= start
        } by {
            if m < prev.len() {
                assert(cur[m] == prev[m]);
            }
        }
    }
}

/// Every candle kept from a page ordered newest first is at or after the
/// start of the range, and every kept index is one of the page's.
pub proof fn lemma_kept_in_range(v: RangeFetchView, times: Seq<u64>)
    requires
        newest_first(times),
        times.len() <= usize::MAX,
        v.whole ==> v.start == 0,
    ensures
        forall|m: int|
            0 <= m < fetch_receive(v, times).1.len() ==> {
                let idx: usize = #[trigger] fetch_receive(v, times).1[m];
                &&& 0 <= idx < times.len()
                &&& times[idx as int] >= v.start
            },
{
    lemma_indices_at_least(times, v.start, times.len() as int);
}

/// A fetch state never mixes the two modes: a whole-history fetch has no start.
pub proof fn lemma_start_shape(range: TimeRange, now: u64)
    ensures
        fetch_start(range, now).whole ==> fetch_start(range, now).start == 0,
        !fetch_start(range, now).done,
{
}

/// When a non-empty page holds only candles before the time it was asked
/// for, the next page is asked for before an earlier time, so the gathering
/// moves steadily into the past.
pub proof fn lemma_request_moves_back(v: RangeFetchView, times: Seq<u64>)
    requires
        !v.done,
        v.end > 0,
        times.len() > 0,
        forall|m: int| 0 <= m < times.len() ==> times[m] < v.end,
    ensures
        fetch_receive(v, times).0.done || fetch_receive(v, times).0.end < v.end,
{
}


/// Candle times strictly newest first: no time twice.
pub open spec fn strictly_newest_first(all: Seq<u64>) -> bool {
    forall|a: int, b: int| 0 <= a < b < all.len() ==> all[a] > all[b]
}

/// Index of the first time in `all` below `t` (the length when there is none).
pub open spec fn first_below(all: Seq<u64>, t: int) -> int
    decreases all.len(),
{
    if all.len() == 0 {
        0
    } else if all[0] < t {
        0
    } else {
        1 + first_below(all.drop_first(), t)
    }
}

/// The page that a venue holding the candle times `all` (newest first) gives
/// for a request before time `t`: the `n` newest of the candles before `t`
/// (of all candles, for a `t` of 0), or all of them when fewer remain.
pub open spec fn venue_page(all: Seq<u64>, t: u64, n: int) -> Seq<u64> {
    let j = if t == 0 {
        0
    } else {
        first_below(all, t as int)
    };
    all.subrange(j, if j + n <= all.len() {
        j + n
    } else {
        all.len() as int
    })
}

/// The times of `all` from `lo` to `hi`, both included, newest first.
pub open spec fn times_within(all: Seq<u64>, lo: int, hi: int) -> Seq<u64> {
    let a = first_below(all, hi + 1);
    let b = first_below(all, lo);
    all.subrange(a, if a <= b {
        b
    } else {
        a
    })
}

/// What the gathering holds between pages: the candles from the time it asks
/// before next up to the range's last time `hi`.
pub open spec fn gathered_so_far(all: Seq<u64>, v: RangeFetchView, hi: int, kept: Seq<u64>) -> bool {
    &&& !v.whole
    &&& !v.done
    &&& 0 < v.end <= hi + 1
    &&& (v.start <= v.end || v.end == hi + 1)
    &&& kept == all.subrange(first_below(all, hi + 1), first_below(all, v.end as int))
}

/// The times at the given indices of `page`, in order.
pub open spec fn pick(page: Seq<u64>, idx: Seq<usize>) -> Seq<u64> {
    idx.map_values(|i: usize| page[i as int])
}

/// Where [`first_below`] points in a newest-first sequence: every earlier
/// time is at least `t`, every later one below it.
pub proof fn lemma_first_below(all: Seq<u64>, t: int)
    requires
        newest_first(all),
    ensures
        0 <= first_below(all, t) <= all.len(),
        forall|i: int| 0 <= i < first_below(all, t) ==> all[i] >= t,
        forall|i: int| first_below(all, t) <= i < all.len() ==> all[i] < t,
    decreases all.len(),
{
    if all.len() > 0 && all[0] >= t {
        let rest = all.drop_first();
        assert forall|a: int, b: int| 0 <= a <= b < rest.len() implies rest[a] >= rest[b] by {
            assert(rest[a] == all[a + 1] && rest[b] == all[b + 1]);
        }
        lemma_first_below(rest, t);
        assert forall|i: int| 0 <= i < first_below(all, t) implies all[i] >= t by {
            if i > 0 {
                assert(all[i] == rest[i - 1]);
            }
        }
        assert forall|i: int| first_below(all, t) <= i < all.len() implies all[i] < t by {
            assert(all[i] == rest[i - 1]);
        }
    } else if all.len() > 0 {
        assert forall|i: int| 0 <= i < all.len() implies all[i] < t by {
            assert(all[0] >= all[i]);
        }
    }
}

/// [`first_below`] is fixed by where the times cross `t`.
proof fn lemma_first_below_at(all: Seq<u64>, t: int, k: int)
    requires
        newest_first(all),
        0 <= k <= all.len(),
        forall|i: int| 0 <= i < k ==> all[i] >= t,
        forall|i: int| k <= i < all.len() ==> all[i] < t,
    ensures
        first_below(all, t) == k,
{
    lemma_first_below(all, t);
    let f = first_below(all, t);
    if f < k {
        assert(all[f] < t);
    } else if f > k {
        assert(all[k] >= t);
    }
}

/// The kept indices of a newest-first page are its first `m`, where `m`
/// counts the times at least `start`.
proof fn lemma_indices_prefix(page: Seq<u64>, start: u64, m: int, n: int)
    requires
        newest_first(page),
        0 <= m <= page.len(),
        0 <= n <= page.len(),
        page.len() <= usize::MAX,
        forall|i: int| 0 <= i < m ==> page[i] >= start,
        forall|i: int| m <= i < page.len() ==> page[i] < start,
    ensures
        indices_at_least(page, start, n) == all_indices((if n <= m {
            n
        } else {
            m
        }) as nat),
    decreases n,
{
    if n > 0 {
        lemma_indices_prefix(page, start, m, n - 1);
        if n <= m {
            assert(all_indices((n - 1) as nat).push((n - 1) as usize) =~= all_indices(n as nat));
        }
    } else {
        assert(all_indices(0) =~= Seq::<usize>::empty());
    }
}

/// A bounded gathering starts holding nothing, asking for the candles before
/// one past the range's last time.
pub proof fn lemma_gather_start(all: Seq<u64>, range: TimeRange, now: u64)
    requires
        strictly_newest_first(all),
        !(range.start == 0 && range.end == 0),
        effective_end(range, now) < u64::MAX,
    ensures
        gathered_so_far(all, fetch_start(range, now), effective_end(range, now) as int, Seq::empty()),
        fetch_start(range, now).start == range.start,
{
    let hi = effective_end(range, now) as int;
    let v = fetch_start(range, now);
    assert(v.end as int == hi + 1);
    assert(newest_first(all));
    lemma_first_below(all, hi + 1);
    assert(all.subrange(first_below(all, hi + 1), first_below(all, v.end as int)) =~= Seq::<
        u64,
    >::empty());
}

/// One page of a bounded gathering, from a venue holding the candle times
/// `all` (strictly newest first, none at time 0) that answers each request
/// with the `n >= 1` newest candles before the asked time. Either the
/// gathering goes on, still holding exactly the candles from the new asked
/// time up to `hi` and asking before an earlier time than the last, or it
/// ends holding exactly the candles from the range's start to `hi`, newest
/// first.
pub proof fn lemma_gather_step(all: Seq<u64>, v: RangeFetchView, hi: int, kept: Seq<u64>, n: int)
    requires
        strictly_newest_first(all),
        all.len() <= usize::MAX,
        forall|i: int| 0 <= i < all.len() ==> all[i] > 0,
        gathered_so_far(all, v, hi, kept),
        n >= 1,
    ensures
        ({
            let page = venue_page(all, v.end, n);
            let (w, keep) = fetch_receive(v, page);
            let now_kept = kept + pick(page, keep);
            &&& w.start == v.start
            &&& w.done ==> now_kept == times_within(all, v.start as int, hi)
            &&& !w.done ==> gathered_so_far(all, w, hi, now_kept) && w.end < v.end
        }),
{
    assert(newest_first(all));
    let page = venue_page(all, v.end, n);
    let (w, keep) = fetch_receive(v, page);
    let a = first_below(all, hi + 1);
    let j = first_below(all, v.end as int);
    let b = first_below(all, v.start as int);
    lemma_first_below(all, hi + 1);
    lemma_first_below(all, v.end as int);
    lemma_first_below(all, v.start as int);
    let e = if j + n <= all.len() {
        j + n
    } else {
        all.len() as int
    };
    assert(page == all.subrange(j, e));
    assert(a <= j) by {
        if a > j {
            assert(all[j] >= hi + 1);
        }
    }
    if page.len() == 0 {
        assert(j == all.len());
        assert(pick(page, keep) =~= Seq::<u64>::empty());
        if v.start <= v.end {
            assert(b == all.len()) by {
                lemma_first_below_at(all, v.start as int, all.len() as int);
            }
        } else {
            assert(b <= a) by {
                if b > a {
                    assert(all[a] >= v.start);
                }
            }
        }
        assert(kept + pick(page, keep) =~= times_within(all, v.start as int, hi));
    } else {
        let last = page[page.len() - 1];
        assert(last == all[e - 1]);
        assert(newest_first(page)) by {
            assert forall|x: int, y: int| 0 <= x <= y < page.len() implies page[x] >= page[y] by {
                assert(page[x] == all[j + x] && page[y] == all[j + y]);
            }
        }
        if last < v.start && v.end < v.start {
            assert(j == a);
            assert(b <= j) by {
                if b > j {
                    assert(all[j] >= v.start);
                }
            }
            assert forall|i: int| 0 <= i < page.len() implies page[i] < v.start by {
                assert(page[i] == all[j + i]);
            }
            lemma_indices_prefix(page, v.start, 0, page.len() as int);
            assert(keep == all_indices(0));
            assert(pick(page, keep) =~= Seq::<u64>::empty());
            assert(kept =~= Seq::<u64>::empty());
            assert(kept + pick(page, keep) =~= times_within(all, v.start as int, hi));
        } else if last < v.start {
            let m = b - j;
            assert(j <= b <= e) by {
                if b < j {
                    assert(all[b] < v.start);
                    assert(all[b] >= v.end);
                }
                if b > e {
                    assert(all[e - 1] >= v.start);
                }
            }
            assert forall|i: int| 0 <= i < m implies page[i] >= v.start by {
                assert(page[i] == all[j + i]);
            }
            assert forall|i: int| m <= i < page.len() implies page[i] < v.start by {
                assert(page[i] == all[j + i]);
            }
            lemma_indices_prefix(page, v.start, m, page.len() as int);
            assert(keep == all_indices(m as nat));
            assert(pick(page, keep) =~= all.subrange(j, b));
            assert(kept + pick(page, keep) =~= times_within(all, v.start as int, hi));
        } else {
            assert(keep == all_indices(page.len()));
            assert(pick(page, keep) =~= all.subrange(j, e));
            assert(first_below(all, last as int) == e) by {
                assert forall|i: int| 0 <= i < e implies all[i] >= last by {
                    if i < e - 1 {
                        assert(all[i] > all[e - 1]);
                    }
                }
                assert forall|i: int| e <= i < all.len() implies all[i] < last by {
                    assert(all[e - 1] > all[i]);
                }
                lemma_first_below_at(all, last as int, e);
            }
            assert(all[j] < v.end);
            assert(last <= all[j]) by {
                if e - 1 > j {
                    assert(all[j] > all[e - 1]);
                }
            }
            assert(kept + pick(page, keep) =~= all.subrange(a, e));
        }
    }
}

/// The times [`times_within`] gives are exactly those of `all` from `lo` to
/// `hi`: each lies in that span, and each time of `all` in it is there.
pub proof fn lemma_times_within(all: Seq<u64>, lo: int, hi: int)
    requires
        strictly_newest_first(all),
    ensures
        forall|i: int|
            0 <= i < times_within(all, lo, hi).len() ==> lo <= #[trigger] times_within(all, lo, hi)[i]
                <= hi,
        forall|k: int|
            0 <= k < all.len() && lo <= all[k] <= hi ==> times_within(all, lo, hi).contains(
                #[trigger] all[k],
            ),
{
    assert(newest_first(all));
    lemma_first_below(all, hi + 1);
    lemma_first_below(all, lo);
    let a = first_below(all, hi + 1);
    let b = first_below(all, lo);
    let w = times_within(all, lo, hi);
    assert forall|i: int| 0 <= i < w.len() implies lo <= #[trigger] w[i] <= hi by {
        assert(w[i] == all[a + i]);
    }
    assert forall|k: int| 0 <= k < all.len() && lo <= all[k] <= hi implies w.contains(
        #[trigger] all[k],
    ) by {
        assert(a <= k < b);
        assert(w[k - a] == all[k]);
    }
}

/// How far back the next request of `v` reaches: its time, where a time of
/// 0 (the newest candles) ranks above every other.
pub open spec fn request_rank(v: RangeFetchView) -> int {
    if v.end == 0 {
        u64::MAX + 1
    } else {
        v.end as int
    }
}

/// The candle times that the gathering keeps from state `v` on, against a
/// venue holding the candle times `all` (newest first) that answers each
/// request with at most `n` candles: the kept part of each page, in the
/// order the pages come, until the gathering ends or stops reaching further
/// back.
pub open spec fn gather_from(all: Seq<u64>, v: RangeFetchView, n: int) -> Seq<u64>
    decreases request_rank(v),
{
    if v.done {
        Seq::empty()
    } else {
        let page = venue_page(all, v.end, n);
        let (w, keep) = fetch_receive(v, page);
        if !w.done && request_rank(w) < request_rank(v) {
            pick(page, keep) + gather_from(all, w, n)
        } else {
            pick(page, keep)
        }
    }
}

/// What is gathered from a state in the middle of a bounded gathering
/// completes what is held to exactly the candles of the range.
proof fn lemma_gather_rest(all: Seq<u64>, v: RangeFetchView, hi: int, kept: Seq<u64>, n: int)
    requires
        strictly_newest_first(all),
        all.len() <= usize::MAX,
        forall|i: int| 0 <= i < all.len() ==> all[i] > 0,
        gathered_so_far(all, v, hi, kept),
        n >= 1,
    ensures
        kept + gather_from(all, v, n) == times_within(all, v.start as int, hi),
    decreases request_rank(v),
{
    lemma_gather_step(all, v, hi, kept, n);
    let page = venue_page(all, v.end, n);
    let (w, keep) = fetch_receive(v, page);
    let now_kept = kept + pick(page, keep);
    if !w.done {
        lemma_gather_rest(all, w, hi, now_kept, n);
        assert(kept + gather_from(all, v, n) =~= now_kept + gather_from(all, w, n));
    } else {
        assert(kept + gather_from(all, v, n) =~= now_kept);
    }
}

/// The gathering of a bounded range, against a venue holding the candle
/// times `all` (strictly newest first, none at time 0) that answers each
/// request with the `n >= 1` newest candles before the asked time, keeps
/// exactly the candles from the range's start to its last time, both
/// included, newest first.
pub proof fn lemma_gathering_exact(all: Seq<u64>, range: TimeRange, now: u64, n: int)
    requires
        strictly_newest_first(all),
        all.len() <= usize::MAX,
        forall|i: int| 0 <= i < all.len() ==> all[i] > 0,
        !(range.start == 0 && range.end == 0),
        effective_end(range, now) < u64::MAX,
        n >= 1,
    ensures
        gather_from(all, fetch_start(range, now), n) == times_within(
            all,
            range.start as int,
            effective_end(range, now) as int,
        ),
{
    let hi = effective_end(range, now) as int;
    lemma_gather_start(all, range, now);
    lemma_gather_rest(all, fetch_start(range, now), hi, Seq::empty(), n);
    assert(Seq::<u64>::empty() + gather_from(all, fetch_start(range, now), n) =~= gather_from(
        all,
        fetch_start(range, now),
        n,
    ));
}

/// What a whole-history gathering holds between pages: nothing before the
/// first page, then the candles from the time it asks before next up to the
/// newest.
pub open spec fn gathered_whole(all: Seq<u64>, v: RangeFetchView, kept: Seq<u64>) -> bool {
    &&& v.whole
    &&& !v.done
    &&& v.start == 0
    &&& v.end == 0 ==> kept == Seq::<u64>::empty()
    &&& v.end > 0 ==> kept == all.subrange(0, first_below(all, v.end as int))
}

/// One page of a whole-history gathering, from a venue as in
/// [`lemma_gather_step`]: either the gathering goes on, holding every candle
/// from the new asked time on and reaching further back than before, or it
/// ends holding every candle.
pub proof fn lemma_whole_step(all: Seq<u64>, v: RangeFetchView, kept: Seq<u64>, n: int)
    requires
        strictly_newest_first(all),
        all.len() <= usize::MAX,
        forall|i: int| 0 <= i < all.len() ==> all[i] > 0,
        gathered_whole(all, v, kept),
        n >= 1,
    ensures
        ({
            let page = venue_page(all, v.end, n);
            let (w, keep) = fetch_receive(v, page);
            let now_kept = kept + pick(page, keep);
            &&& w.done ==> now_kept == all
            &&& !w.done ==> gathered_whole(all, w, now_kept) && request_rank(w) < request_rank(v)
        }),
{
    assert(newest_first(all));
    let page = venue_page(all, v.end, n);
    let (w, keep) = fetch_receive(v, page);
    lemma_first_below(all, v.end as int);
    let j = if v.end == 0 {
        0
    } else {
        first_below(all, v.end as int)
    };
    let e = if j + n <= all.len() {
        j + n
    } else {
        all.len() as int
    };
    assert(page == all.subrange(j, e));
    if v.end == 0 {
        assert(kept =~= all.subrange(0, 0));
    }
    if page.len() == 0 {
        assert(j == all.len());
        assert(pick(page, keep) =~= Seq::<u64>::empty());
        assert(kept + pick(page, keep) =~= all);
    } else {
        let last = page[page.len() - 1];
        assert(last == all[e - 1]);
        assert(keep == all_indices(page.len()));
        assert(pick(page, keep) =~= all.subrange(j, e));
        assert(first_below(all, last as int) == e) by {
            assert forall|i: int| 0 <= i < e implies all[i] >= last by {
                if i < e - 1 {
                    assert(all[i] > all[e - 1]);
                }
            }
            assert forall|i: int| e <= i < all.len() implies all[i] < last by {
                assert(all[e - 1] > all[i]);
            }
            lemma_first_below_at(all, last as int, e);
        }
        if v.end > 0 {
            assert(all[j] < v.end);
            assert(last <= all[j]) by {
                if e - 1 > j {
                    assert(all[j] > all[e - 1]);
                }
            }
        }
        assert(kept + pick(page, keep) =~= all.subrange(0, e));
    }
}

/// What is gathered from a state in the middle of a whole-history gathering
/// completes what is held to every candle.
proof fn lemma_whole_rest(all: Seq<u64>, v: RangeFetchView, kept: Seq<u64>, n: int)
    requires
        strictly_newest_first(all),
        all.len() <= usize::MAX,
        forall|i: int| 0 <= i < all.len() ==> all[i] > 0,
        gathered_whole(all, v, kept),
        n >= 1,
    ensures
        kept + gather_from(all, v, n) == all,
    decreases request_rank(v),
{
    lemma_whole_step(all, v, kept, n);
    let page = venue_page(all, v.end, n);
    let (w, keep) = fetch_receive(v, page);
    let now_kept = kept + pick(page, keep);
    if !w.done {
        lemma_whole_rest(all, w, now_kept, n);
        assert(kept + gather_from(all, v, n) =~= now_kept + gather_from(all, w, n));
    } else {
        assert(kept + gather_from(all, v, n) =~= now_kept);
    }
}

/// The range `0..=0`, against a venue holding the candle times `all`
/// (strictly newest first, none at time 0) that answers each request with
/// the `n >= 1` newest candles before the asked time (of all candles for a
/// time of 0), gathers every candle, newest first.
pub proof fn lemma_gathering_whole(all: Seq<u64>, range: TimeRange, now: u64, n: int)
    requires
        strictly_newest_first(all),
        all.len() <= usize::MAX,
        forall|i: int| 0 <= i < all.len() ==> all[i] > 0,
        range.start == 0,
        range.end == 0,
        n >= 1,
    ensures
        gather_from(all, fetch_start(range, now), n) == all,
{
    lemma_whole_rest(all, fetch_start(range, now), Seq::empty(), n);
    assert(Seq::<u64>::empty() + gather_from(all, fetch_start(range, now), n) =~= gather_from(
        all,
        fetch_start(range, now),
        n,
    ));
}

/// Indices, in order, of the first `n` times that come before `time`, where
/// a `time` of 0 lets every time through.
pub open spec fn indices_before(times: Seq<u64>, time: u64, n: int) -> Seq<usize>
    decreases n,
{
    if n <= 0 {
        Seq::empty()
    } else {
        let prev = indices_before(times, time, n - 1);
        if time == 0 || times[n - 1] < time {
            prev.push((n - 1) as usize)
        } else {
            prev
        }
    }
}

/// Indices, in order, of the first `n` times that are at most `time`.
pub open spec fn indices_up_to(times: Seq<u64>, time: u64, n: int) -> Seq<usize>
    decreases n,
{
    if n <= 0 {
        Seq::empty()
    } else {
        let prev = indices_up_to(times, time, n - 1);
        if times[n - 1] <= time {
            prev.push((n - 1) as usize)
        } else {
            prev
        }
    }
}

/// The indices of the stored candle times `times` that a venue keeping its
/// candles in memory answers a request before `time` with: those before
/// `time`, or all of them for a `time` of 0.
pub fn candles_before(times: &Vec<u64>, time: u64) -> (r: Vec<usize>)
    ensures
        r@ == indices_before(times@, time, times.len() as int),
{
    let mut r: Vec<usize> = Vec::new();
    let mut i: usize = 0;
    while i < times.len()
        invariant
            i <= times.len(),
            r@ == indices_before(times@, time, i as int),
        decreases times.len() - i,
    {
        if time == 0 || times[i] < time {
            r.push(i);
        }
        i = i + 1;
    }
    r
}

/// The indices of the stored candle times `times` that are at most `time`.
pub fn candles_up_to(times: &Vec<u64>, time: u64) -> (r: Vec<usize>)
    ensures
        r@ == indices_up_to(times@, time, times.len() as int),
{
    let mut r: Vec<usize> = Vec::new();
    let mut i: usize = 0;
    while i < times.len()
        invariant
            i <= times.len(),
            r@ == indices_up_to(times@, time, i as int),
        decreases times.len() - i,
    {
        if times[i] <= time {
            r.push(i);
        }
        i = i + 1;
    }
    r
}

/// The indices `j`, `j + 1`, ..., `n - 1`.
pub open spec fn indices_from(j: int, n: int) -> Seq<usize> {
    Seq::new(if j <= n {
        (n - j) as nat
    } else {
        0
    }, |k: int| (j + k) as usize)
}

/// In a newest-first sequence the times before `time` are those from the
/// crossing point on.
proof fn lemma_indices_before_suffix(all: Seq<u64>, time: u64, j: int, n: int)
    requires
        newest_first(all),
        0 <= j <= all.len(),
        0 <= n <= all.len(),
        all.len() <= usize::MAX,
        time == 0 ==> j == 0,
        forall|i: int| 0 <= i < j ==> #[trigger] all[i] >= time,
        forall|i: int| j <= i < all.len() ==> time == 0 || #[trigger] all[i] < time,
    ensures
        indices_before(all, time, n) == indices_from(j, n),
    decreases n,
{
    if n > 0 {
        lemma_indices_before_suffix(all, time, j, n - 1);
        if n - 1 >= j {
            assert(indices_from(j, n - 1).push((n - 1) as usize) =~= indices_from(j, n));
        } else {
            assert(indices_from(j, n - 1) =~= indices_from(j, n));
        }
    } else {
        assert(indices_from(j, 0) =~= Seq::<usize>::empty());
    }
}

/// A venue that keeps the candle times `all` (strictly newest first) in
/// memory and answers with [`candles_before`] gives the page that
/// [`venue_page`] describes with no bound on its size, so the gathering laws
/// hold for it.
pub proof fn lemma_memory_venue_page(all: Seq<u64>, time: u64)
    requires
        strictly_newest_first(all),
        all.len() <= usize::MAX,
    ensures
        pick(all, indices_before(all, time, all.len() as int)) == venue_page(
            all,
            time,
            all.len() as int,
        ),
{
    assert(newest_first(all));
    lemma_first_below(all, time as int);
    let j = if time == 0 {
        0
    } else {
        first_below(all, time as int)
    };
    lemma_indices_before_suffix(all, time, j, all.len() as int);
    assert(pick(all, indices_from(j, all.len() as int)) =~= all.subrange(j, all.len() as int));
}

} // verus!
