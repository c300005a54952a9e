//! Alignment of candles of a fine level (`k`) with candles of a coarser
//! strategy level. Both series are ordered newest first and are read here by
//! their times alone.
use vstd::prelude::*;

verus! {

/// Index of the last candle before `upto` whose time is at least `t`.
pub open spec fn last_at_least(k: Seq<u64>, upto: int, t: u64) -> Option<int>
    decreases upto,
{
    if upto <= 0 {
        None
    } else if k[upto - 1] >= t {
        Some(upto - 1)
    } else {
        last_at_least(k, upto - 1, t)
    }
}

/// One step of the alignment. From cursors `ki` (into `k`) and `si` (into
/// `s`) it gives the reported pair `(k_end, s_start)` if any, then the new
/// cursors. The strategy candle `s[si - 2]` starts a window; the last fine
/// candle at or after that start, before `ki`, becomes the new `ki`, and the
/// candle after it ends the window of strategy candle `si - 1`.
pub open spec fn index_step(k: Seq<u64>, s: Seq<u64>, ki: int, si: int) -> (
    Option<(usize, usize)>,
    int,
    int,
) {
    if si < 2 {
        (None, ki, si)
    } else {
        match last_at_least(k, ki, s[si - 2]) {
            None => (None, ki, si),
            Some(j) => (
                if j + 1 < k.len() {
                    Some(((j + 1) as usize, (si - 1) as usize))
                } else {
                    None
                },
                j,
                si - 1,
            ),
        }
    }
}

/// The abstract state of an [`IndexIter`].
pub struct IndexIterView {
    pub k: Seq<u64>,
    pub strategy: Seq<u64>,
    pub k_index: int,
    pub strategy_index: int,
}

/// Walks the strategy candles from the oldest and reports, for each, the
/// fine candle at which its window ends.
#[derive(Debug)]
pub struct IndexIter {
    k: Vec<u64>,
    strategy: Vec<u64>,
    k_index: usize,
    strategy_index: usize,
}

impl View for IndexIter {
    type V = IndexIterView;

    closed spec fn view(&self) -> IndexIterView {
        IndexIterView {
            k: self.k@,
            strategy: self.strategy@,
            k_index: self.k_index as int,
            strategy_index: self.strategy_index as int,
        }
    }
}

impl IndexIter {
    #[verifier::type_invariant]
    spec fn inv(self) -> bool {
        &&& self.k_index <= self.k.len()
        &&& self.strategy_index <= self.strategy.len()
    }

    /// Starts with both cursors past the oldest candle.
    ///
    /// * `k` times of the fine candles, newest first.
    /// * `strategy` times of the strategy candles, newest first.
    pub fn new(k: Vec<u64>, strategy: Vec<u64>) -> (r: IndexIter)
        ensures
            r@.k == k@,
            r@.strategy == strategy@,
            r@.k_index == k.len(),
            r@.strategy_index == strategy.len(),
    {
        let k_index: usize = k.len();
        let strategy_index: usize = strategy.len();
        IndexIter { k, strategy, k_index, strategy_index }
    }

    /// The next window, as `(k_end, strategy_start)`: the fine candle at index
    /// `k_end` is the last one of the strategy candle at `strategy_start`.
    ///
    /// With `k = [1000, 900, ..., 100]` and `strategy = [1000, 700, 400, 100]`
    /// the calls give `Some((7, 3))`, `Some((4, 2))`, `Some((1, 1))`, `None`.
    pub fn next(&mut self) -> (r: Option<(usize, usize)>)
        ensures
            final(self)@.k == old(self)@.k,
            final(self)@.strategy == old(self)@.strategy,
            (r, final(self)@.k_index, final(self)@.strategy_index) == index_step(
                old(self)@.k,
                old(self)@.strategy,
                old(self)@.k_index,
                old(self)@.strategy_index,
            ),
    {
        proof {
            use_type_invariant(&*self);
        }
        if self.strategy_index < 2 {
            return None;
        }
        let t: u64 = self.strategy[self.strategy_index - 2];
        let mut j: usize = self.k_index;
        while j > 0
            invariant
                j <= self.k_index <= self.k.len(),
                self.strategy_index >= 2,
                t == self.strategy@[self.strategy_index - 2],
                last_at_least(self.k@, self.k_index as int, t) == last_at_least(
                    self.k@,
                    j as int,
                    t,
                ),
            ensures
                j <= self.k_index <= self.k.len(),
                last_at_least(self.k@, self.k_index as int, t) == last_at_least(
                    self.k@,
                    j as int,
                    t,
                ),
                j == 0 || self.k@[j - 1] >= t,
            decreases j,
        {
            if self.k[j - 1] >= t {
                break;
            }
            j = j - 1;
        }
        if j == 0 {
            return None;
        }
        let found: usize = j - 1;
        self.k_index = found;
        self.strategy_index = self.strategy_index - 1;
        if found + 1 < self.k.len() {
            Some((found + 1, self.strategy_index))
        } else {
            None
        }
    }
}

/// The abstract state of a [`Scanner`].
pub struct ScannerView {
    pub iter: IndexIterView,
    pub last: Option<(usize, usize)>,
}

/// The scanner state after the iterator took one step and the step's result
/// became the held window.
pub open spec fn scanner_advanced(v: ScannerView) -> ScannerView {
    let (n, ki, si) = index_step(v.iter.k, v.iter.strategy, v.iter.k_index, v.iter.strategy_index);
    ScannerView {
        iter: IndexIterView {
            k: v.iter.k,
            strategy: v.iter.strategy,
            k_index: ki,
            strategy_index: si,
        },
        last: n,
    }
}

/// The scanner state once a window is held: unchanged if one already is,
/// else advanced by one step.
pub open spec fn scanner_held(v: ScannerView) -> ScannerView {
    if v.last is Some {
        v
    } else {
        scanner_advanced(v)
    }
}

/// A well-formed scanner state: both cursors within their series, and a
/// held window is the one the iterator's last step reported, ending at the
/// fine candle just after the fine cursor and naming the strategy cursor.
pub open spec fn scanner_wf(v: ScannerView) -> bool {
    &&& 0 <= v.iter.k_index <= v.iter.k.len() <= usize::MAX
    &&& 0 <= v.iter.strategy_index <= v.iter.strategy.len() <= usize::MAX
    &&& v.last matches Some((e, st)) ==> {
        &&& e == v.iter.k_index + 1
        &&& e < v.iter.k.len()
        &&& st == v.iter.strategy_index
    }
}

/// An [`IndexIter`] that keeps its current window until told to move on.
#[derive(Debug)]
pub struct Scanner {
    iter: IndexIter,
    last: Option<(usize, usize)>,
}

impl View for Scanner {
    type V = ScannerView;

    closed spec fn view(&self) -> ScannerView {
        ScannerView { iter: self.iter@, last: self.last }
    }
}

impl Scanner {
    /// A scanner over fine candle times `k` and strategy candle times
    /// `strategy`, both newest first.
    pub fn new(k: Vec<u64>, strategy: Vec<u64>) -> (r: Scanner)
        ensures
            r@.iter.k == k@,
            r@.iter.strategy == strategy@,
            r@.iter.k_index == k.len(),
            r@.iter.strategy_index == strategy.len(),
            r@.last is None,
            scanner_wf(r@),
    {
        Scanner { iter: IndexIter::new(k, strategy), last: None }
    }

    /// The current window `(k_end, strategy_start)`, fetching the next one
    /// when none is held.
    pub fn get(&mut self) -> (r: Option<(usize, usize)>)
        ensures
            final(self)@ == scanner_held(old(self)@),
            r == final(self)@.last,
            scanner_wf(old(self)@) ==> scanner_wf(final(self)@),
    {
        proof {
            lemma_wf_kept(self@);
        }
        if self.last.is_none() {
            self.last = self.iter.next();
        }
        self.last
    }

    /// Drops the current window and fetches the next one.
    pub fn next(&mut self)
        ensures
            final(self)@ == scanner_advanced(old(self)@),
            scanner_wf(old(self)@) ==> scanner_wf(final(self)@),
    {
        proof {
            lemma_wf_kept(self@);
        }
        self.last = self.iter.next();
    }

    /// Whether the strategy is due at fine candle `index`: if the held window
    /// ends at `index`, gives the window's strategy candle and moves on to
    /// the next window; otherwise gives `None` and keeps the window.
    pub fn due(&mut self, index: usize) -> (r: Option<usize>)
        ensures
            ({
                let held = scanner_held(old(self)@);
                match held.last {
                    Some((e, s)) if e == index => {
                        &&& r == Some(s)
                        &&& final(self)@ == scanner_advanced(held)
                    },
                    _ => {
                        &&& r is None
                        &&& final(self)@ == held
                    },
                }
            }),
            scanner_wf(old(self)@) ==> scanner_wf(final(self)@),
    {
        match self.get() {
            Some((end, start)) => {
                if end == index {
                    self.next();
                    Some(start)
                } else {
                    None
                }
            },
            None => None,
        }
    }
}

/// What [`last_at_least`] finds: a candle before `upto` at or after `t`, with
/// every later candle before `upto` earlier than `t`.
pub proof fn lemma_last_at_least(k: Seq<u64>, upto: int, t: u64)
    requires
        upto <= k.len(),
    ensures
        match last_at_least(k, upto, t) {
            Some(j) => {
                &&& 0 <= j < upto
                &&& k[j] >= t
                &&& forall|m: int| j < m < upto ==> k[m] < t
            },
            None => forall|m: int| 0 <= m < upto ==> k[m] < t,
        },
    decreases upto,
{
    if upto > 0 {
        lemma_last_at_least(k, upto - 1, t);
    }
}

/// A window reported by the iterator is well placed: its end `e` is a fine
/// candle index, its strategy candle `s` is the one before the cursor, the
/// fine candle just before `e` is at or after the start of strategy candle
/// `s - 1`, and the fine candles from `e` up to the old cursor are before it.
pub proof fn lemma_window_placed(k: Seq<u64>, s: Seq<u64>, ki: int, si: int)
    requires
        0 <= ki <= k.len() <= usize::MAX,
        0 <= si <= s.len() <= usize::MAX,
    ensures
        index_step(k, s, ki, si).0 matches Some((e, st)) ==> {
            &&& 0 < e < k.len()
            &&& e <= ki
            &&& st + 1 == si
            &&& k[e - 1] >= s[st - 1]
            &&& forall|m: int| e <= m < ki ==> k[m] < s[st - 1]
        },
        0 <= index_step(k, s, ki, si).1 <= ki,
        0 <= index_step(k, s, ki, si).2 <= si,
{
    if si >= 2 {
        lemma_last_at_least(k, ki, s[si - 2]);
    }
}

/// Two windows reported one after the other move strictly toward the newest
/// candles: the second ends at an earlier index and belongs to the strategy
/// candle just before the first one.
pub proof fn lemma_windows_advance(k: Seq<u64>, s: Seq<u64>, ki: int, si: int)
    requires
        0 <= ki <= k.len() <= usize::MAX,
        0 <= si <= s.len() <= usize::MAX,
    ensures
        ({
            let (first, ki1, si1) = index_step(k, s, ki, si);
            let (second, _, _) = index_step(k, s, ki1, si1);
            first matches Some((e1, s1)) ==> second matches Some((e2, s2)) ==> e2 < e1 && s2
                + 1 == s1
        }),
{
    lemma_window_placed(k, s, ki, si);
    let (first, ki1, si1) = index_step(k, s, ki, si);
    lemma_window_placed(k, s, ki1, si1);
}

/// Each step consumes exactly one strategy candle whenever some fine candle
/// before the cursor `ki` is at or after the start of strategy candle
/// `si - 2`, whether or not it reports a window: the strategy cursor moves
/// to `si - 1`, the fine cursor moves to the last such fine candle, and the
/// window ending at the fine candle after it is reported for strategy
/// candle `si - 1` when that fine candle exists. Otherwise (no such fine
/// candle, or fewer than two strategy candles left) nothing is reported and
/// both cursors stay. So a later window never names a strategy candle at or
/// past one that an earlier step moved beyond.
pub proof fn lemma_step_consumes_one(k: Seq<u64>, s: Seq<u64>, ki: int, si: int)
    requires
        0 <= ki <= k.len() <= usize::MAX,
        0 <= si <= s.len() <= usize::MAX,
    ensures
        ({
            let (r, ki1, si1) = index_step(k, s, ki, si);
            if si >= 2 && exists|m: int| 0 <= m < ki && #[trigger] k[m] >= s[si - 2] {
                &&& si1 == si - 1
                &&& 0 <= ki1 < ki
                &&& k[ki1] >= s[si - 2]
                &&& forall|m: int| ki1 < m < ki ==> k[m] < s[si - 2]
                &&& r == (if ki1 + 1 < k.len() {
                    Some(((ki1 + 1) as usize, (si - 1) as usize))
                } else {
                    None
                })
            } else {
                &&& r is None
                &&& ki1 == ki
                &&& si1 == si
            }
        }),
{
    if si >= 2 {
        lemma_last_at_least(k, ki, s[si - 2]);
        if exists|m: int| 0 <= m < ki && #[trigger] k[m] >= s[si - 2] {
            let m = choose|m: int| 0 <= m < ki && #[trigger] k[m] >= s[si - 2];
            assert(k[m] >= s[si - 2]);
        }
    }
}

/// Taking a step, or holding a window, keeps a scanner state well formed.
pub proof fn lemma_wf_kept(v: ScannerView)
    ensures
        scanner_wf(v) ==> scanner_wf(scanner_advanced(v)),
        scanner_wf(v) ==> scanner_wf(scanner_held(v)),
{
    if scanner_wf(v) {
        lemma_window_placed(v.iter.k, v.iter.strategy, v.iter.k_index, v.iter.strategy_index);
        lemma_step_consumes_one(
            v.iter.k,
            v.iter.strategy,
            v.iter.k_index,
            v.iter.strategy_index,
        );
    }
}

/// The scanner reports exactly the iterator's windows: with no window held,
/// holding one takes one iterator step and holds what it reported, and
/// moving on always takes one iterator step; a held window stays held.
pub proof fn lemma_scanner_follows_iter(v: ScannerView)
    ensures
        ({
            let (r, ki, si) = index_step(
                v.iter.k,
                v.iter.strategy,
                v.iter.k_index,
                v.iter.strategy_index,
            );
            &&& scanner_advanced(v).last == r
            &&& scanner_advanced(v).iter.k_index == ki
            &&& scanner_advanced(v).iter.strategy_index == si
            &&& scanner_advanced(v).iter.k == v.iter.k
            &&& scanner_advanced(v).iter.strategy == v.iter.strategy
            &&& v.last is None ==> scanner_held(v) == scanner_advanced(v)
            &&& v.last is Some ==> scanner_held(v) == v
        }),
{
}

/// Once a window is held, asking for it again gives the same window and
/// leaves the scanner as it is.
pub proof fn lemma_held_stays(v: ScannerView)
    ensures
        scanner_held(v).last is Some ==> scanner_held(scanner_held(v)) == scanner_held(v),
{
}

/// When the strategy is due at the end of the held window, the window that
/// the scanner holds next (if any) ends at an earlier fine candle and
/// belongs to the strategy candle just newer than the one just reported.
pub proof fn lemma_due_moves_on(v: ScannerView, index: int)
    requires
        scanner_wf(v),
    ensures
        ({
            let held = scanner_held(v);
            let next = scanner_held(scanner_advanced(held));
            match (held.last, next.last) {
                (Some((e, st)), Some((e2, s2))) => e == index ==> e2 < e && s2 + 1 == st,
                _ => true,
            }
        }),
{
    lemma_wf_kept(v);
    let held = scanner_held(v);
    if held.last is Some {
        let k = held.iter.k;
        let s = held.iter.strategy;
        let ki = held.iter.k_index;
        let si = held.iter.strategy_index;
        lemma_window_placed(k, s, ki, si);
        lemma_step_consumes_one(k, s, ki, si);
        let after = scanner_advanced(held);
        lemma_wf_kept(after);
        if after.last is None {
            lemma_step_consumes_one(k, s, after.iter.k_index, after.iter.strategy_index);
        }
    }
}

} // verus!
