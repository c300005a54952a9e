use auto_trading::{IndexIter, Scanner};

fn k_times() -> Vec<u64> {
    vec![1000, 900, 800, 700, 600, 500, 400, 300, 200, 100]
}

#[test]
fn index_iter_windows() {
    let mut it = IndexIter::new(k_times(), vec![1000, 700, 400, 100]);
    assert_eq!(it.next(), Some((7, 3)));
    assert_eq!(it.next(), Some((4, 2)));
    assert_eq!(it.next(), Some((1, 1)));
    assert_eq!(it.next(), None);
    assert_eq!(it.next(), None);
}

#[test]
fn index_iter_short_strategy() {
    let mut it = IndexIter::new(k_times(), vec![1000]);
    assert_eq!(it.next(), None);
    let mut it = IndexIter::new(k_times(), vec![]);
    assert_eq!(it.next(), None);
}

#[test]
fn index_iter_window_at_newest_candle() {
    // The window of the newest strategy candle would end past the newest
    // fine candle: the step is taken but nothing is reported.
    let mut it = IndexIter::new(vec![1000, 900], vec![800, 700]);
    assert_eq!(it.next(), None);
}

#[test]
fn index_iter_no_fine_candle_late_enough() {
    let mut it = IndexIter::new(vec![300, 200, 100], vec![2000, 1000]);
    assert_eq!(it.next(), None);
    assert_eq!(it.next(), None);
}

#[test]
fn scanner_holds_window_until_next() {
    let mut s = Scanner::new(k_times(), vec![1000, 700, 400, 100]);
    assert_eq!(s.get(), Some((7, 3)));
    assert_eq!(s.get(), Some((7, 3)));
    s.next();
    assert_eq!(s.get(), Some((4, 2)));
    s.next();
    assert_eq!(s.get(), Some((1, 1)));
    s.next();
    assert_eq!(s.get(), None);
}

#[test]
fn scanner_due_walk() {
    // Walking the fine candles from the oldest, the strategy is due at the
    // last fine candle of each strategy window.
    let mut s = Scanner::new(k_times(), vec![1000, 700, 400, 100]);
    let mut calls = Vec::new();
    for index in (0..10).rev() {
        if let Some(start) = s.due(index) {
            calls.push((index, start));
        }
    }
    assert_eq!(calls, vec![(7, 3), (4, 2), (1, 1)]);
}
