use auto_trading::fetch::{candles_before, candles_up_to};
use auto_trading::{RangeFetch, TimeRange};

#[test]
fn whole_history_pages() {
    let mut f = RangeFetch::new(TimeRange::from(0u64), 5_000);
    assert_eq!(f.request(), Some(0));
    assert_eq!(f.receive(&vec![900, 800, 700]), vec![0, 1, 2]);
    assert_eq!(f.request(), Some(700));
    assert_eq!(f.receive(&vec![600, 500]), vec![0, 1]);
    assert_eq!(f.request(), Some(500));
    assert_eq!(f.receive(&vec![]), Vec::<usize>::new());
    assert_eq!(f.request(), None);
    assert_eq!(f.receive(&vec![400]), Vec::<usize>::new());
}

#[test]
fn bounded_range_stops_at_start() {
    let mut f = RangeFetch::new(TimeRange::inclusive(550, 1000), 5_000);
    assert_eq!(f.request(), Some(1001));
    assert_eq!(f.receive(&vec![900, 800, 700]), vec![0, 1, 2]);
    assert_eq!(f.request(), Some(700));
    assert_eq!(f.receive(&vec![600, 500, 400]), vec![0]);
    assert_eq!(f.request(), None);
}

#[test]
fn open_ended_range_starts_now() {
    let f = RangeFetch::new(TimeRange::from_start(100), 5_000);
    assert_eq!(f.request(), Some(5_001));
    let f = RangeFetch::new(TimeRange::full(), 7_000);
    assert_eq!(f.request(), Some(7_001));
}

#[test]
fn bounded_range_empty_page_ends() {
    let mut f = RangeFetch::new(TimeRange::exclusive(100, 200), 5_000);
    assert_eq!(f.request(), Some(200));
    assert_eq!(f.receive(&vec![]), Vec::<usize>::new());
    assert_eq!(f.request(), None);
}

#[test]
fn bounded_range_page_at_start_continues() {
    // The oldest candle of the page is exactly at the start: the whole page
    // is kept and the next page is asked for.
    let mut f = RangeFetch::new(TimeRange::inclusive(500, 1000), 5_000);
    assert_eq!(f.receive(&vec![700, 600, 500]), vec![0, 1, 2]);
    assert_eq!(f.request(), Some(500));
}

#[test]
fn candle_at_range_end_is_kept() {
    let mut f = RangeFetch::new(TimeRange::inclusive(500, 1000), 5_000);
    assert_eq!(f.request(), Some(1001));
    assert_eq!(f.receive(&vec![1000, 900]), vec![0, 1]);
    assert_eq!(f.request(), Some(900));
}

#[test]
fn open_end_at_max_asks_before_max() {
    let f = RangeFetch::new(TimeRange::inclusive(10, u64::MAX), 5_000);
    assert_eq!(f.request(), Some(u64::MAX));
}

#[test]
fn gathering_keeps_exactly_the_range() {
    // A venue holding these candle times, answering each request with the
    // two newest candles before the asked time.
    let all: Vec<u64> = vec![1200, 1001, 1000, 900, 700, 600, 550, 500, 400];
    let mut f = RangeFetch::new(TimeRange::inclusive(550, 1000), 5_000);
    let mut got: Vec<u64> = Vec::new();
    let mut rounds = 0;
    while let Some(t) = f.request() {
        rounds += 1;
        assert!(rounds < 20);
        let page: Vec<u64> = all.iter().copied().filter(|x| *x < t).take(2).collect();
        for i in f.receive(&page) {
            got.push(page[i]);
        }
    }
    assert_eq!(got, vec![1000, 900, 700, 600, 550]);
}

#[test]
fn whole_history_gathers_everything() {
    // A venue holding these candle times, answering each request with the
    // three newest candles before the asked time (the newest three for 0).
    let all: Vec<u64> = vec![1200, 1001, 1000, 900, 700, 600, 550, 500, 400];
    let mut f = RangeFetch::new(TimeRange::from(0u64), 5_000);
    let mut got: Vec<u64> = Vec::new();
    let mut rounds = 0;
    while let Some(t) = f.request() {
        rounds += 1;
        assert!(rounds < 20);
        let page: Vec<u64> = all
            .iter()
            .copied()
            .filter(|x| t == 0 || *x < t)
            .take(3)
            .collect();
        for i in f.receive(&page) {
            got.push(page[i]);
        }
    }
    assert_eq!(got, all);
}

#[test]
fn memory_venue_filters() {
    let times: Vec<u64> = vec![900, 800, 700, 600];
    assert_eq!(candles_before(&times, 0), vec![0, 1, 2, 3]);
    assert_eq!(candles_before(&times, 800), vec![2, 3]);
    assert_eq!(candles_before(&times, 601), vec![3]);
    assert_eq!(candles_before(&times, 600), Vec::<usize>::new());
    assert_eq!(candles_up_to(&times, 800), vec![1, 2, 3]);
    assert_eq!(candles_up_to(&times, 0), Vec::<usize>::new());
    assert_eq!(candles_up_to(&times, 1000), vec![0, 1, 2, 3]);
}
