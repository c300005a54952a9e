use auto_trading::{Level, Side, TimeRange};

#[test]
fn level_rank_follows_declaration_order() {
    let levels = [
        Level::Minute1,
        Level::Minute3,
        Level::Minute5,
        Level::Minute15,
        Level::Minute30,
        Level::Hour1,
        Level::Hour2,
        Level::Hour4,
        Level::Hour6,
        Level::Hour12,
        Level::Day1,
        Level::Day3,
        Level::Week1,
        Level::Month1,
    ];
    for (i, level) in levels.iter().enumerate() {
        assert_eq!(level.rank(), i as u32);
    }
    assert!(Level::Minute1.rank() <= Level::Hour4.rank());
    assert!(!(Level::Day1.rank() <= Level::Hour4.rank()));
}

#[test]
fn level_names() {
    assert_eq!(Level::Minute1.to_string(), "1 minute");
    assert_eq!(Level::Minute3.to_string(), "3 minute");
    assert_eq!(Level::Minute5.to_string(), "5 minute");
    assert_eq!(Level::Minute15.to_string(), "15 minute");
    assert_eq!(Level::Minute30.to_string(), "30 minute");
    assert_eq!(Level::Hour1.to_string(), "1 hour");
    assert_eq!(Level::Hour2.to_string(), "2 hour");
    assert_eq!(Level::Hour4.to_string(), "4 hour");
    assert_eq!(Level::Hour6.to_string(), "6 hour");
    assert_eq!(Level::Hour12.to_string(), "12 hour");
    assert_eq!(Level::Day1.to_string(), "1 day");
    assert_eq!(Level::Day3.to_string(), "3 day");
    assert_eq!(Level::Week1.to_string(), "1 week");
    assert_eq!(Level::Month1.to_string(), "1 month");
}

#[test]
fn time_range_from_number() {
    let r: TimeRange = 0u64.into();
    assert_eq!(r, TimeRange { start: 0, end: 0 });
    let r = TimeRange::from(1695644739000u64);
    assert_eq!(r, TimeRange { start: 0, end: 1695644739000 });
}

#[test]
fn time_range_constructors() {
    assert_eq!(
        TimeRange::exclusive(1695212739000, 1695644739000),
        TimeRange { start: 1695212739000, end: 1695644738999 }
    );
    assert_eq!(
        TimeRange::from_start(1688384956000),
        TimeRange { start: 1688384956000, end: u64::MAX - 1 }
    );
    assert_eq!(TimeRange::before(10), TimeRange { start: 0, end: 9 });
    assert_eq!(TimeRange::before(1), TimeRange { start: 0, end: 0 });
    assert_eq!(TimeRange::full(), TimeRange { start: 0, end: u64::MAX - 1 });
    assert_eq!(TimeRange::inclusive(5, 7), TimeRange { start: 5, end: 7 });
    assert_eq!(TimeRange::through(7), TimeRange { start: 0, end: 7 });
}

#[test]
fn side_open_and_close() {
    assert!(Side::BuyLong.is_open());
    assert!(Side::SellShort.is_open());
    assert!(!Side::BuySell.is_open());
    assert!(!Side::SellLong.is_open());
    assert_eq!(Side::BuyLong.close_side(), Side::BuySell);
    assert_eq!(Side::SellShort.close_side(), Side::SellLong);
}

#[test]
fn side_conflicts() {
    assert!(Side::BuySell.conflicts_with(Side::SellShort));
    assert!(Side::SellLong.conflicts_with(Side::BuyLong));
    assert!(!Side::BuySell.conflicts_with(Side::BuyLong));
    assert!(!Side::SellLong.conflicts_with(Side::SellShort));
    // The closing side of each open side fits that side and only it.
    for open in [Side::BuyLong, Side::SellShort] {
        for position in [Side::BuyLong, Side::SellShort] {
            assert_eq!(open.close_side().conflicts_with(position), position != open);
        }
    }
}
