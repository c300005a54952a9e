use vstd::prelude::*;
use vstd::string::*;

verus! {

/// Time level of a candle.
#[derive(Debug, Clone, Copy, PartialEq, Eq, Structural, Hash)]
pub enum Level {
    /// 1 minute.
    Minute1,
    /// 3 minutes.
    Minute3,
    /// 5 minutes.
    Minute5,
    /// 15 minutes.
    Minute15,
    /// 30 minutes.
    Minute30,
    /// 1 hour.
    Hour1,
    /// 2 hours.
    Hour2,
    /// 4 hours.
    Hour4,
    /// 6 hours.
    Hour6,
    /// 12 hours.
    Hour12,
    /// 1 day.
    Day1,
    /// 3 days.
    Day3,
    /// 1 week.
    Week1,
    /// 1 month.
    Month1,
}

/// Position in the declaration order of the levels, finest first.
pub open spec fn level_rank(level: Level) -> nat {
    match level {
        Level::Minute1 => 0,
        Level::Minute3 => 1,
        Level::Minute5 => 2,
        Level::Minute15 => 3,
        Level::Minute30 => 4,
        Level::Hour1 => 5,
        Level::Hour2 => 6,
        Level::Hour4 => 7,
        Level::Hour6 => 8,
        Level::Hour12 => 9,
        Level::Day1 => 10,
        Level::Day3 => 11,
        Level::Week1 => 12,
        Level::Month1 => 13,
    }
}

impl Level {
    /// The level's position in declaration order (`Minute1` is 0, `Month1` is 13).
    pub fn rank(self) -> (r: u32)
        ensures
            r == level_rank(self),
    {
        match self {
            Level::Minute1 => 0,
            Level::Minute3 => 1,
            Level::Minute5 => 2,
            Level::Minute15 => 3,
            Level::Minute30 => 4,
            Level::Hour1 => 5,
            Level::Hour2 => 6,
            Level::Hour4 => 7,
            Level::Hour6 => 8,
            Level::Hour12 => 9,
            Level::Day1 => 10,
            Level::Day3 => 11,
            Level::Week1 => 12,
            Level::Month1 => 13,
        }
    }
}

/// The text that names a level ("1 minute", "4 hour", "1 week", ...).
pub open spec fn level_name(level: Level) -> Seq<char> {
    match level {
        Level::Minute1 => "1 minute"@,
        Level::Minute3 => "3 minute"@,
        Level::Minute5 => "5 minute"@,
        Level::Minute15 => "15 minute"@,
        Level::Minute30 => "30 minute"@,
        Level::Hour1 => "1 hour"@,
        Level::Hour2 => "2 hour"@,
        Level::Hour4 => "4 hour"@,
        Level::Hour6 => "6 hour"@,
        Level::Hour12 => "12 hour"@,
        Level::Day1 => "1 day"@,
        Level::Day3 => "3 day"@,
        Level::Week1 => "1 week"@,
        Level::Month1 => "1 month"@,
    }
}

impl Level {
    /// The display text of the level.
    pub fn to_string(&self) -> (r: String)
        ensures
            r@ == level_name(*self),
    {
        let s: &str = match self {
            Level::Minute1 => "1 minute",
            Level::Minute3 => "3 minute",
            Level::Minute5 => "5 minute",
            Level::Minute15 => "15 minute",
            Level::Minute30 => "30 minute",
            Level::Hour1 => "1 hour",
            Level::Hour2 => "2 hour",
            Level::Hour4 => "4 hour",
            Level::Hour6 => "6 hour",
            Level::Hour12 => "12 hour",
            Level::Day1 => "1 day",
            Level::Day3 => "3 day",
            Level::Week1 => "1 week",
            Level::Month1 => "1 month",
        };
        String::from_str(s)
    }
}

/// Direction of an order.
#[derive(Debug, Clone, Copy, PartialEq, Eq, Structural, Hash)]
pub enum Side {
    /// Buy to open a long position.
    BuyLong,
    /// Sell to open a short position.
    SellShort,
    /// Sell to close a long position.
    BuySell,
    /// Buy to close a short position.
    SellLong,
}

impl Side {
    /// Whether the side opens (or adds to) a position.
    pub open spec fn spec_is_open(self) -> bool {
        self == Side::BuyLong || self == Side::SellShort
    }

    /// Whether this side opens a position: `BuyLong` or `SellShort`.
    #[verifier::when_used_as_spec(spec_is_open)]
    pub fn is_open(self) -> (r: bool)
        ensures
            r == self.spec_is_open(),
    {
        self == Side::BuyLong || self == Side::SellShort
    }

    /// The side that closes a position held on `self`: `BuySell` closes a
    /// long, `SellLong` closes a short.
    pub open spec fn spec_close_side(self) -> Side {
        if self == Side::BuyLong {
            Side::BuySell
        } else {
            Side::SellLong
        }
    }

    /// The closing side for a position opened with `self`.
    #[verifier::when_used_as_spec(spec_close_side)]
    pub fn close_side(self) -> (r: Side)
        ensures
            r == self.spec_close_side(),
            !r.spec_is_open(),
    {
        if self == Side::BuyLong {
            Side::BuySell
        } else {
            Side::SellLong
        }
    }
}

impl Side {
    /// Whether an order on `self` works against a position held on
    /// `position`: closing a long (`BuySell`) while short, or closing a short
    /// (`SellLong`) while long.
    pub open spec fn spec_conflicts_with(self, position: Side) -> bool {
        (self == Side::BuySell && position == Side::SellShort) || (self == Side::SellLong
            && position == Side::BuyLong)
    }

    /// Whether a closing order on `self` does not fit a position held on `position`.
    #[verifier::when_used_as_spec(spec_conflicts_with)]
    pub fn conflicts_with(self, position: Side) -> (r: bool)
        ensures
            r == self.spec_conflicts_with(position),
    {
        (self == Side::BuySell && position == Side::SellShort) || (self == Side::SellLong
            && position == Side::BuyLong)
    }
}

/// The closing side of an open side fits exactly the positions held on that
/// side: it conflicts with the opposite open side and with no other.
pub proof fn lemma_close_side_fits(open: Side, position: Side)
    requires
        open.spec_is_open(),
        position.spec_is_open(),
    ensures
        open.spec_close_side().spec_conflicts_with(position) <==> position != open,
{
}

/// A range of candle times in milliseconds, both ends included.
#[derive(Debug, Clone, Copy, PartialEq, Eq, Structural)]
pub struct TimeRange {
    pub start: u64,
    pub end: u64,
}

/// The end that stands for "up to now".
pub open spec fn open_end() -> u64 {
    (u64::MAX - 1) as u64
}

impl TimeRange {
    /// `start..end`: the times from `start` up to `end - 1`.
    pub fn exclusive(start: u64, end: u64) -> (r: TimeRange)
        requires
            end > 0,
        ensures
            r == (TimeRange { start, end: (end - 1) as u64 }),
    {
        TimeRange { start, end: end - 1 }
    }

    /// `start..`: the times from `start` up to now.
    pub fn from_start(start: u64) -> (r: TimeRange)
        ensures
            r == (TimeRange { start, end: open_end() }),
    {
        TimeRange { start, end: u64::MAX - 1 }
    }

    /// `..end`: the times from 0 up to `end - 1`.
    pub fn before(end: u64) -> (r: TimeRange)
        requires
            end > 0,
        ensures
            r == (TimeRange { start: 0, end: (end - 1) as u64 }),
    {
        TimeRange { start: 0, end: end - 1 }
    }

    /// `..`: all times up to now.
    pub fn full() -> (r: TimeRange)
        ensures
            r == (TimeRange { start: 0, end: open_end() }),
    {
        TimeRange { start: 0, end: u64::MAX - 1 }
    }

    /// `start..=end`.
    pub fn inclusive(start: u64, end: u64) -> (r: TimeRange)
        ensures
            r == (TimeRange { start, end }),
    {
        TimeRange { start, end }
    }

    /// `..=end`.
    pub fn through(end: u64) -> (r: TimeRange)
        ensures
            r == (TimeRange { start: 0, end }),
    {
        TimeRange { start: 0, end }
    }
}

impl From<u64> for TimeRange {
    /// A single number `end` means the times from 0 up to `end`; `0` asks for
    /// every candle there is.
    fn from(value: u64) -> (r: TimeRange) {
        TimeRange { start: 0, end: value }
    }
}

impl vstd::std_specs::convert::FromSpecImpl<u64> for TimeRange {
    open spec fn obeys_from_spec() -> bool {
        true
    }

    open spec fn from_spec(v: u64) -> TimeRange {
        TimeRange { start: 0, end: v }
    }
}

} // verus!
