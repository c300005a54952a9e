//! The request decisions of the two market-data venues: which product name
//! each expects, how each names a candle level, and which endpoint and
//! parameters a candle or instrument request uses. The requests themselves
//! are made by the caller.
use vstd::prelude::*;
use vstd::string::*;
use crate::level::Level;
use crate::product::{
    product_mapping, mapped_symbol, chars_of, has_char, swap_at, ends_in_swap, ends_with_swap,
    joined_swap_suffix,
};

verus! {

/// Whether `s` holds `SWAP` somewhere.
pub open spec fn holds_swap(s: Seq<char>) -> bool {
    exists|i: int| 0 <= i && i + 4 <= s.len() && #[trigger] s.subrange(i, i + 4) == joined_swap_suffix()
}

/// Whether `SWAP` occurs in `s`.
fn contains_swap(s: &Vec<char>) -> (r: bool)
    ensures
        r == holds_swap(s@),
{
    if s.len() < 4 {
        return false;
    }
    let mut i: usize = 0;
    while i <= s.len() - 4
        invariant
            s.len() >= 4,
            i <= s.len() - 3,
            forall|k: int| 0 <= k < i ==> #[trigger] s@.subrange(k, k + 4) != joined_swap_suffix(),
        decreases s.len() - i,
    {
        if swap_at(s, i) {
            return true;
        }
        i = i + 1;
    }
    false
}

/// The product name the OKX venue expects: a name with `-` is used as it is,
/// any other name is mapped to its dashed form.
pub open spec fn okx_product(product: Seq<char>) -> Seq<char> {
    if product.contains('-') {
        product
    } else {
        mapped_symbol(product)
    }
}

/// The product name the Binance venue expects: a name with `-` is mapped to
/// its joined form, any other name is used as it is.
pub open spec fn binance_product(product: Seq<char>) -> Seq<char> {
    if product.contains('-') {
        mapped_symbol(product)
    } else {
        product
    }
}

/// The product name for the OKX venue.
pub fn okx_product_name(product: &str) -> (r: String)
    ensures
        r@ == okx_product(product@),
{
    let chars = chars_of(product);
    if has_char(&chars, '-') {
        String::from_str(product)
    } else {
        product_mapping(product)
    }
}

/// The product name for the Binance venue.
pub fn binance_product_name(product: &str) -> (r: String)
    ensures
        r@ == binance_product(product@),
{
    let chars = chars_of(product);
    if has_char(&chars, '-') {
        product_mapping(product)
    } else {
        String::from_str(product)
    }
}

/// Latest time, in milliseconds, that the calendar arithmetic is asked to
/// handle: the last millisecond of the year 262142, the last day that the
/// calendar library represents.
pub const LATEST_CALENDAR_MS: u64 = 8210266876799999;

/// What the calendar library gives as the time, in milliseconds, of the
/// first instant (UTC) of the calendar month that holds time `ms`.
pub uninterp spec fn utc_month_start(ms: u64) -> u64;

/// Asks `chrono` for the UTC start of the month holding `now_ms`: it builds
/// the UTC date-time of `now_ms` (`DateTime::from_timestamp_millis`), then
/// the date-time at day 1, 00:00:00 of the same year and month
/// (`TimeZone::with_ymd_and_hms`), and returns its millisecond timestamp.
/// Claimed: the result is the named `utc_month_start(now_ms)` and is not
/// after `now_ms`. Left unsaid: which calendar rules fix the month's start.
#[verifier::external_body]
fn month_start_millis(now_ms: u64) -> (r: u64)
    requires
        now_ms <= LATEST_CALENDAR_MS,
    ensures
        r == utc_month_start(now_ms),
        r <= now_ms,
{
    let now = chrono::DateTime::from_timestamp_millis(now_ms as i64).unwrap();
    let year: i32 = chrono::Datelike::year(&now);
    let month: u32 = chrono::Datelike::month(&now);
    let start = chrono::TimeZone::with_ymd_and_hms(&chrono::Utc, year, month, 1, 0, 0, 0).unwrap();
    start.timestamp_millis() as u64
}

/// How OKX names the bar of a level.
pub open spec fn okx_bar_name(level: Level) -> Seq<char> {
    match level {
        Level::Minute1 => "1m"@,
        Level::Minute3 => "3m"@,
        Level::Minute5 => "5m"@,
        Level::Minute15 => "15m"@,
        Level::Minute30 => "30m"@,
        Level::Hour1 => "1H"@,
        Level::Hour2 => "2H"@,
        Level::Hour4 => "4H"@,
        Level::Hour6 => "6Hutc"@,
        Level::Hour12 => "12Hutc"@,
        Level::Day1 => "1Dutc"@,
        Level::Day3 => "3Dutc"@,
        Level::Week1 => "1Wutc"@,
        Level::Month1 => "1Mutc"@,
    }
}

/// The span, in milliseconds, that OKX serves from its recent-candles
/// endpoint for a level: one candle's length, and for the month level the
/// time elapsed since the month began.
pub open spec fn okx_bar_span(level: Level, now: u64) -> int {
    match level {
        Level::Minute1 => 60000,
        Level::Minute3 => 180000,
        Level::Minute5 => 300000,
        Level::Minute15 => 900000,
        Level::Minute30 => 1800000,
        Level::Hour1 => 3600000,
        Level::Hour2 => 7200000,
        Level::Hour4 => 14400000,
        Level::Hour6 => 21600000,
        Level::Hour12 => 43200000,
        Level::Day1 => 86400000,
        Level::Day3 => 259200000,
        Level::Week1 => 604800000,
        Level::Month1 => now - utc_month_start(now),
    }
}

/// The OKX bar name of `level` and the span its recent-candles endpoint
/// covers, at time `now` (milliseconds).
pub fn okx_bar(level: Level, now: u64) -> (r: (String, u64))
    requires
        level == Level::Month1 ==> now <= LATEST_CALENDAR_MS,
    ensures
        r.0@ == okx_bar_name(level),
        r.1 == okx_bar_span(level, now),
{
    let (name, span): (&str, u64) = match level {
        Level::Minute1 => ("1m", 60000),
        Level::Minute3 => ("3m", 180000),
        Level::Minute5 => ("5m", 300000),
        Level::Minute15 => ("15m", 900000),
        Level::Minute30 => ("30m", 1800000),
        Level::Hour1 => ("1H", 3600000),
        Level::Hour2 => ("2H", 7200000),
        Level::Hour4 => ("4H", 14400000),
        Level::Hour6 => ("6Hutc", 21600000),
        Level::Hour12 => ("12Hutc", 43200000),
        Level::Day1 => ("1Dutc", 86400000),
        Level::Day3 => ("3Dutc", 259200000),
        Level::Week1 => ("1Wutc", 604800000),
        Level::Month1 => {
            let start = month_start_millis(now);
            ("1Mutc", now - start)
        },
    };
    (String::from_str(name), span)
}

/// How many candles a request to the OKX recent-candles endpoint asks for.
pub const OKX_RECENT_LIMIT: u64 = 300;

/// How many candles a candle request to Binance asks for.
pub const BINANCE_CANDLE_LIMIT: u64 = 1500;

/// A candle request to OKX.
#[derive(Debug, Clone, PartialEq, Eq)]
pub enum OkxCandleQuery {
    /// `/api/v5/market/candles` with `instId`, `bar` and `limit`.
    Recent { inst_id: String, bar: String, limit: u64 },
    /// `/api/v5/market/history-candles` with `instId`, `bar` and `after`.
    History { inst_id: String, bar: String, after: u64 },
}

/// Whether a request for candles before `time` goes to the recent-candles
/// endpoint: `time` is 0, or lies at most `span` before `now`.
pub open spec fn okx_wants_recent(time: u64, now: u64, span: int) -> bool {
    time == 0 || (time <= now && now - time <= span)
}

/// The abstract content of an OKX candle request: whether it is the recent
/// kind, the product, the bar, the `after` time (0 for a recent request) and
/// the `limit` (none for a history request).
pub open spec fn okx_query_view(q: OkxCandleQuery) -> (bool, Seq<char>, Seq<char>, u64, Option<u64>) {
    match q {
        OkxCandleQuery::Recent { inst_id, bar, limit } => (true, inst_id@, bar@, 0, Some(limit)),
        OkxCandleQuery::History { inst_id, bar, after } => (false, inst_id@, bar@, after, None),
    }
}

/// The OKX request for candles of `product` at `level` before `time`
/// (0 for the newest), at time `now` in milliseconds.
pub fn okx_candle_query(product: &str, level: Level, time: u64, now: u64) -> (r: OkxCandleQuery)
    requires
        level == Level::Month1 ==> now <= LATEST_CALENDAR_MS,
    ensures
        okx_query_view(r) == (if okx_wants_recent(time, now, okx_bar_span(level, now)) {
            (true, okx_product(product@), okx_bar_name(level), 0u64, Some(OKX_RECENT_LIMIT))
        } else {
            (false, okx_product(product@), okx_bar_name(level), time, None)
        }),
{
    let inst_id = okx_product_name(product);
    let (bar, span) = okx_bar(level, now);
    let recent = time == 0 || (time <= now && now - time <= span);
    if recent {
        OkxCandleQuery::Recent { inst_id, bar, limit: OKX_RECENT_LIMIT }
    } else {
        OkxCandleQuery::History { inst_id, bar, after: time }
    }
}

/// An instrument request to OKX (`/api/v5/public/instruments`).
#[derive(Debug, Clone, PartialEq, Eq)]
pub struct OkxInstrumentQuery {
    /// `SWAP` or `SPOT`.
    pub inst_type: String,
    /// The product name.
    pub inst_id: String,
    /// Whether the answer's `ctVal` (a swap's contract value) is read, rather
    /// than `minSz` (a spot product's least size).
    pub swap: bool,
}

/// The OKX instrument request for `product`: a product whose OKX name holds
/// `SWAP` is asked for as a swap, any other as spot.
pub fn okx_instrument_query(product: &str) -> (r: OkxInstrumentQuery)
    ensures
        r.inst_id@ == okx_product(product@),
        r.swap == holds_swap(okx_product(product@)),
        r.inst_type@ == (if r.swap {
            "SWAP"@
        } else {
            "SPOT"@
        }),
{
    let inst_id = okx_product_name(product);
    let chars = chars_of(inst_id.as_str());
    let swap = contains_swap(&chars);
    let inst_type = if swap {
        String::from_str("SWAP")
    } else {
        String::from_str("SPOT")
    };
    OkxInstrumentQuery { inst_type, inst_id, swap }
}

/// How Binance names the interval of a level.
pub open spec fn binance_interval_name(level: Level) -> Seq<char> {
    match level {
        Level::Minute1 => "1m"@,
        Level::Minute3 => "3m"@,
        Level::Minute5 => "5m"@,
        Level::Minute15 => "15m"@,
        Level::Minute30 => "30m"@,
        Level::Hour1 => "1h"@,
        Level::Hour2 => "2h"@,
        Level::Hour4 => "4h"@,
        Level::Hour6 => "6h"@,
        Level::Hour12 => "12h"@,
        Level::Day1 => "1d"@,
        Level::Day3 => "3d"@,
        Level::Week1 => "1w"@,
        Level::Month1 => "1M"@,
    }
}

/// The Binance interval name of `level`.
pub fn binance_interval(level: Level) -> (r: String)
    ensures
        r@ == binance_interval_name(level),
{
    let name: &str = match level {
        Level::Minute1 => "1m",
        Level::Minute3 => "3m",
        Level::Minute5 => "5m",
        Level::Minute15 => "15m",
        Level::Minute30 => "30m",
        Level::Hour1 => "1h",
        Level::Hour2 => "2h",
        Level::Hour4 => "4h",
        Level::Hour6 => "6h",
        Level::Hour12 => "12h",
        Level::Day1 => "1d",
        Level::Day3 => "3d",
        Level::Week1 => "1w",
        Level::Month1 => "1M",
    };
    String::from_str(name)
}

/// A candle request to Binance, for at most `limit` candles ending at
/// `end_time` (the newest ones when `None`).
#[derive(Debug, Clone, PartialEq, Eq)]
pub enum BinanceCandleQuery {
    /// `/fapi/v1/continuousKlines` for the contract of `pair` of the given
    /// `contractType`.
    Continuous {
        pair: String,
        contract_type: String,
        interval: String,
        end_time: Option<u64>,
        limit: u64,
    },
    /// `/fapi/v1/klines` for `symbol`.
    Klines { symbol: String, interval: String, end_time: Option<u64>, limit: u64 },
}

/// The abstract content of a Binance candle request: whether it asks for a
/// contract, the pair or symbol, the interval, the end time, the contract
/// type (none for a symbol request) and the limit.
pub open spec fn binance_query_view(q: BinanceCandleQuery) -> (
    bool,
    Seq<char>,
    Seq<char>,
    Option<u64>,
    Option<Seq<char>>,
    u64,
) {
    match q {
        BinanceCandleQuery::Continuous { pair, contract_type, interval, end_time, limit } => (
            true,
            pair@,
            interval@,
            end_time,
            Some(contract_type@),
            limit,
        ),
        BinanceCandleQuery::Klines { symbol, interval, end_time, limit } => (
            false,
            symbol@,
            interval@,
            end_time,
            None,
            limit,
        ),
    }
}

/// The Binance request for candles of `product` at `level` before `time`
/// (0 for the newest): a product whose Binance name ends with `SWAP` is
/// asked for as the perpetual contract of the name without that suffix; the
/// end time is one millisecond before `time`; either asks for
/// [`BINANCE_CANDLE_LIMIT`] candles.
pub fn binance_candle_query(product: &str, level: Level, time: u64) -> (r: BinanceCandleQuery)
    ensures
        ({
            let name = binance_product(product@);
            let end: Option<u64> = if time == 0 {
                None
            } else {
                Some((time - 1) as u64)
            };
            binance_query_view(r) == (if ends_with_swap(name) {
                (
                    true,
                    name.subrange(0, name.len() - 4),
                    binance_interval_name(level),
                    end,
                    Some("PERPETUAL"@),
                    BINANCE_CANDLE_LIMIT,
                )
            } else {
                (false, name, binance_interval_name(level), end, None, BINANCE_CANDLE_LIMIT)
            })
        }),
{
    let name = binance_product_name(product);
    let interval = binance_interval(level);
    let end_time: Option<u64> = if time == 0 {
        None
    } else {
        Some(time - 1)
    };
    let chars = chars_of(name.as_str());
    if ends_in_swap(&chars) {
        let n: usize = chars.len();
        let pair = String::from_str(name.as_str().substring_char(0, n - 4));
        let contract_type = String::from_str("PERPETUAL");
        BinanceCandleQuery::Continuous {
            pair,
            contract_type,
            interval,
            end_time,
            limit: BINANCE_CANDLE_LIMIT,
        }
    } else {
        BinanceCandleQuery::Klines { symbol: name, interval, end_time, limit: BINANCE_CANDLE_LIMIT }
    }
}

} // verus!
