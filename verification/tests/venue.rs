use auto_trading::venue::{
    binance_candle_query, binance_interval, binance_product_name, okx_bar, okx_candle_query,
    okx_instrument_query, okx_product_name, BinanceCandleQuery, OkxCandleQuery,
};
use auto_trading::Level;

#[test]
fn okx_product_names() {
    assert_eq!(okx_product_name("BTC-USDT-SWAP"), "BTC-USDT-SWAP");
    assert_eq!(okx_product_name("BTCUSDTSWAP"), "BTC-USDT-SWAP");
    assert_eq!(okx_product_name("BTCUSDT"), "BTC-USDT");
    assert_eq!(okx_product_name("FOO-BAR"), "FOO-BAR");
    assert_eq!(okx_product_name("FOOBAR"), "FOOBAR");
    assert_eq!(okx_product_name("PEPEUSDT"), "PEPE-USDT");
}

#[test]
fn binance_product_names() {
    assert_eq!(binance_product_name("BTC-USDT-SWAP"), "BTCUSDTSWAP");
    assert_eq!(binance_product_name("BTC-USDT"), "BTCUSDT");
    assert_eq!(binance_product_name("BTCUSDT"), "BTCUSDT");
    assert_eq!(binance_product_name("FOO-BAR"), "FOOBAR");
    assert_eq!(binance_product_name("PEPE-USDT-SWAP"), "PEPEUSDTSWAP");
}

#[test]
fn okx_bars_of_fixed_levels() {
    let now = 1694736000000;
    assert_eq!(okx_bar(Level::Minute1, now), ("1m".to_string(), 60_000));
    assert_eq!(okx_bar(Level::Minute3, now), ("3m".to_string(), 180_000));
    assert_eq!(okx_bar(Level::Minute5, now), ("5m".to_string(), 300_000));
    assert_eq!(okx_bar(Level::Minute15, now), ("15m".to_string(), 900_000));
    assert_eq!(okx_bar(Level::Minute30, now), ("30m".to_string(), 1_800_000));
    assert_eq!(okx_bar(Level::Hour1, now), ("1H".to_string(), 3_600_000));
    assert_eq!(okx_bar(Level::Hour2, now), ("2H".to_string(), 7_200_000));
    assert_eq!(okx_bar(Level::Hour4, now), ("4H".to_string(), 14_400_000));
    assert_eq!(okx_bar(Level::Hour6, now), ("6Hutc".to_string(), 21_600_000));
    assert_eq!(okx_bar(Level::Hour12, now), ("12Hutc".to_string(), 43_200_000));
    assert_eq!(okx_bar(Level::Day1, now), ("1Dutc".to_string(), 86_400_000));
    assert_eq!(okx_bar(Level::Day3, now), ("3Dutc".to_string(), 259_200_000));
    assert_eq!(okx_bar(Level::Week1, now), ("1Wutc".to_string(), 604_800_000));
}

#[test]
fn okx_bar_of_month_counts_from_month_start() {
    // 2023-09-15T00:00:00Z is 14 days after 2023-09-01T00:00:00Z.
    assert_eq!(
        okx_bar(Level::Month1, 1694736000000),
        ("1Mutc".to_string(), 14 * 86_400_000)
    );
    // 2024-03-01T12:00:00Z is 12 hours into the month.
    assert_eq!(okx_bar(Level::Month1, 1709294400000), ("1Mutc".to_string(), 43_200_000));
}

fn okx_view(q: OkxCandleQuery) -> (bool, String, String, u64) {
    match q {
        OkxCandleQuery::Recent { inst_id, bar, limit } => {
            assert_eq!(limit, 300);
            (true, inst_id, bar, 0)
        }
        OkxCandleQuery::History { inst_id, bar, after } => (false, inst_id, bar, after),
    }
}

#[test]
fn okx_candle_queries() {
    let now = 1694736000000;
    assert_eq!(
        okx_view(okx_candle_query("BTC-USDT-SWAP", Level::Hour1, 0, now)),
        (true, "BTC-USDT-SWAP".to_string(), "1H".to_string(), 0)
    );
    assert_eq!(
        okx_view(okx_candle_query("BTCUSDT", Level::Hour1, now - 3_600_000, now)),
        (true, "BTC-USDT".to_string(), "1H".to_string(), 0)
    );
    assert_eq!(
        okx_view(okx_candle_query("BTCUSDT", Level::Hour1, now - 3_600_001, now)),
        (false, "BTC-USDT".to_string(), "1H".to_string(), now - 3_600_001)
    );
    // A time after now is never served by the recent endpoint.
    assert_eq!(
        okx_view(okx_candle_query("BTC-USDT", Level::Day1, now + 1, now)),
        (false, "BTC-USDT".to_string(), "1Dutc".to_string(), now + 1)
    );
    let month = 14 * 86_400_000;
    assert!(okx_view(okx_candle_query("BTC-USDT", Level::Month1, now - month, now)).0);
    assert!(!okx_view(okx_candle_query("BTC-USDT", Level::Month1, now - month - 1, now)).0);
}

#[test]
fn okx_instrument_queries() {
    let q = okx_instrument_query("BTC-USDT-SWAP");
    assert_eq!((q.inst_type.as_str(), q.inst_id.as_str(), q.swap), ("SWAP", "BTC-USDT-SWAP", true));
    let q = okx_instrument_query("BTCUSDT");
    assert_eq!((q.inst_type.as_str(), q.inst_id.as_str(), q.swap), ("SPOT", "BTC-USDT", false));
    let q = okx_instrument_query("BTCUSDTSWAP");
    assert_eq!((q.inst_type.as_str(), q.inst_id.as_str(), q.swap), ("SWAP", "BTC-USDT-SWAP", true));
}

#[test]
fn binance_intervals() {
    let expected = [
        (Level::Minute1, "1m"),
        (Level::Minute3, "3m"),
        (Level::Minute5, "5m"),
        (Level::Minute15, "15m"),
        (Level::Minute30, "30m"),
        (Level::Hour1, "1h"),
        (Level::Hour2, "2h"),
        (Level::Hour4, "4h"),
        (Level::Hour6, "6h"),
        (Level::Hour12, "12h"),
        (Level::Day1, "1d"),
        (Level::Day3, "3d"),
        (Level::Week1, "1w"),
        (Level::Month1, "1M"),
    ];
    for (level, name) in expected {
        assert_eq!(binance_interval(level), name);
    }
}

fn binance_view(q: BinanceCandleQuery) -> (bool, String, String, Option<u64>) {
    match q {
        BinanceCandleQuery::Continuous { pair, contract_type, interval, end_time, limit } => {
            assert_eq!((contract_type.as_str(), limit), ("PERPETUAL", 1500));
            (true, pair, interval, end_time)
        }
        BinanceCandleQuery::Klines { symbol, interval, end_time, limit } => {
            assert_eq!(limit, 1500);
            (false, symbol, interval, end_time)
        }
    }
}

#[test]
fn binance_candle_queries() {
    assert_eq!(
        binance_view(binance_candle_query("BTC-USDT-SWAP", Level::Hour1, 0)),
        (true, "BTCUSDT".to_string(), "1h".to_string(), None)
    );
    assert_eq!(
        binance_view(binance_candle_query("BTC-USDT-SWAP", Level::Hour1, 1695644739000)),
        (true, "BTCUSDT".to_string(), "1h".to_string(), Some(1695644738999))
    );
    assert_eq!(
        binance_view(binance_candle_query("BTC-USDT", Level::Day1, 10)),
        (false, "BTCUSDT".to_string(), "1d".to_string(), Some(9))
    );
    assert_eq!(
        binance_view(binance_candle_query("ETHUSDT", Level::Week1, 0)),
        (false, "ETHUSDT".to_string(), "1w".to_string(), None)
    );
}

#[test]
fn candle_query_limits() {
    let now = 1694736000000;
    match okx_candle_query("BTC-USDT", Level::Hour1, 0, now) {
        OkxCandleQuery::Recent { limit, .. } => assert_eq!(limit, 300),
        OkxCandleQuery::History { .. } => panic!("expected a recent-candles request"),
    }
    match binance_candle_query("BTC-USDT-SWAP", Level::Hour1, 0) {
        BinanceCandleQuery::Continuous { contract_type, limit, .. } => {
            assert_eq!(contract_type, "PERPETUAL");
            assert_eq!(limit, 1500);
        }
        BinanceCandleQuery::Klines { .. } => panic!("expected a contract request"),
    }
    match binance_candle_query("BTC-USDT", Level::Hour1, 5) {
        BinanceCandleQuery::Klines { limit, .. } => assert_eq!(limit, 1500),
        BinanceCandleQuery::Continuous { .. } => panic!("expected a symbol request"),
    }
}

#[test]
fn okx_bar_of_month_at_calendar_limit() {
    // The last millisecond of 262142-12-31 is 31 days less 1 ms after the
    // month began.
    assert_eq!(
        okx_bar(Level::Month1, 8_210_266_876_799_999),
        ("1Mutc".to_string(), 31 * 86_400_000 - 1)
    );
    // 1970-01-01T00:00:00Z is the start of its month.
    assert_eq!(okx_bar(Level::Month1, 0), ("1Mutc".to_string(), 0));
}
