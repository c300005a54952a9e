use auto_trading::product_mapping;

#[test]
fn mapping_dashed_to_joined() {
    assert_eq!(product_mapping("BTC-USDT"), "BTCUSDT");
    assert_eq!(product_mapping("BTC-USDT-SWAP"), "BTCUSDTSWAP");
    assert_eq!(product_mapping("MDT-USDT"), "MDTUSDT");
    assert_eq!(product_mapping("STX-USDT-SWAP"), "STXUSDTSWAP");
    assert_eq!(product_mapping("T-USDT"), "TUSDT");
    assert_eq!(product_mapping("1INCH-USDT"), "1INCHUSDT");
    assert_eq!(product_mapping("ETH-BTC"), "ETHBTC");
    assert_eq!(product_mapping("ETH-BTC-SWAP"), "ETHBTCSWAP");
}

#[test]
fn mapping_joined_to_dashed() {
    assert_eq!(product_mapping("BTCUSDT"), "BTC-USDT");
    assert_eq!(product_mapping("BTCUSDTSWAP"), "BTC-USDT-SWAP");
    assert_eq!(product_mapping("TUSDT"), "T-USDT");
    assert_eq!(product_mapping("ETHBTC"), "ETH-BTC");
    assert_eq!(product_mapping("ETHBTCSWAP"), "ETH-BTC-SWAP");
    assert_eq!(product_mapping("MDTUSDTSWAP"), "MDT-USDT-SWAP");
}

#[test]
fn mapping_unlisted_by_rule() {
    assert_eq!(product_mapping("PEPE-USDT"), "PEPEUSDT");
    assert_eq!(product_mapping("PEPE-USDT-SWAP"), "PEPEUSDTSWAP");
    assert_eq!(product_mapping("PEPEUSDT"), "PEPE-USDT");
    assert_eq!(product_mapping("PEPEUSDTSWAP"), "PEPE-USDT-SWAP");
    assert_eq!(product_mapping(""), "");
    assert_eq!(product_mapping("FOO-BAR"), "FOOBAR");
    assert_eq!(product_mapping("FOOBAR"), "FOOBAR");
    assert_eq!(product_mapping("SWAP"), "SWAP");
    assert_eq!(product_mapping("btc-usdt"), "btcusdt");
    assert_eq!(product_mapping("BTC-USDC"), "BTCUSDC");
    assert_eq!(product_mapping("BTC-USDT-"), "BTCUSDT");
    assert_eq!(product_mapping("USDUSDT"), "USD-USDT");
    assert_eq!(product_mapping("USDTUSDT"), "-USDT-USDT");
    assert_eq!(product_mapping("AUSDTBUSDTSWAP"), "A-USDT-B-USDT-SWAP");
}

#[test]
fn mapping_round_trip() {
    for p in [
        "BTC-USDT",
        "BTCUSDT",
        "ETH-USDT-SWAP",
        "ETHUSDTSWAP",
        "ETH-BTC",
        "ETHBTCSWAP",
        "PEOPLE-USDT",
        "1INCHUSDTSWAP",
        "PEPE-USDT",
        "PEPEUSDT",
        "PEPE-USDT-SWAP",
        "PEPEUSDTSWAP",
    ] {
        let q = product_mapping(p);
        assert!(!q.is_empty());
        assert_eq!(product_mapping(&q), p);
    }
}
