# auto_trading

A back-testing and quantitative-trading toolkit whose integer and text logic
is verified with Verus.

- `src/` — the verified library:
  - `level` — candle levels (with their order and display names), order
    sides, and time ranges;
  - `product` — mapping product symbols between the dashed form
    (`BTC-USDT-SWAP`) and the joined form (`BTCUSDTSWAP`), with the proof that
    mapping twice gives the symbol back;
  - `scanner` — aligning candles of a fine level with candles of a coarser
    strategy level, deciding when the strategy is due;
  - `fetch` — the paging decisions for gathering all candles of a time range,
    with the proof that a venue that pages correctly yields exactly the
    range's candles, newest first;
  - `venue` — the request decisions for the OKX and Binance market-data APIs;
  - `book` — the per-product book of the matching engine;
  - `delegate` — the shape of an order (opening, reducing and exit legs).
- `app/` — the rest, in plain Rust: floating-point candles, indicators and
  matching engine, the network clients, and the back-tester loop.
- `tests/` — tests of the library on concrete values.
