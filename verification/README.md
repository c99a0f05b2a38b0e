# backtester

A backtesting service for trading strategies (moving-average crossover, z-score
mean reversion, Donchian breakout, pairs z-score) with an HTTP API that fetches
market data, runs the engine in the background and stores the results.

## Layout

- `src/` — the verified library. It holds the rules of the system that work on
  integers, strings and sequences, each with a contract proved by Verus:
  - `validation` — which backtests the engine accepts, and which runner takes them;
  - `timing` — the median spacing of bar timestamps;
  - `ledger` — the trade book: trade ids, entries, exits and holding periods;
  - `signals` — the position state machines of the strategies and their parameter checks;
  - `requests` — timeframe, date, symbol and adjustment checks of API requests, run links;
  - `market_data` — the response cache's file names and expiry, cache keys, URLs,
    and how long intraday ranges are split into segments;
  - `ordering` — time order of fetched bars, with or without duplicates;
  - `align` — aligning the two series of a pair on common timestamps;
  - `retry` — the retry and backoff policy of provider requests;
  - `storage`, `limits`, `config`, `text`, `types` — run storage layout and expiry,
    the rate-limit quota, list settings, small text builders, shared data types.
- `app/` — the server: HTTP routes, file and network I/O, and the floating-point
  engine (indicators, portfolio accounting, metrics), which calls the library for
  every decision that involves no floating-point arithmetic.
- `tests/` — tests of the library on concrete values.
