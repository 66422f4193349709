# portfolio_rs

A portfolio tracker: it reads the exports of Binance (CSV), XTB
(spreadsheets) and a manual JSON file, keeps one deduplicated log of
transactions, resolves tickers, values the portfolio in EUR from cached
Yahoo Finance and Binance prices, and writes a dashboard, a weekly history
and a watchlist.

## Layout

- `src/` — the library, verified with Verus:
  - `schema`, `time`, `text`: the transaction model, instants and epoch
    days, text helpers;
  - `store`: the transaction store (deduplication by external identifier,
    one registered asset per symbol);
  - `ledger`: replay order of the log;
  - `market`: price caches (per-resolution buckets, daily refresh rule),
    price selection and currency rules, ticker resolution;
  - `parse`: the rules of the exports (fields, amounts, times, synthetic
    identifiers, rows to transactions);
  - `history`, `trades`: weeks to backfill, trades and their periods.
  Amounts are a type parameter `N`: the library decides which records,
  identifiers, cache points and periods there are, and in what order.
- `app/` — the program: file and network access, floating-point
  valuation (FIFO cost basis, holdings, correlations), report files.
- `tests/` — tests of the library.
