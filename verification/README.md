# tvdata_rs

Verified core of a client for TradingView's unofficial data surfaces.

`src/` is the library, checked by Verus:

- `scanner` — columns, markets, tickers and instrument references; symbol
  normalization per venue; filter and sort clauses.
- `history` — single and batch history requests and the chart protocol codes.
- `client` — retry policy and the reqwest-retry backoff it builds, endpoint URLs (parsed with the `url` crate),
  the default request and websocket handshake headers and their header-value checks, and the status and search-text checks made around requests.
- `validation` — sorting requested scan columns by how the requested markets
  support them, filtering a scan to the supported ones, and strict checks.
- `metainfo` — a market's scanner metainfo and whether a column counts as
  supported, from live metainfo or the field registry of its screener kind.
- `cache` — the per-market metainfo cache: answer from an earlier fetch, or
  fetch and store.
- `snapshot` — which tickers a quote scan asks for, its page, and which row
  answers each; the filters and page of a market-wide quote scan.
- `transport` — the `~m~<length>~m~<payload>` framing of the chart websocket,
  its parser, and the session identifiers.
- `error` — the error type and its classification into kinds and retries.
- `text`, `utf8_facts` — character-level helpers and UTF-8 facts.

`app/` holds the HTTP and websocket plumbing, the builders, and the types
that carry serde, thiserror or floating-point data.
