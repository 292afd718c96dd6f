# flowsurface (verified core)

The protocol and state logic of the Flowsurface client, written in Verus and
proved against its contracts.

## Layout

- `src/` — the verified library.
  - `contract` — client order ids, millisecond timestamps, ticker objects of the agent API.
  - `agent` — the per-session idempotency map of agent orders and the advance request.
  - `agent_api` — decisions of the replay API: the LIVE/REPLAY mode switch, session gates,
    steps and advances (headless and GUI), rewinds, order replies.
  - `tachibana` — request numbering, login, market-data requests, the common result check,
    reply decoding.
  - `event` — EVENT I/F frames: fields, order-book snapshots, trades, line framing of the
    stream, grouping of trades by ticker.
  - `market` — fixed-point prices and quantities, daily candles, `YYYYMMDD` dates.
  - `master` — issue master records, ticker metadata, the streaming record splitter and
    collector, the in-memory stores.
  - `auth` — environment URLs, the session store, login error keys.
  - `headless`, `pane` — argument, ticker, timeframe and pane-content parsers.
  - `state` — persisted replay settings and the saved-state container.
  - `numeric`, `text` — number grammars and text helpers.
  - `laws` — properties that span several calls.
- `tests/` — tests of the library.
- `app/` — the program around it: HTTP, keychain, JSON shapes, process-wide stores.

Prices and quantities are read from the number texts that `f32::from_str`
accepts (exponents, `inf`, `infinity` and `nan` included). A decimal number is
kept exactly as a fixed-point integer of 10^-8 units, digits past the eighth
decimal place dropped; a magnitude beyond `i64::MAX` units, an infinity and NaN
are kept as such (`numeric::Amount`). The calls into
`chrono`, `urlencoding`, `encoding_rs`, `uuid` and a few std functions are taken on
trust; their doc comments say what is assumed of them.
