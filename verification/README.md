# us_stock_api

A small HTTP API over a MySQL database of US stock market breadth data
(sector breadth above the 20-day moving average, factor relative strength,
company listings), split into a verified library and a thin server.

- `src/` is the library, written in Verus and verified:
  - `text` — trimming (Unicode whitespace, braces), splitting, joining,
    prefixes, and reading/writing `u16` in base ten, each proved against a
    specification of the corresponding `str`/`u16` behaviour;
  - `api::params` — the list parameters of the company listing;
  - `api::requests` — which filters a company listing applies;
  - `api::response_object` — the day-over-day change of sector breadth;
  - `auth` — bearer-token authorization (the JWT check itself is
    `jsonwebtoken`'s; `serde_json` reads the token's claims as an object of
    raw JSON values, so that only `sub` is interpreted, and reads `sub` as a
    JSON string);
  - `config` — the configuration built from its environment values;
  - `error` — the service errors, their display text and their HTTP answer.
- `app/` is the server: axum routing and middleware, database queries with
  sea-orm, response caching, metrics and environment reading.
- `tests/` exercises the library on concrete values.
