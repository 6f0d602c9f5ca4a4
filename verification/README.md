# card_api

Card payment support for the API, written in Verus.

- `src/` is the verified library:
  - `text` — trimming (Unicode whitespace), ASCII lowercasing, splitting on
    commas and Unicode uppercasing of strings;
  - `json` — JSON values as plain data and the property names in them;
  - `card` — the `CARD_ENABLED` flag, given the variable's value;
  - `card::screening` — country screening: the denylist screening, the
    no-op screening, denylist parsing and the configured choice between them;
  - `card::webhooks` — partner events, the refusal of card data (`pan`,
    `cvv`, `cvc`, `track`, `pin`) anywhere in event metadata, and error texts;
  - `error`, `routes::card` — the API errors and the answer to an accepted
    webhook event.
- `app/` is ordinary Rust around it: reading the environment, the shared
  `CardState`, JSON decoding of partner events with serde, the JSON fixtures
  and the axum route.
- `tests/` runs the library on concrete values.
