# codexbar_minimax

Usage accounting for the MiniMax provider of CodexBar, written in Verus.

- `src/` is the verified library: region routing (`region`), provider
  metadata (`provider`), decimal text (`numbers`, `text`), a JSON model
  (`json`), instants and date reading (`dates`), billing-history aggregation
  and the ranking of its breakdowns (`billing`, `ranking`), the rows a
  summary is shown as (`report`), reading API responses and building error
  messages (`responses`), the order of fetch steps and credential sources
  (`fetch`), properties relating these (`laws`), and the proof that the
  billing summary does not depend on the order of the charges (`reorder`).
- `app/` runs the provider: HTTP requests, the environment and config file,
  JSON decoding with `serde_json`, and the floating-point usage figures.
- `tests/` exercises the library on concrete values.
