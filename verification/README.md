# FluxGate

A distributed token-bucket rate limiter whose decisions are verified with Verus.

- `src/limiter`: exact token-bucket arithmetic in integer quota units, and its laws.
- `src/storage`: bucket identity, compare-and-set, the in-memory store, and buckets as
  DynamoDB items.
- `src/service`: the bounded optimistic-concurrency protocol, and what holds of checks
  that run at the same time.
- `src/policies.rs`, `src/config.rs`, `src/api.rs`: shipped policies, configuration
  rules, and HTTP answers.
- `src/text.rs`: decimal numbers, trimming and letter case.
- `app/`: the service itself: environment, telemetry, DynamoDB calls and HTTP routing.
- `tests/`: scenarios run against the compiled library.
