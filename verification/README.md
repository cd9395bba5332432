# reliakit

Small reliability building blocks, written in Verus: every function of the
library carries a contract that Verus proves.

- `backoff`, `bulkhead`, `circuit`, `rolling`: retry delays, concurrency
  limits and circuit breakers as explicit state machines; they never sleep
  or read a clock, the caller passes time in.
- `health`: health checks and their aggregation.
- `primitives`: validated values (ports, percentages, byte sizes, bounded and
  inline strings, slugs, emails, URLs, hex strings, UUIDs, durations,
  semantic versions) and their errors.
- `secret`: values that never show themselves in text output.
- `csv`, `json`, `collections`: field encoding and the error types of the
  CSV, JSON and bounded-collection layers.
- `derive`: the logic behind the derive macros — reading an item's shape from
  plain token trees, validating it, and writing the source of the generated
  impls.
- `chars`, `decimal`, `lex`, `ordering`, `time`: shared text, number and
  ordering helpers, and the library's span type.

Laws that relate several functions are public proof functions named `law_*`.

`app/` holds what Verus does not check: the derive entry points over compiler
token streams, conversions to and from `std::time::Duration`, and the
floating-point primitives.
