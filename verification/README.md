# outlet

Capture of HTTP requests and responses in an Axum middleware, relayed to a
background task for processing.

- `src/` is the verified library (Verus): the path filter and configuration,
  header grouping, body capture assembly, the per-call decisions (response
  capture versus abandonment, timings), write-through batching, correlation
  ids and trace ids, and the composite and logging handlers' logic.
- `app/` is the middleware itself: the `RequestHandler` trait, the tower
  layer and service, the streaming body relay and the background task, which
  run the library's decisions inside tokio and axum.
- `tests/` exercises the library on concrete values.

The captured data is held as plain values: method and URI as `String`,
status as `u16`, headers as `CapturedHeaders` (values as raw bytes), bodies
as `Vec<u8>`, timestamps and durations as `u64` nanoseconds. The total
duration of a response runs until its body stream completed, whether or not
the body was captured.
