//! What the logging handler records about each captured item.

use vstd::prelude::*;

verus! {

/// A handler that logs each captured request and response: correlation id,
/// method and URI or status, headers, body size and, for responses, the
/// duration in milliseconds.
#[derive(Clone, Copy, Debug, Default)]
pub struct LoggingHandler;

impl LoggingHandler {
    /// The body size it logs: the number of captured bytes, or 0 when no body was captured.
    pub fn body_size(body: &Option<Vec<u8>>) -> (size: usize)
        ensures
            size == match body {
                Some(b) => b@.len(),
                None => 0,
            },
    {
        match body {
            Some(b) => b.len(),
            None => 0,
        }
    }

    /// The duration it logs, in whole milliseconds, for a duration in nanoseconds.
    pub fn duration_millis(nanos: u64) -> (millis: u64)
        ensures
            millis == nanos / 1_000_000,
    {
        nanos / 1_000_000
    }
}

} // verus!
