//! Data captured from HTTP requests and responses, and the items handed to
//! the background processing task.
//!
//! Times are nanoseconds: timestamps count from the Unix epoch, durations
//! from the moment the middleware received the request.

use vstd::prelude::*;

use crate::headers::CapturedHeaders;

verus! {

/// Data captured from an HTTP request.
#[derive(Clone, Debug)]
pub struct RequestData {
    /// Unique identifier for correlating this request with its response.
    pub correlation_id: u64,
    /// When the request was received by the middleware (nanoseconds since the Unix epoch).
    pub timestamp: u64,
    /// HTTP method (GET, POST, ...).
    pub method: String,
    /// Request URI, including path and query.
    pub uri: String,
    /// Request headers grouped by name, values as raw bytes.
    pub headers: CapturedHeaders,
    /// Request body, if body capture is enabled and the body was captured.
    pub body: Option<Vec<u8>>,
    /// Trace id (32 lowercase hex digits) of the span the request was received in, if valid.
    pub trace_id: Option<String>,
    /// Span id (16 lowercase hex digits) of the span the request was received in, if valid.
    pub span_id: Option<String>,
}

/// Data captured from an HTTP response.
#[derive(Clone, Debug)]
pub struct ResponseData {
    /// Correlation id of the request this response answers.
    pub correlation_id: u64,
    /// When the response headers were ready (nanoseconds since the Unix epoch).
    pub timestamp: u64,
    /// HTTP status code.
    pub status: u16,
    /// Response headers grouped by name, values as raw bytes.
    pub headers: CapturedHeaders,
    /// Response body, if body capture is enabled and the body was captured.
    pub body: Option<Vec<u8>>,
    /// Nanoseconds from receipt of the request until the response headers were ready.
    pub duration_to_first_byte: u64,
    /// Nanoseconds from receipt of the request until the response stream
    /// completed, whether or not its body was captured. Only for a stream that
    /// failed before completing is this `duration_to_first_byte`.
    pub duration: u64,
}

/// An item handed to the background processing task.
#[derive(Debug)]
pub enum BackgroundTask {
    /// A request has been captured.
    Request { data: RequestData },
    /// A response has been captured, with the request it answers.
    Response { request_data: RequestData, response_data: ResponseData },
    /// The request's handler future was dropped before a response was produced.
    Abandoned { data: RequestData },
}

} // verus!
