//! The OpenTelemetry trace and span ids recorded with a captured request.
//!
//! A request received inside a valid span context records that context's
//! trace id and span id as lowercase hexadecimal text; outside a valid
//! context it records neither.

use vstd::prelude::*;

use opentelemetry::trace::{SpanContext, SpanId, TraceFlags, TraceId, TraceState};

verus! {

/// The lowercase hexadecimal digit for a value below 16.
pub open spec fn hex_digit(n: int) -> char {
    if n < 10 {
        (('0' as int) + n) as char
    } else {
        (('a' as int) + (n - 10)) as char
    }
}

/// The bytes written as lowercase hexadecimal, two digits per byte, most
/// significant byte first.
pub open spec fn lower_hex(bytes: Seq<u8>) -> Seq<char>
    decreases bytes.len(),
{
    if bytes.len() == 0 {
        Seq::empty()
    } else {
        lower_hex(bytes.drop_last()) + seq![
            hex_digit(bytes.last() as int / 16),
            hex_digit(bytes.last() as int % 16),
        ]
    }
}

/// Whether some byte is not zero.
pub open spec fn has_nonzero_byte(bytes: Seq<u8>) -> bool {
    exists|i: int| 0 <= i < bytes.len() && bytes[i] != 0
}

/// Formats a trace id given as its 16 bytes (most significant first), by
/// `opentelemetry::trace::TraceId::from_bytes` and its `Display`, which writes
/// the id as 32 lowercase hexadecimal digits, zero-padded.
#[verifier::external_body]
fn trace_id_text(bytes: [u8; 16]) -> (text: String)
    ensures
        text@ == lower_hex(bytes@),
{
    TraceId::from_bytes(bytes).to_string()
}

/// Formats a span id given as its 8 bytes (most significant first), by
/// `opentelemetry::trace::SpanId::from_bytes` and its `Display`, which writes
/// the id as 16 lowercase hexadecimal digits, zero-padded.
#[verifier::external_body]
fn span_id_text(bytes: [u8; 8]) -> (text: String)
    ensures
        text@ == lower_hex(bytes@),
{
    SpanId::from_bytes(bytes).to_string()
}

/// Whether a span context with these ids is valid, by
/// `opentelemetry::trace::SpanContext::is_valid`, which holds when neither the
/// trace id nor the span id is the all-zero (invalid) id.
#[verifier::external_body]
fn span_context_is_valid(trace_id: [u8; 16], span_id: [u8; 8]) -> (valid: bool)
    ensures
        valid == (has_nonzero_byte(trace_id@) && has_nonzero_byte(span_id@)),
{
    SpanContext::new(
        TraceId::from_bytes(trace_id),
        SpanId::from_bytes(span_id),
        TraceFlags::default(),
        false,
        TraceState::default(),
    ).is_valid()
}

/// The trace id and span id text a request records for the span context it
/// was received in: both, as lowercase hexadecimal, when the context is
/// valid (neither id is all zeros); neither otherwise.
pub fn recorded_trace_ids(trace_id: [u8; 16], span_id: [u8; 8]) -> (ids: (
    Option<String>,
    Option<String>,
))
    ensures
        if has_nonzero_byte(trace_id@) && has_nonzero_byte(span_id@) {
            &&& (ids.0 matches Some(t) && t@ == lower_hex(trace_id@))
            &&& (ids.1 matches Some(s) && s@ == lower_hex(span_id@))
        } else {
            ids.0 is None && ids.1 is None
        },
{
    if span_context_is_valid(trace_id, span_id) {
        (Some(trace_id_text(trace_id)), Some(span_id_text(span_id)))
    } else {
        (None, None)
    }
}

/// The hexadecimal text of `n` bytes has `2 n` digits.
pub proof fn lemma_lower_hex_len(bytes: Seq<u8>)
    ensures
        lower_hex(bytes).len() == 2 * bytes.len(),
    decreases bytes.len(),
{
    if bytes.len() > 0 {
        lemma_lower_hex_len(bytes.drop_last());
    }
}

} // verus!
