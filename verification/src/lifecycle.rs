//! The decisions the middleware takes over the life of one captured request.
//!
//! * The request body's capture outcome decides whether request data is
//!   produced at all.
//! * When the inner service resolves, the call is over: on success the
//!   response is captured, on failure the error is handed back. If the call's
//!   future is dropped first, the request is reported as abandoned instead.
//!   A request is never both answered and abandoned.
//! * The response's timings and body follow from how its relayed stream ended.

use vstd::prelude::*;

use crate::body_wrapper::BodyCaptureError;
use crate::headers::CapturedHeaders;
use crate::types::{BackgroundTask, RequestData, ResponseData};

verus! {

/// `later - earlier`, or 0 when `later` is before `earlier`.
pub open spec fn elapsed_spec(earlier: u64, later: u64) -> u64 {
    if later >= earlier {
        (later - earlier) as u64
    } else {
        0
    }
}

/// Nanoseconds from `earlier` to `later`; 0 when `later` is before `earlier`
/// (a clock that went backwards counts as no time).
pub fn elapsed(earlier: u64, later: u64) -> (d: u64)
    ensures
        d == elapsed_spec(earlier, later),
{
    if later >= earlier {
        later - earlier
    } else {
        0
    }
}

/// The body a request carries after its capture: none when the body was not
/// captured, the captured bytes when the capture succeeded, and the capture's
/// error when it failed (no request data is produced then).
pub fn request_body_outcome(capture: Option<Result<Vec<u8>, BodyCaptureError>>) -> (outcome:
    Result<Option<Vec<u8>>, BodyCaptureError>)
    ensures
        outcome == match capture {
            None => Ok(None),
            Some(Ok(bytes)) => Ok(Some(bytes)),
            Some(Err(e)) => Err(e),
        },
{
    match capture {
        None => Ok(None),
        Some(Ok(bytes)) => Ok(Some(bytes)),
        Some(Err(e)) => Err(e),
    }
}

/// The synchronous part of a captured request: everything but the body.
#[derive(Clone, Debug)]
pub struct RequestHead {
    pub correlation_id: u64,
    pub timestamp: u64,
    pub method: String,
    pub uri: String,
    pub headers: CapturedHeaders,
    pub trace_id: Option<String>,
    pub span_id: Option<String>,
}

impl RequestHead {
    /// The request data with this head and the given body.
    pub open spec fn with_body_spec(&self, body: Option<Vec<u8>>) -> RequestData {
        RequestData {
            correlation_id: self.correlation_id,
            timestamp: self.timestamp,
            method: self.method,
            uri: self.uri,
            headers: self.headers,
            body,
            trace_id: self.trace_id,
            span_id: self.span_id,
        }
    }

    /// The request data with this head and the given body.
    pub fn with_body(self, body: Option<Vec<u8>>) -> (data: RequestData)
        ensures
            data == self.with_body_spec(body),
            data.correlation_id == self.correlation_id,
            data.timestamp == self.timestamp,
            data.method == self.method,
            data.uri == self.uri,
            data.headers == self.headers,
            data.body == body,
            data.trace_id == self.trace_id,
            data.span_id == self.span_id,
    {
        RequestData {
            correlation_id: self.correlation_id,
            timestamp: self.timestamp,
            method: self.method,
            uri: self.uri,
            headers: self.headers,
            body,
            trace_id: self.trace_id,
            span_id: self.span_id,
        }
    }
}

/// The request data a finished request-body capture yields: the head with
/// the captured body (or no body when none was captured), or the capture's
/// error, in which case no request data exists.
pub fn assemble_request_data(head: RequestHead, capture: Option<Result<Vec<u8>, BodyCaptureError>>) -> (result:
    Result<RequestData, BodyCaptureError>)
    ensures
        result == match capture {
            None => Ok(head.with_body_spec(None)),
            Some(Ok(bytes)) => Ok(head.with_body_spec(Some(bytes))),
            Some(Err(e)) => Err(e),
        },
        result is Ok ==> result->Ok_0.correlation_id == head.correlation_id
            && result->Ok_0.timestamp == head.timestamp && result->Ok_0.method == head.method
            && result->Ok_0.uri == head.uri && result->Ok_0.headers == head.headers
            && result->Ok_0.trace_id == head.trace_id && result->Ok_0.span_id == head.span_id,
{
    match request_body_outcome(capture) {
        Ok(body) => Ok(head.with_body(body)),
        Err(e) => Err(e),
    }
}

/// How the relayed response stream ended: it completed at `completed_at`
/// (with the captured body when the body was captured), or it failed.
pub enum ResponseStream {
    Completed { completed_at: u64, body: Option<Vec<u8>> },
    Failed { error: BodyCaptureError },
}

/// The response body and total duration that the stream's end gives: a
/// completed stream gives its captured body (if any) and the time until it
/// completed; a failed stream gives no body and the time to the first byte.
pub open spec fn response_body_and_duration(start: u64, first_byte: u64, stream: ResponseStream) -> (
    Option<Vec<u8>>,
    u64,
) {
    match stream {
        ResponseStream::Completed { completed_at, body } => (body, elapsed_spec(start, completed_at)),
        ResponseStream::Failed { .. } => (None, elapsed_spec(start, first_byte)),
    }
}

/// The data of a captured response. `start` is when the request was received,
/// `first_byte` when the response headers were ready; the body and total
/// duration follow from how the response stream ended.
pub fn assemble_response_data(
    correlation_id: u64,
    start: u64,
    first_byte: u64,
    status: u16,
    headers: CapturedHeaders,
    stream: ResponseStream,
) -> (data: ResponseData)
    ensures
        data.correlation_id == correlation_id,
        data.timestamp == first_byte,
        data.status == status,
        data.headers == headers,
        data.duration_to_first_byte == elapsed_spec(start, first_byte),
        data.duration == response_body_and_duration(start, first_byte, stream).1,
        data.body == response_body_and_duration(start, first_byte, stream).0,
        data == response_data_for(correlation_id, start, first_byte, status, headers, stream),
{
    let to_first_byte = elapsed(start, first_byte);
    let (body, duration) = match stream {
        ResponseStream::Completed { completed_at, body } => (body, elapsed(start, completed_at)),
        ResponseStream::Failed { .. } => (None, to_first_byte),
    };
    ResponseData {
        correlation_id,
        timestamp: first_byte,
        status,
        headers,
        body,
        duration_to_first_byte: to_first_byte,
        duration,
    }
}

/// The total duration of a completed response counts the streaming time:
/// when the clock runs forward (request, then first byte, then stream
/// completion), it is the time to first byte plus the time the body took to
/// stream, whether or not the body was captured.
pub proof fn lemma_duration_counts_streaming_time(
    start: u64,
    first_byte: u64,
    completed_at: u64,
    body: Option<Vec<u8>>,
)
    requires
        start <= first_byte <= completed_at,
    ensures
        response_body_and_duration(
            start,
            first_byte,
            ResponseStream::Completed { completed_at, body },
        ).1 == elapsed_spec(start, first_byte) + (completed_at - first_byte),
{
}

/// Only a stream that never completed is reported with its time to first
/// byte as its total duration.
pub proof fn lemma_failed_stream_duration_is_first_byte(
    start: u64,
    first_byte: u64,
    error: BodyCaptureError,
)
    ensures
        response_body_and_duration(start, first_byte, ResponseStream::Failed { error }).1
            == elapsed_spec(start, first_byte),
{
}

/// A response body is reported only when it was captured and the stream completed.
pub proof fn lemma_body_only_from_completed_capture(start: u64, first_byte: u64, stream: ResponseStream)
    ensures
        response_body_and_duration(start, first_byte, stream).0 is Some ==> stream matches ResponseStream::Completed {
            body: Some(_),
            ..
        },
{
}

/// The response data with these parts, as `assemble_response_data` builds it.
pub open spec fn response_data_for(
    correlation_id: u64,
    start: u64,
    first_byte: u64,
    status: u16,
    headers: CapturedHeaders,
    stream: ResponseStream,
) -> ResponseData {
    ResponseData {
        correlation_id,
        timestamp: first_byte,
        status,
        headers,
        body: response_body_and_duration(start, first_byte, stream).0,
        duration_to_first_byte: elapsed_spec(start, first_byte),
        duration: response_body_and_duration(start, first_byte, stream).1,
    }
}

/// The item a finished response yields, given the data of its request: the
/// response, built under the request's correlation id and timed from the
/// request's timestamp, paired with that request; nothing when no request
/// data was produced (its body capture failed, or it could not be queued).
pub open spec fn response_report_spec(
    request_data: Option<RequestData>,
    first_byte: u64,
    status: u16,
    headers: CapturedHeaders,
    stream: ResponseStream,
) -> Option<BackgroundTask> {
    match request_data {
        Some(d) => Some(
            BackgroundTask::Response {
                request_data: d,
                response_data: response_data_for(
                    d.correlation_id,
                    d.timestamp,
                    first_byte,
                    status,
                    headers,
                    stream,
                ),
            },
        ),
        None => None,
    }
}

/// The item to report once a response's stream has ended: the response,
/// built under its request's correlation id and timed from its request's
/// timestamp, together with that request; nothing when the request's data was
/// not produced (its body capture failed, or it could not be queued).
pub fn response_report(
    request_data: Option<RequestData>,
    first_byte: u64,
    status: u16,
    headers: CapturedHeaders,
    stream: ResponseStream,
) -> (report: Option<BackgroundTask>)
    ensures
        report == response_report_spec(request_data, first_byte, status, headers, stream),
        request_data is None <==> report is None,
        report is Some ==> report->0 is Response,
        report is Some ==> report->0->request_data == request_data->0,
        report is Some ==> report->0->response_data.status == status,
        report is Some ==> report->0->response_data.headers == headers,
        report is Some ==> report->0->response_data.timestamp == first_byte,
        report is Some ==> report->0->response_data.correlation_id == request_data->0.correlation_id,
{
    match request_data {
        Some(d) => {
            let response_data = assemble_response_data(
                d.correlation_id,
                d.timestamp,
                first_byte,
                status,
                headers,
                stream,
            );
            Some(BackgroundTask::Response { request_data: d, response_data })
        },
        None => None,
    }
}

/// The request data built from a head keeps every field of the head and
/// carries exactly the given body.
pub proof fn lemma_request_data_keeps_head(head: RequestHead, body: Option<Vec<u8>>)
    ensures
        head.with_body_spec(body).correlation_id == head.correlation_id,
        head.with_body_spec(body).timestamp == head.timestamp,
        head.with_body_spec(body).method == head.method,
        head.with_body_spec(body).uri == head.uri,
        head.with_body_spec(body).headers == head.headers,
        head.with_body_spec(body).body == body,
        head.with_body_spec(body).trace_id == head.trace_id,
        head.with_body_spec(body).span_id == head.span_id,
{
}

/// A reported response carries what the inner service answered with (its
/// status and headers), the time its headers were ready, and the request's
/// correlation id; its time to first byte runs from the request's timestamp
/// (0 when the clock went backwards); a completed stream gives its body as
/// captured and the time until completion, a failed one no body and the time
/// to first byte. It is paired with the request data it was given.
pub proof fn lemma_report_keeps_response(
    d: RequestData,
    first_byte: u64,
    status: u16,
    headers: CapturedHeaders,
    stream: ResponseStream,
)
    ensures
        match response_report_spec(Some(d), first_byte, status, headers, stream) {
            Some(BackgroundTask::Response { request_data: rq, response_data: rs }) => {
                &&& rq == d
                &&& rs.status == status
                &&& rs.headers == headers
                &&& rs.correlation_id == d.correlation_id
                &&& rs.timestamp == first_byte
                &&& rs.duration_to_first_byte == if first_byte >= d.timestamp {
                    first_byte - d.timestamp
                } else {
                    0
                }
                &&& match stream {
                    ResponseStream::Completed { completed_at, body } => {
                        &&& rs.body == body
                        &&& rs.duration == if completed_at >= d.timestamp {
                            completed_at - d.timestamp
                        } else {
                            0
                        }
                    },
                    ResponseStream::Failed { .. } => {
                        &&& rs.body is None
                        &&& rs.duration == rs.duration_to_first_byte
                    },
                }
            },
            _ => false,
        },
        response_report_spec(None, first_byte, status, headers, stream) is None,
{
}

/// One call, one id: the request data (whatever became of its body), the data
/// held for an abandonment report, and the reported response all carry the
/// correlation id of the call's head, and the response is paired with its own
/// request.
pub proof fn lemma_one_call_one_id(
    head: RequestHead,
    body: Option<Vec<u8>>,
    first_byte: u64,
    status: u16,
    headers: CapturedHeaders,
    stream: ResponseStream,
)
    ensures
        head.with_body_spec(body).correlation_id == head.correlation_id,
        head.with_body_spec(None).correlation_id == head.correlation_id,
        response_report_spec(Some(head.with_body_spec(body)), first_byte, status, headers, stream)
            matches Some(BackgroundTask::Response { request_data: rq, response_data: rs }) ==> (rq
            == head.with_body_spec(body) && rs.correlation_id == head.correlation_id),
        response_report_spec(Some(head.with_body_spec(body)), first_byte, status, headers, stream)
            is Some,
{
}

/// Where one call stands: waiting on the inner service, finished (the inner
/// service resolved), or abandoned (its future was dropped first).
#[derive(Clone, Copy, Debug, PartialEq, Eq, Structural)]
pub enum CallPhase {
    Awaiting,
    Finished,
    Abandoned,
}

/// What happens to one call.
pub enum CallEvent {
    /// The inner service resolved, successfully or with an error.
    InnerResolved { ok: bool },
    /// The call's future was dropped.
    Dropped,
}

/// What the middleware does in answer to an event of a call.
pub enum CallAction {
    /// Capture the response (with or without its body) and report it when done.
    CaptureResponse { capture_body: bool },
    /// Hand the inner service's error back; nothing is reported.
    PropagateError,
    /// Report the request as abandoned, with this data.
    ReportAbandoned { data: RequestData },
    /// Nothing to do.
    Nothing,
}

/// The kind of an action, without its data.
#[derive(Clone, Copy, Debug, PartialEq, Eq, Structural)]
pub enum ActionKind {
    CaptureResponse,
    PropagateError,
    ReportAbandoned,
    Nothing,
}

impl CallAction {
    /// The kind of this action.
    pub open spec fn kind(&self) -> ActionKind {
        match self {
            CallAction::CaptureResponse { .. } => ActionKind::CaptureResponse,
            CallAction::PropagateError => ActionKind::PropagateError,
            CallAction::ReportAbandoned { .. } => ActionKind::ReportAbandoned,
            CallAction::Nothing => ActionKind::Nothing,
        }
    }
}

/// The event seen abstractly: whether it is a resolution, and whether that succeeded.
pub open spec fn event_view(event: CallEvent) -> (bool, bool) {
    match event {
        CallEvent::InnerResolved { ok } => (true, ok),
        CallEvent::Dropped => (false, false),
    }
}

/// One step of a call: the phase after the event and the kind of action taken.
pub open spec fn call_step(phase: CallPhase, resolved: bool, ok: bool) -> (CallPhase, ActionKind) {
    match phase {
        CallPhase::Awaiting => if resolved {
            (CallPhase::Finished, if ok { ActionKind::CaptureResponse } else { ActionKind::PropagateError })
        } else {
            (CallPhase::Abandoned, ActionKind::ReportAbandoned)
        },
        _ => (phase, ActionKind::Nothing),
    }
}

/// The phase after a sequence of events (each a pair: resolved?, ok?), from `phase`.
pub open spec fn phase_after(phase: CallPhase, events: Seq<(bool, bool)>) -> CallPhase
    decreases events.len(),
{
    if events.len() == 0 {
        phase
    } else {
        let prev = phase_after(phase, events.drop_last());
        call_step(prev, events.last().0, events.last().1).0
    }
}

/// The kinds of actions taken for a sequence of events, from `phase`.
pub open spec fn actions_after(phase: CallPhase, events: Seq<(bool, bool)>) -> Seq<ActionKind>
    decreases events.len(),
{
    if events.len() == 0 {
        Seq::empty()
    } else {
        let prev = phase_after(phase, events.drop_last());
        actions_after(phase, events.drop_last()).push(
            call_step(prev, events.last().0, events.last().1).1,
        )
    }
}

proof fn lemma_actions_len(phase: CallPhase, events: Seq<(bool, bool)>)
    ensures
        actions_after(phase, events).len() == events.len(),
    decreases events.len(),
{
    if events.len() > 0 {
        lemma_actions_len(phase, events.drop_last());
    }
}

/// Over any sequence of events of one call, at most one action reports its
/// outcome: a request is answered or abandoned, never both, and never twice.
/// Every report comes from the first event, and everything after it does nothing.
pub proof fn lemma_single_report(events: Seq<(bool, bool)>)
    ensures
        forall|i: int| 0 < i < events.len() ==> actions_after(CallPhase::Awaiting, events)[i]
            == ActionKind::Nothing,
        events.len() > 0 ==> phase_after(CallPhase::Awaiting, events) != CallPhase::Awaiting,
    decreases events.len(),
{
    lemma_actions_len(CallPhase::Awaiting, events);
    if events.len() > 0 {
        let prefix = events.drop_last();
        lemma_single_report(prefix);
        lemma_actions_len(CallPhase::Awaiting, prefix);
        let acts = actions_after(CallPhase::Awaiting, events);
        assert(acts == actions_after(CallPhase::Awaiting, prefix).push(
            call_step(phase_after(CallPhase::Awaiting, prefix), events.last().0, events.last().1).1,
        ));
    }
}

/// A call is reported abandoned exactly when its future is dropped before the
/// inner service resolved; a drop after the resolution reports nothing.
pub proof fn lemma_abandoned_iff_dropped_first(events: Seq<(bool, bool)>)
    requires
        events.len() > 0,
    ensures
        (actions_after(CallPhase::Awaiting, events)[0] == ActionKind::ReportAbandoned) <==> !events[0].0,
        events[0].0 ==> forall|i: int| 0 <= i < events.len() ==> actions_after(CallPhase::Awaiting, events)[i]
            != ActionKind::ReportAbandoned,
{
    lemma_single_report(events);
    lemma_first_action(events);
}

proof fn lemma_first_action(events: Seq<(bool, bool)>)
    requires
        events.len() > 0,
    ensures
        actions_after(CallPhase::Awaiting, events)[0] == call_step(
            CallPhase::Awaiting,
            events[0].0,
            events[0].1,
        ).1,
    decreases events.len(),
{
    lemma_actions_len(CallPhase::Awaiting, events.drop_last());
    if events.len() > 1 {
        lemma_first_action(events.drop_last());
    } else {
        assert(events.drop_last().len() == 0);
        assert(events.last() == events[0]);
    }
}

/// The state of one captured call: its phase, the request data to report if
/// it is abandoned (held until the call is over), and whether the response
/// body is to be captured.
pub struct CallFlow {
    phase: CallPhase,
    abandon_data: Option<RequestData>,
    capture_response_body: bool,
}

impl CallFlow {
    /// The call's phase.
    pub closed spec fn phase(&self) -> CallPhase {
        self.phase
    }

    /// Whether the response body is to be captured.
    pub closed spec fn captures_response_body(&self) -> bool {
        self.capture_response_body
    }

    /// The data held for an abandonment report.
    pub closed spec fn held_data(&self) -> Option<RequestData> {
        self.abandon_data
    }

    /// While awaiting, the data for an abandonment report is held; once the
    /// call is over, nothing is held.
    #[verifier::type_invariant]
    closed spec fn well_formed(&self) -> bool {
        (self.phase == CallPhase::Awaiting) == (self.abandon_data is Some)
    }

    /// A call that waits on its inner service, holding `abandon_data` in case
    /// it is dropped first.
    pub fn new(abandon_data: RequestData, capture_response_body: bool) -> (flow: Self)
        ensures
            flow.phase() == CallPhase::Awaiting,
            flow.held_data() == Some(abandon_data),
            flow.captures_response_body() == capture_response_body,
    {
        CallFlow { phase: CallPhase::Awaiting, abandon_data: Some(abandon_data), capture_response_body }
    }

    /// A call for the request with this head: the data held for an
    /// abandonment report is the head without a body (the body's capture runs
    /// apart from the call and may not have finished).
    pub fn for_request(head: RequestHead, capture_response_body: bool) -> (flow: Self)
        ensures
            flow.phase() == CallPhase::Awaiting,
            flow.held_data() == Some(head.with_body_spec(None)),
            flow.captures_response_body() == capture_response_body,
    {
        CallFlow::new(head.with_body(None), capture_response_body)
    }

    /// Whether the call is still waiting on its inner service.
    pub fn is_awaiting(&self) -> (awaiting: bool)
        ensures
            awaiting == (self.phase() == CallPhase::Awaiting),
    {
        proof {
            use_type_invariant(self);
        }
        self.abandon_data.is_some()
    }

    /// Takes one event and returns the action to perform. While awaiting, a
    /// successful resolution captures the response, a failed one hands the
    /// error back, and a drop reports the held data as abandoned; once the
    /// call is over, every event is ignored.
    pub fn step(&mut self, event: CallEvent) -> (action: CallAction)
        ensures
            final(self).captures_response_body() == old(self).captures_response_body(),
            (final(self).phase(), action.kind()) == call_step(
                old(self).phase(),
                event_view(event).0,
                event_view(event).1,
            ),
            action matches CallAction::CaptureResponse { capture_body } ==> capture_body
                == old(self).captures_response_body(),
            action matches CallAction::ReportAbandoned { data } ==> old(self).held_data() == Some(
                data,
            ),
            final(self).phase() == CallPhase::Awaiting ==> final(self).held_data() == old(
                self,
            ).held_data(),
            final(self).phase() != CallPhase::Awaiting ==> final(self).held_data() is None,
    {
        proof {
            use_type_invariant(&*self);
        }
        if self.abandon_data.is_none() {
            return CallAction::Nothing;
        }
        let capture_response_body = self.capture_response_body;
        let (resolved, ok) = match event {
            CallEvent::InnerResolved { ok } => (true, ok),
            CallEvent::Dropped => (false, false),
        };
        let mut previous = CallFlow {
            phase: if resolved { CallPhase::Finished } else { CallPhase::Abandoned },
            abandon_data: None,
            capture_response_body,
        };
        std::mem::swap(self, &mut previous);
        if resolved {
            if ok {
                CallAction::CaptureResponse { capture_body: capture_response_body }
            } else {
                CallAction::PropagateError
            }
        } else {
            match previous.abandon_data {
                Some(data) => CallAction::ReportAbandoned { data },
                None => CallAction::Nothing,
            }
        }
    }
}

} // verus!
