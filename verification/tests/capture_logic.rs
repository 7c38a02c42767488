use outlet::batching::split_batches;
use outlet::body_wrapper::{BodyCaptureError, BodyCollector};
use outlet::config::{starts_with_bytes, CapturePlan, PathFilter, RequestLoggerConfig};
use outlet::correlation::{compose_correlation_id, CorrelationIdGenerator};
use outlet::headers::CapturedHeaders;
use outlet::lifecycle::{
    assemble_request_data, assemble_response_data, elapsed, CallAction, CallEvent, CallFlow,
    RequestHead, ResponseStream,
};
use outlet::logging_handler::LoggingHandler;
use outlet::multi_handler::MultiHandler;
use outlet::trace_ids::recorded_trace_ids;
use outlet::types::{BackgroundTask, RequestData};

fn strings(items: &[&str]) -> Vec<String> {
    items.iter().map(|s| s.to_string()).collect()
}

fn head(id: u64, uri: &str) -> RequestHead {
    RequestHead {
        correlation_id: id,
        timestamp: 1_000,
        method: "GET".to_string(),
        uri: uri.to_string(),
        headers: CapturedHeaders::new(),
        trace_id: None,
        span_id: None,
    }
}

fn request(id: u64, uri: &str) -> RequestData {
    head(id, uri).with_body(None)
}

#[test]
fn filter_blocked_prefix_takes_precedence() {
    let filter = PathFilter {
        allowed_prefixes: strings(&["/api"]),
        blocked_prefixes: strings(&["/api/health"]),
    };
    assert!(!filter.should_capture("/api/health"));
    assert!(!filter.should_capture("/api/healthz"));
    assert!(filter.should_capture("/api/users"));
    assert!(!filter.should_capture("/static/app.js"));
}

#[test]
fn filter_without_allowed_prefixes_captures_everything_not_blocked() {
    let filter = PathFilter { allowed_prefixes: vec![], blocked_prefixes: strings(&["/metrics"]) };
    assert!(filter.should_capture("/"));
    assert!(filter.should_capture("/hello"));
    assert!(!filter.should_capture("/metrics"));
    let empty = PathFilter { allowed_prefixes: vec![], blocked_prefixes: vec![] };
    assert!(empty.should_capture("/anything/at/all"));
}

#[test]
fn filter_matches_prefixes_byte_for_byte() {
    let filter = PathFilter { allowed_prefixes: strings(&["/é", "/b"]), blocked_prefixes: vec![] };
    assert!(filter.should_capture("/été"));
    assert!(filter.should_capture("/b"));
    assert!(!filter.should_capture("/"));
    assert!(!filter.should_capture("/e"));
    assert!(starts_with_bytes(b"/hello", b""));
    assert!(!starts_with_bytes(b"/he", b"/hello"));
}

#[test]
fn default_config_captures_both_bodies() {
    let config = RequestLoggerConfig::default();
    assert!(config.capture_request_body);
    assert!(config.capture_response_body);
    assert!(config.path_filter.is_none());
    assert_eq!(config.channel_capacity, 4096);
    assert_eq!(
        config.plan_for_path("/hello"),
        CapturePlan::Capture { request_body: true, response_body: true }
    );
}

#[test]
fn filtered_requests_pass_through() {
    let config = RequestLoggerConfig {
        capture_request_body: false,
        capture_response_body: true,
        path_filter: Some(PathFilter {
            allowed_prefixes: vec![],
            blocked_prefixes: strings(&["/health"]),
        }),
        ..Default::default()
    };
    assert_eq!(config.plan_for_path("/health"), CapturePlan::Passthrough);
    assert_eq!(
        config.plan_for_path("/echo"),
        CapturePlan::Capture { request_body: false, response_body: true }
    );
}

#[test]
fn headers_grouped_by_name_in_order() {
    let lines = vec![
        ("accept".to_string(), b"text/html".to_vec()),
        ("set-cookie".to_string(), b"a=1".to_vec()),
        ("accept".to_string(), b"application/json".to_vec()),
        ("set-cookie".to_string(), b"b=2".to_vec()),
        ("host".to_string(), b"localhost".to_vec()),
    ];
    let headers = CapturedHeaders::from_lines(&lines);
    assert_eq!(headers.len(), 3);
    assert_eq!(
        headers.get("accept").unwrap(),
        &vec![b"text/html".to_vec(), b"application/json".to_vec()]
    );
    assert_eq!(headers.get("set-cookie").unwrap(), &vec![b"a=1".to_vec(), b"b=2".to_vec()]);
    assert_eq!(headers.get("host").unwrap(), &vec![b"localhost".to_vec()]);
    assert!(headers.get("content-type").is_none());
    let names: Vec<&String> = headers.entries().iter().map(|e| e.name()).collect();
    assert_eq!(names, vec!["accept", "set-cookie", "host"]);
}

#[test]
fn no_header_lines_give_no_headers() {
    let headers = CapturedHeaders::from_lines(&vec![]);
    assert_eq!(headers.len(), 0);
    assert!(headers.get("accept").is_none());
}

#[test]
fn collector_concatenates_chunks() {
    let mut collector = BodyCollector::new();
    assert!(collector.accept_chunk(b"chunk1"));
    assert!(collector.accept_chunk(b"chunk2"));
    assert!(collector.accept_chunk(b""));
    assert!(collector.accept_chunk(b"chunk3"));
    assert!(collector.is_gathering());
    assert_eq!(collector.finish().unwrap(), b"chunk1chunk2chunk3".to_vec());
}

#[test]
fn collector_of_large_body_keeps_every_byte() {
    let data = "x".repeat(2048);
    let mut collector = BodyCollector::new();
    for chunk in data.as_bytes().chunks(100) {
        assert!(collector.accept_chunk(chunk));
    }
    let captured = collector.finish().unwrap();
    assert_eq!(captured.len(), 2048);
    assert_eq!(captured, data.into_bytes());
}

#[test]
fn collector_stops_at_first_stream_error() {
    let mut collector = BodyCollector::new();
    assert!(collector.accept_chunk(b"partial"));
    collector.accept_failure("connection reset".to_string());
    assert!(!collector.is_gathering());
    assert!(!collector.accept_chunk(b"more"));
    collector.accept_failure("second error".to_string());
    match collector.finish() {
        Err(e) => {
            assert_eq!(e.describe(), "Body stream error: connection reset");
            let BodyCaptureError::StreamError(m) = e;
            assert_eq!(m, "connection reset");
        }
        Ok(_) => panic!("a failed capture must not give a body"),
    }
}

#[test]
fn empty_body_is_captured_as_empty() {
    let collector = BodyCollector::new();
    assert_eq!(collector.finish().unwrap(), Vec::<u8>::new());
}

#[test]
fn correlation_id_packs_start_time_and_counter() {
    assert_eq!(compose_correlation_id(1, 1), (1u64 << 32) | 1);
    assert_eq!(compose_correlation_id(0x1234_5678, 0xABCD), 0x1234_5678_0000_ABCD);
    // Only the low 32 bits of each part survive.
    assert_eq!(compose_correlation_id(0x1_0000_0002, 0x7_0000_0009), 0x0000_0002_0000_0009);
}

#[test]
fn generator_hands_out_distinct_ids() {
    let mut generator = CorrelationIdGenerator::new(1_700_000_000);
    let ids: Vec<u64> = (0..5).map(|_| generator.next_id()).collect();
    assert_eq!(ids[0], compose_correlation_id(1_700_000_000, 1));
    assert_eq!(ids[4], compose_correlation_id(1_700_000_000, 5));
    let unique: std::collections::HashSet<u64> = ids.iter().copied().collect();
    assert_eq!(unique.len(), 5);
    for id in ids {
        assert_eq!(id >> 32, 1_700_000_000u64 & 0xFFFF_FFFF);
    }
}

#[test]
fn valid_span_context_is_recorded_as_hex() {
    let trace = [0x4b, 0xf9, 0x2f, 0x35, 0x77, 0xb3, 0x4d, 0xa6, 0xa3, 0xce, 0x92, 0x9d, 0x0e, 0x0e, 0x47, 0x36];
    let span = [0x00, 0xf0, 0x67, 0xaa, 0x0b, 0xa9, 0x02, 0xb7];
    let (t, s) = recorded_trace_ids(trace, span);
    assert_eq!(t.as_deref(), Some("4bf92f3577b34da6a3ce929d0e0e4736"));
    assert_eq!(s.as_deref(), Some("00f067aa0ba902b7"));
}

#[test]
fn invalid_span_context_records_nothing() {
    let (t, s) = recorded_trace_ids([0; 16], [1; 8]);
    assert!(t.is_none() && s.is_none());
    let (t, s) = recorded_trace_ids([1; 16], [0; 8]);
    assert!(t.is_none() && s.is_none());
}

#[test]
fn request_data_depends_on_body_capture() {
    let d = assemble_request_data(head(7, "/echo"), None).unwrap();
    assert_eq!(d.correlation_id, 7);
    assert!(d.body.is_none());
    let d = assemble_request_data(head(8, "/echo"), Some(Ok(b"Hello, World!".to_vec()))).unwrap();
    assert_eq!(d.body.as_deref(), Some(&b"Hello, World!"[..]));
    assert_eq!(d.uri, "/echo");
    let e = assemble_request_data(
        head(9, "/echo"),
        Some(Err(BodyCaptureError::StreamError("boom".to_string()))),
    );
    assert!(e.is_err());
}

fn completed(at: u64, body: Option<&[u8]>) -> ResponseStream {
    ResponseStream::Completed { completed_at: at, body: body.map(|b| b.to_vec()) }
}

fn failed() -> ResponseStream {
    ResponseStream::Failed { error: BodyCaptureError::StreamError("x".to_string()) }
}

#[test]
fn response_timings() {
    assert_eq!(elapsed(100, 250), 150);
    assert_eq!(elapsed(250, 100), 0);
    let r = assemble_response_data(3, 1_000, 1_500, 200, CapturedHeaders::new(), completed(1_500, None));
    assert_eq!(r.duration_to_first_byte, 500);
    assert_eq!(r.duration, 500);
    assert_eq!(r.timestamp, 1_500);
    assert!(r.body.is_none());
    let r = assemble_response_data(
        3,
        1_000,
        1_500,
        201,
        CapturedHeaders::new(),
        completed(4_000, Some(b"chunk1chunk2chunk3")),
    );
    assert_eq!(r.status, 201);
    assert_eq!(r.duration_to_first_byte, 500);
    assert_eq!(r.duration, 3_000);
    assert_eq!(r.body.as_deref(), Some(&b"chunk1chunk2chunk3"[..]));
    let r = assemble_response_data(3, 1_000, 1_500, 200, CapturedHeaders::new(), failed());
    assert!(r.body.is_none());
    assert_eq!(r.duration, 500);
}

#[test]
fn uncaptured_streaming_response_counts_streaming_time() {
    let r = assemble_response_data(4, 1_000, 1_500, 200, CapturedHeaders::new(), completed(9_500, None));
    assert!(r.body.is_none());
    assert_eq!(r.duration_to_first_byte, 500);
    assert_eq!(r.duration, 8_500);
    assert!(r.duration >= r.duration_to_first_byte + 8_000);
}

#[test]
fn relay_only_collector_keeps_no_bytes() {
    let mut relay = BodyCollector::relay_only();
    assert!(relay.accept_chunk(b"chunk1"));
    assert!(relay.accept_chunk(b"chunk2"));
    assert_eq!(relay.finish_stream().unwrap(), None);
    let mut capture = BodyCollector::new();
    assert!(capture.accept_chunk(b"chunk1"));
    assert_eq!(capture.finish_stream().unwrap(), Some(b"chunk1".to_vec()));
    let mut broken = BodyCollector::relay_only();
    broken.accept_failure("reset".to_string());
    assert!(!broken.accept_chunk(b"late"));
    assert!(broken.finish_stream().is_err());
}

#[test]
fn resolved_call_is_never_abandoned() {
    let mut flow = CallFlow::new(request(1, "/hello"), true);
    assert!(flow.is_awaiting());
    match flow.step(CallEvent::InnerResolved { ok: true }) {
        CallAction::CaptureResponse { capture_body } => assert!(capture_body),
        _ => panic!("a successful call captures its response"),
    }
    assert!(!flow.is_awaiting());
    assert!(matches!(flow.step(CallEvent::Dropped), CallAction::Nothing));
}

#[test]
fn failed_call_hands_error_back() {
    let mut flow = CallFlow::new(request(2, "/hello"), false);
    assert!(matches!(flow.step(CallEvent::InnerResolved { ok: false }), CallAction::PropagateError));
    assert!(matches!(flow.step(CallEvent::Dropped), CallAction::Nothing));
}

#[test]
fn dropped_call_is_reported_abandoned_once() {
    let mut flow = CallFlow::new(request(3, "/slow"), true);
    match flow.step(CallEvent::Dropped) {
        CallAction::ReportAbandoned { data } => {
            assert_eq!(data.correlation_id, 3);
            assert_eq!(data.uri, "/slow");
            assert!(data.body.is_none());
        }
        _ => panic!("a dropped call is reported abandoned"),
    }
    assert!(matches!(flow.step(CallEvent::Dropped), CallAction::Nothing));
    assert!(matches!(flow.step(CallEvent::InnerResolved { ok: true }), CallAction::Nothing));
}

#[test]
fn batches_keep_arrival_order() {
    let response = assemble_response_data(2, 0, 10, 200, CapturedHeaders::new(), completed(10, None));
    let tasks = vec![
        BackgroundTask::Request { data: request(1, "/a") },
        BackgroundTask::Response { request_data: request(2, "/b"), response_data: response },
        BackgroundTask::Abandoned { data: request(3, "/c") },
        BackgroundTask::Request { data: request(4, "/d") },
    ];
    let batches = split_batches(tasks);
    let ids: Vec<u64> = batches.requests.iter().map(|d| d.correlation_id).collect();
    assert_eq!(ids, vec![1, 4]);
    assert_eq!(batches.responses.len(), 1);
    assert_eq!(batches.responses[0].0.correlation_id, 2);
    assert_eq!(batches.responses[0].1.correlation_id, 2);
    assert_eq!(batches.abandoned.len(), 1);
    assert_eq!(batches.abandoned[0].uri, "/c");
    let empty = split_batches(vec![]);
    assert!(empty.requests.is_empty() && empty.responses.is_empty() && empty.abandoned.is_empty());
}

#[test]
fn multi_handler_collects_handlers_in_order() {
    let handler: MultiHandler<&str> = MultiHandler::new();
    assert!(handler.is_empty());
    assert_eq!(handler.len(), 0);
    let handler = handler.with("logging").with("metrics");
    assert!(!handler.is_empty());
    assert_eq!(handler.len(), 2);
    assert_eq!(handler.handlers(), &vec!["logging", "metrics"]);
    let defaulted: MultiHandler<u8> = Default::default();
    assert!(defaulted.is_empty());
}

#[test]
fn logging_handler_reports_body_size_and_millis() {
    assert_eq!(LoggingHandler::body_size(&None), 0);
    assert_eq!(LoggingHandler::body_size(&Some(b"Hello".to_vec())), 5);
    assert_eq!(LoggingHandler::duration_millis(100_999_999), 100);
}

#[test]
fn consecutive_drains_batch_in_arrival_order() {
    let first = split_batches(vec![
        BackgroundTask::Request { data: request(1, "/a") },
        BackgroundTask::Abandoned { data: request(2, "/b") },
    ]);
    let second = split_batches(vec![
        BackgroundTask::Request { data: request(3, "/c") },
        BackgroundTask::Request { data: request(4, "/d") },
    ]);
    let mut ids: Vec<u64> = first.requests.iter().map(|d| d.correlation_id).collect();
    ids.extend(second.requests.iter().map(|d| d.correlation_id));
    assert_eq!(ids, vec![1, 3, 4]);
    let together = split_batches(vec![
        BackgroundTask::Request { data: request(1, "/a") },
        BackgroundTask::Abandoned { data: request(2, "/b") },
        BackgroundTask::Request { data: request(3, "/c") },
        BackgroundTask::Request { data: request(4, "/d") },
    ]);
    let together_ids: Vec<u64> = together.requests.iter().map(|d| d.correlation_id).collect();
    assert_eq!(together_ids, ids);
    assert_eq!(together.abandoned.len() + together.requests.len() + together.responses.len(), 4);
}

#[test]
fn cloned_headers_keep_every_value() {
    let lines = vec![
        ("x-a".to_string(), b"1".to_vec()),
        ("x-a".to_string(), b"2".to_vec()),
    ];
    let headers = CapturedHeaders::from_lines(&lines);
    let copy = headers.clone();
    assert_eq!(copy.len(), 1);
    assert_eq!(copy.get("x-a").unwrap(), &vec![b"1".to_vec(), b"2".to_vec()]);
}

#[test]
fn abandoned_call_carries_head_without_body() {
    let mut h = head(11, "/upload");
    h.method = "POST".to_string();
    let mut flow = CallFlow::for_request(h, false);
    match flow.step(CallEvent::Dropped) {
        CallAction::ReportAbandoned { data } => {
            assert_eq!(data.correlation_id, 11);
            assert_eq!(data.method, "POST");
            assert!(data.body.is_none());
        }
        _ => panic!("a dropped call is reported abandoned"),
    }
}

#[test]
fn response_is_reported_only_with_its_request() {
    assert!(outlet::lifecycle::response_report(
        None,
        10,
        200,
        CapturedHeaders::new(),
        completed(10, None)
    )
    .is_none());
    // The request was received at 1_000 (see `head`).
    match outlet::lifecycle::response_report(
        Some(request(5, "/r")),
        1_400,
        200,
        CapturedHeaders::new(),
        completed(2_000, Some(b"ok")),
    ) {
        Some(BackgroundTask::Response { request_data, response_data }) => {
            assert_eq!(request_data.correlation_id, 5);
            assert_eq!(response_data.correlation_id, 5);
            assert_eq!(response_data.status, 200);
            assert_eq!(response_data.duration_to_first_byte, 400);
            assert_eq!(response_data.duration, 1_000);
            assert_eq!(response_data.body.as_deref(), Some(&b"ok"[..]));
        }
        _ => panic!("a response with its request is reported"),
    }
}

#[test]
fn empty_batches_are_not_dispatched() {
    let (requests, responses, abandoned) = split_batches(vec![
        BackgroundTask::Request { data: request(1, "/a") },
        BackgroundTask::Request { data: request(2, "/b") },
    ])
    .into_dispatch();
    let ids: Vec<u64> = requests.unwrap().iter().map(|d| d.correlation_id).collect();
    assert_eq!(ids, vec![1, 2]);
    assert!(responses.is_none());
    assert!(abandoned.is_none());
    let (r, s, a) = split_batches(vec![]).into_dispatch();
    assert!(r.is_none() && s.is_none() && a.is_none());
}

#[test]
fn generator_ids_carry_the_call_number_and_rise() {
    let start = 1_725_029_869u64;
    let mut generator = CorrelationIdGenerator::new(start);
    let mut previous = 0u64;
    for k in 1..=1000u64 {
        let id = generator.next_id();
        assert_eq!(id & 0xFFFF_FFFF, k);
        assert_eq!(id >> 32, start & 0xFFFF_FFFF);
        assert!(id > previous);
        previous = id;
    }
}
