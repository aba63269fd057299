use wasm_wiretap::config::PluginConfig;
use wasm_wiretap::exporters::{build_export_payload, CapturedJson};
use wasm_wiretap::filter::{HttpCapture, RequestHeaders};

fn headers_event() -> RequestHeaders {
    RequestHeaders {
        request_time: None,
        clock_ns: 5_000_000_000,
        method: Some("GET".to_string()),
        path: Some("/x".to_string()),
        authority: Some("h".to_string()),
        request_id: Some("id".to_string()),
        source_address: Some(b"1.2.3.4:5".to_vec()),
        destination_address: None,
        headers: vec![(":method".to_string(), "GET".to_string())],
    }
}

fn limited(max: usize) -> PluginConfig {
    let mut c = PluginConfig::default();
    c.max_body_bytes = max;
    c
}

#[test]
fn request_headers_are_recorded() {
    let c = PluginConfig::default();
    let mut cap = HttpCapture::new();
    cap.on_request_headers(&c, headers_event());
    assert_eq!(cap.data.timestamp_ns, 5_000_000_000);
    assert_eq!(cap.data.method, "GET");
    assert_eq!(cap.data.path, "/x");
    assert_eq!(cap.data.authority, "h");
    assert_eq!(cap.data.request_id.as_deref(), Some("id"));
    assert_eq!(cap.data.source_address.as_deref(), Some("1.2.3.4:5"));
    assert!(cap.data.destination_address.is_none());
    assert_eq!(cap.data.request_headers.as_ref().unwrap().len(), 1);
}

#[test]
fn request_time_property_wins_over_clock() {
    let c = PluginConfig::default();
    let mut cap = HttpCapture::new();
    let mut ev = headers_event();
    ev.request_time = Some(42u64.to_le_bytes().to_vec());
    ev.method = None;
    cap.on_request_headers(&c, ev);
    assert_eq!(cap.data.timestamp_ns, 42);
    assert_eq!(cap.data.method, "");
}

#[test]
fn request_headers_not_captured_when_disabled() {
    let mut c = PluginConfig::default();
    c.capture_request_headers = false;
    let mut cap = HttpCapture::new();
    cap.on_request_headers(&c, headers_event());
    assert!(cap.data.request_headers.is_none());
}

#[test]
fn body_capture_stops_at_limit() {
    let c = limited(4);
    let mut cap = HttpCapture::new();
    assert!(cap.wants_request_chunk(&c));
    cap.on_request_body(&c, Some(b"ab".to_vec()), false);
    assert!(cap.data.request_body.is_none());
    cap.on_request_body(&c, Some(b"cde".to_vec()), false);
    assert_eq!(cap.request_body_buffer, b"abcd".to_vec());
    assert!(!cap.wants_request_chunk(&c));
    cap.on_request_body(&c, Some(b"f".to_vec()), true);
    assert_eq!(cap.request_body_buffer, b"abcd".to_vec());
    assert_eq!(cap.data.request_body.as_deref(), Some("abcd"));
}

#[test]
fn chunked_capture_equals_whole_capture() {
    let body = b"hello, wiretap".to_vec();
    for max in [0usize, 1, 5, 14, 100] {
        let c = limited(max);
        let mut whole = HttpCapture::new();
        whole.on_request_body(&c, Some(body.clone()), true);
        let mut pieces = HttpCapture::new();
        for chunk in body.chunks(3) {
            pieces.on_request_body(&c, Some(chunk.to_vec()), false);
        }
        pieces.on_request_body(&c, None, true);
        assert_eq!(whole.request_body_buffer, pieces.request_body_buffer);
        let kept = if max == 0 || body.len() <= max { body.len() } else { max };
        assert_eq!(whole.request_body_buffer, body[..kept].to_vec());
    }
}

#[test]
fn unlimited_body_capture() {
    let c = limited(0);
    let mut cap = HttpCapture::new();
    cap.on_response_body(&c, Some(vec![1u8; 70000]), false);
    assert!(cap.wants_response_chunk(&c));
    assert_eq!(cap.response_body_buffer.len(), 70000);
}

#[test]
fn body_not_captured_when_disabled() {
    let mut c = PluginConfig::default();
    c.capture_request_body = false;
    c.capture_response_body = false;
    let mut cap = HttpCapture::new();
    assert!(!cap.wants_request_chunk(&c));
    cap.on_request_body(&c, Some(b"x".to_vec()), true);
    assert!(cap.request_body_buffer.is_empty());
    assert!(cap.data.request_body.is_none());
    assert!(cap.on_response_body(&c, Some(b"y".to_vec()), true));
    assert!(cap.data.response_body.is_none());
}

#[test]
fn invalid_utf8_body_is_replaced() {
    let c = PluginConfig::default();
    let mut cap = HttpCapture::new();
    cap.on_request_body(&c, Some(vec![b'a', 0xff, b'b']), true);
    assert_eq!(cap.data.request_body.as_deref(), Some("a\u{FFFD}b"));
}

#[test]
fn response_steps() {
    let c = PluginConfig::default();
    let mut cap = HttpCapture::new();
    cap.on_response_headers(&c, Some("503".to_string()), vec![], Some(b"outbound|80||web".to_vec()));
    assert_eq!(cap.data.status_code, 503);
    assert_eq!(cap.data.response_headers, Some(vec![]));
    assert_eq!(cap.data.upstream_cluster.as_deref(), Some("outbound|80||web"));
    cap.on_response_headers(&c, Some("oops".to_string()), vec![], None);
    assert_eq!(cap.data.status_code, 0);
    assert_eq!(cap.data.upstream_cluster.as_deref(), Some("outbound|80||web"));
    assert!(!cap.on_response_body(&c, Some(b"ok".to_vec()), false));
    assert!(cap.data.response_body.is_none());
    assert!(cap.on_response_body(&c, None, true));
    assert_eq!(cap.data.response_body.as_deref(), Some("ok"));
}

#[test]
fn on_log_recovers_unfinished_response_body() {
    let c = PluginConfig::default();
    let mut cap = HttpCapture::new();
    cap.on_log(&c);
    assert!(cap.data.response_body.is_none());
    cap.on_response_body(&c, Some(b"part".to_vec()), false);
    cap.on_log(&c);
    assert_eq!(cap.data.response_body.as_deref(), Some("part"));
}

#[test]
fn each_transaction_is_exported_once() {
    let c = PluginConfig::default();
    let mut cap = HttpCapture::new();
    assert!(!cap.exported);
    assert!(!cap.on_response_body(&c, Some(b"ok".to_vec()), false));
    assert!(cap.on_response_body(&c, None, true));
    cap.finalise(1);
    assert!(cap.exported);
    assert!(!cap.on_log(&c));
    assert!(!cap.on_response_body(&c, None, true));
}

#[test]
fn on_log_exports_an_unfinished_transaction() {
    let c = PluginConfig::default();
    let mut cap = HttpCapture::new();
    assert!(cap.on_log(&c));
}

#[test]
fn finalise_computes_duration() {
    let mut cap = HttpCapture::new();
    cap.finalise(10_000_000);
    assert_eq!(cap.data.duration_ms, 0);
    cap.data.timestamp_ns = 1_000_000_000;
    cap.finalise(999_999_999);
    assert_eq!(cap.data.duration_ms, 0);
    cap.finalise(1_250_999_999);
    assert_eq!(cap.data.duration_ms, 250);
}

#[test]
fn no_export_without_upstream_cluster() {
    let c = PluginConfig::default();
    let cap = HttpCapture::new();
    let json = CapturedJson { keys_sorted: String::new(), fields_in_order: String::new() };
    assert!(cap.export_request(&c, &json).is_none());
}

#[test]
fn export_request_shape() {
    let mut c = PluginConfig::default();
    c.upstream_cluster = "outbound|4318||otel".to_string();
    c.upstream_authority = "otel".to_string();
    c.upstream_port = 4318;
    c.upstream_path = "/v1/logs".to_string();
    let cap = HttpCapture::new();
    let json = CapturedJson { keys_sorted: "{}".to_string(), fields_in_order: "{}".to_string() };
    let req = cap.export_request(&c, &json).unwrap();
    assert_eq!(req.upstream, "outbound|4318||otel");
    assert_eq!(req.timeout_secs, 5);
    let names: Vec<(&str, &str)> =
        req.headers.iter().map(|(k, v)| (k.as_str(), v.as_str())).collect();
    assert_eq!(
        names,
        vec![
            (":method", "POST"),
            (":path", "/v1/logs"),
            (":authority", "otel:4318"),
            ("content-type", "application/json"),
            ("user-agent", "wasm-wiretap/0.1"),
        ]
    );
    let (_, body) = build_export_payload(&c, &cap.data, &json);
    assert_eq!(req.body, body);
}
