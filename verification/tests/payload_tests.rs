use serde_json::Value;
use wasm_wiretap::capture::CapturedData;
use wasm_wiretap::config::{ExporterBackend, PluginConfig};
use wasm_wiretap::exporters::{
    build_export_payload, build_otel_log_attributes, insert_leading_member, kv_object,
    loki_document, loki_message_string, otel_kv, otlp_document, severity, stream_labels,
    CapturedJson,
};

fn s(x: &str) -> Value {
    Value::String(x.to_string())
}

fn obj(entries: Vec<(&str, Value)>) -> Value {
    let mut m = serde_json::Map::new();
    for (k, v) in entries {
        m.insert(k.to_string(), v);
    }
    Value::Object(m)
}

fn kv(k: &str, v: &str) -> Value {
    obj(vec![("key", s(k)), ("value", obj(vec![("stringValue", s(v))]))])
}

fn sample_data() -> CapturedData {
    let mut d = CapturedData::new();
    d.timestamp_ns = 1_700_000_000_123_456_789;
    d.method = "POST".to_string();
    d.path = "/q?x=\"1\"\n".to_string();
    d.authority = "example.com".to_string();
    d.status_code = 404;
    d.duration_ms = 12;
    d.request_id = Some("rid-1".to_string());
    d.destination_address = Some("10.0.0.2:80".to_string());
    d
}

fn sample_json() -> CapturedJson {
    CapturedJson {
        keys_sorted: "{\"authority\":\"example.com\",\"method\":\"POST\"}".to_string(),
        fields_in_order: "{\"timestamp_ns\":1,\"method\":\"POST\"}".to_string(),
    }
}

fn expected_headers() -> Vec<(String, String)> {
    vec![
        ("content-type".to_string(), "application/json".to_string()),
        ("user-agent".to_string(), "wasm-wiretap/0.1".to_string()),
    ]
}

#[test]
fn otel_kv_matches_serde_json() {
    let k = "na\"me";
    let v = "va\\lue\u{1}é";
    assert_eq!(otel_kv(k, v), serde_json::to_string(&kv(k, v)).unwrap());
    assert_eq!(kv_object("\"a\"", "\"b\""), "{\"key\":\"a\",\"value\":{\"stringValue\":\"b\"}}");
}

#[test]
fn severity_levels() {
    assert_eq!(severity(200), (9, "INFO"));
    assert_eq!(severity(399), (9, "INFO"));
    assert_eq!(severity(400), (13, "WARN"));
    assert_eq!(severity(499), (13, "WARN"));
    assert_eq!(severity(500), (17, "ERROR"));
    assert_eq!(severity(0), (9, "INFO"));
}

#[test]
fn log_attributes_in_order() {
    let d = sample_data();
    let attrs = build_otel_log_attributes(&d);
    let expected: Vec<String> = vec![
        kv("http.method", "POST"),
        kv("http.target", "/q?x=\"1\"\n"),
        kv("http.host", "example.com"),
        kv("http.status_code", "404"),
        kv("http.duration_ms", "12"),
        kv("http.request_id", "rid-1"),
        kv("net.host.ip", "10.0.0.2:80"),
    ]
    .iter()
    .map(|v| serde_json::to_string(v).unwrap())
    .collect();
    assert_eq!(attrs, expected);
}

#[test]
fn loki_message_summary() {
    let d = sample_data();
    assert_eq!(loki_message_string(&d), "POST /q?x=\"1\"\n example.com → 404");
}

#[test]
fn insert_leading_member_cases() {
    assert_eq!(insert_leading_member("{\"a\":1}", "\"_m\":2"), "{\"_m\":2,\"a\":1}");
    assert_eq!(insert_leading_member("{}", "\"_m\":2"), "{\"_m\":2}");
    assert_eq!(insert_leading_member("", "\"_m\":2"), "{\"_m\":2}");
    assert_eq!(insert_leading_member("[1]", "\"_m\":2"), "{\"_m\":2}");
}

#[test]
fn loki_document_layout() {
    assert_eq!(
        loki_document("{}", "\"1\"", "\"l\""),
        "{\"streams\":[{\"stream\":{},\"values\":[[\"1\",\"l\"]]}]}"
    );
}

#[test]
fn stream_labels_override_builtins() {
    let mut c = PluginConfig::default();
    c.service_name = "svc".to_string();
    c.labels = vec![
        ("env".to_string(), "prod".to_string()),
        ("source".to_string(), "custom".to_string()),
    ];
    let mut labels = stream_labels(&c);
    labels.sort();
    assert_eq!(
        labels,
        vec![
            ("env".to_string(), "prod".to_string()),
            ("service".to_string(), "svc".to_string()),
            ("source".to_string(), "custom".to_string()),
        ]
    );
}

#[test]
fn loki_payload_matches_serde_json() {
    let mut c = PluginConfig::default();
    c.backend = ExporterBackend::Loki;
    c.service_name = "my-gateway".to_string();
    c.labels = vec![
        ("env".to_string(), "production".to_string()),
        ("service".to_string(), "override".to_string()),
    ];
    let d = sample_data();
    let json = sample_json();
    let (headers, body) = build_export_payload(&c, &d, &json);
    assert_eq!(headers, expected_headers());

    let mut log_map: serde_json::Map<String, Value> = serde_json::from_str(&json.keys_sorted).unwrap();
    log_map.insert("_msg".to_string(), s("POST /q?x=\"1\"\n example.com → 404"));
    let log_line = serde_json::to_string(&log_map).unwrap();
    let stream = obj(vec![
        ("env", s("production")),
        ("service", s("override")),
        ("source", s("wasm-wiretap")),
    ]);
    let payload = obj(vec![(
        "streams",
        Value::Array(vec![obj(vec![
            ("stream", stream),
            (
                "values",
                Value::Array(vec![Value::Array(vec![
                    s(&format!("{}", d.timestamp_ns)),
                    s(&log_line),
                ])]),
            ),
        ])]),
    )]);
    assert_eq!(String::from_utf8(body.clone()).unwrap(), serde_json::to_string(&payload).unwrap());
    assert_eq!(body, serde_json::to_vec(&payload).unwrap());
}

#[test]
fn loki_payload_with_unserialisable_record() {
    let mut c = PluginConfig::default();
    c.backend = ExporterBackend::Loki;
    let mut d = CapturedData::new();
    d.status_code = 200;
    let json = CapturedJson { keys_sorted: String::new(), fields_in_order: String::new() };
    let (_, body) = build_export_payload(&c, &d, &json);
    let text = String::from_utf8(body).unwrap();
    assert_eq!(
        text,
        "{\"streams\":[{\"stream\":{\"service\":\"wasm-wiretap\",\"source\":\"wasm-wiretap\"},\"values\":[[\"0\",\"{\\\"_msg\\\":\\\"   → 200\\\"}\"]]}]}"
    );
}

fn otlp_expected(c: &PluginConfig, d: &CapturedData, fields: &str, level: (i64, &str)) -> Value {
    let mut resource_attrs = vec![
        kv("service.name", &c.service_name),
        kv("telemetry.sdk.name", "wasm-wiretap"),
        kv("telemetry.sdk.language", "rust"),
    ];
    for (k, v) in &c.labels {
        resource_attrs.push(kv(k, v));
    }
    let log_attrs: Vec<Value> = build_otel_log_attributes(d)
        .iter()
        .map(|t| serde_json::from_str(t).unwrap())
        .collect();
    obj(vec![(
        "resourceLogs",
        Value::Array(vec![obj(vec![
            ("resource", obj(vec![("attributes", Value::Array(resource_attrs))])),
            (
                "scopeLogs",
                Value::Array(vec![obj(vec![
                    ("scope", obj(vec![("name", s("wasm-wiretap")), ("version", s("0.1.0"))])),
                    (
                        "logRecords",
                        Value::Array(vec![obj(vec![
                            ("timeUnixNano", s(&format!("{}", d.timestamp_ns))),
                            ("severityNumber", Value::from(level.0)),
                            ("severityText", s(level.1)),
                            ("body", obj(vec![("stringValue", s(fields))])),
                            ("attributes", Value::Array(log_attrs)),
                            ("traceId", s("")),
                            ("spanId", s("")),
                        ])]),
                    ),
                ])]),
            ),
        ])]),
    )])
}

#[test]
fn otlp_payload_matches_serde_json() {
    let mut c = PluginConfig::default();
    c.service_name = "my-gateway".to_string();
    c.labels = vec![
        ("env".to_string(), "production".to_string()),
        ("team".to_string(), "edge\tops".to_string()),
    ];
    let d = sample_data();
    let json = sample_json();
    let (headers, body) = build_export_payload(&c, &d, &json);
    assert_eq!(headers, expected_headers());
    let expected = otlp_expected(&c, &d, &json.fields_in_order, (13, "WARN"));
    assert_eq!(String::from_utf8(body.clone()).unwrap(), serde_json::to_string(&expected).unwrap());
    assert_eq!(body, serde_json::to_vec(&expected).unwrap());
}

#[test]
fn otlp_payload_error_severity() {
    let c = PluginConfig::default();
    let mut d = CapturedData::new();
    d.status_code = 502;
    d.source_address = Some("1.2.3.4:5".to_string());
    let json = CapturedJson { keys_sorted: String::new(), fields_in_order: String::new() };
    let (_, body) = build_export_payload(&c, &d, &json);
    let expected = otlp_expected(&c, &d, "", (17, "ERROR"));
    assert_eq!(body, serde_json::to_vec(&expected).unwrap());
}

#[test]
fn otlp_document_layout() {
    let doc = otlp_document(&vec!["1".to_string(), "2".to_string()], &vec![], "\"b\"", 9, "INFO", "\"7\"");
    assert_eq!(
        doc,
        "{\"resourceLogs\":[{\"resource\":{\"attributes\":[1,2]},\"scopeLogs\":[{\"logRecords\":[{\"attributes\":[],\"body\":{\"stringValue\":\"b\"},\"severityNumber\":9,\"severityText\":\"INFO\",\"spanId\":\"\",\"timeUnixNano\":\"7\",\"traceId\":\"\"}],\"scope\":{\"name\":\"wasm-wiretap\",\"version\":\"0.1.0\"}}]}]}"
    );
}

#[test]
fn escaping_matches_serde_json_for_every_ascii_character() {
    for code in 0u32..0x80 {
        let c = char::from_u32(code).unwrap();
        let text = format!("a{}b", c);
        assert_eq!(otel_kv("k", &text), serde_json::to_string(&kv("k", &text)).unwrap());
    }
    let text = "é→\u{7f}\u{1F600}";
    assert_eq!(otel_kv(text, text), serde_json::to_string(&kv(text, text)).unwrap());
}
