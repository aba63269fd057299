use wasm_wiretap::labels::distinct_labels;
use wasm_wiretap::capture::CapturedData;
use wasm_wiretap::config::{ExporterBackend, PluginConfig};

fn loki_config() -> PluginConfig {
    let mut c = PluginConfig::default();
    c.backend = ExporterBackend::Loki;
    c
}

#[test]
fn plugin_config_defaults() {
    let c = PluginConfig::default();
    assert_eq!(c.backend, ExporterBackend::Otlp);
    assert_eq!(c.upstream_cluster, "");
    assert_eq!(c.upstream_authority, "");
    assert_eq!(c.upstream_path, "");
    assert_eq!(c.upstream_port, 0);
    assert!(c.labels.is_empty());
    assert_eq!(c.service_name, "wasm-wiretap");
    assert!(c.capture_request_headers);
    assert!(c.capture_request_body);
    assert!(c.capture_response_headers);
    assert!(c.capture_response_body);
    assert_eq!(c.max_body_bytes, 65536);
    assert_eq!(ExporterBackend::default(), ExporterBackend::Otlp);
}

#[test]
fn captured_data_new_is_blank() {
    let d = CapturedData::new();
    assert_eq!(d.timestamp_ns, 0);
    assert!(d.request_id.is_none());
    assert_eq!(d.method, "");
    assert_eq!(d.path, "");
    assert_eq!(d.authority, "");
    assert!(d.request_headers.is_none());
    assert!(d.request_body.is_none());
    assert!(d.response_headers.is_none());
    assert!(d.response_body.is_none());
    assert_eq!(d.status_code, 0);
    assert!(d.upstream_cluster.is_none());
    assert_eq!(d.duration_ms, 0);
    assert!(d.source_address.is_none());
    assert!(d.destination_address.is_none());
}

#[test]
fn from_bytes_empty_gives_defaults_with_backend_path() {
    let r: Result<PluginConfig, String> =
        PluginConfig::from_bytes(&[], |_b: &[u8]| panic!("no parse of an empty blob"));
    let c = r.unwrap();
    assert_eq!(c.upstream_path, "/v1/logs");
    assert_eq!(c.backend, ExporterBackend::Otlp);
    assert_eq!(c.upstream_cluster, "");
    assert_eq!(c.service_name, "wasm-wiretap");
    assert_eq!(c.max_body_bytes, 65536);
    assert!(c.capture_request_body && c.capture_response_body);
}

#[test]
fn from_bytes_defaults_loki_path() {
    let r: Result<PluginConfig, String> =
        PluginConfig::from_bytes(b"{\"backend\":\"loki\"}", |_b: &[u8]| Ok(loki_config()));
    assert_eq!(r.unwrap().upstream_path, "/loki/api/v1/push");
}

#[test]
fn from_bytes_defaults_otlp_path() {
    let r: Result<PluginConfig, String> =
        PluginConfig::from_bytes(b"{}", |_b: &[u8]| Ok(PluginConfig::default()));
    assert_eq!(r.unwrap().upstream_path, "/v1/logs");
}

#[test]
fn from_bytes_keeps_configured_path() {
    let mut c = loki_config();
    c.upstream_path = "/custom".to_string();
    let r: Result<PluginConfig, String> =
        PluginConfig::from_bytes(b"{\"upstream_path\":\"/custom\"}", move |_b: &[u8]| Ok(c));
    assert_eq!(r.unwrap().upstream_path, "/custom");
}

#[test]
fn from_bytes_passes_parse_error_on() {
    let r: Result<PluginConfig, String> =
        PluginConfig::from_bytes(b"not json", |_b: &[u8]| Err("bad".to_string()));
    assert_eq!(r.unwrap_err(), "bad");
}

#[test]
fn from_parsed_cases() {
    let ok: Result<PluginConfig, u8> = PluginConfig::from_parsed(Ok(loki_config()));
    assert_eq!(ok.unwrap().upstream_path, "/loki/api/v1/push");
    let err: Result<PluginConfig, u8> = PluginConfig::from_parsed(Err(3));
    assert_eq!(err.unwrap_err(), 3);
}

#[test]
fn authority_with_and_without_port() {
    let mut c = PluginConfig::default();
    c.upstream_authority = "loki.monitoring.svc.cluster.local".to_string();
    assert_eq!(c.authority(), "loki.monitoring.svc.cluster.local");
    c.upstream_port = 3100;
    assert_eq!(c.authority(), "loki.monitoring.svc.cluster.local:3100");
}

#[test]
fn distinct_labels_keeps_last_value() {
    let pairs = vec![
        ("a".to_string(), "1".to_string()),
        ("b".to_string(), "2".to_string()),
        ("a".to_string(), "3".to_string()),
    ];
    assert_eq!(
        distinct_labels(&pairs),
        vec![("a".to_string(), "3".to_string()), ("b".to_string(), "2".to_string())]
    );
}

#[test]
fn from_parsed_lists_each_label_once() {
    let mut c = PluginConfig::default();
    c.labels = vec![
        ("env".to_string(), "dev".to_string()),
        ("team".to_string(), "edge".to_string()),
        ("env".to_string(), "prod".to_string()),
    ];
    let r: Result<PluginConfig, u8> = PluginConfig::from_parsed(Ok(c));
    assert_eq!(
        r.unwrap().labels,
        vec![("env".to_string(), "prod".to_string()), ("team".to_string(), "edge".to_string())]
    );
}
