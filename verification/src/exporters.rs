//! Loki and OTLP/HTTP export payloads.
//!
//! The payloads are JSON documents. Their structure, the order of their
//! members (sorted by key, as `serde_json` maps keep them) and the numbers
//! in them are written here; string values are escaped by `serde_json`
//! (see `crate::json`). The captured record itself reaches these builders
//! already serialised, as a `CapturedJson`.

use vstd::prelude::*;
use vstd::string::StrSliceExecFns;
use vstd::utf8::encode_utf8;

use crate::capture::CapturedData;
use crate::config::{ExporterBackend, PluginConfig};
use crate::json::{json_quote, json_string_literal, json_string_map_text, json_string_object};
use crate::labels::{distinct_names, pairs_map, upsert_all};
use crate::text::{decimal, decimal_string, join_commas, join_with_commas};

verus! {

/// A captured record serialised as a JSON object, in the two member orders
/// the backends use: sorted by key (as a `serde_json::Value` holds it) for
/// Loki, and in field order (as serialising the record directly writes it)
/// for OTLP. A text that failed to serialise is passed as an empty string.
#[derive(Debug, Clone)]
pub struct CapturedJson {
    /// The record as an object with its members sorted by key.
    pub keys_sorted: String,
    /// The record as an object with its members in field order.
    pub fields_in_order: String,
}

/// The HTTP headers sent with every export payload.
pub open spec fn payload_headers() -> Seq<(Seq<char>, Seq<char>)> {
    seq![("content-type"@, "application/json"@), ("user-agent"@, "wasm-wiretap/0.1"@)]
}

fn payload_header_list() -> (r: Vec<(String, String)>)
    ensures
        r.deep_view() == payload_headers(),
{
    let mut r = Vec::new();
    r.push((String::from_str("content-type"), String::from_str("application/json")));
    r.push((String::from_str("user-agent"), String::from_str("wasm-wiretap/0.1")));
    assert(r.deep_view() =~= payload_headers());
    r
}

// ───────────────────────────── OTLP ─────────────────────────────────

/// An OTLP key/value attribute whose key and value are given as JSON text.
pub open spec fn kv_object_text(key_json: Seq<char>, value_json: Seq<char>) -> Seq<char> {
    "{\"key\":"@ + key_json + ",\"value\":{\"stringValue\":"@ + value_json + "}}"@
}

/// Writes an OTLP key/value attribute from the JSON text of its key and value.
pub fn kv_object(key_json: &str, value_json: &str) -> (r: String)
    ensures
        r@ == kv_object_text(key_json@, value_json@),
{
    let mut s = String::from_str("{\"key\":");
    s.append(key_json);
    s.append(",\"value\":{\"stringValue\":");
    s.append(value_json);
    s.append("}}");
    s
}

/// The OTLP attribute `{"key": key, "value": {"stringValue": value}}`.
pub open spec fn otel_kv_text(key: Seq<char>, value: Seq<char>) -> Seq<char> {
    kv_object_text(json_string_literal(key), json_string_literal(value))
}

/// Builds the OTLP attribute `{"key": key, "value": {"stringValue": value}}`.
pub fn otel_kv(key: &str, value: &str) -> (r: String)
    ensures
        r@ == otel_kv_text(key@, value@),
{
    let k = json_quote(key);
    let v = json_quote(value);
    kv_object(k.as_str(), v.as_str())
}

/// Appends the attribute `key` when the optional value is present.
pub open spec fn optional_kv(texts: Seq<Seq<char>>, key: Seq<char>, value: Option<String>) -> Seq<
    Seq<char>,
> {
    match value {
        Some(v) => texts.push(otel_kv_text(key, v@)),
        None => texts,
    }
}

/// The log record attributes of a captured transaction: method, target,
/// host, status code and duration, then the request id, peer address and
/// host address where they were captured.
pub open spec fn log_attribute_texts(data: CapturedData) -> Seq<Seq<char>> {
    let base = seq![
        otel_kv_text("http.method"@, data.method@),
        otel_kv_text("http.target"@, data.path@),
        otel_kv_text("http.host"@, data.authority@),
        otel_kv_text("http.status_code"@, decimal(data.status_code as nat)),
        otel_kv_text("http.duration_ms"@, decimal(data.duration_ms as nat)),
    ];
    optional_kv(
        optional_kv(
            optional_kv(base, "http.request_id"@, data.request_id),
            "net.peer.ip"@,
            data.source_address,
        ),
        "net.host.ip"@,
        data.destination_address,
    )
}

fn push_optional_kv(attrs: &mut Vec<String>, key: &str, value: &Option<String>)
    ensures
        final(attrs).deep_view() == optional_kv(old(attrs).deep_view(), key@, *value),
{
    match value {
        Some(v) => {
            let ghost before = attrs.deep_view();
            attrs.push(otel_kv(key, v.as_str()));
            assert(attrs.deep_view() =~= before.push(otel_kv_text(key@, v@)));
        },
        None => {},
    }
}

/// Builds the log record attributes of a captured transaction.
pub fn build_otel_log_attributes(data: &CapturedData) -> (r: Vec<String>)
    ensures
        r.deep_view() == log_attribute_texts(*data),
{
    let mut attrs: Vec<String> = Vec::new();
    attrs.push(otel_kv("http.method", data.method.as_str()));
    attrs.push(otel_kv("http.target", data.path.as_str()));
    attrs.push(otel_kv("http.host", data.authority.as_str()));
    let status = decimal_string(data.status_code as u64);
    attrs.push(otel_kv("http.status_code", status.as_str()));
    let duration = decimal_string(data.duration_ms);
    attrs.push(otel_kv("http.duration_ms", duration.as_str()));
    let ghost base = attrs.deep_view();
    assert(base =~= seq![
        otel_kv_text("http.method"@, data.method@),
        otel_kv_text("http.target"@, data.path@),
        otel_kv_text("http.host"@, data.authority@),
        otel_kv_text("http.status_code"@, decimal(data.status_code as nat)),
        otel_kv_text("http.duration_ms"@, decimal(data.duration_ms as nat)),
    ]);
    push_optional_kv(&mut attrs, "http.request_id", &data.request_id);
    push_optional_kv(&mut attrs, "net.peer.ip", &data.source_address);
    push_optional_kv(&mut attrs, "net.host.ip", &data.destination_address);
    attrs
}

/// The attribute texts of the configured labels, in list order.
pub open spec fn label_kv_texts(labels: Seq<(Seq<char>, Seq<char>)>) -> Seq<Seq<char>> {
    labels.map_values(|p: (Seq<char>, Seq<char>)| otel_kv_text(p.0, p.1))
}

/// The resource attributes: service name, SDK name and language, then one
/// attribute per configured label.
pub open spec fn resource_attribute_texts(config: PluginConfig) -> Seq<Seq<char>> {
    seq![
        otel_kv_text("service.name"@, config.service_name@),
        otel_kv_text("telemetry.sdk.name"@, "wasm-wiretap"@),
        otel_kv_text("telemetry.sdk.language"@, "rust"@),
    ] + label_kv_texts(config.labels.deep_view())
}

fn build_resource_attributes(config: &PluginConfig) -> (r: Vec<String>)
    ensures
        r.deep_view() == resource_attribute_texts(*config),
{
    let mut attrs: Vec<String> = Vec::new();
    attrs.push(otel_kv("service.name", config.service_name.as_str()));
    attrs.push(otel_kv("telemetry.sdk.name", "wasm-wiretap"));
    attrs.push(otel_kv("telemetry.sdk.language", "rust"));
    let ghost base = attrs.deep_view();
    let ghost labels = config.labels.deep_view();
    let n = config.labels.len();
    let mut i: usize = 0;
    while i < n
        invariant
            i <= n,
            n == labels.len(),
            labels == config.labels.deep_view(),
            base.len() == 3,
            attrs.deep_view() == base + label_kv_texts(labels.take(i as int)),
        decreases n - i,
    {
        let ghost before = attrs.deep_view();
        attrs.push(otel_kv(config.labels[i].0.as_str(), config.labels[i].1.as_str()));
        assert(label_kv_texts(labels.take(i + 1)) =~= label_kv_texts(labels.take(i as int)).push(
            otel_kv_text(labels[i as int].0, labels[i as int].1),
        ));
        assert(attrs.deep_view() =~= before.push(
            otel_kv_text(labels[i as int].0, labels[i as int].1),
        ));
        i = i + 1;
    }
    assert(labels.take(n as int) =~= labels);
    assert(base =~= seq![
        otel_kv_text("service.name"@, config.service_name@),
        otel_kv_text("telemetry.sdk.name"@, "wasm-wiretap"@),
        otel_kv_text("telemetry.sdk.language"@, "rust"@),
    ]);
    attrs
}

/// The OTLP severity number for a status code: ERROR (17) from 500, WARN
/// (13) from 400, INFO (9) below.
pub open spec fn severity_number(status: u32) -> u32 {
    if status >= 500 {
        17
    } else if status >= 400 {
        13
    } else {
        9
    }
}

/// The OTLP severity text for a status code.
pub open spec fn severity_text(status: u32) -> Seq<char> {
    if status >= 500 {
        "ERROR"@
    } else if status >= 400 {
        "WARN"@
    } else {
        "INFO"@
    }
}

/// The severity number and text of a response status code.
pub fn severity(status: u32) -> (r: (u32, &'static str))
    ensures
        r.0 == severity_number(status),
        r.1@ == severity_text(status),
{
    if status >= 500 {
        (17, "ERROR")
    } else if status >= 400 {
        (13, "WARN")
    } else {
        (9, "INFO")
    }
}

/// The OTLP/HTTP JSON log export document, from its variable parts given as
/// JSON text (the attributes as the texts of their elements).
pub open spec fn otlp_document_text(
    resource_attrs: Seq<Seq<char>>,
    log_attrs: Seq<Seq<char>>,
    body_json: Seq<char>,
    severity_number: u32,
    severity_text: Seq<char>,
    time_json: Seq<char>,
) -> Seq<char> {
    "{\"resourceLogs\":[{\"resource\":{\"attributes\":["@ + join_commas(resource_attrs)
        + "]},\"scopeLogs\":[{\"logRecords\":[{\"attributes\":["@ + join_commas(log_attrs)
        + "],\"body\":{\"stringValue\":"@ + body_json + "},\"severityNumber\":"@ + decimal(
        severity_number as nat,
    ) + ",\"severityText\":\""@ + severity_text + "\",\"spanId\":\"\",\"timeUnixNano\":"@
        + time_json
        + ",\"traceId\":\"\"}],\"scope\":{\"name\":\"wasm-wiretap\",\"version\":\"0.1.0\"}}]}]}"@
}

/// Writes the OTLP/HTTP JSON log export document from its variable parts.
pub fn otlp_document(
    resource_attrs: &Vec<String>,
    log_attrs: &Vec<String>,
    body_json: &str,
    severity_number: u32,
    severity_text: &str,
    time_json: &str,
) -> (r: String)
    ensures
        r@ == otlp_document_text(
            resource_attrs.deep_view(),
            log_attrs.deep_view(),
            body_json@,
            severity_number,
            severity_text@,
            time_json@,
        ),
{
    let mut s = String::from_str("{\"resourceLogs\":[{\"resource\":{\"attributes\":[");
    let resource = join_with_commas(resource_attrs);
    s.append(resource.as_str());
    s.append("]},\"scopeLogs\":[{\"logRecords\":[{\"attributes\":[");
    let log = join_with_commas(log_attrs);
    s.append(log.as_str());
    s.append("],\"body\":{\"stringValue\":");
    s.append(body_json);
    s.append("},\"severityNumber\":");
    let number = decimal_string(severity_number as u64);
    s.append(number.as_str());
    s.append(",\"severityText\":\"");
    s.append(severity_text);
    s.append("\",\"spanId\":\"\",\"timeUnixNano\":");
    s.append(time_json);
    s.append(
        ",\"traceId\":\"\"}],\"scope\":{\"name\":\"wasm-wiretap\",\"version\":\"0.1.0\"}}]}]}",
    );
    s
}

/// The OTLP export body for a record whose field-order JSON is
/// `fields_json`: the record's JSON travels as the log body string.
pub open spec fn otlp_body_text(
    config: PluginConfig,
    data: CapturedData,
    fields_json: Seq<char>,
) -> Seq<char> {
    otlp_document_text(
        resource_attribute_texts(config),
        log_attribute_texts(data),
        json_string_literal(fields_json),
        severity_number(data.status_code),
        severity_text(data.status_code),
        json_string_literal(decimal(data.timestamp_ns as nat)),
    )
}

fn build_otlp_payload(config: &PluginConfig, data: &CapturedData, fields_json: &str) -> (r: (
    Vec<(String, String)>,
    Vec<u8>,
))
    ensures
        r.0.deep_view() == payload_headers(),
        r.1@ == encode_utf8(otlp_body_text(*config, *data, fields_json@)),
{
    let resource_attrs = build_resource_attributes(config);
    let log_attrs = build_otel_log_attributes(data);
    let log_body = json_quote(fields_json);
    let (number, text) = severity(data.status_code);
    let ts = decimal_string(data.timestamp_ns);
    let time_json = json_quote(ts.as_str());
    let doc = otlp_document(
        &resource_attrs,
        &log_attrs,
        log_body.as_str(),
        number,
        text,
        time_json.as_str(),
    );
    let body = doc.as_str().as_bytes_vec();
    (payload_header_list(), body)
}


// ───────────────────────────── Loki ─────────────────────────────────

/// The labels of the Loki stream: `service` (the configured service name)
/// and `source`, then the configured labels, a later one replacing an
/// earlier one of the same name.
pub open spec fn stream_labels_map(config: PluginConfig) -> Map<Seq<char>, Seq<char>> {
    pairs_map(
        seq![("service"@, config.service_name@), ("source"@, "wasm-wiretap"@)]
            + config.labels.deep_view(),
    )
}

/// Collects the labels of the Loki stream, each name once.
pub fn stream_labels(config: &PluginConfig) -> (r: Vec<(String, String)>)
    ensures
        distinct_names(r.deep_view()),
        pairs_map(r.deep_view()) == stream_labels_map(*config),
{
    let mut labels: Vec<(String, String)> = Vec::new();
    labels.push((String::from_str("service"), config.service_name.clone()));
    labels.push((String::from_str("source"), String::from_str("wasm-wiretap")));
    proof {
        let v = labels.deep_view();
        assert(v =~= seq![("service"@, config.service_name@), ("source"@, "wasm-wiretap"@)]);
        reveal_strlit("service");
        reveal_strlit("source");
        assert(v[0].0 != v[1].0) by {
            assert(v[0].0[1] != v[1].0[1]);
        }
        assert(distinct_names(v));
    }
    upsert_all(&mut labels, &config.labels);
    labels
}

/// The summary line of a transaction: `METHOD PATH AUTHORITY → STATUS`.
pub open spec fn loki_message(data: CapturedData) -> Seq<char> {
    data.method@ + " "@ + data.path@ + " "@ + data.authority@ + " → "@ + decimal(
        data.status_code as nat,
    )
}

/// Builds the summary line of a transaction.
pub fn loki_message_string(data: &CapturedData) -> (r: String)
    ensures
        r@ == loki_message(*data),
{
    let mut s = data.method.clone();
    s.append(" ");
    s.append(data.path.as_str());
    s.append(" ");
    s.append(data.authority.as_str());
    s.append(" → ");
    let status = decimal_string(data.status_code as u64);
    s.append(status.as_str());
    s
}

/// The JSON object text `object` with `member` put in front of its members.
/// A text that is not an object (it does not start with `{` and end with
/// `}`) counts as the empty object.
pub open spec fn with_leading_member(object: Seq<char>, member: Seq<char>) -> Seq<char> {
    if object.len() > 2 && object[0] == '{' && object[object.len() - 1] == '}' {
        "{"@ + member + ","@ + object.subrange(1, object.len() as int)
    } else {
        "{"@ + member + "}"@
    }
}

/// Puts `member` (JSON text of the form `"key":value`) in front of the
/// members of the object text `object`.
pub fn insert_leading_member(object: &str, member: &str) -> (r: String)
    ensures
        r@ == with_leading_member(object@, member@),
{
    let n = object.unicode_len();
    let mut s = String::from_str("{");
    s.append(member);
    if n > 2 && object.get_char(0) == '{' && object.get_char(n - 1) == '}' {
        s.append(",");
        s.append(object.substring_char(1, n));
    } else {
        s.append("}");
    }
    s
}

/// The Loki log line: the record's object (members sorted by key) with the
/// `_msg` summary put first, where it sorts.
pub open spec fn loki_line_text(data: CapturedData, keys_sorted: Seq<char>) -> Seq<char> {
    with_leading_member(keys_sorted, "\"_msg\":"@ + json_string_literal(loki_message(data)))
}

/// The Loki push-API document, from its variable parts given as JSON text.
pub open spec fn loki_document_text(
    stream_json: Seq<char>,
    ts_json: Seq<char>,
    line_json: Seq<char>,
) -> Seq<char> {
    "{\"streams\":[{\"stream\":"@ + stream_json + ",\"values\":[["@ + ts_json + ","@ + line_json
        + "]]}]}"@
}

/// Writes the Loki push-API document from its variable parts.
pub fn loki_document(stream_json: &str, ts_json: &str, line_json: &str) -> (r: String)
    ensures
        r@ == loki_document_text(stream_json@, ts_json@, line_json@),
{
    let mut s = String::from_str("{\"streams\":[{\"stream\":");
    s.append(stream_json);
    s.append(",\"values\":[[");
    s.append(ts_json);
    s.append(",");
    s.append(line_json);
    s.append("]]}]}");
    s
}

/// The Loki export body for a record whose key-sorted JSON is `keys_sorted`.
pub open spec fn loki_body_text(
    config: PluginConfig,
    data: CapturedData,
    keys_sorted: Seq<char>,
) -> Seq<char> {
    loki_document_text(
        json_string_map_text(stream_labels_map(config)),
        json_string_literal(decimal(data.timestamp_ns as nat)),
        json_string_literal(loki_line_text(data, keys_sorted)),
    )
}

fn build_loki_payload(config: &PluginConfig, data: &CapturedData, keys_sorted: &str) -> (r: (
    Vec<(String, String)>,
    Vec<u8>,
))
    ensures
        r.0.deep_view() == payload_headers(),
        r.1@ == encode_utf8(loki_body_text(*config, *data, keys_sorted@)),
{
    let labels = stream_labels(config);
    let stream = json_string_object(&labels);
    let msg = loki_message_string(data);
    let msg_json = json_quote(msg.as_str());
    let mut member = String::from_str("\"_msg\":");
    member.append(msg_json.as_str());
    let line = insert_leading_member(keys_sorted, member.as_str());
    let line_json = json_quote(line.as_str());
    let ts = decimal_string(data.timestamp_ns);
    let ts_json = json_quote(ts.as_str());
    let doc = loki_document(stream.as_str(), ts_json.as_str(), line_json.as_str());
    let body = doc.as_str().as_bytes_vec();
    (payload_header_list(), body)
}

// ──────────────────────────── Dispatch ──────────────────────────────

/// The export body for the configured backend.
pub open spec fn export_body_text(
    config: PluginConfig,
    data: CapturedData,
    json: CapturedJson,
) -> Seq<char> {
    match config.backend {
        ExporterBackend::Loki => loki_body_text(config, data, json.keys_sorted@),
        ExporterBackend::Otlp => otlp_body_text(config, data, json.fields_in_order@),
    }
}

/// Builds the HTTP headers and the UTF-8 body of the export payload for the
/// configured backend. Returns `(headers, body_bytes)`.
pub fn build_export_payload(config: &PluginConfig, data: &CapturedData, json: &CapturedJson) -> (r: (
    Vec<(String, String)>,
    Vec<u8>,
))
    ensures
        r.0.deep_view() == payload_headers(),
        r.1@ == encode_utf8(export_body_text(*config, *data, *json)),
{
    match config.backend {
        ExporterBackend::Loki => build_loki_payload(config, data, json.keys_sorted.as_str()),
        ExporterBackend::Otlp => build_otlp_payload(config, data, json.fields_in_order.as_str()),
    }
}

} // verus!
