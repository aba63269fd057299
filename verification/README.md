# wasm_wiretap

A proxy-wasm filter that captures HTTP request/response headers and bodies
passing through an Envoy-based proxy and exports them asynchronously to
Grafana Loki (push API) or an OpenTelemetry collector (OTLP/HTTP JSON logs).

The decisions and the payload formats are a Verus-verified library:

- `src/capture.rs` – the per-transaction record.
- `src/config.rs` – the plugin configuration, its defaults, push-path defaulting
  and the `host:port` authority.
- `src/filter.rs` – the capture steps for each phase of a transaction (headers,
  body chunks with a per-direction byte limit, completion) and the export call.
- `src/exporters.rs` – the Loki and OTLP payload documents.
- `src/labels.rs` – label lists read as maps (a later label replaces an earlier one).
- `src/text.rs` – decimal rendering and parsing, little-endian decoding, joining,
  and character-boundary truncation.
- `src/json.rs` – the trusted calls into `serde_json` (string escaping and string
  maps, whose text is stated) and std's lossy UTF-8 decoding.
- `src/laws.rs` – properties across calls: the body limit, chunking independence,
  status-code round trip, push-path presence, Loki stream labels, and JSON
  string literals decoding back to their text.

`app/` is the plugin itself: the proxy-wasm root and HTTP contexts, which read
from the host, call the library's steps and perform the export calls, plus the
serde-derived copies of the record and configuration types.
