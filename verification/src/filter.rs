//! The per-transaction capture state and its steps.
//!
//! The proxy calls the filter once for each phase of an HTTP transaction.
//! Each phase is a step here: the host supplies what it read (headers,
//! properties, body chunks, the clock) as an event, and the step updates the
//! capture state and says what the host should do next.

use vstd::prelude::*;
use vstd::utf8::encode_utf8;

use crate::capture::CapturedData;
use crate::config::PluginConfig;
use crate::exporters::{build_export_payload, export_body_text, payload_headers, CapturedJson};
use crate::json::{lossy_utf8, utf8_lossy};
use crate::text::{le_u64, le_value, parse_u32, parse_u32_spec};

verus! {

/// The capture state of one HTTP transaction: the record and the two body
/// buffers.
pub struct HttpCapture {
    /// What has been captured so far.
    pub data: CapturedData,
    /// The request body bytes kept so far.
    pub request_body_buffer: Vec<u8>,
    /// The response body bytes kept so far.
    pub response_body_buffer: Vec<u8>,
    /// Whether the record has been finalised for its one export.
    pub exported: bool,
}

/// What the host read when the request headers arrived.
pub struct RequestHeaders {
    /// The `request.time` property (nanoseconds, little endian), if any.
    pub request_time: Option<Vec<u8>>,
    /// The host clock in nanoseconds since the UNIX epoch (0 if unknown).
    pub clock_ns: u64,
    /// The `:method` header.
    pub method: Option<String>,
    /// The `:path` header.
    pub path: Option<String>,
    /// The `:authority` header.
    pub authority: Option<String>,
    /// The `x-request-id` header.
    pub request_id: Option<String>,
    /// The `source.address` property.
    pub source_address: Option<Vec<u8>>,
    /// The `destination.address` property.
    pub destination_address: Option<Vec<u8>>,
    /// All request headers.
    pub headers: Vec<(String, String)>,
}

/// An export call to make: an HTTP POST on a side channel.
pub struct ExportRequest {
    /// The cluster to send it to.
    pub upstream: String,
    /// The request headers, pseudo-headers first.
    pub headers: Vec<(String, String)>,
    /// The request body.
    pub body: Vec<u8>,
    /// How long to wait for the collector, in seconds.
    pub timeout_secs: u64,
}

/// The text of an optional header, empty when it is absent.
pub open spec fn text_or_empty(s: Option<String>) -> Seq<char> {
    match s {
        Some(t) => t@,
        None => Seq::empty(),
    }
}

/// The timestamp carried by the `request.time` property: its first eight
/// bytes read little endian, or 0 when it is absent or shorter.
pub open spec fn property_timestamp(p: Option<Vec<u8>>) -> nat {
    match p {
        Some(b) => if b@.len() >= 8 {
            le_value(b@.subrange(0, 8))
        } else {
            0
        },
        None => 0,
    }
}

/// The start time of a request: the property's timestamp when it is
/// non-zero, else the host clock.
pub open spec fn request_timestamp(p: Option<Vec<u8>>, clock_ns: u64) -> u64 {
    if property_timestamp(p) > 0 {
        property_timestamp(p) as u64
    } else {
        clock_ns
    }
}

/// An address property decoded as text, when present.
pub open spec fn decoded_address(captured: Option<String>, raw: Option<Vec<u8>>) -> bool {
    match raw {
        Some(b) => captured matches Some(s) && s@ == lossy_utf8(b@),
        None => captured is None,
    }
}

/// The status code carried by the `:status` header, 0 when it is absent or
/// not a `u32`.
pub open spec fn status_from_header(status: Option<String>) -> u32 {
    match status {
        Some(s) => match parse_u32_spec(s@) {
            Some(v) => v,
            None => 0,
        },
        None => 0,
    }
}

/// A body buffer of `len` bytes has reached the limit (`max == 0` means no
/// limit).
pub open spec fn buffer_full(len: nat, max: usize) -> bool {
    max > 0 && len >= max
}

/// The buffer after a body chunk arrives: the chunk is appended, cut so
/// that the buffer does not grow past `max` bytes (unless `max == 0`).
pub open spec fn absorb(buffer: Seq<u8>, max: usize, chunk: Seq<u8>) -> Seq<u8> {
    if max == 0 {
        buffer + chunk
    } else if buffer.len() >= max {
        buffer
    } else if chunk.len() <= max - buffer.len() {
        buffer + chunk
    } else {
        buffer + chunk.subrange(0, max - buffer.len())
    }
}

/// The buffer after an optional chunk: unchanged when the host gave none.
pub open spec fn absorb_opt(buffer: Seq<u8>, max: usize, chunk: Option<Vec<u8>>) -> Seq<u8> {
    match chunk {
        Some(c) => absorb(buffer, max, c@),
        None => buffer,
    }
}

/// The headers of an export call, followed by the payload headers.
pub open spec fn export_headers(config: PluginConfig) -> Seq<(Seq<char>, Seq<char>)> {
    seq![
        (":method"@, "POST"@),
        (":path"@, config.upstream_path@),
        (":authority"@, config.spec_authority()),
    ] + payload_headers()
}

fn absorb_chunk(buffer: &mut Vec<u8>, max: usize, chunk: &[u8])
    ensures
        final(buffer)@ == absorb(old(buffer)@, max, chunk@),
{
    let len = buffer.len();
    let take: usize = if max == 0 {
        chunk.len()
    } else if len >= max {
        0
    } else if chunk.len() <= max - len {
        chunk.len()
    } else {
        max - len
    };
    let ghost start = buffer@;
    let mut i: usize = 0;
    while i < take
        invariant
            i <= take,
            take <= chunk@.len(),
            buffer@ == start + chunk@.subrange(0, i as int),
        decreases take - i,
    {
        buffer.push(chunk[i]);
        assert(chunk@.subrange(0, i + 1) =~= chunk@.subrange(0, i as int).push(chunk@[i as int]));
        i = i + 1;
    }
    assert(chunk@.subrange(0, chunk@.len() as int) =~= chunk@);
    assert(chunk@.subrange(0, 0) =~= Seq::<u8>::empty());
    assert(start + Seq::<u8>::empty() =~= start);
}

fn decode_opt(raw: Option<Vec<u8>>) -> (r: Option<String>)
    ensures
        decoded_address(r, raw),
{
    match raw {
        Some(b) => Some(utf8_lossy(b.as_slice())),
        None => None,
    }
}

fn text_or_default(s: Option<String>) -> (r: String)
    ensures
        r@ == text_or_empty(s),
{
    match s {
        Some(t) => t,
        None => String::new(),
    }
}

/// Reads the timestamp of the `request.time` property.
pub fn timestamp_from_property(p: &Option<Vec<u8>>) -> (r: u64)
    ensures
        r == property_timestamp(*p),
{
    match p {
        Some(b) => if b.len() >= 8 {
            le_u64(b.as_slice())
        } else {
            0
        },
        None => 0,
    }
}

/// Reads the status code of the `:status` header.
pub fn status_code_from_header(status: &Option<String>) -> (r: u32)
    ensures
        r == status_from_header(*status),
{
    match status {
        Some(s) => match parse_u32(s.as_str()) {
            Some(v) => v,
            None => 0,
        },
        None => 0,
    }
}

impl HttpCapture {
    /// The state of a transaction that has not started: a blank record and
    /// empty buffers.
    pub fn new() -> (r: Self)
        ensures
            r.data.is_blank(),
            r.request_body_buffer@.len() == 0,
            r.response_body_buffer@.len() == 0,
            !r.exported,
    {
        HttpCapture {
            data: CapturedData::new(),
            request_body_buffer: Vec::new(),
            response_body_buffer: Vec::new(),
            exported: false,
        }
    }

    /// The request headers arrived: records the start time, method, path,
    /// authority, request id and addresses, and the headers when they are
    /// to be captured.
    pub fn on_request_headers(&mut self, config: &PluginConfig, event: RequestHeaders)
        ensures
            final(self).data.timestamp_ns == request_timestamp(
                event.request_time,
                event.clock_ns,
            ),
            final(self).data.method@ == text_or_empty(event.method),
            final(self).data.path@ == text_or_empty(event.path),
            final(self).data.authority@ == text_or_empty(event.authority),
            final(self).data.request_id == event.request_id,
            decoded_address(final(self).data.source_address, event.source_address),
            decoded_address(final(self).data.destination_address, event.destination_address),
            final(self).data.request_headers == if config.capture_request_headers {
                Some(event.headers)
            } else {
                old(self).data.request_headers
            },
            final(self).data == (CapturedData {
                timestamp_ns: final(self).data.timestamp_ns,
                request_id: final(self).data.request_id,
                method: final(self).data.method,
                path: final(self).data.path,
                authority: final(self).data.authority,
                request_headers: final(self).data.request_headers,
                source_address: final(self).data.source_address,
                destination_address: final(self).data.destination_address,
                ..old(self).data
            }),
            final(self).request_body_buffer == old(self).request_body_buffer,
            final(self).response_body_buffer == old(self).response_body_buffer,
            final(self).exported == old(self).exported,
    {
        let RequestHeaders {
            request_time,
            clock_ns,
            method,
            path,
            authority,
            request_id,
            source_address,
            destination_address,
            headers,
        } = event;
        let now = timestamp_from_property(&request_time);
        self.data.timestamp_ns = if now > 0 {
            now
        } else {
            clock_ns
        };
        self.data.method = text_or_default(method);
        self.data.path = text_or_default(path);
        self.data.authority = text_or_default(authority);
        self.data.request_id = request_id;
        self.data.source_address = decode_opt(source_address);
        self.data.destination_address = decode_opt(destination_address);
        if config.capture_request_headers {
            self.data.request_headers = Some(headers);
        }
    }

    /// Whether the host should read the next request body chunk: the request
    /// body is captured and its buffer is not full yet.
    pub fn wants_request_chunk(&self, config: &PluginConfig) -> (r: bool)
        ensures
            r == (config.capture_request_body && !buffer_full(
                self.request_body_buffer@.len(),
                config.max_body_bytes,
            )),
    {
        config.capture_request_body && !(config.max_body_bytes > 0
            && self.request_body_buffer.len() >= config.max_body_bytes)
    }

    /// A request body chunk arrived (`chunk` is what the host read, if it
    /// read anything). When the request body is captured, the chunk is kept
    /// up to the limit, and at the end of the stream the buffer becomes the
    /// captured request body.
    pub fn on_request_body(
        &mut self,
        config: &PluginConfig,
        chunk: Option<Vec<u8>>,
        end_of_stream: bool,
    )
        ensures
            !config.capture_request_body ==> *final(self) == *old(self),
            config.capture_request_body ==> final(self).request_body_buffer@ == absorb_opt(
                old(self).request_body_buffer@,
                config.max_body_bytes,
                chunk,
            ),
            config.capture_request_body && end_of_stream ==> (final(self).data.request_body matches Some(b) && b@ == lossy_utf8(
                final(self).request_body_buffer@,
            )),
            !end_of_stream ==> final(self).data.request_body == old(self).data.request_body,
            final(self).data == (CapturedData {
                request_body: final(self).data.request_body,
                ..old(self).data
            }),
            final(self).response_body_buffer == old(self).response_body_buffer,
            final(self).exported == old(self).exported,
    {
        if !config.capture_request_body {
            return;
        }
        match chunk {
            Some(c) => absorb_chunk(&mut self.request_body_buffer, config.max_body_bytes, &c),
            None => {},
        }
        if end_of_stream {
            self.data.request_body = Some(utf8_lossy(self.request_body_buffer.as_slice()));
        }
    }

    /// The response headers arrived: records the status code, the name of
    /// the upstream cluster that handled the request (as the host reports
    /// it), and the headers when they are to be captured.
    pub fn on_response_headers(
        &mut self,
        config: &PluginConfig,
        status: Option<String>,
        headers: Vec<(String, String)>,
        upstream_cluster: Option<Vec<u8>>,
    )
        ensures
            final(self).data.status_code == status_from_header(status),
            match upstream_cluster {
                Some(b) => final(self).data.upstream_cluster matches Some(u) && u@ == lossy_utf8(
                    b@,
                ),
                None => final(self).data.upstream_cluster == old(self).data.upstream_cluster,
            },
            final(self).data.response_headers == if config.capture_response_headers {
                Some(headers)
            } else {
                old(self).data.response_headers
            },
            final(self).data == (CapturedData {
                status_code: final(self).data.status_code,
                response_headers: final(self).data.response_headers,
                upstream_cluster: final(self).data.upstream_cluster,
                ..old(self).data
            }),
            final(self).request_body_buffer == old(self).request_body_buffer,
            final(self).response_body_buffer == old(self).response_body_buffer,
            final(self).exported == old(self).exported,
    {
        self.data.status_code = status_code_from_header(&status);
        match upstream_cluster {
            Some(b) => {
                self.data.upstream_cluster = Some(utf8_lossy(b.as_slice()));
            },
            None => {},
        }
        if config.capture_response_headers {
            self.data.response_headers = Some(headers);
        }
    }

    /// Whether the host should read the next response body chunk.
    pub fn wants_response_chunk(&self, config: &PluginConfig) -> (r: bool)
        ensures
            r == (config.capture_response_body && !buffer_full(
                self.response_body_buffer@.len(),
                config.max_body_bytes,
            )),
    {
        config.capture_response_body && !(config.max_body_bytes > 0
            && self.response_body_buffer.len() >= config.max_body_bytes)
    }

    /// A response body chunk arrived. Kept as for the request body; returns
    /// whether the transaction should now be finalised and exported, which
    /// is the case at the end of the stream unless it was exported already.
    pub fn on_response_body(
        &mut self,
        config: &PluginConfig,
        chunk: Option<Vec<u8>>,
        end_of_stream: bool,
    ) -> (export: bool)
        ensures
            export == (end_of_stream && !old(self).exported),
            !config.capture_response_body ==> *final(self) == *old(self),
            config.capture_response_body ==> final(self).response_body_buffer@ == absorb_opt(
                old(self).response_body_buffer@,
                config.max_body_bytes,
                chunk,
            ),
            config.capture_response_body && end_of_stream ==> (final(self).data.response_body matches Some(b) && b@ == lossy_utf8(
                final(self).response_body_buffer@,
            )),
            !end_of_stream ==> final(self).data.response_body == old(self).data.response_body,
            final(self).data == (CapturedData {
                response_body: final(self).data.response_body,
                ..old(self).data
            }),
            final(self).request_body_buffer == old(self).request_body_buffer,
            final(self).exported == old(self).exported,
    {
        if !config.capture_response_body {
            return end_of_stream && !self.exported;
        }
        match chunk {
            Some(c) => absorb_chunk(&mut self.response_body_buffer, config.max_body_bytes, &c),
            None => {},
        }
        if end_of_stream {
            self.data.response_body = Some(utf8_lossy(self.response_body_buffer.as_slice()));
        }
        end_of_stream && !self.exported
    }

    /// The transaction is being logged (its stream may have ended without a
    /// final body chunk): a captured but unfinished response body is taken
    /// from the buffer, if the buffer holds anything. Returns whether the
    /// transaction should now be finalised and exported: only if it was not
    /// exported already, so that each transaction gives one log entry.
    pub fn on_log(&mut self, config: &PluginConfig) -> (export: bool)
        ensures
            export == !old(self).exported,
            (old(self).data.response_body is None && config.capture_response_body
                && old(self).response_body_buffer@.len() > 0) ==> (final(self).data.response_body matches Some(b) && b@ == lossy_utf8(
                old(self).response_body_buffer@,
            )),
            !(old(self).data.response_body is None && config.capture_response_body
                && old(self).response_body_buffer@.len() > 0) ==> *final(self) == *old(self),
            final(self).data == (CapturedData {
                response_body: final(self).data.response_body,
                ..old(self).data
            }),
            final(self).request_body_buffer == old(self).request_body_buffer,
            final(self).response_body_buffer == old(self).response_body_buffer,
            final(self).exported == old(self).exported,
    {
        if self.data.response_body.is_none() && config.capture_response_body {
            if self.response_body_buffer.len() > 0 {
                self.data.response_body = Some(utf8_lossy(self.response_body_buffer.as_slice()));
            }
        }
        !self.exported
    }

    /// Completes the record before its export: when the start time is known
    /// and the clock (`now_ns`) is past it, the duration in whole
    /// milliseconds. The transaction is marked as exported.
    pub fn finalise(&mut self, now_ns: u64)
        ensures
            (old(self).data.timestamp_ns > 0 && now_ns > old(self).data.timestamp_ns) ==> final(self).data.duration_ms == (now_ns - old(self).data.timestamp_ns) / 1_000_000,
            !(old(self).data.timestamp_ns > 0 && now_ns > old(self).data.timestamp_ns)
                ==> final(self).data.duration_ms == old(self).data.duration_ms,
            final(self).data == (CapturedData {
                duration_ms: final(self).data.duration_ms,
                ..old(self).data
            }),
            final(self).request_body_buffer == old(self).request_body_buffer,
            final(self).response_body_buffer == old(self).response_body_buffer,
            final(self).exported,
    {
        if self.data.timestamp_ns > 0 && now_ns > self.data.timestamp_ns {
            self.data.duration_ms = (now_ns - self.data.timestamp_ns) / 1_000_000;
        }
        self.exported = true;
    }

    /// The export call for the record, where `json` is the record serialised
    /// (see `CapturedJson`). None when no upstream cluster is configured;
    /// otherwise a POST to the push path, with a 5 s timeout.
    pub fn export_request(&self, config: &PluginConfig, json: &CapturedJson) -> (r: Option<
        ExportRequest,
    >)
        ensures
            r is None <==> config.upstream_cluster@.len() == 0,
            r matches Some(req) ==> {
                &&& req.upstream@ == config.upstream_cluster@
                &&& req.headers.deep_view() == export_headers(*config)
                &&& req.body@ == encode_utf8(export_body_text(*config, self.data, *json))
                &&& req.timeout_secs == 5
            },
    {
        if config.upstream_cluster.as_str().is_empty() {
            return None;
        }
        let (payload_headers, body) = build_export_payload(config, &self.data, json);
        let mut headers: Vec<(String, String)> = Vec::new();
        headers.push((String::from_str(":method"), String::from_str("POST")));
        headers.push((String::from_str(":path"), config.upstream_path.clone()));
        headers.push((String::from_str(":authority"), config.authority()));
        let ghost first = headers.deep_view();
        let n = payload_headers.len();
        let mut i: usize = 0;
        while i < n
            invariant
                i <= n,
                n == payload_headers.deep_view().len(),
                headers.deep_view() == first + payload_headers.deep_view().take(i as int),
            decreases n - i,
        {
            let ghost before = headers.deep_view();
            let name = payload_headers[i].0.clone();
            let value = payload_headers[i].1.clone();
            headers.push((name, value));
            assert(payload_headers.deep_view().take(i + 1) =~= payload_headers.deep_view().take(
                i as int,
            ).push(payload_headers.deep_view()[i as int]));
            assert(headers.deep_view() =~= before.push(payload_headers.deep_view()[i as int]));
            i = i + 1;
        }
        proof {
            assert(payload_headers.deep_view().take(n as int) =~= payload_headers.deep_view());
            assert(first =~= seq![
                (":method"@, "POST"@),
                (":path"@, config.upstream_path@),
                (":authority"@, config.spec_authority()),
            ]);
        }
        Some(
            ExportRequest {
                upstream: config.upstream_cluster.clone(),
                headers,
                body,
                timeout_secs: 5,
            },
        )
    }
}

} // verus!
