//! The record of one HTTP transaction.

use vstd::prelude::*;

verus! {

/// Holds all captured data for a single HTTP transaction.
#[derive(Debug, Clone)]
pub struct CapturedData {
    /// Nanoseconds since the UNIX epoch at which the request started
    /// flowing through the filter.
    pub timestamp_ns: u64,
    /// Unique request id (from the `x-request-id` header, if available).
    pub request_id: Option<String>,
    /// Request method (GET, POST, ...).
    pub method: String,
    /// Request path.
    pub path: String,
    /// Request authority / host.
    pub authority: String,
    /// Captured request headers (name, value).
    pub request_headers: Option<Vec<(String, String)>>,
    /// Captured request body, decoded as UTF-8 with replacement characters.
    pub request_body: Option<String>,
    /// Captured response headers.
    pub response_headers: Option<Vec<(String, String)>>,
    /// Captured response body.
    pub response_body: Option<String>,
    /// HTTP status code of the response.
    pub status_code: u32,
    /// The upstream cluster that handled the request.
    pub upstream_cluster: Option<String>,
    /// Duration of the request/response exchange in milliseconds.
    pub duration_ms: u64,
    /// Source (downstream) address.
    pub source_address: Option<String>,
    /// Destination (upstream) address.
    pub destination_address: Option<String>,
}

impl CapturedData {
    /// A record where nothing has been captured yet: zero numbers, empty
    /// strings and no optional part.
    pub open spec fn is_blank(&self) -> bool {
        &&& self.timestamp_ns == 0
        &&& self.request_id is None
        &&& self.method@.len() == 0
        &&& self.path@.len() == 0
        &&& self.authority@.len() == 0
        &&& self.request_headers is None
        &&& self.request_body is None
        &&& self.response_headers is None
        &&& self.response_body is None
        &&& self.status_code == 0
        &&& self.upstream_cluster is None
        &&& self.duration_ms == 0
        &&& self.source_address is None
        &&& self.destination_address is None
    }

    /// A blank record, the same as `CapturedData::default()`.
    pub fn new() -> (r: Self)
        ensures
            r.is_blank(),
    {
        Self::default()
    }
}

impl Default for CapturedData {
    fn default() -> (r: Self)
        ensures
            r.is_blank(),
    {
        CapturedData {
            timestamp_ns: 0,
            request_id: None,
            method: String::new(),
            path: String::new(),
            authority: String::new(),
            request_headers: None,
            request_body: None,
            response_headers: None,
            response_body: None,
            status_code: 0,
            upstream_cluster: None,
            duration_ms: 0,
            source_address: None,
            destination_address: None,
        }
    }
}

} // verus!
