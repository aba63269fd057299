//! Plugin configuration and its defaults.

use vstd::prelude::*;

use crate::labels::{distinct_labels, distinct_names, pairs_map};
use crate::text::{decimal, decimal_string};

verus! {

/// The backend to export captured telemetry to.
#[derive(Debug, Clone, Copy, PartialEq, Eq, Structural)]
pub enum ExporterBackend {
    Loki,
    Otlp,
}

impl Default for ExporterBackend {
    fn default() -> (r: Self)
        ensures
            r == ExporterBackend::Otlp,
    {
        ExporterBackend::Otlp
    }
}

/// The push path used for a backend when the configuration gives none.
pub open spec fn default_path(backend: ExporterBackend) -> Seq<char> {
    match backend {
        ExporterBackend::Loki => "/loki/api/v1/push"@,
        ExporterBackend::Otlp => "/v1/logs"@,
    }
}

/// The service name used when the configuration gives none.
pub open spec fn default_service_name() -> Seq<char> {
    "wasm-wiretap"@
}

/// The body capture limit used when the configuration gives none (64 KiB).
pub open spec fn default_max_body_bytes() -> usize {
    65536
}

/// Top-level plugin configuration.
///
/// The labels are kept as a list of (name, value) pairs; a configuration
/// read from JSON holds each name at most once (see `labels_distinct`).
#[derive(Debug, Clone)]
pub struct PluginConfig {
    /// Which exporter backend to use.
    pub backend: ExporterBackend,
    /// The Envoy cluster that routes to the telemetry collector.
    pub upstream_cluster: String,
    /// Authority (Host header) to use when calling the upstream.
    pub upstream_authority: String,
    /// Path of the push endpoint.
    pub upstream_path: String,
    /// Port of the upstream service (appended to the authority when > 0).
    pub upstream_port: u32,
    /// Static labels (Loki) or resource attributes (OTLP).
    pub labels: Vec<(String, String)>,
    /// Service name label / resource attribute.
    pub service_name: String,
    /// Whether to capture request headers.
    pub capture_request_headers: bool,
    /// Whether to capture the request body.
    pub capture_request_body: bool,
    /// Whether to capture response headers.
    pub capture_response_headers: bool,
    /// Whether to capture the response body.
    pub capture_response_body: bool,
    /// Maximum body bytes to capture per direction; 0 means unlimited.
    pub max_body_bytes: usize,
}

impl PluginConfig {
    /// The labels hold each name at most once, as a map read from JSON does.
    pub open spec fn labels_distinct(&self) -> bool {
        distinct_names(self.labels.deep_view())
    }

    /// Every field but the push path holds its documented default.
    pub open spec fn is_default_but_path(&self) -> bool {
        &&& self.backend == ExporterBackend::Otlp
        &&& self.upstream_cluster@.len() == 0
        &&& self.upstream_authority@.len() == 0
        &&& self.upstream_port == 0
        &&& self.labels@.len() == 0
        &&& self.service_name@ == default_service_name()
        &&& self.capture_request_headers
        &&& self.capture_request_body
        &&& self.capture_response_headers
        &&& self.capture_response_body
        &&& self.max_body_bytes == default_max_body_bytes()
    }

    /// All fields hold their documented defaults; the push path is not set
    /// (it is defaulted from the backend when a configuration is read).
    pub open spec fn is_default(&self) -> bool {
        &&& self.is_default_but_path()
        &&& self.upstream_path@.len() == 0
    }

    /// The push path after defaulting: the configured one, or the backend's
    /// default when none is configured.
    pub open spec fn effective_path(&self) -> Seq<char> {
        if self.upstream_path@.len() == 0 {
            default_path(self.backend)
        } else {
            self.upstream_path@
        }
    }

    /// `other` equals `self` in every field but the push path and the labels.
    pub open spec fn same_but_path_and_labels(&self, other: &PluginConfig) -> bool {
        &&& other.backend == self.backend
        &&& other.upstream_cluster == self.upstream_cluster
        &&& other.upstream_authority == self.upstream_authority
        &&& other.upstream_port == self.upstream_port
        &&& other.service_name == self.service_name
        &&& other.capture_request_headers == self.capture_request_headers
        &&& other.capture_request_body == self.capture_request_body
        &&& other.capture_response_headers == self.capture_response_headers
        &&& other.capture_response_body == self.capture_response_body
        &&& other.max_body_bytes == self.max_body_bytes
    }

    /// `other` equals `self` in every field but the push path.
    pub open spec fn same_but_path(&self, other: &PluginConfig) -> bool {
        &&& self.same_but_path_and_labels(other)
        &&& other.labels == self.labels
    }

    /// `settled` is the configuration `self` once read in: its push path
    /// defaulted from the backend, and its labels listed each name once,
    /// forming the same map (a later label of a name replaces an earlier one,
    /// as inserting them into a map would).
    pub open spec fn settles_to(&self, settled: &PluginConfig) -> bool {
        &&& self.same_but_path_and_labels(settled)
        &&& settled.upstream_path@ == self.effective_path()
        &&& settled.labels_distinct()
        &&& pairs_map(settled.labels.deep_view()) == pairs_map(self.labels.deep_view())
    }

    /// The authority value (`host` or `host:port`) used for the export call.
    pub open spec fn spec_authority(&self) -> Seq<char> {
        if self.upstream_port > 0 {
            self.upstream_authority@ + ":"@ + decimal(self.upstream_port as nat)
        } else {
            self.upstream_authority@
        }
    }

    /// Fills in the backend's default push path when none is configured.
    pub fn apply_default_path(&mut self)
        ensures
            old(self).same_but_path(final(self)),
            final(self).upstream_path@ == old(self).effective_path(),
    {
        if self.upstream_path.as_str().is_empty() {
            self.upstream_path = match self.backend {
                ExporterBackend::Loki => String::from_str("/loki/api/v1/push"),
                ExporterBackend::Otlp => String::from_str("/v1/logs"),
            };
        }
    }

    /// What follows a parse of a non-empty configuration: a parsed
    /// configuration gets its default push path and its labels each name
    /// once; an error is passed on.
    pub fn from_parsed<E>(parsed: Result<PluginConfig, E>) -> (r: Result<PluginConfig, E>)
        ensures
            match parsed {
                Ok(c) => r matches Ok(d) && c.settles_to(&d),
                Err(e) => r == Err::<PluginConfig, E>(e),
            },
    {
        match parsed {
            Ok(mut cfg) => {
                cfg.apply_default_path();
                cfg.labels = distinct_labels(&cfg.labels);
                Ok(cfg)
            },
            Err(e) => Err(e),
        }
    }

    /// Reads the configuration blob supplied by the proxy. An empty blob
    /// gives the defaults; otherwise `parse` reads it (JSON, where every
    /// field is optional) and its labels are listed each name once. Either
    /// way a missing push path is defaulted from the backend.
    pub fn from_bytes<E, F>(bytes: &[u8], parse: F) -> (r: Result<PluginConfig, E>) where
        F: FnOnce(&[u8]) -> Result<PluginConfig, E>,

        requires
            bytes@.len() > 0 ==> call_requires(parse, (bytes,)),
        ensures
            bytes@.len() == 0 ==> (r matches Ok(c) && c.is_default_but_path() && c.upstream_path@
                == default_path(c.backend) && c.labels_distinct()),
            bytes@.len() > 0 ==> exists|p: Result<PluginConfig, E>|
                #[trigger] call_ensures(parse, (bytes,), p) && match p {
                    Ok(c) => r matches Ok(d) && c.settles_to(&d),
                    Err(e) => r == Err::<PluginConfig, E>(e),
                },
    {
        if bytes.len() == 0 {
            let mut cfg = Self::default();
            cfg.apply_default_path();
            assert(cfg.labels.deep_view() =~= Seq::<(Seq<char>, Seq<char>)>::empty());
            return Ok(cfg);
        }
        let parsed = parse(bytes);
        Self::from_parsed(parsed)
    }

    /// Builds the authority value (host:port) used for the export call.
    pub fn authority(&self) -> (r: String)
        ensures
            r@ == self.spec_authority(),
    {
        if self.upstream_port > 0 {
            let mut s = self.upstream_authority.clone();
            s.append(":");
            let port = decimal_string(self.upstream_port as u64);
            s.append(port.as_str());
            s
        } else {
            self.upstream_authority.clone()
        }
    }
}

impl Default for PluginConfig {
    fn default() -> (r: Self)
        ensures
            r.is_default(),
    {
        PluginConfig {
            backend: ExporterBackend::Otlp,
            upstream_cluster: String::new(),
            upstream_authority: String::new(),
            upstream_path: String::new(),
            upstream_port: 0,
            labels: Vec::new(),
            service_name: String::from_str("wasm-wiretap"),
            capture_request_headers: true,
            capture_request_body: true,
            capture_response_headers: true,
            capture_response_body: true,
            max_body_bytes: 65536,
        }
    }
}

} // verus!
