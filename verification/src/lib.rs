//! Verified core of a proxy filter that captures HTTP transactions and
//! builds export payloads for Loki and OTLP/HTTP collectors.

pub mod capture;
pub mod config;
pub mod exporters;
pub mod filter;
pub mod json;
pub mod labels;
pub mod text;
pub mod laws;
