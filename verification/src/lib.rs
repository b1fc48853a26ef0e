//! Verified core of a token-metadata lookup tool.
//!
//! The library holds the pure logic of the tool: extracting a hostname from a
//! URL, choosing a request user agent, building the JSON-RPC request body,
//! classifying an HTTP response, defensively reading the metadata fields out
//! of the response document, assembling the per-token metadata record, and
//! rendering the per-token report. The surrounding binary performs the actual
//! HTTP and DNS traffic and hands plain values in and out.

pub mod args;
pub mod domain;
pub mod errors;
pub mod json;
pub mod metadata;
pub mod numfmt;
pub mod report;
pub mod request;
pub mod strutil;
pub mod useragent;
