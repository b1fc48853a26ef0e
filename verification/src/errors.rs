use vstd::prelude::*;

verus! {

/// The error taxonomy of the tool.
///
/// `InvalidUrl` comes from the domain extractor; `Transport` from a failed
/// network exchange; `Api` from a non-success HTTP status, carrying the status
/// code and the raw response body; `Parse` from a malformed JSON body; `Dns`
/// from a failed resolution (recoverable: the caller degrades to absent DNS
/// data); `Config` from a bad configuration value such as a malformed proxy
/// URL (fatal: the pipeline stops before processing any token).
#[derive(Debug)]
pub enum TokenError {
    InvalidUrl,
    Transport(String),
    Api(u16, String),
    Parse,
    Dns(String),
    Config(String),
}

} // verus!
