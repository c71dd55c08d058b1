//! Error taxonomy for the capture/analysis pipeline. Callers branch on the
//! variant, never on message text.

use vstd::prelude::*;

verus! {

/// Everything that can abort one capture cycle, tagged so that a caller can
/// tell a local decode problem from a remote rejection or a bad reply.
#[derive(Debug, Clone)]
pub enum CaptureError {
    /// The sampled bytes were not a decodable image (local, non-retriable).
    DecodeError,
    /// No credential is configured, so no analysis request may be sent.
    MissingApiKey,
    /// The network transport failed before a response arrived.
    TransportError { cause: String },
    /// The interpretation service answered with a non-success status.
    ServiceError { status: u16, body: String },
    /// The service rejected the request because the configured model cannot
    /// accept images; surfaced apart from `ServiceError` so the caller can
    /// render an actionable message.
    UnsupportedModalityError { status: u16, body: String },
    /// The reply arrived but did not hold a parsable analysis; the raw text
    /// is retained for diagnostics.
    MalformedResponseError { raw: String },
}

} // verus!
