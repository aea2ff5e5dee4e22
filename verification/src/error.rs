//! The ways a fetch can fail. Failures travel in their own channel, apart
//! from the protocol's status codes.

use vstd::prelude::*;
use crate::status::StatusCode;

verus! {

/// Why the trust store refused a certificate.
#[derive(Debug, Clone, Copy, PartialEq, Eq, Structural)]
pub enum RejectReason {
    /// The certificate could not be parsed.
    InvalidCertificate,
    /// The certificate is outside its validity window at presentation.
    ExpiredAtPresentation,
    /// The certificate's subject carries no readable Common Name.
    NoCommonName,
    /// A still-valid record is on file with a different public key.
    KeyMismatch,
    /// An expired record is on file, and the new certificate's public key
    /// differs from it.
    KeyMismatchOnRenewal,
}

/// Why a fetch ended without a response.
#[derive(Debug, Clone, PartialEq, Eq)]
pub enum FetchError {
    /// No connection to `host` could be opened.
    TransportFailure { host: String },
    /// The handshake failed, or the stream broke while in use.
    TlsFailure,
    /// The trust store refused the peer's certificate.
    CertRejected { reason: RejectReason },
    /// A redirect target could not be resolved against the current URL.
    MalformedURL,
    /// The response has no CRLF to end its header line.
    ResponseFormatError,
    /// The response's code is malformed or outside the known range.
    UnknownStatus,
    /// The redirect chain did not end within the allowed number of hops.
    TooManyRedirects,
}

/// The diagnostic text that goes with each failure.
pub open spec fn diagnostic_text(error: FetchError) -> Seq<char> {
    match error {
        FetchError::TransportFailure { host } => "TcpStream failed to connect"@,
        FetchError::TlsFailure => "Error on the TLS stream!"@,
        FetchError::CertRejected { reason } => "Certificate rejected by the trust store"@,
        FetchError::MalformedURL => "Failed to resolve redirect"@,
        FetchError::ResponseFormatError => "Response does not have CRLF!"@,
        FetchError::UnknownStatus => "Server returned invalid status code!"@,
        FetchError::TooManyRedirects => "Too many redirects"@,
    }
}

impl FetchError {
    /// A human-readable line for logs and error pages.
    pub fn diagnostic(&self) -> (text: &'static str)
        ensures
            text@ == diagnostic_text(*self),
    {
        match self {
            FetchError::TransportFailure { .. } => "TcpStream failed to connect",
            FetchError::TlsFailure => "Error on the TLS stream!",
            FetchError::CertRejected { .. } => "Certificate rejected by the trust store",
            FetchError::MalformedURL => "Failed to resolve redirect",
            FetchError::ResponseFormatError => "Response does not have CRLF!",
            FetchError::UnknownStatus => "Server returned invalid status code!",
            FetchError::TooManyRedirects => "Too many redirects",
        }
    }
}

/// A failure in the shape of a response, for a caller that shows every
/// outcome as status, meta text and body.
///
/// What is wrong with the response itself is shown as the status it
/// stands for, with the diagnostic text for meta. Every other failure is
/// a `FailureClient` without meta, with the diagnostic text in the body's
/// place.
pub open spec fn failure_shown(error: FetchError) -> (StatusCode, Seq<char>, Seq<char>) {
    match error {
        FetchError::UnknownStatus => (
            StatusCode::StatusUnknown,
            diagnostic_text(error),
            Seq::empty(),
        ),
        FetchError::ResponseFormatError => (
            StatusCode::ResponseError,
            diagnostic_text(error),
            Seq::empty(),
        ),
        _ => (StatusCode::FailureClient, Seq::empty(), diagnostic_text(error)),
    }
}

/// Puts a failure into the shape of a response.
pub fn show_failure(error: &FetchError) -> (shown: (StatusCode, String, String))
    ensures
        shown.0 == failure_shown(*error).0,
        shown.1@ == failure_shown(*error).1,
        shown.2@ == failure_shown(*error).2,
{
    let text = error.diagnostic().to_owned();
    match error {
        FetchError::UnknownStatus => (StatusCode::StatusUnknown, text, String::new()),
        FetchError::ResponseFormatError => (StatusCode::ResponseError, text, String::new()),
        _ => (StatusCode::FailureClient, String::new(), text),
    }
}

} // verus!
