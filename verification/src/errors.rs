//! The error taxonomy of the fetch pipeline.
//!
//! Every failure of a browse call is one of these values; none of the
//! verified functions panics.

use vstd::prelude::*;

verus! {

/// Why the host policy refused a target.
#[derive(Clone, Copy, Debug, PartialEq, Eq, Structural)]
pub enum DenyReason {
    /// An allowlist is configured and the host is not on it.
    NotInAllowlist,
    /// The host is `localhost` or ends with `.localhost`.
    LocalHostBlocked,
    /// The host is an IP literal in a private range.
    PrivateIpBlocked,
    /// The host name did not resolve to any address.
    ResolutionFailed,
    /// At least one resolved address is in a private range.
    ResolvesToPrivate,
}

/// A terminal failure of a browse call.  Every variant carries what the
/// caller needs to report: the offending status, the limit that was hit,
/// or the reason a host was refused.
#[derive(Clone, Debug, PartialEq, Eq)]
pub enum FetchError {
    /// The URL did not parse, or has no host.
    InvalidUrl,
    /// The scheme is neither `http` nor `https`.
    UnsupportedScheme { scheme: String },
    /// The host policy refused the target of some hop.
    PolicyDenied { reason: DenyReason },
    /// Connect, send or timeout failure, with the transport's own text.
    TransportError { detail: String },
    /// The redirect chain outran `max_redirects`.
    TooManyRedirects { limit: usize },
    /// A redirect response without a usable `Location`.
    BadRedirect,
    /// A non-success, non-followed status, with a body snippet.
    HttpStatus { status: u16, snippet: String },
    /// A content-type outside the text family.
    UnsupportedContentType { content_type: String },
    /// The body would have exceeded `max_bytes`.
    BodyTooLarge { limit: usize },
    /// The body is not valid UTF-8.
    InvalidEncoding,
}

} // verus!
