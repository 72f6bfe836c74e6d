//! URL parsing and relative resolution, through the `url` crate.
//!
//! The crate's results are carried as plain values (`ParsedUrl`); what
//! they are is named by uninterpreted spec functions, and every
//! decision on them is made by verified code on the returned values.

use vstd::prelude::*;

verus! {

/// What one parsed URL looks like, at the spec level: the normalized
/// serialization the url crate would print, with the scheme, host and
/// effective port it reports.
pub struct UrlModel {
    pub serialized: Seq<char>,
    pub scheme: Seq<char>,
    pub host: Option<Seq<char>>,
    pub port: Option<u16>,
}

/// What `url::Url::parse` makes of a string, or None where it errors.
pub uninterp spec fn url_parse_of(s: Seq<char>) -> Option<UrlModel>;

/// The serialization of `loc` resolved against the URL that `base`
/// parses to, or None where `base` does not parse or the resolution
/// errors.
pub uninterp spec fn url_join_of(base: Seq<char>, loc: Seq<char>) -> Option<Seq<char>>;

/// One parsed URL as plain values.
#[derive(Clone, Debug, PartialEq, Eq)]
pub struct ParsedUrl {
    /// The URL in the url crate's normalized serialization; requests
    /// and further joins use this exact text.
    pub serialized: String,
    pub scheme: String,
    pub host: Option<String>,
    /// The explicit port, or the scheme's default where it has one.
    pub port: Option<u16>,
}

impl ParsedUrl {
    /// This value carries exactly what the model says.
    pub open spec fn models(self, m: UrlModel) -> bool {
        &&& self.serialized@ == m.serialized
        &&& self.scheme@ == m.scheme
        &&& match (self.host, m.host) {
            (Some(h), Some(mh)) => h@ == mh,
            (None, None) => true,
            _ => false,
        }
        &&& self.port == m.port
    }
}

/// Relies on `url::Url::parse`, and on `Url::as_str`, `Url::scheme`,
/// `Url::host_str` and `Url::port_or_known_default` to read the parts
/// of the parsed URL out as plain values.
#[verifier::external_body]
pub(crate) fn parse_url(s: &str) -> (r: Option<ParsedUrl>)
    ensures
        (r is Some) == (url_parse_of(s@) is Some),
        r matches Some(u) ==> u.models(url_parse_of(s@)->0),
{
    match url::Url::parse(s) {
        Ok(u) => Some(ParsedUrl {
            serialized: u.as_str().to_string(),
            scheme: u.scheme().to_string(),
            host: u.host_str().map(|h| h.to_string()),
            port: u.port_or_known_default(),
        }),
        Err(_) => None,
    }
}

/// Relies on `url::Url::parse` to rebuild the current URL from its
/// serialization, and on `url::Url::join` to resolve `loc` against it;
/// the result is handed back as its serialization.
#[verifier::external_body]
pub(crate) fn join_url(base: &str, loc: &str) -> (r: Option<String>)
    ensures
        (r is Some) == (url_join_of(base@, loc@) is Some),
        r matches Some(u) ==> u@ == url_join_of(base@, loc@)->0,
{
    match url::Url::parse(base) {
        Ok(b) => match b.join(loc) {
            Ok(u) => Some(u.as_str().to_string()),
            Err(_) => None,
        },
        Err(_) => None,
    }
}

} // verus!
