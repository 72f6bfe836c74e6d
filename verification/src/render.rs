//! From raw body bytes to Markdown: UTF-8 decoding, sanitizing, and
//! the external HTML-to-Markdown converter.

use vstd::prelude::*;

use crate::errors::FetchError;
use crate::sanitize::spec_sanitize;
use crate::sanitize::strip_styles_and_scripts;

verus! {

/// What `html2md::parse_html` renders for a given document: a pure
/// function of the input text alone.
pub uninterp spec fn markdown_of(html: Seq<char>) -> Seq<char>;

/// Relies on `String::from_utf8`: `Ok` exactly on valid UTF-8, giving
/// the decoded text.
#[verifier::external_body]
fn decode_utf8_bytes(bytes: Vec<u8>) -> (r: Option<String>)
    ensures
        (r is Some) == vstd::utf8::valid_utf8(bytes@),
        r matches Some(t) ==> t@ == vstd::utf8::decode_utf8(bytes@),
{
    String::from_utf8(bytes).ok()
}

/// Relies on `html2md::parse_html`: best-effort Markdown for any input,
/// depending on the input text alone.
#[verifier::external_body]
fn render_markdown(html: &str) -> (r: String)
    ensures
        r@ == markdown_of(html@),
{
    html2md::parse_html(html)
}

/// What a delivered body renders to: the decoded text, stripped of
/// style and script blocks, put through the Markdown converter.
pub open spec fn spec_body_markdown(bytes: Seq<u8>) -> Seq<char> {
    markdown_of(spec_sanitize(vstd::utf8::decode_utf8(bytes)))
}

/// Turn the accumulated body bytes into Markdown: bytes that are not
/// valid UTF-8 are a terminal `InvalidEncoding`; otherwise the text is
/// sanitized and rendered.
pub fn body_to_markdown(bytes: Vec<u8>) -> (r: Result<String, FetchError>)
    ensures
        !vstd::utf8::valid_utf8(bytes@) ==> r == Err::<String, FetchError>(
            FetchError::InvalidEncoding,
        ),
        vstd::utf8::valid_utf8(bytes@) ==> (r matches Ok(md) && md@ == spec_body_markdown(
            bytes@,
        )),
{
    let text = match decode_utf8_bytes(bytes) {
        Some(t) => t,
        None => {
            return Err(FetchError::InvalidEncoding);
        },
    };
    let cleaned = strip_styles_and_scripts(text.as_str());
    Ok(render_markdown(cleaned.as_str()))
}

} // verus!
