//! Assembly of the CGI response: content headers for each format, then the
//! rendered body; or a plain-text diagnostic on failure.

use vstd::prelude::*;
use vstd::string::StringExecFns;
use crate::options::Format;
use crate::parse::ParseError;
use crate::symbol::SymbolError;

verus! {

/// The header block of a PNG response.
pub open spec fn png_headers() -> Seq<char> {
    "Content-type: image/png\nContent-disposition: attachment; filename=qr.png\n\n"@
}

/// The header block of an AVIF response.
pub open spec fn avif_headers() -> Seq<char> {
    "Content-type: image/avif\nContent-disposition: attachment; filename=qr.avif\n\n"@
}

/// The header block of an SVG response.
pub open spec fn svg_headers() -> Seq<char> {
    "Content-type: image/svg+xml\nContent-disposition: attachment; filename=qr.svg\n\n"@
}

/// The header block of a plain-text diagnostic response.
pub open spec fn plain_headers() -> Seq<char> {
    "Content-type: text/plain\n\n"@
}

/// The header block of a success response in the given format.
pub open spec fn spec_format_headers(f: Format) -> Seq<char> {
    match f {
        Format::Png => png_headers(),
        Format::Avif => avif_headers(),
        Format::Svg => svg_headers(),
    }
}

/// Builds the header block for a success response in the given format:
/// the content type, a content-disposition suggesting `qr.<ext>`, and the
/// blank line that ends the header block.
pub fn format_headers(f: Format) -> (r: String)
    ensures
        r@ == spec_format_headers(f),
{
    match f {
        Format::Png => {
            "Content-type: image/png\nContent-disposition: attachment; filename=qr.png\n\n".to_owned()
        },
        Format::Avif => {
            "Content-type: image/avif\nContent-disposition: attachment; filename=qr.avif\n\n".to_owned()
        },
        Format::Svg => {
            "Content-type: image/svg+xml\nContent-disposition: attachment; filename=qr.svg\n\n".to_owned()
        },
    }
}

/// Builds the header block for a diagnostic response.
pub fn plain_text_headers() -> (r: String)
    ensures
        r@ == plain_headers(),
{
    "Content-type: text/plain\n\n".to_owned()
}

/// A response body: raw image bytes, or a textual document.
pub enum Body {
    Bytes(Vec<u8>),
    Text(String),
}

/// A complete response: the header block, then the body.
pub struct Response {
    pub headers: String,
    pub body: Body,
}

/// The diagnostic for a rejected query string.
pub open spec fn spec_parse_error_message(e: ParseError) -> Seq<char> {
    match e {
        ParseError::Width => "invalid width value"@,
        ParseError::Fg => "invalid fg color"@,
        ParseError::Bg => "invalid bg color"@,
        ParseError::Ec => "invalid ec level"@,
        ParseError::Version => "invalid version value"@,
        ParseError::Format => "invalid format"@,
        ParseError::Mode => "invalid mode"@,
    }
}

/// The human-readable cause of a rejected query string.
pub fn parse_error_message(e: &ParseError) -> (r: String)
    ensures
        r@ == spec_parse_error_message(*e),
{
    match e {
        ParseError::Width => "invalid width value".to_owned(),
        ParseError::Fg => "invalid fg color".to_owned(),
        ParseError::Bg => "invalid bg color".to_owned(),
        ParseError::Ec => "invalid ec level".to_owned(),
        ParseError::Version => "invalid version value".to_owned(),
        ParseError::Format => "invalid format".to_owned(),
        ParseError::Mode => "invalid mode".to_owned(),
    }
}

/// The diagnostic for a failed symbol construction.
pub open spec fn spec_symbol_error_message(e: SymbolError) -> Seq<char> {
    match e {
        SymbolError::DataTooLong => "data too long"@,
        SymbolError::InvalidVersion => "invalid version"@,
        SymbolError::UnsupportedCharacterSet => "unsupported character set"@,
        SymbolError::InvalidEciDesignator => "invalid ECI designator"@,
        SymbolError::InvalidCharacter => "invalid character"@,
    }
}

/// Whether a diagnostic is one of the symbol builder's.
pub open spec fn is_symbol_message(m: Seq<char>) -> bool {
    exists|e: SymbolError| m == spec_symbol_error_message(e)
}

/// The human-readable cause of a failed symbol construction.
pub fn symbol_error_message(e: &SymbolError) -> (r: String)
    ensures
        r@ == spec_symbol_error_message(*e),
{
    match e {
        SymbolError::DataTooLong => "data too long".to_owned(),
        SymbolError::InvalidVersion => "invalid version".to_owned(),
        SymbolError::UnsupportedCharacterSet => "unsupported character set".to_owned(),
        SymbolError::InvalidEciDesignator => "invalid ECI designator".to_owned(),
        SymbolError::InvalidCharacter => "invalid character".to_owned(),
    }
}

/// Builds the diagnostic response for a failure: plain-text headers, then
/// the message and a final line break.
pub fn error_response(msg: &String) -> (r: Response)
    ensures
        r.headers@ == plain_headers(),
        r.body matches Body::Text(t) && t@ == msg@ + "\n"@,
{
    let body_text = msg.as_str().to_owned().concat("\n");
    Response { headers: plain_text_headers(), body: Body::Text(body_text) }
}

} // verus!
