//! The request pipeline: parse the query string, build the symbol, render
//! it, and assemble the response; any failure becomes a plain-text
//! diagnostic response instead.

use vstd::prelude::*;
use crate::color::spec_color_token;
use crate::options::{Format, Mode, spec_effective_width};
use crate::parse::{
    parse_options, spec_parse_error, spec_mode_field, spec_version_field,
    spec_ec_field, spec_format_field, spec_fg_field, spec_bg_field, spec_width_field,
};
use crate::render::{
    render_symbol, encode_png, encode_avif, RenderedOutput, contains_seq,
    spec_svg_fg_token, spec_svg_bg_token, spec_raster_fg, spec_raster_bg, fg_view, bg_view,
    png_of,
};
use crate::response::{
    Response, Body, error_response, format_headers, parse_error_message, symbol_error_message,
    plain_headers, png_headers, avif_headers, svg_headers, spec_parse_error_message,
    is_symbol_message,
};
use crate::symbol::{build_symbol_for, spec_build_ok, spec_effective_version};

verus! {

/// The outcome of one request: the response to write, and the diagnostic
/// message where the pipeline failed (the body then carries the same text).
pub struct HandleResult {
    pub response: Response,
    pub error: Option<String>,
}

/// Whether some bytes are the PNG encoding of a square RGBA8 raster whose
/// side is at least the given dimension and whose every pixel carries one
/// of the two given colors.
pub open spec fn is_png_of_square(v: Seq<u8>, min_side: u32, fg: Seq<u8>, bg: Seq<u8>) -> bool {
    exists|pixels: Seq<u8>, w: u32|
        w >= min_side && pixels.len() == 4 * (w as int) * (w as int) && (forall|i: int|
            0 <= i < (w as int) * (w as int) ==> #[trigger] pixels.subrange(4 * i, 4 * i + 4) == fg
                || pixels.subrange(4 * i, 4 * i + 4) == bg) && v == #[trigger] png_of(
            pixels,
            w,
            w,
        )
}

/// Whether a symbol can be built for the payload under the options the
/// query string denotes (meaningful once the query parses).
pub open spec fn q_build_ok(data: Seq<u8>, q: Seq<u8>) -> bool {
    spec_build_ok(
        data,
        spec_mode_field(q).unwrap(),
        spec_version_field(q).unwrap(),
        spec_ec_field(q).unwrap(),
    )
}

/// Runs one request through the pipeline: parse, build, render, assemble.
/// A rejected query, an unbuildable symbol, or an encoder failure yields a
/// plain-text diagnostic response and the same message as the error.
pub fn handle_request(payload: &[u8], query: &[u8]) -> (r: HandleResult)
    ensures
        r.error matches Some(m) ==> r.response.headers@ == plain_headers() && (
        r.response.body matches Body::Text(t) && t@ == m@ + "\n"@),
        spec_parse_error(query@) matches Some(e) ==> (r.error matches Some(m) && m@
            == spec_parse_error_message(e)),
        spec_parse_error(query@) is None && !q_build_ok(payload@, query@) ==> (
        r.error matches Some(m) && is_symbol_message(m@)),
        spec_parse_error(query@) is None && !q_build_ok(payload@, query@) && (spec_mode_field(
            query@,
        ) == Some(Mode::Auto) || (spec_mode_field(query@) == Some(Mode::Standard) && 1
            <= spec_effective_version(spec_version_field(query@).unwrap()) <= 40)) ==> (
        r.error matches Some(m) && m@ == "data too long"@),
        spec_parse_error(query@) is None && q_build_ok(payload@, query@) && spec_format_field(
            query@,
        ) == Some(Format::Svg) ==> r.error is None && r.response.headers@ == svg_headers() && (
        r.response.body matches Body::Text(d) && contains_seq(
            d@,
            spec_svg_fg_token(spec_fg_field(query@).unwrap()),
        ) && contains_seq(d@, spec_svg_bg_token(spec_bg_field(query@).unwrap())) && (
        spec_fg_field(query@).unwrap() matches Some(c) ==> contains_seq(d@, spec_color_token(c)))
            && (spec_bg_field(query@).unwrap() matches Some(c) ==> contains_seq(
            d@,
            spec_color_token(c),
        )) && d@.len() > 0),
        spec_parse_error(query@) is None && q_build_ok(payload@, query@) && spec_format_field(
            query@,
        ) == Some(Format::Png) ==> r.error is None && r.response.headers@ == png_headers() && (
        r.response.body matches Body::Bytes(v) && v@.len() > 0 && is_png_of_square(
            v@,
            spec_effective_width(spec_width_field(query@).unwrap()),
            spec_raster_fg(spec_fg_field(query@).unwrap()),
            spec_raster_bg(spec_bg_field(query@).unwrap()),
        )),
        spec_parse_error(query@) is None && q_build_ok(payload@, query@) && spec_format_field(
            query@,
        ) == Some(Format::Avif) && r.error is None ==> r.response.headers@ == avif_headers() && (
        r.response.body matches Body::Bytes(v) && v@.len() > 0),
{
    let opts = match parse_options(query) {
        Ok(o) => o,
        Err(e) => {
            let msg = parse_error_message(&e);
            let response = error_response(&msg);
            return HandleResult { response, error: Some(msg) };
        },
    };
    let sym = match build_symbol_for(payload, &opts) {
        Ok(s) => s,
        Err(e) => {
            let msg = symbol_error_message(&e);
            let response = error_response(&msg);
            return HandleResult { response, error: Some(msg) };
        },
    };
    let out = render_symbol(&sym, &opts);
    match out {
        RenderedOutput::Vector { document } => {
            let headers = format_headers(Format::Svg);
            HandleResult {
                response: Response { headers, body: Body::Text(document) },
                error: None,
            }
        },
        RenderedOutput::Raster { pixels, width, height } => {
            let encoded = match opts.format {
                Format::Avif => encode_avif(&pixels, width, height),
                _ => encode_png(&pixels, width, height),
            };
            match encoded {
                Ok(v) => {
                    proof {
                        match opts.format {
                            Format::Png => {
                                assert(fg_view(opts) == spec_fg_field(query@).unwrap());
                                assert(bg_view(opts) == spec_bg_field(query@).unwrap());
                                assert(v@ == png_of(pixels@, width, width));
                            },
                            _ => {},
                        }
                    }
                    let headers = format_headers(opts.format);
                    HandleResult {
                        response: Response { headers, body: Body::Bytes(v) },
                        error: None,
                    }
                },
                Err(msg) => {
                    let response = error_response(&msg);
                    HandleResult { response, error: Some(msg) }
                },
            }
        },
    }
}

} // verus!
