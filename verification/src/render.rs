//! Rendering a QR symbol into a raster pixel buffer or a vector document,
//! and encoding the raster as PNG or AVIF.
//!
//! Raster and vector rendering and the image codecs live in the `qrcode`
//! and `image` crates; the contracts here state their documented layout
//! guarantees (square output no smaller than requested, RGBA8 rows, color
//! tokens embedded verbatim) and name the deterministic PNG encoding.

use vstd::prelude::*;
use vstd::string::StringExecFns;
use crate::color::{color_token, spec_color_token};
use crate::options::{Format, Options, spec_effective_width, effective_width};
use crate::symbol::Symbol;

verus! {

/// Whether `needle` occurs contiguously inside `hay`.
pub open spec fn contains_seq<T>(hay: Seq<T>, needle: Seq<T>) -> bool {
    exists|i: int|
        0 <= i && i + needle.len() <= hay.len() && #[trigger] hay.subrange(i, i + needle.len() as int)
            == needle
}

/// Relies on qrcode's Renderer with image::Rgba<u8> pixels: min_dimensions
/// rounds the module size up so the built image is square and no smaller
/// than requested, and ImageBuffer::into_raw yields the RGBA8 buffer of
/// exactly four bytes per pixel. The canvas fills every pixel with the
/// light color and then overdraws dark modules, so each pixel is one of
/// the two given colors, which replace the renderer's defaults (opaque
/// black on opaque white). The width bound keeps min_dimensions' rounding
/// arithmetic away from overflow; at most 185 modules (a version 40 symbol
/// with its quiet zone) span the image, so rounding adds less than one
/// module row of pixels.
#[verifier::external_body]
fn render_raster(code: &qrcode::QrCode, width: u32, fg: [u8; 4], bg: [u8; 4]) -> (r: (
    Vec<u8>,
    u32,
    u32,
))
    requires
        width <= 1024,
    ensures
        r.1 == r.2,
        r.1 >= width,
        1 <= r.1 <= width + 184,
        r.0@.len() == 4 * (r.1 as int) * (r.2 as int),
        forall|i: int|
            0 <= i < (r.1 as int) * (r.2 as int) ==> #[trigger] r.0@.subrange(4 * i, 4 * i + 4)
                == fg@ || r.0@.subrange(4 * i, 4 * i + 4) == bg@,
{
    let mut renderer = code.render::<image::Rgba<u8>>();
    renderer.min_dimensions(width, width);
    renderer.dark_color(image::Rgba(fg));
    renderer.light_color(image::Rgba(bg));
    let img = renderer.build();
    let w = img.width();
    let h = img.height();
    (img.into_raw(), w, h)
}

/// Relies on qrcode's Renderer with svg::Color: the built document embeds
/// the given dark and light color tokens verbatim in its fill attributes.
/// The width bound keeps min_dimensions' rounding arithmetic away from
/// overflow.
#[verifier::external_body]
fn render_svg(code: &qrcode::QrCode, width: u32, fg: &str, bg: &str) -> (r: String)
    requires
        width <= 1024,
    ensures
        contains_seq(r@, fg@),
        contains_seq(r@, bg@),
        r@.len() > 0,
{
    let mut renderer = code.render::<qrcode::render::svg::Color>();
    renderer.min_dimensions(width, width);
    renderer.dark_color(qrcode::render::svg::Color(fg));
    renderer.light_color(qrcode::render::svg::Color(bg));
    renderer.build()
}

/// The bytes PNG encoding produces for an RGBA8 pixel buffer: a function of
/// the buffer and dimensions alone.
pub uninterp spec fn png_of(pixels: Seq<u8>, w: u32, h: u32) -> Seq<u8>;

/// Relies on image::codecs::png::PngEncoder::write_image with RGBA8 color:
/// deterministic encoding that always succeeds here, since the buffer
/// length matches the dimensions (the encoder asserts it), the dimensions
/// are modest and nonzero, and writing into a byte vector cannot fail. The
/// output begins with the PNG signature, so it is never empty.
#[verifier::external_body]
pub(crate) fn encode_png(pixels: &Vec<u8>, w: u32, h: u32) -> (r: Result<Vec<u8>, String>)
    requires
        pixels@.len() == 4 * (w as int) * (h as int),
        1 <= w <= 2048,
        1 <= h <= 2048,
    ensures
        r is Ok,
        r matches Ok(v) ==> v@ == png_of(pixels@, w, h) && v@.len() > 0,
{
    let mut out: Vec<u8> = Vec::new();
    let encoder = image::codecs::png::PngEncoder::new(&mut out);
    match image::ImageEncoder::write_image(
        encoder,
        pixels.as_slice(),
        w,
        h,
        image::ExtendedColorType::Rgba8,
    ) {
        Ok(()) => Ok(out),
        Err(e) => Err(e.to_string()),
    }
}

/// Relies on image::codecs::avif::AvifEncoder::write_image with RGBA8
/// color: on success the AVIF container bytes were written. The encoder
/// asserts that the buffer length matches the dimensions, so that is
/// required here.
#[verifier::external_body]
pub(crate) fn encode_avif(pixels: &Vec<u8>, w: u32, h: u32) -> (r: Result<Vec<u8>, String>)
    requires
        pixels@.len() == 4 * (w as int) * (h as int),
        w >= 1,
        h >= 1,
    ensures
        r matches Ok(v) ==> v@.len() > 0,
{
    let mut out: Vec<u8> = Vec::new();
    let encoder = image::codecs::avif::AvifEncoder::new(&mut out);
    match image::ImageEncoder::write_image(
        encoder,
        pixels.as_slice(),
        w,
        h,
        image::ExtendedColorType::Rgba8,
    ) {
        Ok(()) => Ok(out),
        Err(e) => Err(e.to_string()),
    }
}

/// The dark color token of a vector document: the requested color's token,
/// or the vector renderer's built-in default.
pub open spec fn spec_svg_fg_token(fg: Option<Seq<u8>>) -> Seq<char> {
    match fg {
        Some(c) => spec_color_token(c),
        None => "#000"@,
    }
}

/// The light color token of a vector document.
pub open spec fn spec_svg_bg_token(bg: Option<Seq<u8>>) -> Seq<char> {
    match bg {
        Some(c) => spec_color_token(c),
        None => "#fff"@,
    }
}

/// The raster foreground actually used: the requested color's bytes, or
/// the raster renderer's default opaque black.
pub open spec fn spec_raster_fg(fg: Option<Seq<u8>>) -> Seq<u8> {
    match fg {
        Some(c) => c,
        None => seq![0u8, 0u8, 0u8, 255u8],
    }
}

/// The raster background actually used: the requested color's bytes, or
/// the raster renderer's default opaque white.
pub open spec fn spec_raster_bg(bg: Option<Seq<u8>>) -> Seq<u8> {
    match bg {
        Some(c) => c,
        None => seq![255u8, 255u8, 255u8, 255u8],
    }
}

/// A rendered symbol: a raster pixel grid in RGBA8 layout, or a vector
/// document.
pub enum RenderedOutput {
    Raster { pixels: Vec<u8>, width: u32, height: u32 },
    Vector { document: String },
}

/// The view of an options record's foreground color.
pub open spec fn fg_view(o: Options) -> Option<Seq<u8>> {
    match o.fg {
        Some(c) => Some(c@),
        None => None,
    }
}

/// The view of an options record's background color.
pub open spec fn bg_view(o: Options) -> Option<Seq<u8>> {
    match o.bg {
        Some(c) => Some(c@),
        None => None,
    }
}

/// Renders a symbol under the given options: for the raster formats a
/// square RGBA8 raster at least as large as the clamped width, every pixel
/// carrying the requested (or default) foreground or background color; for
/// SVG a vector document embedding the requested (or default) color tokens.
pub fn render_symbol(sym: &Symbol, o: &Options) -> (r: RenderedOutput)
    ensures
        o.format matches Format::Svg ==> (r matches RenderedOutput::Vector { document } && contains_seq(
            document@,
            spec_svg_fg_token(fg_view(*o)),
        ) && contains_seq(document@, spec_svg_bg_token(bg_view(*o))) && document@.len() > 0),
        !(o.format matches Format::Svg) ==> (r matches RenderedOutput::Raster {
            pixels,
            width,
            height,
        } && width == height && width >= spec_effective_width(o.width) && 1 <= width
            <= spec_effective_width(o.width) + 184 && pixels@.len() == 4 * (width as int) * (
        height as int) && (forall|i: int|
            0 <= i < (width as int) * (height as int) ==> #[trigger] pixels@.subrange(
                4 * i,
                4 * i + 4,
            ) == spec_raster_fg(fg_view(*o)) || pixels@.subrange(4 * i, 4 * i + 4)
                == spec_raster_bg(bg_view(*o)))),
{
    let width = effective_width(o.width);
    match o.format {
        Format::Svg => {
            let fg_token: String = match &o.fg {
                Some(c) => color_token(c),
                None => "#000".to_owned(),
            };
            let bg_token: String = match &o.bg {
                Some(c) => color_token(c),
                None => "#fff".to_owned(),
            };
            let document = render_svg(&sym.code, width, fg_token.as_str(), bg_token.as_str());
            RenderedOutput::Vector { document }
        },
        _ => {
            let fg: [u8; 4] = match o.fg {
                Some(c) => c,
                None => [0, 0, 0, 255],
            };
            let bg: [u8; 4] = match o.bg {
                Some(c) => c,
                None => [255, 255, 255, 255],
            };
            proof {
                assert(fg@ =~= spec_raster_fg(fg_view(*o)));
                assert(bg@ =~= spec_raster_bg(bg_view(*o)));
            }
            let (pixels, w, h) = render_raster(&sym.code, width, fg, bg);
            RenderedOutput::Raster { pixels, width: w, height: h }
        },
    }
}

} // verus!
