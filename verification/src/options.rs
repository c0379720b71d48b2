//! The typed options record built from a request's query string, and the
//! defaults and clamping rules that apply to it.

use vstd::prelude::*;

verus! {

/// Output image format.
#[derive(Copy, Clone, Debug, PartialEq, Eq, Structural)]
pub enum Format {
    Png,
    Avif,
    Svg,
}

/// Error-correction level of a QR symbol, in increasing order of redundancy.
#[derive(Copy, Clone, Debug, PartialEq, Eq, Structural)]
pub enum Ec {
    L,
    M,
    Q,
    H,
}

/// Symbol-sizing strategy: pick the smallest standard version automatically,
/// or use the requested version as a standard or micro symbol.
#[derive(Copy, Clone, Debug, PartialEq, Eq, Structural)]
pub enum Mode {
    Auto,
    Standard,
    Micro,
}

/// Rendering options for one request. Every field is optional in the query
/// string; an absent field takes its documented default.
#[derive(Clone, Debug)]
pub struct Options {
    /// Target minimum square dimension in device units; default 256,
    /// clamped to at most 1024 before rendering.
    pub width: Option<u32>,
    /// Foreground (dark module) color as RGBA bytes; absent means the
    /// renderer's built-in default.
    pub fg: Option<[u8; 4]>,
    /// Background (light module) color as RGBA bytes; absent means the
    /// renderer's built-in default.
    pub bg: Option<[u8; 4]>,
    /// Error-correction level; default M.
    pub ec: Ec,
    /// Symbol version; its meaning depends on `mode`; default 9 where a
    /// version is required but unset.
    pub version: Option<i16>,
    /// Output format; default PNG.
    pub format: Format,
    /// Symbol-sizing strategy; default Auto.
    pub mode: Mode,
}

/// Default target dimension when the query names none.
pub const DEFAULT_WIDTH: u32 = 256;

/// Hard ceiling on the target dimension.
pub const MAX_WIDTH: u32 = 1024;

/// Default symbol version shared by the Standard and Micro modes (Auto
/// ignores it).
pub const DEFAULT_VERSION: i16 = 9;

impl Options {
    /// The options an empty query string yields: every field at its default.
    pub fn defaults() -> (r: Options)
        ensures
            r.width is None,
            r.fg is None,
            r.bg is None,
            r.ec == Ec::M,
            r.version is None,
            r.format == Format::Png,
            r.mode == Mode::Auto,
    {
        Options {
            width: None,
            fg: None,
            bg: None,
            ec: Ec::M,
            version: None,
            format: Format::Png,
            mode: Mode::Auto,
        }
    }
}

/// The dimension actually handed to the renderer for a requested width:
/// the default where none was requested, clamped into one through the
/// ceiling (a width is positive, so zero is raised to one).
pub open spec fn spec_effective_width(width: Option<u32>) -> u32 {
    let w = match width {
        Some(w) => w,
        None => DEFAULT_WIDTH,
    };
    if w > MAX_WIDTH {
        MAX_WIDTH
    } else if w == 0 {
        1
    } else {
        w
    }
}

/// Clamps the requested width into the range the renderer accepts.
pub fn effective_width(width: Option<u32>) -> (r: u32)
    ensures
        r == spec_effective_width(width),
{
    let w = match width {
        Some(w) => w,
        None => DEFAULT_WIDTH,
    };
    if w > MAX_WIDTH {
        MAX_WIDTH
    } else if w == 0 {
        1
    } else {
        w
    }
}

/// Every width above the ceiling is clamped to exactly the ceiling, the
/// result always lies in the renderer's range, and clamping is idempotent:
/// clamping twice equals clamping once.
pub proof fn lemma_effective_width_clamp(width: Option<u32>)
    ensures
        width matches Some(w) && w > MAX_WIDTH ==> spec_effective_width(width) == MAX_WIDTH,
        spec_effective_width(Some(spec_effective_width(width))) == spec_effective_width(width),
        1 <= spec_effective_width(width) <= MAX_WIDTH,
{
}

} // verus!
