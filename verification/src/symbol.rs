//! QR symbol construction, delegated to the `qrcode` crate behind trusted
//! contracts.
//!
//! Whether a payload fits a symbol depends on the crate's capacity tables
//! and segment optimizer; the contracts name those outcomes rather than
//! restate them.

use vstd::prelude::*;
use crate::options::{Ec, Mode, Options, DEFAULT_VERSION};

verus! {

#[verifier::external_type_specification]
#[verifier::external_body]
pub struct ExQrCode(qrcode::QrCode);

#[verifier::external_type_specification]
pub struct ExQrError(qrcode::types::QrError);

/// The rank of an error-correction level, L lowest.
pub open spec fn ec_index(e: Ec) -> int {
    match e {
        Ec::L => 0,
        Ec::M => 1,
        Ec::Q => 2,
        Ec::H => 3,
    }
}

/// Whether automatic version selection finds a standard symbol that holds
/// the data at the level: a function of the data and level alone.
pub uninterp spec fn qr_auto_ok(data: Seq<u8>, ec: int) -> bool;

/// Whether the data fits the named symbol (standard or micro) at the level:
/// a function of the arguments alone.
pub uninterp spec fn qr_version_ok(data: Seq<u8>, micro: bool, version: i16, ec: int) -> bool;

/// Relies on qrcode::QrCode::with_error_correction_level: it selects the
/// smallest standard version whose capacity holds the data at the level,
/// and errs exactly when no version does. Its only failure is the capacity
/// one: the standard versions it tries accept every character set and are
/// always valid, so each of its error returns carries DataTooLong.
#[verifier::external_body]
fn qr_build_auto(data: &[u8], ec: Ec) -> (r: Result<qrcode::QrCode, qrcode::types::QrError>)
    ensures
        r is Ok <==> qr_auto_ok(data@, ec_index(ec)),
        r matches Err(e) ==> e == qrcode::types::QrError::DataTooLong,
{
    let level = match ec {
        Ec::L => qrcode::EcLevel::L,
        Ec::M => qrcode::EcLevel::M,
        Ec::Q => qrcode::EcLevel::Q,
        Ec::H => qrcode::EcLevel::H,
    };
    qrcode::QrCode::with_error_correction_level(data, level)
}

/// Relies on qrcode::QrCode::with_version: it builds the named symbol and
/// errs exactly when the version is out of range for its kind or the data
/// does not fit at the level. A micro version below one is excluded: the
/// crate's table lookups reject out-of-range versions, but its casts do not
/// accept a negative one. For a standard version in range (one through
/// forty) every character set is accepted and every table lookup succeeds,
/// so the only failure left is the capacity one, DataTooLong.
#[verifier::external_body]
fn qr_build_with_version(data: &[u8], micro: bool, version: i16, ec: Ec) -> (r: Result<
    qrcode::QrCode,
    qrcode::types::QrError,
>)
    requires
        micro ==> version >= 1,
    ensures
        r is Ok <==> qr_version_ok(data@, micro, version, ec_index(ec)),
        !micro && 1 <= version <= 40 && r is Err ==> (r matches Err(e) && e
            == qrcode::types::QrError::DataTooLong),
{
    let level = match ec {
        Ec::L => qrcode::EcLevel::L,
        Ec::M => qrcode::EcLevel::M,
        Ec::Q => qrcode::EcLevel::Q,
        Ec::H => qrcode::EcLevel::H,
    };
    let v = if micro {
        qrcode::Version::Micro(version)
    } else {
        qrcode::Version::Normal(version)
    };
    qrcode::QrCode::with_version(data, v, level)
}

/// Why a symbol could not be built.
#[derive(Copy, Clone, Debug, PartialEq, Eq, Structural)]
pub enum SymbolError {
    /// The payload exceeds the capacity of the selected version and level.
    DataTooLong,
    /// The version and error-correction combination is invalid.
    InvalidVersion,
    /// The payload's character set is unsupported by the selected version.
    UnsupportedCharacterSet,
    /// An extended-channel designator in the data is out of range.
    InvalidEciDesignator,
    /// A character outside the selected character set was found.
    InvalidCharacter,
}

/// The builder's error for the error the QR crate reported.
pub fn symbol_error_of(e: &qrcode::types::QrError) -> (r: SymbolError)
    ensures
        r == (match *e {
            qrcode::types::QrError::DataTooLong => SymbolError::DataTooLong,
            qrcode::types::QrError::InvalidVersion => SymbolError::InvalidVersion,
            qrcode::types::QrError::UnsupportedCharacterSet => SymbolError::UnsupportedCharacterSet,
            qrcode::types::QrError::InvalidEciDesignator => SymbolError::InvalidEciDesignator,
            qrcode::types::QrError::InvalidCharacter => SymbolError::InvalidCharacter,
        }),
{
    match e {
        qrcode::types::QrError::DataTooLong => SymbolError::DataTooLong,
        qrcode::types::QrError::InvalidVersion => SymbolError::InvalidVersion,
        qrcode::types::QrError::UnsupportedCharacterSet => SymbolError::UnsupportedCharacterSet,
        qrcode::types::QrError::InvalidEciDesignator => SymbolError::InvalidEciDesignator,
        qrcode::types::QrError::InvalidCharacter => SymbolError::InvalidCharacter,
    }
}

/// A constructed QR symbol, consumed exactly once by the renderer.
pub struct Symbol {
    pub code: qrcode::QrCode,
}

/// The version the builder uses where one is required: the requested one,
/// or the shared default. Auto mode ignores it.
pub open spec fn spec_effective_version(version: Option<i16>) -> i16 {
    match version {
        Some(v) => v,
        None => DEFAULT_VERSION,
    }
}

/// Whether a symbol can be built for the payload under the given options.
pub open spec fn spec_build_ok(data: Seq<u8>, mode: Mode, version: Option<i16>, ec: Ec) -> bool {
    match mode {
        Mode::Auto => qr_auto_ok(data, ec_index(ec)),
        Mode::Standard => qr_version_ok(data, false, spec_effective_version(version), ec_index(ec)),
        Mode::Micro => spec_effective_version(version) >= 1 && qr_version_ok(
            data,
            true,
            spec_effective_version(version),
            ec_index(ec),
        ),
    }
}

/// Builds a QR symbol for the payload: Auto mode selects the smallest
/// standard version that fits and ignores any requested version; Standard
/// and Micro use the requested version, defaulting to the shared default
/// version where unset. Fails if the payload does not fit or the version is
/// invalid for the mode.
pub fn build_symbol(data: &[u8], mode: Mode, version: Option<i16>, ec: Ec) -> (r: Result<
    Symbol,
    SymbolError,
>)
    ensures
        r is Ok <==> spec_build_ok(data@, mode, version, ec),
        mode matches Mode::Micro && spec_effective_version(version) < 1 ==> r == Err::<
            Symbol,
            SymbolError,
        >(SymbolError::InvalidVersion),
        mode matches Mode::Auto && r is Err ==> r == Err::<Symbol, SymbolError>(
            SymbolError::DataTooLong,
        ),
        mode matches Mode::Standard && 1 <= spec_effective_version(version) <= 40 && r is Err
            ==> r == Err::<Symbol, SymbolError>(SymbolError::DataTooLong),
{
    match mode {
        Mode::Auto => {
            match qr_build_auto(data, ec) {
                Ok(code) => Ok(Symbol { code }),
                Err(e) => Err(symbol_error_of(&e)),
            }
        },
        Mode::Standard => {
            let v = match version {
                Some(v) => v,
                None => DEFAULT_VERSION,
            };
            match qr_build_with_version(data, false, v, ec) {
                Ok(code) => Ok(Symbol { code }),
                Err(e) => Err(symbol_error_of(&e)),
            }
        },
        Mode::Micro => {
            let v = match version {
                Some(v) => v,
                None => DEFAULT_VERSION,
            };
            if v < 1 {
                Err(SymbolError::InvalidVersion)
            } else {
                match qr_build_with_version(data, true, v, ec) {
                    Ok(code) => Ok(Symbol { code }),
                    Err(e) => Err(symbol_error_of(&e)),
                }
            }
        },
    }
}

/// Builds the symbol an options record asks for.
pub fn build_symbol_for(data: &[u8], o: &Options) -> (r: Result<Symbol, SymbolError>)
    ensures
        r is Ok <==> spec_build_ok(data@, o.mode, o.version, o.ec),
        o.mode matches Mode::Auto && r is Err ==> r == Err::<Symbol, SymbolError>(
            SymbolError::DataTooLong,
        ),
        o.mode matches Mode::Standard && 1 <= spec_effective_version(o.version) <= 40 && r is Err
            ==> r == Err::<Symbol, SymbolError>(SymbolError::DataTooLong),
{
    build_symbol(data, o.mode, o.version, o.ec)
}

} // verus!
