use qrgen::options::{Ec, Format, Mode};
use qrgen::parse::{parse_options, parse_u32_bytes, parse_i16_bytes, pct_decode, ParseError};

#[test]
fn empty_query_yields_defaults() {
    let o = parse_options(b"").unwrap();
    assert!(o.width.is_none());
    assert!(o.fg.is_none());
    assert!(o.bg.is_none());
    assert_eq!(o.ec, Ec::M);
    assert!(o.version.is_none());
    assert_eq!(o.format, Format::Png);
    assert_eq!(o.mode, Mode::Auto);
}

#[test]
fn all_fields_parse() {
    let o = parse_options(b"width=300&fg=FF0000FF&bg=00FF00FF&ec=H&version=3&format=Svg&mode=Standard")
        .unwrap();
    assert_eq!(o.width, Some(300));
    assert_eq!(o.fg, Some([0xFF, 0x00, 0x00, 0xFF]));
    assert_eq!(o.bg, Some([0x00, 0xFF, 0x00, 0xFF]));
    assert_eq!(o.ec, Ec::H);
    assert_eq!(o.version, Some(3));
    assert_eq!(o.format, Format::Svg);
    assert_eq!(o.mode, Mode::Standard);
}

#[test]
fn seven_digit_color_is_rejected() {
    let r = parse_options(b"fg=FF0000F");
    assert_eq!(r.unwrap_err(), ParseError::Fg);
}

#[test]
fn lowercase_color_is_rejected() {
    let r = parse_options(b"fg=ff0000ff");
    assert_eq!(r.unwrap_err(), ParseError::Fg);
}

#[test]
fn repeated_key_last_occurrence_wins() {
    let o = parse_options(b"width=100&width=200").unwrap();
    assert_eq!(o.width, Some(200));
}

#[test]
fn empty_value_means_absent_for_optional_fields() {
    let o = parse_options(b"width=&version=").unwrap();
    assert!(o.width.is_none());
    assert!(o.version.is_none());
}

#[test]
fn key_without_equals_means_absent_for_optional_fields() {
    let o = parse_options(b"width&fg").unwrap();
    assert!(o.width.is_none());
    assert!(o.fg.is_none());
}

#[test]
fn enum_key_without_value_is_rejected() {
    assert_eq!(parse_options(b"ec").unwrap_err(), ParseError::Ec);
    assert_eq!(parse_options(b"format=").unwrap_err(), ParseError::Format);
}

#[test]
fn invalid_enum_tokens_are_rejected() {
    assert_eq!(parse_options(b"ec=X").unwrap_err(), ParseError::Ec);
    assert_eq!(parse_options(b"ec=l").unwrap_err(), ParseError::Ec);
    assert_eq!(parse_options(b"format=PNG").unwrap_err(), ParseError::Format);
    assert_eq!(parse_options(b"mode=auto").unwrap_err(), ParseError::Mode);
}

#[test]
fn non_numeric_width_is_rejected() {
    assert_eq!(parse_options(b"width=abc").unwrap_err(), ParseError::Width);
    assert_eq!(parse_options(b"width=-3").unwrap_err(), ParseError::Width);
}

#[test]
fn overflowing_width_is_rejected() {
    assert_eq!(parse_options(b"width=4294967296").unwrap_err(), ParseError::Width);
}

#[test]
fn width_at_numeric_limit_parses() {
    let o = parse_options(b"width=4294967295").unwrap();
    assert_eq!(o.width, Some(4294967295));
}

#[test]
fn negative_version_parses() {
    let o = parse_options(b"version=-3").unwrap();
    assert_eq!(o.version, Some(-3));
}

#[test]
fn version_out_of_range_is_rejected() {
    assert_eq!(parse_options(b"version=40000").unwrap_err(), ParseError::Version);
}

#[test]
fn percent_encoded_key_is_recognized() {
    let o = parse_options(b"w%69dth=123").unwrap();
    assert_eq!(o.width, Some(123));
}

#[test]
fn unknown_keys_are_ignored() {
    let o = parse_options(b"wide=999&spam=1").unwrap();
    assert!(o.width.is_none());
}

#[test]
fn pct_decode_plus_and_escapes() {
    let s = b"a+b%20c%2fd";
    assert_eq!(pct_decode(s, 0, s.len()), b"a b c/d".to_vec());
}

#[test]
fn pct_decode_keeps_malformed_escapes() {
    let s = b"%G1%2";
    assert_eq!(pct_decode(s, 0, s.len()), b"%G1%2".to_vec());
}

#[test]
fn parse_u32_bytes_cases() {
    assert_eq!(parse_u32_bytes(b"0"), Some(0));
    assert_eq!(parse_u32_bytes(b"+17"), Some(17));
    assert_eq!(parse_u32_bytes(b""), None);
    assert_eq!(parse_u32_bytes(b"+"), None);
    assert_eq!(parse_u32_bytes(b"1 2"), None);
}

#[test]
fn parse_i16_bytes_cases() {
    assert_eq!(parse_i16_bytes(b"-32768"), Some(-32768));
    assert_eq!(parse_i16_bytes(b"32767"), Some(32767));
    assert_eq!(parse_i16_bytes(b"32768"), None);
    assert_eq!(parse_i16_bytes(b"-32769"), None);
    assert_eq!(parse_i16_bytes(b"-"), None);
}
