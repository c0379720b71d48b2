use qrgen::color::{color_token, parse_color};

#[test]
fn token_round_trip_for_sample_color() {
    assert_eq!(color_token(&[0xAA, 0xBB, 0xCC, 0xFF]), "#AABBCCFF");
}

#[test]
fn token_of_red() {
    assert_eq!(color_token(&[0xFF, 0x00, 0x00, 0xFF]), "#FF0000FF");
}

#[test]
fn token_uses_uppercase_digits() {
    assert_eq!(color_token(&[0x0a, 0x1b, 0x2c, 0x3d]), "#0A1B2C3D");
}

#[test]
fn parse_color_accepts_exact_shape() {
    assert_eq!(parse_color(b"AABBCCFF"), Some([0xAA, 0xBB, 0xCC, 0xFF]));
    assert_eq!(parse_color(b"00000000"), Some([0, 0, 0, 0]));
}

#[test]
fn parse_color_rejects_other_shapes() {
    assert_eq!(parse_color(b"AABBCCF"), None);
    assert_eq!(parse_color(b"AABBCCFF0"), None);
    assert_eq!(parse_color(b"aabbccff"), None);
    assert_eq!(parse_color(b"AABBCCFG"), None);
    assert_eq!(parse_color(b""), None);
}

#[test]
fn parse_of_token_digits_restores_bytes() {
    let token = color_token(&[0x12, 0x34, 0x56, 0x78]);
    let digits = token.as_bytes();
    assert_eq!(parse_color(&digits[1..]), Some([0x12, 0x34, 0x56, 0x78]));
}
