use qrgen::options::{effective_width, Ec, Mode, Options};
use qrgen::pipeline::handle_request;
use qrgen::render::{render_symbol, RenderedOutput};
use qrgen::response::Body;
use qrgen::symbol::{build_symbol, SymbolError};

#[test]
fn width_above_ceiling_is_clamped() {
    assert_eq!(effective_width(Some(2000)), 1024);
    assert_eq!(effective_width(Some(1025)), 1024);
    assert_eq!(effective_width(Some(1024)), 1024);
    assert_eq!(effective_width(Some(10)), 10);
    assert_eq!(effective_width(None), 256);
    assert_eq!(effective_width(Some(0)), 1);
    // clamping twice equals clamping once
    assert_eq!(effective_width(Some(effective_width(Some(2000)))), 1024);
}

#[test]
fn hello_with_empty_query_gives_png_response() {
    let r = handle_request(b"HELLO", b"");
    assert!(r.error.is_none());
    assert_eq!(
        r.response.headers,
        "Content-type: image/png\nContent-disposition: attachment; filename=qr.png\n\n"
    );
    match r.response.body {
        Body::Bytes(bytes) => {
            assert!(!bytes.is_empty());
            let img = image::load_from_memory(&bytes).unwrap();
            assert!(img.width() >= 256);
            assert!(img.height() >= 256);
            assert_eq!(img.width(), img.height());
        }
        Body::Text(_) => panic!("expected a binary body"),
    }
}

#[test]
fn hello_svg_with_red_foreground_embeds_token() {
    let r = handle_request(b"HELLO", b"format=Svg&fg=FF0000FF");
    assert!(r.error.is_none());
    assert_eq!(
        r.response.headers,
        "Content-type: image/svg+xml\nContent-disposition: attachment; filename=qr.svg\n\n"
    );
    match r.response.body {
        Body::Text(document) => {
            assert!(document.contains("#FF0000FF"));
            assert!(!document.contains("image/png"));
            assert!(!document.contains("image/avif"));
        }
        Body::Bytes(_) => panic!("expected a textual body"),
    }
}

#[test]
fn oversized_payload_for_small_symbol_is_a_capacity_failure() {
    let payload = [b'A'; 200];
    let r = handle_request(&payload, b"mode=Standard&version=1&ec=H");
    let msg = r.error.expect("the pipeline must fail");
    assert_eq!(msg, "data too long");
    assert_eq!(r.response.headers, "Content-type: text/plain\n\n");
    match r.response.body {
        Body::Text(t) => assert_eq!(t, "data too long\n"),
        Body::Bytes(_) => panic!("expected a textual body"),
    }
}

#[test]
fn malformed_color_never_reaches_the_builder() {
    let r = handle_request(b"HELLO", b"fg=FF0000F");
    let msg = r.error.expect("the pipeline must fail");
    assert_eq!(msg, "invalid fg color");
    assert_eq!(r.response.headers, "Content-type: text/plain\n\n");
    match r.response.body {
        Body::Text(t) => assert_eq!(t, "invalid fg color\n"),
        Body::Bytes(_) => panic!("expected a textual body"),
    }
}

#[test]
fn avif_response_carries_avif_container() {
    let r = handle_request(b"HELLO", b"format=Avif&width=64");
    assert!(r.error.is_none());
    assert_eq!(
        r.response.headers,
        "Content-type: image/avif\nContent-disposition: attachment; filename=qr.avif\n\n"
    );
    match r.response.body {
        Body::Bytes(bytes) => {
            assert!(bytes.len() > 12);
            assert_eq!(&bytes[4..8], b"ftyp");
        }
        Body::Text(_) => panic!("expected a binary body"),
    }
}

#[test]
fn auto_version_is_monotonic_in_correction_level() {
    // higher redundancy never selects a smaller symbol for the same payload
    let payload = b"HELLO WORLD, HELLO WORLD, HELLO WORLD";
    let low = build_symbol(payload, Mode::Auto, None, Ec::L).unwrap();
    let high = build_symbol(payload, Mode::Auto, None, Ec::H).unwrap();
    assert!(low.code.width() <= high.code.width());
}

#[test]
fn auto_mode_ignores_the_requested_version() {
    let a = build_symbol(b"HELLO", Mode::Auto, Some(40), Ec::M).unwrap();
    let b = build_symbol(b"HELLO", Mode::Auto, None, Ec::M).unwrap();
    assert_eq!(a.code.width(), b.code.width());
}

#[test]
fn micro_mode_with_default_version_is_out_of_range() {
    // the shared default version lies outside the micro range
    let r = build_symbol(b"1", Mode::Micro, None, Ec::L);
    match r {
        Err(e) => assert_eq!(e, SymbolError::InvalidVersion),
        Ok(_) => panic!("the shared default version must not fit micro mode"),
    }
}

#[test]
fn micro_symbol_builds_for_a_small_version() {
    let s = build_symbol(b"123", Mode::Micro, Some(1), Ec::L).unwrap();
    assert_eq!(s.code.width(), 11);
}

#[test]
fn nonpositive_micro_version_is_invalid() {
    let r = build_symbol(b"1", Mode::Micro, Some(-3), Ec::L);
    match r {
        Err(e) => assert_eq!(e, SymbolError::InvalidVersion),
        Ok(_) => panic!("a nonpositive micro version must be invalid"),
    }
}

#[test]
fn standard_version_out_of_range_is_invalid() {
    let r = build_symbol(b"1", Mode::Standard, Some(99), Ec::L);
    match r {
        Err(e) => assert_eq!(e, SymbolError::InvalidVersion),
        Ok(_) => panic!("a standard version out of range must be invalid"),
    }
}

#[test]
fn raster_render_is_square_and_at_least_the_requested_width() {
    let sym = build_symbol(b"HELLO", Mode::Auto, None, Ec::M).unwrap();
    let o = Options {
        width: Some(300),
        fg: None,
        bg: None,
        ec: Ec::M,
        version: None,
        format: qrgen::options::Format::Png,
        mode: Mode::Auto,
    };
    match render_symbol(&sym, &o) {
        RenderedOutput::Raster { pixels, width, height } => {
            assert_eq!(width, height);
            assert!(width >= 300);
            assert_eq!(pixels.len(), 4 * width as usize * height as usize);
        }
        RenderedOutput::Vector { .. } => panic!("expected a raster"),
    }
}

#[test]
fn svg_render_uses_default_tokens_when_no_colors_given() {
    let sym = build_symbol(b"HELLO", Mode::Auto, None, Ec::M).unwrap();
    let o = Options {
        width: None,
        fg: None,
        bg: None,
        ec: Ec::M,
        version: None,
        format: qrgen::options::Format::Svg,
        mode: Mode::Auto,
    };
    match render_symbol(&sym, &o) {
        RenderedOutput::Vector { document } => {
            assert!(document.contains("#000"));
            assert!(document.contains("#fff"));
        }
        RenderedOutput::Raster { .. } => panic!("expected a vector document"),
    }
}

#[test]
fn raster_pixels_carry_only_the_two_colors() {
    let sym = build_symbol(b"HELLO", Mode::Auto, None, Ec::M).unwrap();
    let o = Options {
        width: Some(64),
        fg: Some([1, 2, 3, 4]),
        bg: Some([5, 6, 7, 8]),
        ec: Ec::M,
        version: None,
        format: qrgen::options::Format::Png,
        mode: Mode::Auto,
    };
    match render_symbol(&sym, &o) {
        RenderedOutput::Raster { pixels, .. } => {
            let mut saw_fg = false;
            let mut saw_bg = false;
            for px in pixels.chunks(4) {
                match px {
                    [1, 2, 3, 4] => saw_fg = true,
                    [5, 6, 7, 8] => saw_bg = true,
                    other => panic!("unexpected pixel {other:?}"),
                }
            }
            assert!(saw_fg && saw_bg);
        }
        RenderedOutput::Vector { .. } => panic!("expected a raster"),
    }
}
