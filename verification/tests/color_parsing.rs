use lib::audio_art::art_fingerprint;
use lib::crossing_beams::{hex_to_rgb, screen_blend_channel as beam_screen_channel};
use lib::custom_gradient_wave::json_color_array;
use lib::hex::{parse_compact_hex, parse_trimmed_hex, parse_unicode_trimmed_hex};
use lib::hypnotoad::json_color_array as hypnotoad_color_array;
use lib::mosaic::json_color_palette;
use lib::rgb::{screen_blend_channel, SkydimoRgb};

#[test]
fn album_art_fingerprint_changes_with_color() {
    let red = [SkydimoRgb { r: 255, g: 0, b: 0 }; 16];
    let blue = [SkydimoRgb { r: 0, g: 0, b: 255 }; 16];
    assert_ne!(art_fingerprint(&red), art_fingerprint(&blue));
}

#[test]
fn parses_short_hex_and_internal_whitespace_like_lua() {
    assert_eq!(
        parse_compact_hex(b" #0 a f "),
        Some(SkydimoRgb {
            r: 0,
            g: 170,
            b: 255
        })
    );
    assert_eq!(parse_compact_hex(b"#xyz"), None);
}

#[test]
fn lib_parses_short_hex_and_internal_whitespace_like_lua() {
    assert_eq!(
        parse_compact_hex(b" #0 a f "),
        Some(SkydimoRgb {
            r: 0,
            g: 170,
            b: 255
        })
    );
}

#[test]
fn screen_blend_uses_lua_rounding_behavior() {
    assert_eq!(screen_blend_channel(0, 1), 1);
    assert_eq!(screen_blend_channel(128, 128), 192);
    assert_eq!(screen_blend_channel(255, 12), 255);
}

#[test]
fn parses_short_and_full_hex_colors() {
    assert_eq!(
        parse_trimmed_hex(b"#0aF"),
        Some(SkydimoRgb {
            r: 0,
            g: 170,
            b: 255,
        })
    );
    assert_eq!(
        parse_trimmed_hex(b"  #102030  "),
        Some(SkydimoRgb {
            r: 0x10,
            g: 0x20,
            b: 0x30,
        })
    );
}

#[test]
fn lib_parses_short_and_full_hex_colors() {
    assert_eq!(
        parse_trimmed_hex(b"#abc"),
        Some(SkydimoRgb {
            r: 170,
            g: 187,
            b: 204,
        })
    );
    assert_eq!(parse_trimmed_hex(b"010203"), Some(SkydimoRgb { r: 1, g: 2, b: 3 }));
    assert_eq!(
        parse_unicode_trimmed_hex("#Aa10ff".as_bytes()),
        Some(SkydimoRgb {
            r: 170,
            g: 16,
            b: 255,
        })
    );
    assert_eq!(parse_unicode_trimmed_hex("#xyz".as_bytes()), None);
}

#[test]
fn parses_short_and_long_hex_colors() {
    assert_eq!(
        parse_unicode_trimmed_hex("#f06".as_bytes()),
        Some(SkydimoRgb {
            r: 255,
            g: 0,
            b: 102,
        })
    );
    assert_eq!(
        parse_unicode_trimmed_hex("336699".as_bytes()),
        Some(SkydimoRgb {
            r: 51,
            g: 102,
            b: 153,
        })
    );
    assert_eq!(parse_unicode_trimmed_hex("#xyz".as_bytes()), None);
}

#[test]
fn lib_parses_short_and_long_hex_colors() {
    assert_eq!(
        parse_unicode_trimmed_hex("#0af".as_bytes()),
        Some(SkydimoRgb {
            r: 0,
            g: 170,
            b: 255
        })
    );
    assert_eq!(
        parse_unicode_trimmed_hex("3366CC".as_bytes()),
        Some(SkydimoRgb {
            r: 51,
            g: 102,
            b: 204
        })
    );
}

#[test]
fn color_helpers_match_lua_contract() {
    assert_eq!(beam_screen_channel(128, 128), 191);

    let invalid = hex_to_rgb("#0af".as_bytes());
    assert_eq!((invalid.r, invalid.g, invalid.b), (255, 0, 0));
}

#[test]
fn parses_hex_colors_and_arrays() {
    assert_eq!(
        parse_compact_hex(b"#0af"),
        Some(SkydimoRgb {
            r: 0,
            g: 170,
            b: 255
        })
    );
    assert_eq!(
        json_color_array(br##"{"colors":["#000000"," #ffffff "]}"##, b"colors"),
        Some(vec![
            SkydimoRgb { r: 0, g: 0, b: 0 },
            SkydimoRgb {
                r: 255,
                g: 255,
                b: 255
            }
        ])
    );
}

#[test]
fn parses_color_arrays() {
    let colors =
        hypnotoad_color_array(r##"{"colors":["#0af","#102030"]}"##.as_bytes(), b"colors").unwrap();
    assert_eq!(colors[0], SkydimoRgb { r: 0, g: 170, b: 255 });
    assert_eq!(colors[1], SkydimoRgb { r: 16, g: 32, b: 48 });
}

#[test]
fn parses_compact_hex_like_lua() {
    assert_eq!(
        parse_compact_hex("# f f 0".as_bytes()),
        Some(SkydimoRgb {
            r: 255,
            g: 255,
            b: 0
        })
    );
    assert_eq!(parse_compact_hex("#xyz".as_bytes()), None);
}

#[test]
fn color_palette_ignores_invalid_entries_but_reports_present_array() {
    let mut colors = Vec::new();
    assert!(json_color_palette(
        br##"{"colors":["xyz","#00ff00",12]}"##,
        b"colors",
        &mut colors
    ));
    assert_eq!(colors, vec![SkydimoRgb { r: 0, g: 255, b: 0 }]);
}
