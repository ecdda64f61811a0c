use lib::breathing::collect_palette;
use lib::breathing_circle::{json_value_slice, parse_bool_field, parse_color_field};
use lib::clock::{ClockEffect, ClockMode};
use lib::crossing_beams::json_color_array2;
use lib::custom_marquee::json_palette;
use lib::hex::parse_trimmed_hex;
use lib::json_bytes::{json_bool as byte_json_bool, json_number_text, json_quoted_number_text, json_string as byte_json_string};
use lib::json_text::{json_bool, json_color, json_string, number_text_after_key};
use lib::moving_panes::json_color_pair;
use lib::rgb::SkydimoRgb;

fn parse_f32(text: Option<&[u8]>) -> Option<f32> {
    std::str::from_utf8(text?).ok()?.trim().parse::<f32>().ok()
}

fn parse_f64(text: Option<&[u8]>) -> Option<f64> {
    std::str::from_utf8(text?).ok()?.trim().parse::<f64>().ok()
}

fn round_select_value(value: f64) -> Option<i32> {
    if !value.is_finite() {
        return None;
    }
    let rounded = (value + 0.5).floor();
    if rounded < i32::MIN as f64 || rounded > i32::MAX as f64 {
        None
    } else {
        Some(rounded as i32)
    }
}

fn clock_update(effect: &mut ClockEffect, bytes: &[u8]) {
    let mode = parse_f64(json_number_text(bytes, b"clockMode")).and_then(round_select_value);
    effect.update_params(bytes, mode);
}

#[test]
fn parses_clock_params_without_json_allocations() {
    let mut effect = ClockEffect::new();
    clock_update(
        &mut effect,
        br##"{
            "clockMode": 1,
            "hourColor": "#0af",
            "minuteColor": "#123456",
            "secondColor": "#FEDCBA"
        }"##,
    );

    assert_eq!(effect.config.mode, ClockMode::TwentyFourHour);
    assert_eq!(effect.config.hour_color, SkydimoRgb { r: 0, g: 170, b: 255 });
    assert_eq!(
        effect.config.minute_color,
        SkydimoRgb {
            r: 0x12,
            g: 0x34,
            b: 0x56,
        }
    );
    assert_eq!(
        effect.config.second_color,
        SkydimoRgb {
            r: 0xfe,
            g: 0xdc,
            b: 0xba,
        }
    );
}

#[test]
fn collects_palette_and_skips_invalid_entries() {
    let mut palette = Vec::new();
    assert!(collect_palette(
        r##"{"colors":["#ff0000",42,"bad-color","#00AAFF"]}"##.as_bytes(),
        b"colors",
        &mut palette,
    ));
    assert_eq!(palette.len(), 2);
}

#[test]
fn parses_params_without_json_allocation() {
    let json = r##"{
        "speed": 75,
        "thickness": 6,
        "random": true,
        "color": "#12aBf0"
    }"##
    .as_bytes();

    assert_eq!(parse_f32(json_value_slice(json, b"speed")), Some(75.0));
    assert_eq!(parse_f32(json_value_slice(json, b"thickness")), Some(6.0));
    assert_eq!(parse_bool_field(json, b"random"), Some(true));
    assert_eq!(
        parse_color_field(json, b"color"),
        Some(SkydimoRgb {
            r: 0x12,
            g: 0xab,
            b: 0xf0
        })
    );
}

#[test]
fn lib_parses_params_without_json_allocation() {
    let json = br##"{"speed":75,"random":true,"color":" #0af "}"##;
    assert_eq!(parse_f32(json_quoted_number_text(json, b"speed", false)), Some(75.0));
    assert_eq!(byte_json_bool(json, b"random"), Some(true));
    assert_eq!(byte_json_string(json, b"color"), Some(&b" #0af "[..]));
    assert_eq!(parse_trimmed_hex(b" #0af "), Some(SkydimoRgb { r: 0, g: 170, b: 255 }));
}

#[test]
fn parses_params_without_allocating_runtime_dependencies() {
    let json = r##"{"speed":75,"comet_size":25,"color_mode":1,"color":"#0af"}"##.as_bytes();
    assert_eq!(parse_f32(number_text_after_key(json, b"speed")), Some(75.0));
    assert_eq!(parse_f32(number_text_after_key(json, b"comet_size")), Some(25.0));
    assert_eq!(json_color(json, b"color"), Some(SkydimoRgb { r: 0, g: 170, b: 255 }));
}

#[test]
fn parses_crossing_beams_params() {
    let json =
        r##"{"speed":72,"h_speed":3,"random_colors":false,"colors":["#FF0000","#00AAFF"]}"##
            .as_bytes();
    assert_eq!(parse_f32(number_text_after_key(json, b"speed")), Some(72.0));
    assert_eq!(parse_f32(number_text_after_key(json, b"h_speed")), Some(3.0));
    assert_eq!(json_bool(json, b"random_colors"), Some(false));

    let colors = json_color_array2(json, b"colors").expect("colors should parse");
    assert_eq!((colors[0].r, colors[0].g, colors[0].b), (255, 0, 0));
    assert_eq!((colors[1].r, colors[1].g, colors[1].b), (0, 170, 255));
}

#[test]
fn parses_speed_and_hex_palette() {
    let json = br##"{"speed":37,"colors":["#0af"," 102030 ","bad"]}"##;
    assert_eq!(parse_f64(json_quoted_number_text(json, b"speed", false)), Some(37.0));
    let palette = json_palette(json, b"colors").unwrap();
    assert_eq!(palette.len(), 3);
    assert_eq!(palette[0], SkydimoRgb { r: 0, g: 170, b: 255 });
    assert_eq!(palette[1], SkydimoRgb { r: 16, g: 32, b: 48 });
    assert_eq!(palette[2], SkydimoRgb { r: 187, g: 170, b: 221 });
}

#[test]
fn parses_numbers_and_strings() {
    assert_eq!(parse_f64(number_text_after_key(r#"{"speed":75}"#.as_bytes(), b"speed")), Some(75.0));
    assert_eq!(
        parse_f64(number_text_after_key(r#"{"speed":"25"}"#.as_bytes(), b"speed")),
        Some(25.0)
    );
    assert_eq!(
        parse_f64(number_text_after_key(r#"{"animation_speed":44,"speed":50}"#.as_bytes(), b"speed")),
        Some(50.0)
    );
}

#[test]
fn parses_lightning_params() {
    let json = r##"{"speed":75,"decay":"15","mode":1,"random":true,"color":"#0af"}"##.as_bytes();
    assert_eq!(parse_f32(number_text_after_key(json, b"speed")), Some(75.0));
    assert_eq!(parse_f32(number_text_after_key(json, b"decay")), Some(15.0));
    assert_eq!(json_bool(json, b"random"), Some(true));
    assert_eq!(json_string(json, b"color"), Some("#0af".as_bytes()));
}

#[test]
fn parses_motion_point_params() {
    let json = r##"{"speed":75,"random":true,"color":"#0af","background":"#102030"}"##.as_bytes();

    assert_eq!(parse_f32(number_text_after_key(json, b"speed")), Some(75.0));
    assert_eq!(json_bool(json, b"random"), Some(true));
    assert_eq!(json_color(json, b"color"), Some(SkydimoRgb { r: 0, g: 170, b: 255 }));
    assert_eq!(
        json_color(json, b"background"),
        Some(SkydimoRgb {
            r: 16,
            g: 32,
            b: 48,
        })
    );
}

#[test]
fn lib_parses_params_without_json_dependency() {
    assert_eq!(
        parse_f32(number_text_after_key(r#"{"speed":75,"divisions":"9"}"#.as_bytes(), b"speed")),
        Some(75.0)
    );
    assert_eq!(
        parse_f32(number_text_after_key(r#"{"speed":75,"divisions":"9"}"#.as_bytes(), b"divisions")),
        Some(9.0)
    );

    let colors = json_color_pair(r##"{"colors":["#0af","#102030"]}"##.as_bytes(), b"colors").unwrap();
    assert_eq!(colors[0], Some(SkydimoRgb { r: 0, g: 170, b: 255 }));
    assert_eq!(colors[1], Some(SkydimoRgb { r: 16, g: 32, b: 48 }));
}
