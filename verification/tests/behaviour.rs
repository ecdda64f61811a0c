use lib::audio_sync::{apply_audio_sync_params, AudioSyncNumbers, AudioSyncSettings};
use lib::breathing_circle::seed_from_nanos;
use lib::layout::audio_resize_dims;
use lib::palette::cluster_image;
use lib::audio_sync::update_bandpass;
use lib::fractal_motion::{apply_fractal_params, FractalConfig};
use lib::hypnotoad::{apply_hypnotoad_params, HypnotoadNumbers, HypnotoadSettings};
use lib::json_text::{json_value_after_key, number_prefix};
use lib::layout::{dimensions, effective_dimensions, resize_dims};
use lib::mosaic::pick_palette_color;
use lib::audio_bubbles::{preset_colors, BubblePalette};
use lib::custom_gradient_wave::GradientChoice;
use lib::audio_sync::bandpass_range;
use lib::json_fields::number_array_items;
use lib::palette::{palette_is_current, palette_limit};
use lib::double_rotating_rainbow::json_value_slice as rainbow_slice;
use lib::json_text::number_text_after_key;
use lib::breathing_circle::seed_now;
use lib::audio_party::hex_to_rgb as party_hex_to_rgb;
use lib::audio_sine::hex_to_rgb as sine_hex_to_rgb;
use lib::audio_sync::{parse_hex_rgb_or_black, ColorHistory, MAX_HISTORY};
use lib::audio_visualizer::{
    build_hsv_lut, hsv_to_rgb_255, map_linear, map_matrix, output_layout, scale_color_256,
    single_color, unpack_rgb, OutputLayout, TOTAL_PX,
};
use lib::breathing_circle::{json_value_slice, parse_bool_field};
use lib::color_wheel::{add_wrapped, subtract_wrapped, turn_wheel, HUE_TABLE_SIZE};
use lib::crossing_beams::{json_color_array2, screen_blend_channel as beam_screen_channel};
use lib::fractal_motion::parse_hex_color as fractal_hex;
use lib::hex::color_from_digits;
use lib::hypnotoad::json_color_array as hypnotoad_colors;
use lib::moving_panes::{json_bool as pane_bool, json_color_pair, zone_for_x};
use lib::palette::{cluster_grid, rank_by_count, PaletteEntry};
use lib::rgb::{fill_rgb, screen_blend_channel, SkydimoRgb};
use lib::rng::{flower_seed_from_time, seed_from_time, splitmix64, FastRng, XorShift64};

fn rgb(r: u8, g: u8, b: u8) -> SkydimoRgb {
    SkydimoRgb { r, g, b }
}

#[test]
fn fills_buffer_with_doubling_copy() {
    let mut pixels = [SkydimoRgb::default(); 9];
    fill_rgb(&mut pixels, rgb(9, 8, 7));
    assert!(pixels.iter().all(|pixel| *pixel == rgb(9, 8, 7)));
}

#[test]
fn fills_whole_buffer_by_copy_doubling() {
    let color = SkydimoRgb { r: 7, g: 8, b: 9 };
    let mut pixels = [SkydimoRgb::default(); 31];
    fill_rgb(&mut pixels, color);
    assert!(pixels.iter().all(|pixel| *pixel == color));
}

#[test]
fn fills_whole_buffer() {
    let color = SkydimoRgb { r: 3, g: 7, b: 11 };
    let mut buffer = [SkydimoRgb::default(); 19];
    fill_rgb(&mut buffer, color);
    assert!(buffer.iter().all(|pixel| *pixel == color));
}

#[test]
fn short_hex_reads_as_doubled_digits() {
    assert_eq!(color_from_digits(b"abc"), color_from_digits(b"aabbcc"));
    assert_eq!(color_from_digits(b"a0F"), color_from_digits(b"aa00FF"));
    assert_eq!(color_from_digits(b"abcd"), None);
}

#[test]
fn screen_blends_are_symmetric_and_keep_black_neutral() {
    for (a, b) in [(0u8, 1u8), (128, 128), (255, 12), (40, 200)] {
        assert_eq!(screen_blend_channel(a, b), screen_blend_channel(b, a));
        assert_eq!(beam_screen_channel(a, b), beam_screen_channel(b, a));
        assert!(screen_blend_channel(a, b) >= a.max(b));
        assert!(beam_screen_channel(a, b) >= a.max(b));
    }
    assert_eq!(screen_blend_channel(77, 0), 77);
    assert_eq!(beam_screen_channel(77, 0), 77);
    assert_eq!(beam_screen_channel(255, 255), 255);
}

#[test]
fn generators_step_as_xorshift() {
    let mut wide = XorShift64::new(1);
    assert_eq!(wide.next_u64(), 1082269761);
    let mut narrow = FastRng::new(0);
    assert_eq!(narrow.next_u32(), 270369);
    assert_eq!(splitmix64(0), 0xE220_A839_7B1D_CDAF);
    let mut zero_seeded = XorShift64::new(0);
    assert_ne!(zero_seeded.next_u64(), 0);
}

#[test]
fn clock_seeds_come_from_the_clock() {
    assert_ne!(seed_from_time(7), 7);
    assert!(flower_seed_from_time() >= 1);
}

#[test]
fn history_reads_newest_first() {
    let mut history = ColorHistory::new();
    assert_eq!(history.color_at(0), SkydimoRgb::default());
    history.push(rgb(1, 0, 0));
    history.push(rgb(2, 0, 0));
    history.push(rgb(3, 0, 0));
    assert_eq!(history.len(), 3);
    assert_eq!(history.color_at(0), rgb(3, 0, 0));
    assert_eq!(history.color_at(1), rgb(2, 0, 0));
    assert_eq!(history.color_at(2), rgb(1, 0, 0));
    assert_eq!(history.color_at(50), rgb(1, 0, 0));
}

#[test]
fn full_history_drops_its_oldest_colour() {
    let mut history = ColorHistory::new();
    for i in 0..(MAX_HISTORY + 5) {
        history.push(rgb((i % 256) as u8, (i / 256) as u8, 0));
    }
    assert_eq!(history.len(), MAX_HISTORY);
    let newest = MAX_HISTORY + 4;
    assert_eq!(history.color_at(0), rgb((newest % 256) as u8, (newest / 256) as u8, 0));
    let oldest = 5;
    assert_eq!(history.color_at(MAX_HISTORY - 1), rgb(oldest as u8, 0, 0));
}

#[test]
fn grid_clustering_counts_similar_samples() {
    let pixels = vec![rgb(200, 10, 10); 16];
    let pal = cluster_grid(&pixels, 4, 4, 8);
    assert_eq!(pal, vec![PaletteEntry { color: rgb(200, 10, 10), count: 16 }]);

    let dark = vec![rgb(10, 10, 10); 16];
    assert!(cluster_grid(&dark, 4, 4, 8).is_empty());

    let mut split = vec![rgb(0, 0, 250); 16];
    for p in split.iter_mut().take(8) {
        *p = rgb(250, 0, 0);
    }
    let pal = cluster_grid(&split, 4, 4, 8);
    assert_eq!(pal.len(), 2);
    assert_eq!(pal[0].color, rgb(250, 0, 0));
    assert_eq!(pal[0].count + pal[1].count, 16);
    assert_eq!(cluster_grid(&split, 4, 4, 1).len(), 1);
}

#[test]
fn ranking_is_stable_and_largest_first() {
    let a = PaletteEntry { color: rgb(1, 0, 0), count: 2 };
    let b = PaletteEntry { color: rgb(2, 0, 0), count: 5 };
    let c = PaletteEntry { color: rgb(3, 0, 0), count: 2 };
    let d = PaletteEntry { color: rgb(4, 0, 0), count: 7 };
    assert_eq!(rank_by_count(&vec![a, b, c, d]), vec![d, b, a, c]);
    assert!(rank_by_count(&vec![]).is_empty());
}

#[test]
fn wheel_turns_wrap_around_the_table() {
    assert_eq!(add_wrapped(1500, 100), 64);
    assert_eq!(subtract_wrapped(64, 100), 1500);
    assert_eq!(subtract_wrapped(add_wrapped(7, HUE_TABLE_SIZE), HUE_TABLE_SIZE), 7);
    let table: Vec<SkydimoRgb> = (0..HUE_TABLE_SIZE).map(|i| rgb((i % 256) as u8, (i / 256) as u8, 0)).collect();
    let mut pixels = [SkydimoRgb::default(); 3];
    turn_wheel(&mut pixels, &[0, 10], &table, 20, true);
    assert_eq!(pixels[0], table[HUE_TABLE_SIZE - 20]);
    assert_eq!(pixels[1], table[HUE_TABLE_SIZE - 10]);
    assert_eq!(pixels[2], SkydimoRgb::default());
}

#[test]
fn visualizer_colour_arithmetic() {
    assert_eq!(single_color(3).map(unpack_rgb), Some(rgb(255, 165, 0)));
    assert_eq!(single_color(10), None);
    assert_eq!(unpack_rgb(0x12345678), rgb(0x34, 0x56, 0x78));
    assert_eq!(scale_color_256(rgb(255, 128, 2), 128), rgb(127, 64, 1));
    assert_eq!(scale_color_256(rgb(255, 128, 2), 999), rgb(254, 127, 1));
    assert_eq!(scale_color_256(rgb(255, 128, 2), -4), rgb(0, 0, 0));
    assert_eq!(hsv_to_rgb_255(0, 255, 255), rgb(255, 0, 0));
    assert_eq!(hsv_to_rgb_255(120, 255, 255), rgb(0, 255, 0));
    assert_eq!(hsv_to_rgb_255(60, 255, 255), rgb(255, 255, 0));
    assert_eq!(hsv_to_rgb_255(-120, 255, 255), rgb(0, 0, 255));
    assert_eq!(hsv_to_rgb_255(200, 0, 90), rgb(90, 90, 90));
    let lut = build_hsv_lut(255);
    assert_eq!(lut.len(), 360);
    assert_eq!(lut[240], rgb(0, 0, 255));
}

#[test]
fn visualizer_maps_canvas_onto_leds() {
    let canvas: Vec<SkydimoRgb> = (0..TOTAL_PX).map(|i| rgb((i % 256) as u8, (i / 256) as u8, 0)).collect();
    let mut pixels = [rgb(9, 9, 9); 5];
    map_matrix(&canvas, &[3, 5], &[2, 4], 2, 2, &mut pixels);
    assert_eq!(pixels[0], rgb(3, 2, 0));
    assert_eq!(pixels[1], rgb(5, 2, 0));
    assert_eq!(pixels[2], rgb(3, 4, 0));
    assert_eq!(pixels[3], rgb(5, 4, 0));
    assert_eq!(pixels[4], SkydimoRgb::default());

    let mut strip = [rgb(9, 9, 9); 3];
    map_linear(&canvas, &[7, 8], &mut strip);
    assert_eq!(strip, [rgb(7, 0, 0), rgb(8, 0, 0), rgb(0, 0, 0)]);

    assert_eq!(output_layout(4, 3, 12), OutputLayout::Matrix);
    assert_eq!(output_layout(0, 0, 1), OutputLayout::Single);
    assert_eq!(output_layout(10, 1, 10), OutputLayout::Linear);
}

#[test]
fn pane_zones_divide_the_width() {
    assert_eq!(zone_for_x(3, 8, 4), 1);
    assert_eq!(zone_for_x(7, 8, 4), 3);
    assert_eq!(zone_for_x(5, 0, 2), 10);
    assert_eq!(zone_for_x(usize::MAX, 1, 2), usize::MAX);
}

#[test]
fn pane_flags_and_colour_pairs() {
    assert_eq!(pane_bool(br#"{"reverse":"true"}"#, b"reverse"), Some(true));
    assert_eq!(pane_bool(br#"{"reverse":0}"#, b"reverse"), Some(false));
    assert_eq!(pane_bool(br#"{"reverse":"yes"}"#, b"reverse"), None);
    assert_eq!(json_color_pair(br##"{"colors":["#0af"]}"##, b"colors"), Some([Some(rgb(0, 170, 255)), None]));
    assert_eq!(json_color_pair(br##"{"colors":["xyz","qq"]}"##, b"colors"), None);
    assert_eq!(json_color_pair(br##"{"colors":["#0af",3]}"##, b"colors"), None);
    assert_eq!(json_color_pair(br##"{"colors":"#0af"}"##, b"colors"), None);
}

#[test]
fn beam_pairs_need_two_strings() {
    assert_eq!(json_color_array2(br##"{"colors":["#00ff00"]}"##, b"colors"), None);
    assert_eq!(
        json_color_array2(br##"{"colors":["#00ff00","xyz","#0000ff"]}"##, b"colors"),
        Some([rgb(0, 255, 0), rgb(255, 0, 0)])
    );
}

#[test]
fn hypnotoad_palette_edges() {
    assert_eq!(hypnotoad_colors(br#"{"colors":5}"#, b"colors"), Some(vec![SkydimoRgb::default()]));
    assert_eq!(hypnotoad_colors(br#"{"speed":5}"#, b"colors"), None);
    assert_eq!(hypnotoad_colors(br##"{"colors":["#zzz","# 1 2 3"]}"##, b"colors"), Some(vec![rgb(0x11, 0x22, 0x33)]));
    let many: String = format!("{{\"colors\":[{}]}}", vec!["\"#010203\""; 150].join(","));
    assert_eq!(hypnotoad_colors(many.as_bytes(), b"colors").map(|c| c.len()), Some(100));
}

#[test]
fn breathing_circle_values() {
    assert_eq!(json_value_slice(br#"{"a": "  x "}"#, b"a"), Some(&b"x"[..]));
    assert_eq!(json_value_slice(br#"{"a": 12abc,}"#, b"a"), Some(&b"12abc"[..]));
    assert_eq!(json_value_slice(br#"{"a": "open"#, b"a"), None);
    assert_eq!(parse_bool_field(br#"{"random": 1}"#, b"random"), Some(true));
    assert_eq!(parse_bool_field(br#"{"random": "0"}"#, b"random"), Some(false));
    assert_eq!(parse_bool_field(br#"{"random": yes}"#, b"random"), None);
}

#[test]
fn colour_parameters_with_fallbacks() {
    assert_eq!(party_hex_to_rgb(" ##0af "), rgb(0, 170, 255));
    assert_eq!(party_hex_to_rgb("xyz"), rgb(255, 255, 255));
    assert_eq!(sine_hex_to_rgb("#FF8000"), rgb(255, 128, 0));
    assert_eq!(sine_hex_to_rgb("+f+f+f"), rgb(15, 15, 15));
    assert_eq!(sine_hex_to_rgb("abc"), rgb(0, 0, 0));
    assert_eq!(parse_hex_rgb_or_black("  #00ff00 "), rgb(0, 255, 0));
    assert_eq!(parse_hex_rgb_or_black("#0f0"), rgb(0, 0, 0));
    assert_eq!(fractal_hex("#FF000080", SkydimoRgb::default()), Some(rgb(255, 0, 0)));
    assert_eq!(fractal_hex("12345", rgb(1, 2, 3)), Some(rgb(1, 2, 3)));
    assert_eq!(fractal_hex("#zzz", rgb(1, 2, 3)), None);
}

#[test]
fn gradient_choice_follows_selections() {
    let mut choice = GradientChoice::new();
    assert_eq!(choice.preset, 1);
    assert!(!choice.apply(br#"{"speed":3}"#, Some(1), None));
    assert!(choice.apply(br#"{}"#, Some(5), Some(2)));
    assert_eq!((choice.preset, choice.direction), (5, 2));
    assert!(!choice.apply(br#"{}"#, Some(40), Some(9)));
    assert_eq!((choice.preset, choice.direction), (5, 2));
    assert!(choice.apply(br##"{"colors":["#010203","#040506"]}"##, Some(0), None));
    assert_eq!(choice.custom_colors, vec![rgb(1, 2, 3), rgb(4, 5, 6)]);
    assert_eq!(choice.active_palette(), vec![rgb(1, 2, 3), rgb(4, 5, 6)]);
    assert!(choice.apply(br##"{"colors":["#010203"]}"##, None, None));
    assert_eq!(choice.custom_colors.len(), 8);
}

#[test]
fn number_arrays_and_bands() {
    let items = number_array_items(br#"{"bandpassRange":[ 3, 40.5 ,-2e1]}"#, b"bandpassRange").unwrap();
    assert_eq!(items, vec![&b"3"[..], &b"40.5"[..], &b"-2e1"[..]]);
    assert_eq!(number_array_items(br#"{"r":[1, x]}"#, b"r"), None);
    assert_eq!(number_array_items(br#"{"r":7}"#, b"r"), None);
    assert_eq!(number_array_items(br#"{"r":[]}"#, b"r"), Some(vec![]));
    assert_eq!(bandpass_range(300, -5), (0, 255));
    assert_eq!(bandpass_range(10, 20), (10, 20));
}

#[test]
fn palette_limits_and_freshness() {
    assert_eq!(palette_limit(0), 1);
    assert_eq!(palette_limit(8), 8);
    assert_eq!(palette_limit(99), 16);
    assert!(palette_is_current(Some(5), Some(5), 3));
    assert!(!palette_is_current(Some(5), Some(5), 0));
    assert!(!palette_is_current(None, None, 3));
    assert!(!palette_is_current(Some(5), Some(6), 3));
}

#[test]
fn quoted_or_number_value_text() {
    assert_eq!(rainbow_slice(br#"{"speed":"  75 "}"#, b"speed"), Some(&b"75"[..]));
    assert_eq!(rainbow_slice(br#"{"speed": -4.5e1, "x":1}"#, b"speed"), Some(&b"-4.5e1"[..]));
    assert_eq!(rainbow_slice(br#"{"speed":"75}"#, b"speed"), None);
    assert_eq!(rainbow_slice(br#"{"other":1}"#, b"speed"), None);
    assert_eq!(number_text_after_key(br#"{"speed": "12x"}"#, b"speed"), Some(&b"12"[..]));
    assert_eq!(number_text_after_key(br#"{"speed": true}"#, b"speed"), Some(&b""[..]));
}

#[test]
fn breathing_circle_seed_uses_the_clock() {
    let fallback_seed = splitmix64(0x5A17_2026_0508 ^ 0x9E37_79B9_7F4A_7C15);
    assert_ne!(seed_now(), fallback_seed);
}

#[test]
fn bubble_presets_and_palette_parameters() {
    let first = ["#FF0000", "#FF00E6", "#0000FF", "#00B3FF", "#00FF51", "#EAFF00", "#FFB300", "#FF0000"];
    let expected: Vec<SkydimoRgb> = first.iter().map(|hex| party_hex_to_rgb(hex)).collect();
    assert_eq!(preset_colors(0), expected);
    assert_eq!(preset_colors(99), expected);
    let last = ["#FF71CE", "#B967FF", "#01CDFE", "#05FFA1", "#FFFB96", "#FF71CE"];
    let expected_last: Vec<SkydimoRgb> = last.iter().map(|hex| party_hex_to_rgb(hex)).collect();
    assert_eq!(preset_colors(11), expected_last);

    let mut palette = BubblePalette::new();
    palette.apply(br#"{"preset":3}"#, Some(3));
    assert_eq!(palette.preset, 3);
    assert_eq!(palette.colors, preset_colors(3));
    palette.apply(br#"{"preset":-8}"#, Some(-8));
    assert_eq!(palette.preset, 0);
    palette.apply(br##"{"colors":["#0af","nope","  "]}"##, None);
    assert_eq!(palette.colors, vec![rgb(0, 170, 255), rgb(255, 255, 255)]);
    palette.apply(br##"{"colors":["#0af",5]}"##, None);
    assert_eq!(palette.colors, vec![rgb(0, 170, 255), rgb(255, 255, 255)]);
    palette.apply(br##"{"colors":["\u00e9"]}"##, None);
    assert_eq!(palette.colors, vec![rgb(255, 255, 255)]);
}

#[test]
fn tile_colours_come_from_the_palette() {
    let palette = [rgb(1, 0, 0), rgb(2, 0, 0), rgb(3, 0, 0), rgb(4, 0, 0)];
    let mut rng = XorShift64::new(1);
    assert_eq!(pick_palette_color(&mut rng, &palette), rgb(2, 0, 0));
    let mut fresh = XorShift64::new(1);
    assert_eq!(pick_palette_color(&mut fresh, &[]), rgb(255, 0, 0));
    assert_eq!(pick_palette_color(&mut fresh, &[rgb(7, 7, 7)]), rgb(7, 7, 7));
    assert_eq!(fresh.next_u64(), 1082269761);
}

#[test]
fn frame_dimensions_fall_back_to_a_single_row() {
    assert_eq!(dimensions(0, 4, 9), (9, 1));
    assert_eq!(dimensions(3, 0, 0), (1, 1));
    assert_eq!(dimensions(3, 4, 9), (3, 4));
    assert_eq!(effective_dimensions(3, 2, 6), (3, 2));
    assert_eq!(effective_dimensions(3, 2, 7), (7, 1));
    assert_eq!(effective_dimensions(0, 0, 0), (1, 1));
    assert_eq!(resize_dims(0, 0, 0), (1, 1));
    assert_eq!(resize_dims(0, 3, 12), (12, 3));
    assert_eq!(resize_dims(5, 2, 12), (5, 2));
}

fn fractal_number(json: &[u8], key: &[u8]) -> Option<u32> {
    let text = number_prefix(json_value_after_key(json, key)?);
    let value = std::str::from_utf8(text).ok()?.trim().parse::<f32>().ok()?;
    Some((value + 0.5).floor().clamp(0.0, u32::MAX as f32) as u32)
}

fn fractal_update(cfg: &mut FractalConfig, json: &str) {
    let keys = [
        "thickness", "speed", "amplitude", "frequency", "freq_m1", "freq_m2", "freq_m3",
        "freq_m4", "freq_m5", "freq_m6", "freq_m7", "freq_m8", "freq_m9", "freq_m10",
        "freq_m11", "freq_m12",
    ];
    let mut numbers = [None; 16];
    for (slot, key) in numbers.iter_mut().zip(keys) {
        *slot = fractal_number(json.as_bytes(), key.as_bytes());
    }
    apply_fractal_params(cfg, json.as_bytes(), numbers);
}

#[test]
fn parses_params_without_json_dependency() {
    let mut config = FractalConfig::new();
    fractal_update(
        &mut config,
        r##"{"speed":75,"thickness":4,"random":true,"background":"#112233","color":"#0af"}"##,
    );

    assert_eq!(config.numbers[1], 75);
    assert_eq!(config.numbers[0], 4);
    assert!(config.random);
    assert_eq!(config.background, SkydimoRgb { r: 17, g: 34, b: 51 });
    assert_eq!(config.color, SkydimoRgb { r: 0, g: 170, b: 255 });
    let text = number_prefix(json_value_after_key(r#"{"freq_m12":9}"#.as_bytes(), b"freq_m12").unwrap());
    assert_eq!(std::str::from_utf8(text).unwrap().parse::<f32>().ok(), Some(9.0));
}

#[test]
fn fractal_settings_are_clamped_and_kept() {
    let mut config = FractalConfig::new();
    fractal_update(&mut config, r##"{"thickness":99,"speed":1,"freq_m4":5000,"freq_m12":0.4,"color":"12345"}"##);
    assert_eq!(config.numbers[0], 20);
    assert_eq!(config.numbers[1], 20);
    assert_eq!(config.numbers[7], 1000);
    assert_eq!(config.numbers[15], 1);
    assert_eq!(config.numbers[2], 100);
    assert_eq!(config.color, rgb(255, 0, 0));
    fractal_update(&mut config, r##"{"background":"#zzzzzz","random":"yes"}"##);
    assert_eq!(config.background, rgb(0, 0, 0));
    assert!(!config.random);
    fractal_update(&mut config, r##"{"background":"#10203080"}"##);
    assert_eq!(config.background, rgb(0x10, 0x20, 0x30));
}

fn no_numbers() -> HypnotoadNumbers {
    HypnotoadNumbers {
        color_mode: None,
        animation_speed: None,
        animation_direction: None,
        color_rotation_speed: None,
        color_rotation_direction: None,
        spacing: None,
        thickness: None,
        cx: None,
        cy: None,
    }
}

#[test]
fn hypnotoad_settings_follow_the_rules() {
    let mut settings = HypnotoadSettings::new();
    let mut numbers = no_numbers();
    numbers.color_mode = Some(1);
    numbers.animation_speed = Some(5);
    numbers.animation_direction = Some(7);
    numbers.spacing = Some(40);
    numbers.cx = Some(50);
    assert_eq!(apply_hypnotoad_params(&mut settings, br#"{}"#, numbers), (false, false));
    assert_eq!(settings.color_mode, 1);
    assert_eq!(settings.animation_speed, 10);
    assert_eq!(settings.animation_direction, 0);
    assert_eq!(settings.spacing, 10);
    let mut numbers = no_numbers();
    numbers.cy = Some(-3);
    numbers.color_mode = Some(1i64 << 32);
    assert_eq!(apply_hypnotoad_params(&mut settings, br#"{"colors":[]}"#, numbers), (true, true));
    assert_eq!(settings.cy_shift, 0);
    assert_eq!(settings.color_mode, 0);
    assert_eq!(settings.custom_colors, vec![SkydimoRgb::default()]);
    assert_eq!(apply_hypnotoad_params(&mut settings, br##"{"colors":["#0af"]}"##, no_numbers()), (true, false));
    assert_eq!(settings.custom_colors, vec![rgb(0, 170, 255)]);
}

#[test]
fn band_updates_keep_order() {
    assert_eq!(update_bandpass((3, 40), Some((Some(200), Some(10))), None, None), (10, 200));
    assert_eq!(update_bandpass((3, 40), Some((Some(500), None)), Some(1), None), (40, 255));
    assert_eq!(update_bandpass((3, 40), None, None, Some(2)), (2, 3));
    assert_eq!(update_bandpass((3, 40), None, None, None), (3, 40));
}

#[test]
fn hex_text_reads_back_and_hsv_extremes() {
    for (r, g, b) in [(0u8, 0u8, 0u8), (255, 16, 171), (1, 254, 128)] {
        assert_eq!(party_hex_to_rgb(&format!("#{:02x}{:02x}{:02x}", r, g, b)), rgb(r, g, b));
        assert_eq!(party_hex_to_rgb(&format!("{:02X}{:02X}{:02X}", r, g, b)), rgb(r, g, b));
    }
    for (h, s, v) in [(30, 200, 180), (200, 255, 77), (330, 9, 255)] {
        let c = hsv_to_rgb_255(h, s, v);
        assert_eq!(c.r.max(c.g).max(c.b) as i32, v);
        assert_eq!(c.r.min(c.g).min(c.b) as i32, v * (255 - s) / 255);
    }
    assert_eq!(hsv_to_rgb_255(240, 255, 255), rgb(0, 0, 255));
}

#[test]
fn clustered_palettes_are_bright_and_spaced() {
    let mut pixels = vec![rgb(200, 0, 0); 16];
    pixels[1] = rgb(210, 5, 5);
    pixels[2] = rgb(0, 0, 200);
    pixels[3] = rgb(5, 5, 5);
    let pal = rank_by_count(&cluster_grid(&pixels, 4, 4, 16));
    for (i, a) in pal.iter().enumerate() {
        assert!(a.color.r.max(a.color.g).max(a.color.b) >= 24);
        for b in pal.iter().skip(i + 1) {
            let d = |x: u8, y: u8| (x as i32 - y as i32).pow(2);
            assert!(d(a.color.r, b.color.r) + d(a.color.g, b.color.g) + d(a.color.b, b.color.b) >= 900);
        }
    }
    assert_eq!(pal[0].color, rgb(200, 0, 0));
    assert_eq!(pal[0].count, 14);
}

#[test]
fn seeds_mix_the_reading_before_scrambling() {
    assert_eq!(seed_from_nanos(0), splitmix64(0x9E37_79B9_7F4A_7C15));
    assert_eq!(seed_from_nanos(0x9E37_79B9_7F4A_7C15), splitmix64(0));
    assert_ne!(seed_from_nanos(5), splitmix64(5));
}

#[test]
fn audio_sync_settings_follow_the_text() {
    let mut s = AudioSyncSettings::new();
    let n = AudioSyncNumbers {
        saturation_mode: Some(7),
        roll_mode: Some(-2),
        avg_size: Some(0),
        band_range: Some((Some(200), Some(10))),
        band_min: None,
        band_max: None,
    };
    let stale = apply_audio_sync_params(
        &mut s,
        br##"{"useAlbumArt":true,"silentColor":1,"silentColorValue":" #00ff00 ","edgeBeat":"false"}"##,
        n,
    );
    assert!(stale);
    assert_eq!((s.saturation_mode, s.roll_mode, s.avg_size), (2, 0, 1));
    assert!(s.use_album_art && s.silent_color && !s.edge_beat);
    assert_eq!(s.silent_color_value, rgb(0, 255, 0));
    assert_eq!((s.bandpass_min, s.bandpass_max), (10, 200));
    let none = AudioSyncNumbers { saturation_mode: None, roll_mode: None, avg_size: Some(999), band_range: None, band_min: None, band_max: None };
    assert!(!apply_audio_sync_params(&mut s, br##"{"useAlbumArt":true,"silentColorValue":"#0f0"}"##, none));
    assert_eq!(s.avg_size, 256);
    assert_eq!(s.silent_color_value, rgb(0, 0, 0));
    assert_eq!((s.bandpass_min, s.bandpass_max), (10, 200));
}

#[test]
fn empty_images_give_no_clusters() {
    assert!(cluster_image(&[], 4, 4, 8).is_empty());
    assert!(cluster_image(&[rgb(200, 0, 0); 4], 0, 2, 8).is_empty());
    assert_eq!(cluster_image(&[rgb(200, 0, 0); 16], 4, 4, 8).len(), 1);
    assert_eq!(audio_resize_dims(0, 5, 0), (1, 1));
    assert_eq!(audio_resize_dims(4, 0, 9), (9, 1));
    assert_eq!(audio_resize_dims(4, 3, 9), (4, 3));
}
