//! Configuration of the analogue clock effect.
use vstd::prelude::*;

use crate::hex::{parse_trimmed_hex, parse_trimmed_hex_spec};
use crate::json_bytes::{json_string, json_string_spec};
use crate::layout::{resize_dims, resized_dims};
use crate::rgb::{rgb, SkydimoRgb};

verus! {

#[derive(Clone, Copy, Debug, PartialEq, Eq, Structural)]
pub enum ClockMode {
    TwelveHour,
    TwentyFourHour,
}

impl ClockMode {
    /// Hours on the dial.
    pub fn hour_divisor(self) -> (d: u32)
        ensures
            d == (match self {
                ClockMode::TwelveHour => 12u32,
                ClockMode::TwentyFourHour => 24u32,
            }),
    {
        match self {
            ClockMode::TwelveHour => 12,
            ClockMode::TwentyFourHour => 24,
        }
    }
}

#[derive(Clone, Copy, Debug, PartialEq, Eq, Structural)]
pub struct ClockConfig {
    pub mode: ClockMode,
    pub hour_color: SkydimoRgb,
    pub minute_color: SkydimoRgb,
    pub second_color: SkydimoRgb,
}

pub open spec fn default_clock_config() -> ClockConfig {
    ClockConfig {
        mode: ClockMode::TwelveHour,
        hour_color: rgb(255, 0, 0),
        minute_color: rgb(0, 255, 0),
        second_color: rgb(0, 0, 255),
    }
}

/// The colour a parameter text sets for `key`, if it sets one.
pub open spec fn color_param(s: Seq<u8>, key: Seq<u8>) -> Option<SkydimoRgb> {
    match json_string_spec(s, key) {
        Some(v) => parse_trimmed_hex_spec(v),
        None => None,
    }
}

pub open spec fn or_keep(next: Option<SkydimoRgb>, current: SkydimoRgb) -> SkydimoRgb {
    match next {
        Some(c) => c,
        None => current,
    }
}

pub struct ClockEffect {
    pub config: ClockConfig,
    pub width: usize,
    pub height: usize,
}

fn color_field(bytes: &[u8], key: &[u8]) -> (r: Option<SkydimoRgb>)
    ensures
        r == color_param(bytes@, key@),
{
    match json_string(bytes, key) {
        Some(v) => parse_trimmed_hex(v),
        None => None,
    }
}

impl ClockEffect {
    pub fn new() -> (e: Self)
        ensures
            e.config == default_clock_config(),
            e.width == 0,
            e.height == 1,
    {
        ClockEffect {
            config: ClockConfig {
                mode: ClockMode::TwelveHour,
                hour_color: SkydimoRgb { r: 255, g: 0, b: 0 },
                minute_color: SkydimoRgb { r: 0, g: 255, b: 0 },
                second_color: SkydimoRgb { r: 0, g: 0, b: 255 },
            },
            width: 0,
            height: 1,
        }
    }

    pub fn resize(&mut self, width: u32, height: u32, led_count: u32)
        ensures
            (final(self).width, final(self).height) == resized_dims(width, height, led_count),
            final(self).config == old(self).config,
    {
        let (w, h) = resize_dims(width, height, led_count);
        self.width = w;
        self.height = h;
    }

    /// Applies a parameter text. `mode_select` is the `clockMode` number of the
    /// text rounded half up (`None` when absent or not a number): 0 selects the
    /// 12-hour dial, 1 the 24-hour dial, anything else keeps the mode. The three
    /// hand colours are read from `hourColor`, `minuteColor` and `secondColor`.
    pub fn update_params(&mut self, bytes: &[u8], mode_select: Option<i32>)
        ensures
            final(self).config.mode == (match mode_select {
                Some(0i32) => ClockMode::TwelveHour,
                Some(1i32) => ClockMode::TwentyFourHour,
                _ => old(self).config.mode,
            }),
            final(self).config.hour_color == or_keep(
                color_param(bytes@, seq![104u8, 111u8, 117u8, 114u8, 67u8, 111u8, 108u8, 111u8, 114u8]),
                old(self).config.hour_color,
            ),
            final(self).config.minute_color == or_keep(
                color_param(
                    bytes@,
                    seq![109u8, 105u8, 110u8, 117u8, 116u8, 101u8, 67u8, 111u8, 108u8, 111u8, 114u8],
                ),
                old(self).config.minute_color,
            ),
            final(self).config.second_color == or_keep(
                color_param(
                    bytes@,
                    seq![115u8, 101u8, 99u8, 111u8, 110u8, 100u8, 67u8, 111u8, 108u8, 111u8, 114u8],
                ),
                old(self).config.second_color,
            ),
            final(self).width == old(self).width,
            final(self).height == old(self).height,
    {
        match mode_select {
            Some(0) => self.config.mode = ClockMode::TwelveHour,
            Some(1) => self.config.mode = ClockMode::TwentyFourHour,
            _ => {},
        }
        let hour_key: [u8; 9] = [104, 111, 117, 114, 67, 111, 108, 111, 114];
        let minute_key: [u8; 11] = [109, 105, 110, 117, 116, 101, 67, 111, 108, 111, 114];
        let second_key: [u8; 11] = [115, 101, 99, 111, 110, 100, 67, 111, 108, 111, 114];
        assert(hour_key@ == seq![104u8, 111u8, 117u8, 114u8, 67u8, 111u8, 108u8, 111u8, 114u8]);
        assert(minute_key@ == seq![109u8, 105u8, 110u8, 117u8, 116u8, 101u8, 67u8, 111u8, 108u8, 111u8, 114u8]);
        assert(second_key@ == seq![115u8, 101u8, 99u8, 111u8, 110u8, 100u8, 67u8, 111u8, 108u8, 111u8, 114u8]);
        if let Some(c) = color_field(bytes, hour_key.as_slice()) {
            self.config.hour_color = c;
        }
        if let Some(c) = color_field(bytes, minute_key.as_slice()) {
            self.config.minute_color = c;
        }
        if let Some(c) = color_field(bytes, second_key.as_slice()) {
            self.config.second_color = c;
        }
    }
}

} // verus!
