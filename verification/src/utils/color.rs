//! Conversion between 8-bit RGB and fixed-point HSV.
//!
//! An HSV triple is three fixed-point numbers: the hue in degrees, from 0 up
//! to but not including 360, and the saturation and the value, each from 0 to
//! 1. All three count millionths, so a hue of 222.807 degrees is `222_807_000`.

use vstd::prelude::*;
use crate::fixed::{clamp_channel, unit};

verus! {

/// The largest of three channel values.
pub open spec fn max3(r: int, g: int, b: int) -> int {
    if r >= g && r >= b {
        r
    } else if g >= b {
        g
    } else {
        b
    }
}

/// The smallest of three channel values.
pub open spec fn min3(r: int, g: int, b: int) -> int {
    if r <= g && r <= b {
        r
    } else if g <= b {
        g
    } else {
        b
    }
}

/// The hue of a chromatic colour in degrees, multiplied by the spread
/// `max - min` of its channels so that it is a whole number. The channel that
/// attains the maximum picks the 120-degree third of the colour wheel; red is
/// asked first, then green.
pub open spec fn hue_numerator(r: int, g: int, b: int) -> int {
    let max: int = max3(r, g, b);
    let delta: int = max - min3(r, g, b);
    if max == r {
        if g >= b {
            60 * (g - b)
        } else {
            360 * delta + 60 * (g - b)
        }
    } else if max == g {
        120 * delta + 60 * (b - r)
    } else {
        240 * delta + 60 * (r - g)
    }
}

/// The hue in fixed-point degrees, rounded down; 0 for a gray.
pub open spec fn hue_of(r: int, g: int, b: int) -> int {
    let delta: int = max3(r, g, b) - min3(r, g, b);
    if delta == 0 {
        0
    } else {
        hue_numerator(r, g, b) * unit() / delta
    }
}

/// The saturation `(max - min) / max` in fixed point, rounded down; 0 for
/// black.
pub open spec fn saturation_of(r: int, g: int, b: int) -> int {
    let max: int = max3(r, g, b);
    if max == 0 {
        0
    } else {
        (max - min3(r, g, b)) * unit() / max
    }
}

/// The value `max / 255` in fixed point, rounded down.
pub open spec fn value_of(r: int, g: int, b: int) -> int {
    max3(r, g, b) * unit() / 255
}

/// Converts an RGB colour to HSV.
pub fn rgb_to_hsv(r: u8, g: u8, b: u8) -> (hsv: (u32, u32, u32))
    ensures
        hsv.0 as int == hue_of(r as int, g as int, b as int),
        hsv.1 as int == saturation_of(r as int, g as int, b as int),
        hsv.2 as int == value_of(r as int, g as int, b as int),
        hsv.0 < 360 * unit(),
        hsv.1 <= unit(),
        hsv.2 <= unit(),
{
    let max: u8 = if r >= g && r >= b {
        r
    } else if g >= b {
        g
    } else {
        b
    };
    let min: u8 = if r <= g && r <= b {
        r
    } else if g <= b {
        g
    } else {
        b
    };
    let delta: u64 = (max - min) as u64;
    let (red, green, blue): (u64, u64, u64) = (r as u64, g as u64, b as u64);
    let hue: u64 = if delta == 0 {
        0
    } else {
        let numerator: u64 = if max == r {
            if g >= b {
                60 * (green - blue)
            } else {
                360 * delta - 60 * (blue - green)
            }
        } else if max == g {
            120 * delta + 60 * blue - 60 * red
        } else {
            240 * delta + 60 * red - 60 * green
        };
        assert(numerator == hue_numerator(r as int, g as int, b as int));
        assert(numerator < 360 * delta);
        let scaled: u64 = numerator * 1_000_000;
        assert(scaled / delta < 360_000_000) by (nonlinear_arith)
            requires
                scaled == numerator * 1_000_000,
                numerator < 360 * delta,
                delta > 0,
        ;
        scaled / delta
    };
    let saturation: u64 = if max == 0 {
        0
    } else {
        let top: u64 = max as u64;
        assert(delta * 1_000_000 / (top as int) <= 1_000_000) by (nonlinear_arith)
            requires
                delta <= top,
                top > 0,
        ;
        delta * 1_000_000 / top
    };
    let value: u64 = (max as u64) * 1_000_000 / 255;
    (hue as u32, saturation as u32, value as u32)
}

/// Sixty degrees, the width of one sector of the colour wheel, in fixed
/// point.
#[verifier::inline]
pub open spec fn sector_span() -> int {
    60_000_000
}

/// The common denominator of the intermediate colour components below:
/// `sector_span() * unit_squared()`.
#[verifier::inline]
pub open spec fn component_scale() -> int {
    60_000_000_000_000_000_000
}

/// What one unit of a fixed-point value weighs in a component:
/// `component_scale() / unit()`.
#[verifier::inline]
pub open spec fn value_scale() -> int {
    60_000_000_000_000
}

/// The sixth of the colour wheel that a hue falls in: `floor(h / 60)`.
pub open spec fn sector_of(h: int) -> int {
    h / sector_span()
}

/// `1 - |((h / 60) mod 2) - 1|` as a numerator over `sector_span()`: it
/// rises from 0 to 1 across an even sector and falls back across an odd one.
pub open spec fn ramp_of(h: int) -> int {
    let position: int = h % (2 * sector_span());
    if position < sector_span() {
        position
    } else {
        2 * sector_span() - position
    }
}

/// The chroma `c = v * s`, over `component_scale()`.
pub open spec fn chroma_component(s: int, v: int) -> int {
    sector_span() * (v * s)
}

/// The second largest component `x = c * ramp`, over `component_scale()`.
pub open spec fn second_component(h: int, s: int, v: int) -> int {
    (v * s) * ramp_of(h)
}

/// The match value `m = v - c` that is added to every channel, over
/// `component_scale()`.
pub open spec fn match_component(s: int, v: int) -> int {
    value_scale() * v - chroma_component(s, v)
}

/// A component given over `component_scale()`, multiplied by 255, rounded to
/// the nearest integer (halves upwards) and limited to `0..=255`.
pub open spec fn channel_of(component: int) -> int {
    clamp_channel((510 * component + component_scale()) / (2 * component_scale()))
}

/// The colour of an HSV triple. The sector picks which channel gets the
/// chroma, which the second component and which nothing; a hue of 360 degrees
/// or more gives all three nothing. The match value is added to each.
pub open spec fn hsv_to_rgb_of(h: int, s: int, v: int) -> (int, int, int) {
    let c: int = chroma_component(s, v);
    let x: int = second_component(h, s, v);
    let m: int = match_component(s, v);
    let sector: int = sector_of(h);
    let (red, green, blue): (int, int, int) = if sector == 0 {
        (c, x, 0int)
    } else if sector == 1 {
        (x, c, 0int)
    } else if sector == 2 {
        (0int, c, x)
    } else if sector == 3 {
        (0int, x, c)
    } else if sector == 4 {
        (x, 0int, c)
    } else if sector == 5 {
        (c, 0int, x)
    } else {
        (0int, 0int, 0int)
    };
    (channel_of(red + m), channel_of(green + m), channel_of(blue + m))
}

/// Rounds one component to its 8-bit channel.
fn round_channel(component: i128) -> (out: u8)
    requires
        -0x1_0000_0000_0000_0000_0000_0000 <= component <= 0x1_0000_0000_0000_0000_0000_0000,
    ensures
        out as int == channel_of(component as int),
{
    let scale: i128 = 60_000_000_000_000_000_000;
    assert(scale == component_scale());
    let doubled: i128 = 510 * component + scale;
    if doubled < 2 * scale {
        0
    } else {
        let rounded: i128 = doubled / (2 * scale);
        if rounded >= 255 {
            255
        } else {
            rounded as u8
        }
    }
}

/// Converts an HSV colour to RGB.
///
/// Every triple is accepted. Components beyond their range are not brought
/// back into it first: the result is what the formulas give, limited to
/// `0..=255` per channel.
pub fn hsv_to_rgb(h: u32, s: u32, v: u32) -> (rgb: (u8, u8, u8))
    ensures
        (rgb.0 as int, rgb.1 as int, rgb.2 as int) == hsv_to_rgb_of(h as int, s as int, v as int),
{
    let sector: u32 = h / 60_000_000;
    let position: u32 = h % 120_000_000;
    let ramp: u32 = if position < 60_000_000 {
        position
    } else {
        120_000_000 - position
    };
    assert(0 <= v * s <= 0xffff_ffff * 0xffff_ffff) by (nonlinear_arith)
        requires
            0 <= v <= 0xffff_ffff,
            0 <= s <= 0xffff_ffff,
    ;
    let product: u64 = (v as u64) * (s as u64);
    let c: i128 = 60_000_000 * (product as i128);
    assert((product as i128) * (ramp as i128) <= 0x1_0000_0000_0000_0000 * 60_000_000
        && (product as i128) * (ramp as i128) >= 0) by (nonlinear_arith)
        requires
            product <= 0x1_0000_0000_0000_0000,
            ramp <= 60_000_000,
    ;
    let x: i128 = (product as i128) * (ramp as i128);
    let m: i128 = 60_000_000_000_000 * (v as i128) - c;
    let zero: i128 = 0;
    let (red, green, blue): (i128, i128, i128) = if sector == 0 {
        (c, x, zero)
    } else if sector == 1 {
        (x, c, zero)
    } else if sector == 2 {
        (zero, c, x)
    } else if sector == 3 {
        (zero, x, c)
    } else if sector == 4 {
        (x, zero, c)
    } else if sector == 5 {
        (c, zero, x)
    } else {
        (zero, zero, zero)
    };
    (round_channel(red + m), round_channel(green + m), round_channel(blue + m))
}

} // verus!
