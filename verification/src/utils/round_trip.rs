//! What a colour keeps on the way between RGB and HSV.
//!
//! From RGB to HSV and back nothing is lost: the three components of an HSV
//! triple are rounded down to millionths, and the proofs here bound what
//! that rounding can do to each channel on the way back, which is far less
//! than the half that the final rounding forgives.
//!
//! From HSV to RGB and back the 8-bit channels decide. The value always
//! survives to within half a 255th. The saturation survives to within one
//! part in the largest channel, the hue to within two sectors' width
//! divided by the spread of the channels: a bright and colourful triple
//! keeps all three, a dim or a pale one does not.

use vstd::prelude::*;
use vstd::arithmetic::div_mod::lemma_fundamental_div_mod;
use crate::fixed::{unit, unit_squared};
use crate::utils::color::{
    channel_of, chroma_component, component_scale, hsv_to_rgb_of, hue_numerator, hue_of,
    match_component, max3, min3, ramp_of, saturation_of, second_component, sector_of,
    sector_span, value_of, value_scale,
};

verus! {

/// How far a channel falls short of the chroma at hue `h`, over 60
/// fixed-point degrees: nothing for the channel that carries the chroma, all
/// of it for the channel that carries none, and the rest of the ramp for the
/// third. Channels are numbered red 0, green 1, blue 2.
pub open spec fn fade_of(h: int, index: int) -> int {
    let sector: int = sector_of(h);
    let partial: int = sector_span() - ramp_of(h);
    let lead: int = if index == 0 {
        0
    } else if index == 1 {
        2
    } else {
        4
    };
    if sector < 0 || sector > 5 {
        sector_span()
    } else if sector == lead || sector == (lead + 5) % 6 {
        0
    } else if sector == (lead + 1) % 6 || sector == (lead + 4) % 6 {
        partial
    } else {
        sector_span()
    }
}

/// A component whose channel falls short of the chroma by `fade`:
/// `v - v * s * fade`, over `component_scale()`.
pub open spec fn faded_component(s: int, v: int, fade: int) -> int {
    value_scale() * v - (v * s) * fade
}

/// Each channel of [`hsv_to_rgb_of`] is the value less the faded chroma.
pub proof fn lemma_channels_by_fade(h: int, s: int, v: int)
    ensures
        hsv_to_rgb_of(h, s, v) == (
            channel_of(faded_component(s, v, fade_of(h, 0))),
            channel_of(faded_component(s, v, fade_of(h, 1))),
            channel_of(faded_component(s, v, fade_of(h, 2))),
        ),
{
    let product: int = v * s;
    let ramp: int = ramp_of(h);
    let m: int = match_component(s, v);
    assert(product * (60_000_000 - ramp) == 60_000_000 * product - product * ramp)
        by (nonlinear_arith);
    assert(chroma_component(s, v) + m == faded_component(s, v, 0));
    assert(second_component(h, s, v) + m == faded_component(s, v, sector_span() - ramp));
    assert(0 + m == faded_component(s, v, sector_span()));
}

/// Whether `fade`, seen against a spread `delta` between the largest and the
/// smallest channel, is within one rounding step of the share `gap / delta`
/// by which a channel lies below the largest.
pub open spec fn fade_matches(fade: int, gap: int, delta: int) -> bool {
    &&& 0 <= fade <= sector_span()
    &&& sector_span() * gap - delta < fade * delta < sector_span() * gap + delta
}

/// The product of a rounded value and a rounded saturation, against the
/// exact product `delta / 255`.
proof fn lemma_product_bounds(max: int, delta: int, s: int, v: int)
    requires
        1 <= delta <= max <= 255,
        255 * v <= max * unit() < 255 * v + 255,
        s * max <= delta * unit() < s * max + max,
    ensures
        delta * unit_squared() - 510 * unit() <= 255 * (v * s) <= delta * unit_squared(),
        0 <= v * s,
{
    let top: int = 255 * v;
    let share: int = s * max;
    assert(255 * (v * s) * max == top * share) by (nonlinear_arith)
        requires
            top == 255 * v,
            share == s * max,
    ;
    assert(top * share <= (max * 1_000_000) * (delta * 1_000_000)) by (nonlinear_arith)
        requires
            0 <= top <= max * 1_000_000,
            0 <= share <= delta * 1_000_000,
    ;
    assert((max * 1_000_000) * (delta * 1_000_000) == (delta * 1_000_000_000_000) * max)
        by (nonlinear_arith);
    assert(255 * (v * s) <= delta * 1_000_000_000_000) by (nonlinear_arith)
        requires
            255 * (v * s) * max <= (delta * 1_000_000_000_000) * max,
            max > 0,
    ;
    assert(top * share >= (max * 1_000_000 - 255) * (delta * 1_000_000 - max))
        by (nonlinear_arith)
        requires
            top >= max * 1_000_000 - 255 >= 0,
            share >= delta * 1_000_000 - max >= 0,
    ;
    assert((max * 1_000_000 - 255) * (delta * 1_000_000 - max) >= (delta * 1_000_000_000_000
        - 510_000_000) * max) by (nonlinear_arith)
        requires
            1 <= delta <= max <= 255,
    ;
    assert(255 * (v * s) >= delta * 1_000_000_000_000 - 510_000_000) by (nonlinear_arith)
        requires
            255 * (v * s) * max >= (delta * 1_000_000_000_000 - 510_000_000) * max,
            max > 0,
    ;
    assert(v * s >= 0) by (nonlinear_arith)
        requires
            255 * (v * s) >= 0,
    ;
}

/// The faded chroma `v * s * fade`, against the exact `gap / 255`.
proof fn lemma_faded_bounds(delta: int, gap: int, product: int, fade: int)
    requires
        1 <= delta <= 255,
        0 <= gap <= delta,
        delta * unit_squared() - 510 * unit() <= 255 * product <= delta * unit_squared(),
        fade_matches(fade, gap, delta),
    ensures
        component_scale() * gap - 30_855 * unit_squared() <= 255 * (product * fade)
            <= component_scale() * gap + 255 * unit_squared(),
{
    let scaled: int = 255 * product;
    let weight: int = fade * delta;
    assert(255 * (product * fade) * delta == scaled * weight) by (nonlinear_arith)
        requires
            scaled == 255 * product,
            weight == fade * delta,
    ;
    assert(weight >= 0) by (nonlinear_arith)
        requires
            weight == fade * delta,
            fade >= 0,
            delta >= 0,
    ;
    assert(scaled * weight <= (delta * 1_000_000_000_000) * (60_000_000 * gap + delta))
        by (nonlinear_arith)
        requires
            0 <= scaled <= delta * 1_000_000_000_000,
            0 <= weight <= 60_000_000 * gap + delta,
    ;
    assert((delta * 1_000_000_000_000) * (60_000_000 * gap + delta) <= (
    60_000_000_000_000_000_000 * gap + 255_000_000_000_000) * delta) by (nonlinear_arith)
        requires
            1 <= delta <= 255,
            0 <= gap,
    ;
    assert(255 * (product * fade) <= 60_000_000_000_000_000_000 * gap + 255_000_000_000_000)
        by (nonlinear_arith)
        requires
            255 * (product * fade) * delta <= (60_000_000_000_000_000_000 * gap
                + 255_000_000_000_000) * delta,
            delta > 0,
    ;
    if gap >= 1 {
        assert(scaled * weight >= (delta * 1_000_000_000_000 - 510_000_000) * (60_000_000 * gap
            - delta)) by (nonlinear_arith)
            requires
                scaled >= delta * 1_000_000_000_000 - 510_000_000 >= 0,
                weight >= 60_000_000 * gap - delta >= 0,
        ;
        assert((delta * 1_000_000_000_000 - 510_000_000) * (60_000_000 * gap - delta) >= (
        60_000_000_000_000_000_000 * gap - 30_855_000_000_000_000) * delta) by (nonlinear_arith)
            requires
                1 <= delta <= 255,
                1 <= gap <= delta,
        ;
        assert(255 * (product * fade) >= 60_000_000_000_000_000_000 * gap
            - 30_855_000_000_000_000) by (nonlinear_arith)
            requires
                255 * (product * fade) * delta >= (60_000_000_000_000_000_000 * gap
                    - 30_855_000_000_000_000) * delta,
                delta > 0,
        ;
    } else {
        assert(255 * (product * fade) >= 0) by (nonlinear_arith)
            requires
                255 * (product * fade) * delta >= 0,
                delta > 0,
        ;
    }
}

/// A channel that lies `gap` below the largest comes back as it was, whenever
/// the fade it is given matches that gap.
proof fn lemma_channel_restored(max: int, delta: int, gap: int, s: int, v: int, fade: int)
    requires
        1 <= delta <= max <= 255,
        0 <= gap <= delta,
        255 * v <= max * unit() < 255 * v + 255,
        s * max <= delta * unit() < s * max + max,
        fade_matches(fade, gap, delta),
    ensures
        channel_of(faded_component(s, v, fade)) == max - gap,
{
    lemma_product_bounds(max, delta, s, v);
    lemma_faded_bounds(delta, gap, v * s, fade);
    let faded: int = (v * s) * fade;
    let component: int = faded_component(s, v, fade);
    assert(component == 60_000_000_000_000 * v - faded);
    assert(255 * component == 60_000_000_000_000 * (255 * v) - 255 * faded);
    let wanted: int = max - gap;
    assert(60_000_000_000_000_000_000 * wanted - 15_555_000_000_000_000 <= 255 * component
        <= 60_000_000_000_000_000_000 * wanted + 30_855_000_000_000_000);
    assert(120_000_000_000_000_000_000 * wanted <= 510 * component + 60_000_000_000_000_000_000
        < 120_000_000_000_000_000_000 * (wanted + 1));
}

/// Multiplying by a positive `delta` keeps the order of `h` and a bound, and
/// distributes over their difference.
proof fn lemma_scaled_bound(h: int, bound: int, delta: int)
    requires
        delta > 0,
    ensures
        (h < bound) == (h * delta < bound * delta),
        (bound - h) * delta == bound * delta - h * delta,
        (h - bound) * delta == h * delta - bound * delta,
{
    assert((h < bound) == (h * delta < bound * delta)) by (nonlinear_arith)
        requires
            delta > 0,
    ;
    assert((bound - h) * delta == bound * delta - h * delta) by (nonlinear_arith);
    assert((h - bound) * delta == h * delta - bound * delta) by (nonlinear_arith);
}

/// The hue of a chromatic colour gives each channel the fade that matches
/// how far the channel lies below the largest.
proof fn lemma_fades_match(r: int, g: int, b: int)
    requires
        0 <= r <= 255,
        0 <= g <= 255,
        0 <= b <= 255,
        max3(r, g, b) > min3(r, g, b),
    ensures
        fade_matches(
            fade_of(hue_of(r, g, b), 0),
            max3(r, g, b) - r,
            max3(r, g, b) - min3(r, g, b),
        ),
        fade_matches(
            fade_of(hue_of(r, g, b), 1),
            max3(r, g, b) - g,
            max3(r, g, b) - min3(r, g, b),
        ),
        fade_matches(
            fade_of(hue_of(r, g, b), 2),
            max3(r, g, b) - b,
            max3(r, g, b) - min3(r, g, b),
        ),
{
    let max: int = max3(r, g, b);
    let delta: int = max - min3(r, g, b);
    let turn: int = hue_numerator(r, g, b);
    let h: int = hue_of(r, g, b);
    let swept: int = h * delta;
    lemma_fundamental_div_mod(turn * 1_000_000, delta);
    assert(delta * h == swept) by (nonlinear_arith)
        requires
            swept == h * delta,
    ;
    assert(swept <= turn * 1_000_000 < swept + delta);
    lemma_scaled_bound(h, 0, delta);
    lemma_scaled_bound(h, 60_000_000, delta);
    lemma_scaled_bound(h, 120_000_000, delta);
    lemma_scaled_bound(h, 180_000_000, delta);
    lemma_scaled_bound(h, 240_000_000, delta);
    lemma_scaled_bound(h, 300_000_000, delta);
    lemma_scaled_bound(h, 360_000_000, delta);
    assert(0 <= h < 360_000_000);
    let sector: int = sector_of(h);
    let partial: int = sector_span() - ramp_of(h);
    let full: int = sector_span();
    assert(full * delta == 60_000_000 * delta);
    assert(0 * delta == 0);
    if sector == 0 {
        assert(partial == 60_000_000 - h);
        assert(fade_matches(0, max - r, delta));
        assert(fade_matches(partial, max - g, delta));
        assert(fade_matches(full, max - b, delta));
    } else if sector == 1 {
        assert(partial == h - 60_000_000);
        assert(fade_matches(partial, max - r, delta));
        assert(fade_matches(0, max - g, delta));
        assert(fade_matches(full, max - b, delta));
    } else if sector == 2 {
        assert(partial == 180_000_000 - h);
        assert(fade_matches(full, max - r, delta));
        assert(fade_matches(0, max - g, delta));
        assert(fade_matches(partial, max - b, delta));
    } else if sector == 3 {
        assert(partial == h - 180_000_000);
        assert(fade_matches(full, max - r, delta));
        assert(fade_matches(partial, max - g, delta));
        assert(fade_matches(0, max - b, delta));
    } else if sector == 4 {
        assert(partial == 300_000_000 - h);
        assert(fade_matches(partial, max - r, delta));
        assert(fade_matches(full, max - g, delta));
        assert(fade_matches(0, max - b, delta));
    } else {
        assert(sector == 5);
        assert(partial == h - 300_000_000);
        assert(fade_matches(0, max - r, delta));
        assert(fade_matches(full, max - g, delta));
        assert(fade_matches(partial, max - b, delta));
    }
}

/// A colour converted to HSV and back is the colour it was.
pub proof fn lemma_rgb_survives_hsv(r: u8, g: u8, b: u8)
    ensures
        hsv_to_rgb_of(
            hue_of(r as int, g as int, b as int),
            saturation_of(r as int, g as int, b as int),
            value_of(r as int, g as int, b as int),
        ) == (r as int, g as int, b as int),
{
    let (red, green, blue): (int, int, int) = (r as int, g as int, b as int);
    let max: int = max3(red, green, blue);
    let delta: int = max - min3(red, green, blue);
    let h: int = hue_of(red, green, blue);
    let s: int = saturation_of(red, green, blue);
    let v: int = value_of(red, green, blue);
    lemma_channels_by_fade(h, s, v);
    lemma_fundamental_div_mod(max * 1_000_000, 255);
    if delta == 0 {
        assert(s == 0);
        assert(v * s == 0) by (nonlinear_arith)
            requires
                s == 0,
        ;
        assert forall|fade: int| faded_component(s, v, fade) == value_scale() * v by {
            assert((v * s) * fade == 0) by (nonlinear_arith)
                requires
                    v * s == 0,
            ;
        }
    } else {
        lemma_fundamental_div_mod(delta * 1_000_000, max);
        assert(max * s == s * max) by (nonlinear_arith);
        lemma_fades_match(red, green, blue);
        lemma_channel_restored(max, delta, max - red, s, v, fade_of(h, 0));
        lemma_channel_restored(max, delta, max - green, s, v, fade_of(h, 1));
        lemma_channel_restored(max, delta, max - blue, s, v, fade_of(h, 2));
    }
}

/// Whether an HSV triple is in range: the hue below 360 degrees, the
/// saturation and the value at most one.
pub open spec fn hsv_in_range(h: int, s: int, v: int) -> bool {
    &&& 0 <= h < 360 * unit()
    &&& 0 <= s <= unit()
    &&& 0 <= v <= unit()
}

/// Of the colour of an HSV triple in range, the largest channel is the one
/// that carries the whole chroma and the smallest the one that carries none.
proof fn lemma_extreme_channels(h: int, s: int, v: int)
    requires
        hsv_in_range(h, s, v),
    ensures
        ({
            let rgb: (int, int, int) = hsv_to_rgb_of(h, s, v);
            &&& max3(rgb.0, rgb.1, rgb.2) == channel_of(faded_component(s, v, 0))
            &&& min3(rgb.0, rgb.1, rgb.2) == channel_of(faded_component(s, v, sector_span()))
            &&& rgb.0 == channel_of(faded_component(s, v, fade_of(h, 0)))
            &&& rgb.1 == channel_of(faded_component(s, v, fade_of(h, 1)))
            &&& rgb.2 == channel_of(faded_component(s, v, fade_of(h, 2)))
        }),
        0 <= v * s <= unit_squared(),
{
    lemma_channels_by_fade(h, s, v);
    let product: int = v * s;
    assert(0 <= product <= 1_000_000_000_000) by (nonlinear_arith)
        requires
            product == v * s,
            0 <= v <= 1_000_000,
            0 <= s <= 1_000_000,
    ;
    let top: int = faded_component(s, v, 0);
    let low: int = faded_component(s, v, sector_span());
    assert(product * 0 == 0);
    assert forall|index: int| 0 <= index <= 2 implies low <= faded_component(
        s,
        v,
        #[trigger] fade_of(h, index),
    ) <= top by {
        let fade: int = fade_of(h, index);
        assert(0 <= fade <= sector_span());
        assert(0 <= product * fade <= product * 60_000_000) by (nonlinear_arith)
            requires
                product >= 0,
                0 <= fade <= 60_000_000,
        ;
    }
    let sector: int = sector_of(h);
    assert(0 <= sector <= 5);
    assert(fade_of(h, 0) == 0 || fade_of(h, 1) == 0 || fade_of(h, 2) == 0);
    assert(fade_of(h, 0) == sector_span() || fade_of(h, 1) == sector_span() || fade_of(h, 2)
        == sector_span());
}

/// The value of an HSV triple in range survives the trip to RGB and back to
/// within half a 255th and the one unit that rounding down can cost.
pub proof fn lemma_value_survives_rgb(h: int, s: int, v: int)
    requires
        hsv_in_range(h, s, v),
    ensures
        ({
            let rgb: (int, int, int) = hsv_to_rgb_of(h, s, v);
            let back: int = value_of(rgb.0, rgb.1, rgb.2);
            -(unit() + 510) < 510 * (back - v) <= unit()
        }),
{
    lemma_extreme_channels(h, s, v);
    let rgb: (int, int, int) = hsv_to_rgb_of(h, s, v);
    let largest: int = max3(rgb.0, rgb.1, rgb.2);
    assert((v * s) * 0 == 0);
    assert(faded_component(s, v, 0) == 60_000_000_000_000 * v);
    assert(2_000_000 * largest <= 510 * v + 1_000_000 < 2_000_000 * largest + 2_000_000);
    lemma_fundamental_div_mod(largest * 1_000_000, 255);
}

/// The saturation of an HSV triple in range survives the trip to RGB and
/// back to within one part in the largest channel of the colour it becomes,
/// and the one unit that rounding down can cost: the brighter the colour,
/// the closer. A colour whose largest channel is 101 or more keeps its
/// saturation to within a hundredth.
pub proof fn lemma_saturation_survives_rgb(h: int, s: int, v: int)
    requires
        hsv_in_range(h, s, v),
    ensures
        ({
            let rgb: (int, int, int) = hsv_to_rgb_of(h, s, v);
            let largest: int = max3(rgb.0, rgb.1, rgb.2);
            let back: int = saturation_of(rgb.0, rgb.1, rgb.2);
            -(unit() + largest) < largest * (back - s) <= unit()
        }),
{
    lemma_extreme_channels(h, s, v);
    let rgb: (int, int, int) = hsv_to_rgb_of(h, s, v);
    let largest: int = max3(rgb.0, rgb.1, rgb.2);
    let smallest: int = min3(rgb.0, rgb.1, rgb.2);
    let back: int = saturation_of(rgb.0, rgb.1, rgb.2);
    let product: int = v * s;
    let rest: int = 1_000_000 * v - product;
    assert(0 <= rest <= 1_000_000_000_000) by (nonlinear_arith)
        requires
            rest == 1_000_000 * v - v * s,
            0 <= v <= 1_000_000,
            0 <= s <= 1_000_000,
    ;
    assert(product * 0 == 0);
    assert(faded_component(s, v, 0) == 60_000_000_000_000 * v);
    assert(faded_component(s, v, sector_span()) == 60_000_000 * rest);
    let over: int = 2_000_000 * largest - 510 * v;
    let under: int = 2_000_000_000_000 * smallest - 510 * rest;
    assert(-1_000_000 < over <= 1_000_000);
    assert(-1_000_000_000_000 < under <= 1_000_000_000_000);
    let drift: int = (largest - smallest) * 1_000_000 - s * largest;
    assert(2_000_000 * drift == over * (1_000_000 - s) - under) by (nonlinear_arith)
        requires
            drift == (largest - smallest) * 1_000_000 - s * largest,
            over == 2_000_000 * largest - 510 * v,
            under == 2_000_000_000_000 * smallest - 510 * rest,
            rest == 1_000_000 * v - v * s,
    ;
    assert(-1_000_000_000_000 <= over * (1_000_000 - s) <= 1_000_000_000_000)
        by (nonlinear_arith)
        requires
            -1_000_000 <= over <= 1_000_000,
            0 <= 1_000_000 - s <= 1_000_000,
    ;
    assert(-1_000_000 <= drift <= 1_000_000);
    if largest > 0 {
        lemma_fundamental_div_mod((largest - smallest) * 1_000_000, largest);
        assert(largest * (back - s) == largest * back - s * largest) by (nonlinear_arith);
    } else {
        assert(largest * (back - s) == 0) by (nonlinear_arith)
            requires
                largest == 0,
        ;
    }
}

/// How far two hues lie apart on the colour wheel, the shorter way round.
pub open spec fn hue_distance(h: int, k: int) -> int {
    let apart: int = if h >= k {
        h - k
    } else {
        k - h
    };
    if apart <= 180 * unit() {
        apart
    } else {
        360 * unit() - apart
    }
}

/// Whether two hues give each of the three channels the same fade to within
/// `slack`.
pub open spec fn fades_agree(h: int, k: int, slack: int) -> bool {
    &&& -slack <= fade_of(h, 0) - fade_of(k, 0) <= slack
    &&& -slack <= fade_of(h, 1) - fade_of(k, 1) <= slack
    &&& -slack <= fade_of(h, 2) - fade_of(k, 2) <= slack
}

/// The fades of the three channels at a hue that lies `past` beyond the
/// beginning of sector `at`.
pub open spec fn sector_fades(at: int, past: int) -> (int, int, int) {
    let rest: int = sector_span() - past;
    if at == 0 {
        (0int, rest, sector_span())
    } else if at == 1 {
        (past, 0int, sector_span())
    } else if at == 2 {
        (sector_span(), 0int, rest)
    } else if at == 3 {
        (sector_span(), past, 0int)
    } else if at == 4 {
        (rest, sector_span(), 0int)
    } else {
        (0int, sector_span(), past)
    }
}

/// The fades at a hue, read off its sector and its place in the sector.
proof fn lemma_fades_by_sector(h: int)
    requires
        0 <= h < 360 * unit(),
    ensures
        0 <= sector_of(h) <= 5,
        0 <= h - sector_span() * sector_of(h) < sector_span(),
        (fade_of(h, 0), fade_of(h, 1), fade_of(h, 2)) == sector_fades(
            sector_of(h),
            h - sector_span() * sector_of(h),
        ),
{
    let at: int = sector_of(h);
    assert(h == 60_000_000 * at + h % 60_000_000);
    if at == 0 || at == 1 {
        assert(h % 120_000_000 == h);
    } else if at == 2 || at == 3 {
        assert(h % 120_000_000 == h - 120_000_000);
    } else {
        assert(h % 120_000_000 == h - 240_000_000);
    }
}

/// Two places on the colour wheel whose fades agree to within `slack` lie at
/// most twice that apart, the shorter way round.
proof fn lemma_sector_fades_pin(at: int, past: int, to: int, beyond: int, slack: int)
    requires
        0 <= at <= 5,
        0 <= to <= 5,
        0 <= past < sector_span(),
        0 <= beyond < sector_span(),
        0 <= slack < 30 * unit(),
        -slack <= sector_fades(at, past).0 - sector_fades(to, beyond).0 <= slack,
        -slack <= sector_fades(at, past).1 - sector_fades(to, beyond).1 <= slack,
        -slack <= sector_fades(at, past).2 - sector_fades(to, beyond).2 <= slack,
    ensures
        hue_distance(sector_span() * at + past, sector_span() * to + beyond) <= 2 * slack,
{
    if at == to {
    } else if to == at + 1 || (at == 5 && to == 0) {
    } else if at == to + 1 || (to == 5 && at == 0) {
    } else {
    }
}

/// Two hues that give every channel nearly the same fade lie close together:
/// in one sector as close as the fades, across the border of two sectors at
/// most twice as far.
proof fn lemma_fades_pin_hue(h: int, k: int, slack: int)
    requires
        0 <= h < 360 * unit(),
        0 <= k < 360 * unit(),
        0 <= slack < 30 * unit(),
        fades_agree(h, k, slack),
    ensures
        hue_distance(h, k) <= 2 * slack,
{
    lemma_fades_by_sector(h);
    lemma_fades_by_sector(k);
    let (at, to): (int, int) = (sector_of(h), sector_of(k));
    lemma_sector_fades_pin(at, h - 60_000_000 * at, to, k - 60_000_000 * to, slack);
}

/// Whether `channel` is what a component between nothing and the whole
/// scale rounds to.
pub open spec fn rounds_to(component: int, channel: int) -> bool {
    2 * component_scale() * channel <= 510 * component + component_scale() < 2
        * component_scale() * channel + 2 * component_scale()
}

/// A component between nothing and the whole scale rounds to its channel
/// without being limited.
proof fn lemma_channel_rounds(component: int)
    requires
        0 <= component <= component_scale(),
    ensures
        rounds_to(component, channel_of(component)),
        0 <= channel_of(component) <= 255,
{
}

/// Rounding the three channels moves the share by which a channel lies below
/// the largest by less than one part in the spread, against the fade that the
/// channel was given.
proof fn lemma_gap_follows_fade(
    product: int,
    top: int,
    fade: int,
    largest: int,
    channel: int,
    smallest: int,
)
    requires
        0 <= fade <= sector_span(),
        rounds_to(top, largest),
        rounds_to(top - product * fade, channel),
        rounds_to(top - product * sector_span(), smallest),
    ensures
        -sector_span() < sector_span() * (largest - channel) - fade * (largest - smallest)
            < sector_span(),
{
    let scale: int = 60_000_000_000_000_000_000;
    let over: int = 2 * scale * largest - (510 * top + scale);
    let mid: int = 2 * scale * channel - (510 * (top - product * fade) + scale);
    let under: int = 2 * scale * smallest - (510 * (top - product * 60_000_000) + scale);
    assert(-2 * scale < over <= 0);
    assert(-2 * scale < mid <= 0);
    assert(-2 * scale < under <= 0);
    let skew: int = 60_000_000 * (largest - channel) - fade * (largest - smallest);
    assert(2 * scale * skew == (60_000_000 - fade) * over - 60_000_000 * mid + fade * under)
        by (nonlinear_arith)
        requires
            skew == 60_000_000 * (largest - channel) - fade * (largest - smallest),
            over == 2 * scale * largest - (510 * top + scale),
            mid == 2 * scale * channel - (510 * (top - product * fade) + scale),
            under == 2 * scale * smallest - (510 * (top - product * 60_000_000) + scale),
    ;
    let first: int = (60_000_000 - fade) * over;
    let last: int = fade * under;
    assert(-2 * scale * (60_000_000 - fade) <= first <= 0 && (fade < 60_000_000 ==> -2 * scale
        * (60_000_000 - fade) < first)) by (nonlinear_arith)
        requires
            first == (60_000_000 - fade) * over,
            0 <= 60_000_000 - fade,
            -2 * scale < over <= 0,
            scale > 0,
    ;
    assert(-2 * scale * fade <= last <= 0 && (fade > 0 ==> -2 * scale * fade < last))
        by (nonlinear_arith)
        requires
            last == fade * under,
            0 <= fade,
            -2 * scale < under <= 0,
            scale > 0,
    ;
    assert(-2 * scale * 60_000_000 < 2 * scale * skew < 2 * scale * 60_000_000);
}

/// The hue of an HSV triple in range survives the trip to RGB and back to
/// within two sectors' width divided by the spread between the largest and
/// the smallest channel of the colour it becomes: the more colourful, the
/// closer. A colour with a spread of 121 or more keeps its hue to within a
/// degree. A spread below 3 says too little of the hue to bound it.
pub proof fn lemma_hue_survives_rgb(h: int, s: int, v: int)
    requires
        hsv_in_range(h, s, v),
        ({
            let rgb: (int, int, int) = hsv_to_rgb_of(h, s, v);
            max3(rgb.0, rgb.1, rgb.2) - min3(rgb.0, rgb.1, rgb.2) >= 3
        }),
    ensures
        ({
            let rgb: (int, int, int) = hsv_to_rgb_of(h, s, v);
            let spread: int = max3(rgb.0, rgb.1, rgb.2) - min3(rgb.0, rgb.1, rgb.2);
            let back: int = hue_of(rgb.0, rgb.1, rgb.2);
            &&& 0 <= back < 360 * unit()
            &&& spread * hue_distance(back, h) < 2 * (sector_span() + spread)
        }),
{
    lemma_extreme_channels(h, s, v);
    let rgb: (int, int, int) = hsv_to_rgb_of(h, s, v);
    let (r, g, b): (int, int, int) = rgb;
    let largest: int = max3(r, g, b);
    let smallest: int = min3(r, g, b);
    let spread: int = largest - smallest;
    let back: int = hue_of(r, g, b);
    let product: int = v * s;
    let top: int = faded_component(s, v, 0);
    assert(product * 0 == 0);
    assert(top == 60_000_000_000_000 * v);
    assert(product <= 1_000_000 * v) by (nonlinear_arith)
        requires
            product == v * s,
            0 <= v,
            0 <= s <= 1_000_000,
    ;
    assert forall|index: int| 0 <= index <= 2 implies 0 <= top - product * #[trigger] fade_of(
        h,
        index,
    ) <= 60_000_000_000_000_000_000 by {
        let fade: int = fade_of(h, index);
        assert(0 <= fade <= sector_span());
        assert(0 <= product * fade <= product * 60_000_000) by (nonlinear_arith)
            requires
                product >= 0,
                0 <= fade <= 60_000_000,
        ;
    }
    lemma_channel_rounds(top);
    lemma_channel_rounds(top - product * 60_000_000);
    lemma_channel_rounds(top - product * fade_of(h, 0));
    lemma_channel_rounds(top - product * fade_of(h, 1));
    lemma_channel_rounds(top - product * fade_of(h, 2));
    assert(0 <= r <= 255 && 0 <= g <= 255 && 0 <= b <= 255);
    lemma_fades_match(r, g, b);
    lemma_gap_follows_fade(product, top, fade_of(h, 0), largest, r, smallest);
    lemma_gap_follows_fade(product, top, fade_of(h, 1), largest, g, smallest);
    lemma_gap_follows_fade(product, top, fade_of(h, 2), largest, b, smallest);
    let room: int = 60_000_000 + spread - 1;
    let slack: int = room / spread;
    lemma_fundamental_div_mod(room, spread);
    assert(spread * slack <= room < spread * slack + spread);
    assert(0 <= slack < 30_000_000) by (nonlinear_arith)
        requires
            spread * slack <= room < spread * slack + spread,
            room == 60_000_000 + spread - 1,
            3 <= spread <= 255,
    ;
    assert forall|index: int| 0 <= index <= 2 implies -slack <= #[trigger] fade_of(back, index)
        - fade_of(h, index) <= slack by {
        let moved: int = fade_of(back, index) - fade_of(h, index);
        let gap: int = largest - (if index == 0 {
            r
        } else if index == 1 {
            g
        } else {
            b
        });
        assert(moved * spread == fade_of(back, index) * spread - fade_of(h, index) * spread)
            by (nonlinear_arith)
            requires
                moved == fade_of(back, index) - fade_of(h, index),
        ;
        assert(-(60_000_000 + spread) < moved * spread < 60_000_000 + spread);
        assert(-slack <= moved <= slack) by (nonlinear_arith)
            requires
                -(60_000_000 + spread) < moved * spread < 60_000_000 + spread,
                spread * slack <= room < spread * slack + spread,
                room == 60_000_000 + spread - 1,
                spread >= 3,
        ;
    }
    assert(fades_agree(back, h, slack));
    lemma_scaled_bound(back, 0, spread);
    lemma_scaled_bound(back, 360_000_000, spread);
    lemma_fundamental_div_mod(hue_numerator(r, g, b) * 1_000_000, spread);
    assert(0 <= back < 360_000_000) by {
        assert(spread * back == back * spread) by (nonlinear_arith);
    }
    lemma_fades_pin_hue(back, h, slack);
    let apart: int = hue_distance(back, h);
    assert(spread * apart <= 2 * (spread * slack)) by (nonlinear_arith)
        requires
            0 <= apart <= 2 * slack,
            spread >= 0,
    ;
}

/// Whether an HSV triple is bright and colourful enough for 8-bit channels
/// to carry all of it: a value of at least 0.4 and a chroma, value times
/// saturation, of at least 0.48.
pub open spec fn carried_by_channels(s: int, v: int) -> bool {
    &&& v >= 400_000
    &&& v * s >= 480_000 * unit()
}

/// An HSV triple in range that is bright and colourful enough survives the
/// trip to RGB and back: the hue to within a degree, the shorter way round,
/// the saturation and the value to within a hundredth.
pub proof fn lemma_hsv_survives_rgb(h: int, s: int, v: int)
    requires
        hsv_in_range(h, s, v),
        carried_by_channels(s, v),
    ensures
        ({
            let rgb: (int, int, int) = hsv_to_rgb_of(h, s, v);
            &&& hue_distance(hue_of(rgb.0, rgb.1, rgb.2), h) <= unit()
            &&& -10_000 <= saturation_of(rgb.0, rgb.1, rgb.2) - s <= 10_000
            &&& -10_000 <= value_of(rgb.0, rgb.1, rgb.2) - v <= 10_000
        }),
{
    lemma_extreme_channels(h, s, v);
    let rgb: (int, int, int) = hsv_to_rgb_of(h, s, v);
    let largest: int = max3(rgb.0, rgb.1, rgb.2);
    let smallest: int = min3(rgb.0, rgb.1, rgb.2);
    let spread: int = largest - smallest;
    let product: int = v * s;
    let top: int = faded_component(s, v, 0);
    assert(product * 0 == 0);
    assert(top == 60_000_000_000_000 * v);
    assert(product <= 1_000_000 * v) by (nonlinear_arith)
        requires
            product == v * s,
            0 <= v,
            0 <= s <= 1_000_000,
    ;
    lemma_channel_rounds(top);
    lemma_channel_rounds(top - product * 60_000_000);
    assert(102 <= largest <= 255);
    assert(122 <= spread <= 255);

    lemma_value_survives_rgb(h, s, v);

    lemma_saturation_survives_rgb(h, s, v);
    let moved: int = saturation_of(rgb.0, rgb.1, rgb.2) - s;
    assert(-10_000 <= moved <= 10_000) by (nonlinear_arith)
        requires
            -(1_000_000 + largest) < largest * moved <= 1_000_000,
            102 <= largest <= 255,
    ;

    lemma_hue_survives_rgb(h, s, v);
    let apart: int = hue_distance(hue_of(rgb.0, rgb.1, rgb.2), h);
    assert(apart <= 1_000_000) by (nonlinear_arith)
        requires
            spread * apart < 2 * (60_000_000 + spread),
            122 <= spread <= 255,
    ;
}

} // verus!
