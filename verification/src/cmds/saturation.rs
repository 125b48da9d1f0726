//! Saturation adjustment in two colour models: scaling the saturation of the
//! HSV form of each pixel, or scaling each channel's distance from the
//! pixel's luminance.

use vstd::prelude::*;
use vstd::arithmetic::div_mod::lemma_div_multiples_vanish_quotient;
use image::DynamicImage;
use crate::raster::{
    dimensions_fit, height_of, image_from_rgb8, image_height, image_rgb8, image_width, rgb8_of,
    sample_count, samples_fit, width_of,
};
use crate::error::InvalidParameter;
use crate::fixed::{clamp_channel, unit};
use crate::utils::color::{
    hsv_to_rgb, hsv_to_rgb_of, hue_of, max3, min3, rgb_to_hsv, saturation_of, value_of,
};
use crate::utils::round_trip::lemma_rgb_survives_hsv;

verus! {

/// The colour model a saturation adjustment works in.
#[derive(Clone, Copy, Debug, PartialEq, Eq, Structural)]
pub enum SaturationType {
    /// Scale the saturation component of each pixel's HSV form.
    Hsv,
    /// Scale each channel's distance from the pixel's luminance.
    Luminance,
    /// The luminance model, computed four pixels at a time.
    LuminanceSimd,
}

/// What `str::to_lowercase` returns for a text.
pub uninterp spec fn lowercase_of(text: Seq<char>) -> Seq<char>;

/// Calls `str::to_lowercase`, which depends on the text alone.
#[verifier::external_body]
fn lowercase(text: &str) -> (lower: String)
    ensures
        lower@ == lowercase_of(text@),
{
    text.to_lowercase()
}

impl SaturationType {
    /// The strategy that a token in lower case names: `hsv`, `lum` or
    /// `lumsimd`.
    pub open spec fn named_by(lower: Seq<char>) -> Option<SaturationType> {
        if lower == "hsv"@ {
            Some(SaturationType::Hsv)
        } else if lower == "lum"@ {
            Some(SaturationType::Luminance)
        } else if lower == "lumsimd"@ {
            Some(SaturationType::LuminanceSimd)
        } else {
            None
        }
    }

    /// Reads a token that is already in lower case.
    pub fn from_lowercase(lower: &str) -> (res: Result<SaturationType, InvalidParameter>)
        ensures
            res is Ok <==> Self::named_by(lower@) is Some,
            res is Ok ==> Some(res->Ok_0) == Self::named_by(lower@),
            res is Err ==> res->Err_0 == InvalidParameter::Strategy,
    {
        let token: String = lower.to_owned();
        if token == "hsv".to_owned() {
            Ok(SaturationType::Hsv)
        } else if token == "lum".to_owned() {
            Ok(SaturationType::Luminance)
        } else if token == "lumsimd".to_owned() {
            Ok(SaturationType::LuminanceSimd)
        } else {
            Err(InvalidParameter::Strategy)
        }
    }

    /// The name under which the strategy is reported to a user.
    pub fn label(&self) -> (text: &'static str)
        ensures
            text@ == (match *self {
                SaturationType::Hsv => "hsv"@,
                SaturationType::Luminance => "luma"@,
                SaturationType::LuminanceSimd => "luma simd"@,
            }),
    {
        match self {
            SaturationType::Hsv => "hsv",
            SaturationType::Luminance => "luma",
            SaturationType::LuminanceSimd => "luma simd",
        }
    }
}

/// The luminance `0.299 R + 0.587 G + 0.114 B` of a pixel, in thousandths.
pub open spec fn luma_of(r: int, g: int, b: int) -> int {
    299 * r + 587 * g + 114 * b
}

/// A thousand fixed-point units: the denominator of a luminance in
/// thousandths multiplied by a fixed-point amount.
#[verifier::inline]
pub open spec fn luma_scale() -> int {
    1_000_000_000
}

/// `L + (channel - L) * amount` before it is brought to a whole number, as a
/// numerator over `luma_scale()`; `luma` is the luminance in thousandths.
pub open spec fn luminance_exact(channel: int, luma: int, amount: int) -> int {
    luma * unit() + (1000 * channel - luma) * amount
}

/// One channel under the luminance model: the exact value rounded to the
/// nearest integer (halves upwards) and limited to `0..=255`.
pub open spec fn luminance_channel(channel: int, luma: int, amount: int) -> int {
    clamp_channel((2 * luminance_exact(channel, luma, amount) + luma_scale()) / (2 * luma_scale()))
}

/// A pixel under the luminance model: each channel's distance from the
/// pixel's luminance is scaled by `amount`.
#[verifier::opaque]
pub open spec fn luminance_pixel(r: int, g: int, b: int, amount: int) -> (int, int, int) {
    let luma: int = luma_of(r, g, b);
    (
        luminance_channel(r, luma, amount),
        luminance_channel(g, luma, amount),
        luminance_channel(b, luma, amount),
    )
}

/// A saturation multiplied by `amount`, rounded down and limited to the range
/// from 0 to 1.
pub open spec fn scaled_saturation(s: int, amount: int) -> int {
    let scaled: int = s * amount / unit();
    if scaled < 0 {
        0
    } else if scaled > unit() {
        unit()
    } else {
        scaled
    }
}

/// A pixel under the HSV model: converted to HSV, its saturation scaled by
/// `amount`, and converted back.
#[verifier::opaque]
pub open spec fn hsv_pixel(r: int, g: int, b: int, amount: int) -> (int, int, int) {
    hsv_to_rgb_of(hue_of(r, g, b), scaled_saturation(saturation_of(r, g, b), amount), value_of(r, g, b))
}

/// The number of pixels that the four-at-a-time path handles together.
pub const LANES: usize = 4;

/// One channel as a lane computes it, on components brought into the range
/// from 0 to 1 first: the same exact value, now a numerator over
/// `255 * luma_scale()`, is limited to that range, multiplied by 255 and
/// truncated.
pub open spec fn luminance_lane(channel: int, luma: int, amount: int) -> int {
    let exact: int = luminance_exact(channel, luma, amount);
    let whole: int = 255 * luma_scale();
    let limited: int = if exact < 0 {
        0
    } else if exact > whole {
        whole
    } else {
        exact
    };
    255 * limited / whole
}

/// A pixel as the lanes compute it: the luminance model, with every channel
/// truncated where the pixel-at-a-time path rounds.
#[verifier::opaque]
pub open spec fn lane_pixel(r: int, g: int, b: int, amount: int) -> (int, int, int) {
    let luma: int = luma_of(r, g, b);
    (
        luminance_lane(r, luma, amount),
        luminance_lane(g, luma, amount),
        luminance_lane(b, luma, amount),
    )
}

/// Whether the pixel that begins at sample `first` of a buffer of `len`
/// samples belongs to a full group of [`LANES`] pixels. The pixels behind the
/// last full group do not.
pub open spec fn in_full_group(len: int, first: int) -> bool {
    first < len - len % 12
}

/// A pixel under the model that a strategy stands for. The four-at-a-time
/// strategy computes the pixels of its full groups in lanes and the pixels
/// behind them one at a time; `grouped` says which kind a pixel is.
pub open spec fn saturated_pixel(
    strategy: SaturationType,
    grouped: bool,
    r: int,
    g: int,
    b: int,
    amount: int,
) -> (int, int, int) {
    match strategy {
        SaturationType::Hsv => hsv_pixel(r, g, b, amount),
        SaturationType::Luminance => luminance_pixel(r, g, b, amount),
        SaturationType::LuminanceSimd => if grouped {
            lane_pixel(r, g, b, amount)
        } else {
            luminance_pixel(r, g, b, amount)
        },
    }
}

/// One channel of a pixel whose luminance, in thousandths, is `luma`.
fn saturate_channel_luminance(channel: u8, luma: i64, amount: i64) -> (out: u8)
    requires
        0 <= luma <= 255_000,
    ensures
        out as int == luminance_channel(channel as int, luma as int, amount as int),
{
    let offset: i128 = 1000 * (channel as i128) - (luma as i128);
    assert(-0x4_0000 * 0x8000_0000_0000_0000 <= offset * (amount as i128) <= 0x4_0000
        * 0x8000_0000_0000_0000) by (nonlinear_arith)
        requires
            -0x4_0000 <= offset <= 0x4_0000,
            -0x8000_0000_0000_0000 <= amount <= 0x8000_0000_0000_0000,
    ;
    let exact: i128 = (luma as i128) * 1_000_000 + offset * (amount as i128);
    let doubled: i128 = 2 * exact + 1_000_000_000;
    if doubled < 2_000_000_000 {
        0
    } else {
        let rounded: i128 = doubled / 2_000_000_000;
        if rounded >= 255 {
            255
        } else {
            rounded as u8
        }
    }
}

/// Scales one pixel's distance from its own luminance by `amount`.
pub fn saturate_pixel_luminance(r: u8, g: u8, b: u8, amount: i64) -> (out: (u8, u8, u8))
    ensures
        (out.0 as int, out.1 as int, out.2 as int) == luminance_pixel(
            r as int,
            g as int,
            b as int,
            amount as int,
        ),
{
    reveal(luminance_pixel);
    let luma: i64 = 299 * (r as i64) + 587 * (g as i64) + 114 * (b as i64);
    (
        saturate_channel_luminance(r, luma, amount),
        saturate_channel_luminance(g, luma, amount),
        saturate_channel_luminance(b, luma, amount),
    )
}

/// Scales one pixel's HSV saturation by `amount`.
pub fn saturate_pixel_hsv(r: u8, g: u8, b: u8, amount: i64) -> (out: (u8, u8, u8))
    ensures
        (out.0 as int, out.1 as int, out.2 as int) == hsv_pixel(
            r as int,
            g as int,
            b as int,
            amount as int,
        ),
{
    reveal(hsv_pixel);
    let (h, s_base, v): (u32, u32, u32) = rgb_to_hsv(r, g, b);
    assert(-0x8000_0000_0000_0000 * 1_000_000 <= s_base * amount <= 0x8000_0000_0000_0000
        * 1_000_000) by (nonlinear_arith)
        requires
            0 <= s_base <= 1_000_000,
            -0x8000_0000_0000_0000 <= amount <= 0x8000_0000_0000_0000,
    ;
    let product: i128 = (s_base as i128) * (amount as i128);
    let s: u32 = if product < 0 {
        0
    } else {
        let scaled: i128 = product / 1_000_000;
        if scaled > 1_000_000 {
            1_000_000
        } else {
            scaled as u32
        }
    };
    hsv_to_rgb(h, s, v)
}

/// The channel of a pixel at position `k` of its three samples.
pub open spec fn pixel_channel(pixel: (int, int, int), k: int) -> int {
    if k == 0 {
        pixel.0
    } else if k == 1 {
        pixel.1
    } else {
        pixel.2
    }
}

/// A buffer of whole pixels, three samples each, with every pixel adjusted on
/// its own under the model of `strategy`. Under the four-at-a-time strategy
/// the pixels of full groups are computed in lanes.
pub open spec fn saturate_samples_of(samples: Seq<u8>, amount: int, strategy: SaturationType) -> Seq<
    u8,
> {
    Seq::new(
        samples.len(),
        |i: int|
            {
                let first: int = i - i % 3;
                pixel_channel(
                    saturated_pixel(
                        strategy,
                        in_full_group(samples.len() as int, first),
                        samples[first] as int,
                        samples[first + 1] as int,
                        samples[first + 2] as int,
                        amount,
                    ),
                    i % 3,
                ) as u8
            },
    )
}

/// Adjusts every pixel of a buffer under the HSV model.
pub fn saturate_samples_hsv(samples: &[u8], amount: i64) -> (out: Vec<u8>)
    requires
        samples@.len() % 3 == 0,
    ensures
        out@ == saturate_samples_of(samples@, amount as int, SaturationType::Hsv),
{
    let ghost goal: Seq<u8> = saturate_samples_of(samples@, amount as int, SaturationType::Hsv);
    let mut out: Vec<u8> = Vec::with_capacity(samples.len());
    let mut i: usize = 0;
    while i < samples.len()
        invariant
            samples@.len() % 3 == 0,
            i % 3 == 0,
            i <= samples@.len(),
            goal == saturate_samples_of(samples@, amount as int, SaturationType::Hsv),
            out@ == goal.take(i as int),
        decreases samples@.len() - i,
    {
        let (r, g, b): (u8, u8, u8) = saturate_pixel_hsv(
            samples[i],
            samples[i + 1],
            samples[i + 2],
            amount,
        );
        out.push(r);
        out.push(g);
        out.push(b);
        i += 3;
        assert(out@ =~= goal.take(i as int));
    }
    assert(goal.take(i as int) =~= goal);
    out
}

/// Adjusts every pixel of a buffer under the luminance model, one pixel at a
/// time.
pub fn saturate_samples_luminance(samples: &[u8], amount: i64) -> (out: Vec<u8>)
    requires
        samples@.len() % 3 == 0,
    ensures
        out@ == saturate_samples_of(samples@, amount as int, SaturationType::Luminance),
{
    let ghost goal: Seq<u8> = saturate_samples_of(
        samples@,
        amount as int,
        SaturationType::Luminance,
    );
    let mut out: Vec<u8> = Vec::with_capacity(samples.len());
    let mut i: usize = 0;
    while i < samples.len()
        invariant
            samples@.len() % 3 == 0,
            i % 3 == 0,
            i <= samples@.len(),
            goal == saturate_samples_of(samples@, amount as int, SaturationType::Luminance),
            out@ == goal.take(i as int),
        decreases samples@.len() - i,
    {
        let (r, g, b): (u8, u8, u8) = saturate_pixel_luminance(
            samples[i],
            samples[i + 1],
            samples[i + 2],
            amount,
        );
        out.push(r);
        out.push(g);
        out.push(b);
        i += 3;
        assert(out@ =~= goal.take(i as int));
    }
    assert(goal.take(i as int) =~= goal);
    out
}

/// One channel of one lane.
fn saturate_lane(channel: u8, luma: i64, amount: i64) -> (out: u8)
    requires
        0 <= luma <= 255_000,
    ensures
        out as int == luminance_lane(channel as int, luma as int, amount as int),
{
    let offset: i128 = 1000 * (channel as i128) - (luma as i128);
    assert(-0x4_0000 * 0x8000_0000_0000_0000 <= offset * (amount as i128) <= 0x4_0000
        * 0x8000_0000_0000_0000) by (nonlinear_arith)
        requires
            -0x4_0000 <= offset <= 0x4_0000,
            -0x8000_0000_0000_0000 <= amount <= 0x8000_0000_0000_0000,
    ;
    let exact: i128 = (luma as i128) * 1_000_000 + offset * (amount as i128);
    let whole: i128 = 255_000_000_000;
    let limited: i128 = if exact < 0 {
        0
    } else if exact > whole {
        whole
    } else {
        exact
    };
    (255 * limited / whole) as u8
}

/// Adjusts every pixel of a buffer under the luminance model, [`LANES`]
/// pixels at a time. The lanes truncate where the pixel-at-a-time path
/// rounds. The pixels left over when the count is no multiple of [`LANES`]
/// are adjusted one at a time; none is dropped.
pub fn saturate_samples_luminance_simd(samples: &[u8], amount: i64) -> (out: Vec<u8>)
    requires
        samples@.len() % 3 == 0,
    ensures
        out@ == saturate_samples_of(samples@, amount as int, SaturationType::LuminanceSimd),
{
    let ghost goal: Seq<u8> = saturate_samples_of(
        samples@,
        amount as int,
        SaturationType::LuminanceSimd,
    );
    let mut out: Vec<u8> = Vec::with_capacity(samples.len());
    let mut start: usize = 0;
    while samples.len() - start >= 3 * LANES
        invariant
            samples@.len() % 3 == 0,
            start % 12 == 0,
            start <= samples@.len(),
            goal == saturate_samples_of(samples@, amount as int, SaturationType::LuminanceSimd),
            out@ == goal.take(start as int),
        decreases samples@.len() - start,
    {
        let mut reds: [u8; 4] = [0; 4];
        let mut greens: [u8; 4] = [0; 4];
        let mut blues: [u8; 4] = [0; 4];
        let mut lumas: [i64; 4] = [0; 4];
        let mut lane: usize = 0;
        while lane < LANES
            invariant
                lane <= LANES == 4,
                start + 12 <= samples@.len() <= usize::MAX,
                forall|k: int| 0 <= k < lane ==> #[trigger] reds[k] == samples@[start + 3 * k],
                forall|k: int| 0 <= k < lane ==> #[trigger] greens[k] == samples@[start + 3 * k + 1],
                forall|k: int| 0 <= k < lane ==> #[trigger] blues[k] == samples@[start + 3 * k + 2],
                forall|k: int|
                    0 <= k < lane ==> #[trigger] lumas[k] == luma_of(
                        samples@[start + 3 * k] as int,
                        samples@[start + 3 * k + 1] as int,
                        samples@[start + 3 * k + 2] as int,
                    ),
            decreases LANES - lane,
        {
            let r: u8 = samples[start + 3 * lane];
            let g: u8 = samples[start + 3 * lane + 1];
            let b: u8 = samples[start + 3 * lane + 2];
            reds[lane] = r;
            greens[lane] = g;
            blues[lane] = b;
            lumas[lane] = 299 * (r as i64) + 587 * (g as i64) + 114 * (b as i64);
            lane += 1;
        }
        lane = 0;
        while lane < LANES
            invariant
                lane <= LANES == 4,
                samples@.len() % 3 == 0,
                start % 12 == 0,
                start + 12 <= samples@.len(),
                goal == saturate_samples_of(
                    samples@,
                    amount as int,
                    SaturationType::LuminanceSimd,
                ),
                forall|k: int| 0 <= k < 4 ==> #[trigger] reds[k] == samples@[start + 3 * k],
                forall|k: int| 0 <= k < 4 ==> #[trigger] greens[k] == samples@[start + 3 * k + 1],
                forall|k: int| 0 <= k < 4 ==> #[trigger] blues[k] == samples@[start + 3 * k + 2],
                forall|k: int|
                    0 <= k < 4 ==> #[trigger] lumas[k] == luma_of(
                        samples@[start + 3 * k] as int,
                        samples@[start + 3 * k + 1] as int,
                        samples@[start + 3 * k + 2] as int,
                    ),
                out@ == goal.take(start + 3 * lane),
            decreases LANES - lane,
        {
            reveal(lane_pixel);
            assert(in_full_group(samples@.len() as int, start + 3 * lane));
            let luma: i64 = lumas[lane];
            out.push(saturate_lane(reds[lane], luma, amount));
            out.push(saturate_lane(greens[lane], luma, amount));
            out.push(saturate_lane(blues[lane], luma, amount));
            lane += 1;
            assert(out@ =~= goal.take(start + 3 * lane));
        }
        start += 3 * LANES;
    }
    while start < samples.len()
        invariant
            samples@.len() % 3 == 0,
            start % 3 == 0,
            samples@.len() - samples@.len() % 12 <= start <= samples@.len(),
            goal == saturate_samples_of(samples@, amount as int, SaturationType::LuminanceSimd),
            out@ == goal.take(start as int),
        decreases samples@.len() - start,
    {
        assert(!in_full_group(samples@.len() as int, start as int));
        let (r, g, b): (u8, u8, u8) = saturate_pixel_luminance(
            samples[start],
            samples[start + 1],
            samples[start + 2],
            amount,
        );
        out.push(r);
        out.push(g);
        out.push(b);
        start += 3;
        assert(out@ =~= goal.take(start as int));
    }
    assert(goal.take(start as int) =~= goal);
    out
}

/// Whether `adjusted` is `img` with every pixel adjusted under the model of
/// `strategy`: the same dimensions, and the samples that
/// [`saturate_samples_of`] gives.
pub open spec fn is_saturated(
    adjusted: DynamicImage,
    img: DynamicImage,
    amount: int,
    strategy: SaturationType,
) -> bool {
    &&& width_of(adjusted) == width_of(img)
    &&& height_of(adjusted) == height_of(img)
    &&& rgb8_of(adjusted) == saturate_samples_of(rgb8_of(img), amount, strategy)
}

/// The samples of an image are whole pixels.
proof fn lemma_whole_pixels(width: u32, height: u32)
    ensures
        sample_count(width, height) % 3 == 0,
{
    assert(3 * (width as int) * (height as int) == 3 * ((width as int) * (height as int)))
        by (nonlinear_arith);
}

/// Adjusts an image under the luminance model, one pixel at a time.
fn apply_luminance_saturation(img: DynamicImage, saturation: i64) -> (adjusted: DynamicImage)
    requires
        dimensions_fit(width_of(img), height_of(img)),
    ensures
        is_saturated(adjusted, img, saturation as int, SaturationType::Luminance),
{
    let width: u32 = image_width(&img);
    let height: u32 = image_height(&img);
    let samples: Vec<u8> = image_rgb8(&img);
    proof {
        lemma_whole_pixels(width, height);
    }
    let adjusted: Vec<u8> = saturate_samples_luminance(samples.as_slice(), saturation);
    image_from_rgb8(width, height, adjusted).unwrap()
}

/// Adjusts an image under the luminance model, [`LANES`] pixels at a time.
fn apply_luminance_saturation_simd(img: DynamicImage, saturation: i64) -> (adjusted: DynamicImage)
    requires
        dimensions_fit(width_of(img), height_of(img)),
    ensures
        is_saturated(adjusted, img, saturation as int, SaturationType::LuminanceSimd),
{
    let width: u32 = image_width(&img);
    let height: u32 = image_height(&img);
    let samples: Vec<u8> = image_rgb8(&img);
    proof {
        lemma_whole_pixels(width, height);
    }
    let adjusted: Vec<u8> = saturate_samples_luminance_simd(samples.as_slice(), saturation);
    image_from_rgb8(width, height, adjusted).unwrap()
}

/// Adjusts an image under the HSV model.
fn apply_hsv_saturation(img: DynamicImage, saturation: i64) -> (adjusted: DynamicImage)
    requires
        dimensions_fit(width_of(img), height_of(img)),
    ensures
        is_saturated(adjusted, img, saturation as int, SaturationType::Hsv),
{
    let width: u32 = image_width(&img);
    let height: u32 = image_height(&img);
    let samples: Vec<u8> = image_rgb8(&img);
    proof {
        lemma_whole_pixels(width, height);
    }
    let adjusted: Vec<u8> = saturate_samples_hsv(samples.as_slice(), saturation);
    image_from_rgb8(width, height, adjusted).unwrap()
}

/// Checks a saturation amount before any pixel is touched.
pub fn validate_saturation(saturation: i64) -> (checked: Result<(), InvalidParameter>)
    ensures
        checked is Ok <==> saturation > 0,
        checked is Err ==> checked->Err_0 == InvalidParameter::Amount,
{
    if saturation <= 0 {
        Err(InvalidParameter::Amount)
    } else {
        Ok(())
    }
}

/// Adjusts the saturation of an image: below one the colours fade towards
/// gray, above one they grow stronger.
///
/// The amount is checked first; a rejected call reads no pixel. The strategy
/// picks the colour model, and the result has the dimensions of `img`.
pub fn apply_saturation(img: DynamicImage, saturation: i64, sat_type: SaturationType) -> (res: Result<
    DynamicImage,
    InvalidParameter,
>)
    requires
        dimensions_fit(width_of(img), height_of(img)),
    ensures
        res is Ok <==> saturation > 0,
        res is Err ==> res->Err_0 == InvalidParameter::Amount,
        res is Ok ==> is_saturated(res->Ok_0, img, saturation as int, sat_type),
{
    match validate_saturation(saturation) {
        Err(rejected) => Err(rejected),
        Ok(()) => match sat_type {
            SaturationType::Hsv => Ok(apply_hsv_saturation(img, saturation)),
            SaturationType::Luminance => Ok(apply_luminance_saturation(img, saturation)),
            SaturationType::LuminanceSimd => Ok(apply_luminance_saturation_simd(img, saturation)),
        },
    }
}

/// Adjusts the saturation of an image of any size: as [`apply_saturation`],
/// but `None` for an image whose samples would not fit in a vector. The
/// amount is still checked first.
pub fn try_apply_saturation(img: DynamicImage, saturation: i64, sat_type: SaturationType) -> (res:
    Option<Result<DynamicImage, InvalidParameter>>)
    ensures
        saturation <= 0 ==> res == Some(
            Err::<DynamicImage, InvalidParameter>(InvalidParameter::Amount),
        ),
        saturation > 0 ==> (res is Some <==> dimensions_fit(width_of(img), height_of(img))),
        saturation > 0 && res is Some ==> res->0 is Ok && is_saturated(
            res->0->Ok_0,
            img,
            saturation as int,
            sat_type,
        ),
{
    match validate_saturation(saturation) {
        Err(rejected) => Some(Err(rejected)),
        Ok(()) => if samples_fit(&img) {
            Some(apply_saturation(img, saturation, sat_type))
        } else {
            None
        },
    }
}

/// A lane gives a channel the exact value truncated to an integer and
/// limited to `0..=255`.
pub proof fn lemma_lane_truncates(channel: int, luma: int, amount: int)
    ensures
        luminance_lane(channel, luma, amount) == clamp_channel(
            luminance_exact(channel, luma, amount) / luma_scale(),
        ),
{
    let exact: int = luminance_exact(channel, luma, amount);
    let whole: int = 255 * luma_scale();
    if exact < 0 {
        assert(exact / luma_scale() < 0);
    } else if exact > whole {
        assert(255 * whole == 65_025_000_000_000);
        assert(65_025_000_000_000int / 255_000_000_000int == 255);
        assert(exact / luma_scale() >= 255);
    } else {
        lemma_div_multiples_vanish_quotient(255, exact, luma_scale());
        assert(255 * exact / whole == exact / luma_scale());
    }
}

/// A lane never gives a channel more than the pixel-at-a-time formula gives
/// it, and at most one less.
pub proof fn lemma_lane_within_one(channel: int, luma: int, amount: int)
    ensures
        luminance_channel(channel, luma, amount) - 1 <= luminance_lane(channel, luma, amount)
            <= luminance_channel(channel, luma, amount),
{
    lemma_lane_truncates(channel, luma, amount);
    let exact: int = luminance_exact(channel, luma, amount);
    let down: int = exact / 1_000_000_000;
    let near: int = (2 * exact + 1_000_000_000) / 2_000_000_000;
    assert(down <= near <= down + 1);
}

/// An amount of exactly one leaves a pixel as it was under the luminance
/// model, whether it is computed on its own or in a lane.
pub proof fn lemma_luminance_unit_amount_is_identity(r: u8, g: u8, b: u8)
    ensures
        luminance_pixel(r as int, g as int, b as int, unit()) == (r as int, g as int, b as int),
        lane_pixel(r as int, g as int, b as int, unit()) == (r as int, g as int, b as int),
{
    reveal(luminance_pixel);
    reveal(lane_pixel);
    let luma: int = luma_of(r as int, g as int, b as int);
    lemma_lane_truncates(r as int, luma, unit());
    lemma_lane_truncates(g as int, luma, unit());
    lemma_lane_truncates(b as int, luma, unit());
}

/// An amount of exactly one leaves a pixel as it was under the HSV model.
pub proof fn lemma_hsv_unit_amount_is_identity(r: u8, g: u8, b: u8)
    ensures
        hsv_pixel(r as int, g as int, b as int, unit()) == (r as int, g as int, b as int),
{
    reveal(hsv_pixel);
    let s: int = saturation_of(r as int, g as int, b as int);
    let max: int = max3(r as int, g as int, b as int);
    let delta: int = max - min3(r as int, g as int, b as int);
    if max > 0 {
        assert(0 <= delta * 1_000_000 / max <= 1_000_000) by (nonlinear_arith)
            requires
                0 <= delta <= max,
                max > 0,
        ;
    }
    assert(0 <= s <= unit());
    assert(s * unit() / unit() == s);
    lemma_rgb_survives_hsv(r, g, b);
}

/// An amount of exactly one leaves a buffer of whole pixels as it was, under
/// every strategy.
pub proof fn lemma_unit_amount_is_identity(samples: Seq<u8>, strategy: SaturationType)
    requires
        samples.len() % 3 == 0,
    ensures
        saturate_samples_of(samples, unit(), strategy) == samples,
{
    let adjusted: Seq<u8> = saturate_samples_of(samples, unit(), strategy);
    assert forall|i: int| 0 <= i < samples.len() implies adjusted[i] == samples[i] by {
        let first: int = i - i % 3;
        lemma_luminance_unit_amount_is_identity(samples[first], samples[first + 1], samples[first + 2]);
        lemma_hsv_unit_amount_is_identity(samples[first], samples[first + 1], samples[first + 2]);
    }
    assert(adjusted =~= samples);
}

/// The luminance of a pixel rounded to the nearest whole number.
pub open spec fn rounded_luma_of(r: int, g: int, b: int) -> int {
    (luma_of(r, g, b) + 500) / 1000
}

/// With no saturation left, the luminance model turns a pixel gray: all
/// three channels become the luminance, rounded to the nearest whole number.
pub proof fn lemma_zero_amount_is_gray(r: u8, g: u8, b: u8)
    ensures
        luminance_pixel(r as int, g as int, b as int, 0) == (
            rounded_luma_of(r as int, g as int, b as int),
            rounded_luma_of(r as int, g as int, b as int),
            rounded_luma_of(r as int, g as int, b as int),
        ),
{
    reveal(luminance_pixel);
    let luma: int = luma_of(r as int, g as int, b as int);
    assert forall|channel: int| luminance_exact(channel, luma, 0) == luma * 1_000_000 by {
        assert((1000 * channel - luma) * 0 == 0);
    }
    assert((2 * (luma * 1_000_000) + 1_000_000_000) / 2_000_000_000 == (luma + 500) / 1000);
}

/// With no saturation left, a buffer of whole pixels comes out gray under the
/// pixel-at-a-time luminance strategy: every sample is the rounded luminance
/// of its pixel.
pub proof fn lemma_zero_amount_grays_buffer(samples: Seq<u8>)
    requires
        samples.len() % 3 == 0,
    ensures
        forall|i: int|
            0 <= i < samples.len() ==> (#[trigger] saturate_samples_of(
                samples,
                0,
                SaturationType::Luminance,
            )[i]) as int == rounded_luma_of(
                samples[i - i % 3] as int,
                samples[i - i % 3 + 1] as int,
                samples[i - i % 3 + 2] as int,
            ),
{
    assert forall|i: int| 0 <= i < samples.len() implies (#[trigger] saturate_samples_of(
        samples,
        0,
        SaturationType::Luminance,
    )[i]) as int == rounded_luma_of(
        samples[i - i % 3] as int,
        samples[i - i % 3 + 1] as int,
        samples[i - i % 3 + 2] as int,
    ) by {
        let first: int = i - i % 3;
        lemma_zero_amount_is_gray(samples[first], samples[first + 1], samples[first + 2]);
    }
}

/// The four-at-a-time strategy gives every sample at most one less than the
/// pixel-at-a-time luminance strategy gives it and never more, whatever the
/// number of pixels; behind the last full group the two agree.
pub proof fn lemma_simd_within_one_of_scalar(samples: Seq<u8>, amount: int)
    requires
        samples.len() % 3 == 0,
    ensures
        forall|i: int|
            0 <= i < samples.len() ==> saturate_samples_of(
                samples,
                amount,
                SaturationType::Luminance,
            )[i] - 1 <= (#[trigger] saturate_samples_of(
                samples,
                amount,
                SaturationType::LuminanceSimd,
            )[i]) <= saturate_samples_of(samples, amount, SaturationType::Luminance)[i],
        forall|i: int|
            0 <= i < samples.len() && !in_full_group(samples.len() as int, i - i % 3)
                ==> (#[trigger] saturate_samples_of(samples, amount, SaturationType::LuminanceSimd)[i])
                == saturate_samples_of(samples, amount, SaturationType::Luminance)[i],
{
    let lanes: Seq<u8> = saturate_samples_of(samples, amount, SaturationType::LuminanceSimd);
    let scalar: Seq<u8> = saturate_samples_of(samples, amount, SaturationType::Luminance);
    assert forall|i: int| 0 <= i < samples.len() implies scalar[i] - 1 <= (#[trigger] lanes[i])
        <= scalar[i] by {
        reveal(luminance_pixel);
        reveal(lane_pixel);
        let first: int = i - i % 3;
        let (r, g, b): (int, int, int) = (
            samples[first] as int,
            samples[first + 1] as int,
            samples[first + 2] as int,
        );
        let luma: int = luma_of(r, g, b);
        lemma_lane_within_one(r, luma, amount);
        lemma_lane_within_one(g, luma, amount);
        lemma_lane_within_one(b, luma, amount);
    }
}

impl std::str::FromStr for SaturationType {
    type Err = InvalidParameter;

    /// Reads a strategy token without regard to letter case: the token is
    /// brought to lower case and must then be `hsv`, `lum` or `lumsimd`.
    fn from_str(s: &str) -> (res: Result<Self, Self::Err>)
        ensures
            res is Ok <==> SaturationType::named_by(lowercase_of(s@)) is Some,
            res is Ok ==> Some(res->Ok_0) == SaturationType::named_by(lowercase_of(s@)),
            res is Err ==> res->Err_0 == InvalidParameter::Strategy,
    {
        let lower: String = lowercase(s);
        SaturationType::from_lowercase(lower.as_str())
    }
}

} // verus!
