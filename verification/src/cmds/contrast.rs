//! Linear contrast stretch around a threshold.

use vstd::prelude::*;
use image::DynamicImage;
use crate::error::InvalidParameter;
use crate::fixed::{clamp_channel, unit, unit_squared, UNIT};
use crate::raster::{
    dimensions_fit, height_of, image_from_rgb8, image_height, image_rgb8, image_width, rgb8_of,
    samples_fit, width_of,
};

verus! {

/// Whether a ratio and a threshold are acceptable: the ratio is positive and
/// the threshold lies strictly between 0 and 256.
pub open spec fn contrast_valid(ratio: int, threshold: int) -> bool {
    ratio > 0 && 0 < threshold < 256 * unit()
}

/// The stretched channel before truncation, as a numerator over `unit_squared()`:
/// `(value - threshold) * ratio + threshold`.
pub open spec fn contrast_exact(value: int, ratio: int, threshold: int) -> int {
    (value * unit() - threshold) * ratio + threshold * unit()
}

/// The stretched channel: the exact value truncated to an integer and limited
/// to `0..=255`.
pub open spec fn contrast_value(value: int, ratio: int, threshold: int) -> int {
    clamp_channel(contrast_exact(value, ratio, threshold) / unit_squared())
}

/// Every sample of `samples` stretched on its own.
pub open spec fn contrast_samples_of(samples: Seq<u8>, ratio: int, threshold: int) -> Seq<u8> {
    Seq::new(samples.len(), |i: int| contrast_value(samples[i] as int, ratio, threshold) as u8)
}

/// The rejection, if any, that a ratio and a threshold earn: the ratio is
/// looked at first.
pub open spec fn contrast_rejection(ratio: int, threshold: int) -> Option<InvalidParameter> {
    if ratio <= 0 {
        Some(InvalidParameter::Ratio)
    } else if threshold <= 0 || threshold >= 256 * unit() {
        Some(InvalidParameter::Threshold)
    } else {
        None
    }
}

/// Whether a threshold lies strictly between 0 and 256.
pub fn threshold_in_range(threshold: i64) -> (ok: bool)
    ensures
        ok == (0 < threshold < 256 * unit()),
{
    0 < threshold && threshold < 256 * UNIT
}

/// Checks a ratio and a threshold before any pixel is touched.
pub fn validate_contrast(ratio: i64, threshold: i64) -> (checked: Result<(), InvalidParameter>)
    ensures
        checked is Ok <==> contrast_valid(ratio as int, threshold as int),
        checked is Err ==> Some(checked->Err_0) == contrast_rejection(ratio as int, threshold as int),
{
    if ratio <= 0 {
        Err(InvalidParameter::Ratio)
    } else if !threshold_in_range(threshold) {
        Err(InvalidParameter::Threshold)
    } else {
        Ok(())
    }
}

/// Stretches one channel value around `threshold` by `factor`.
pub fn adjust_pixel_contrast(value: u8, factor: i64, threshold: i64) -> (out: u8)
    ensures
        out as int == contrast_value(value as int, factor as int, threshold as int),
{
    let one: i128 = UNIT as i128;
    let scaled: i128 = (value as i128) * one - (threshold as i128);
    // |scaled| stays below 2^63 + 2^28 and |factor| below 2^63, so the product
    // and the threshold term together stay within 128 bits.
    assert(-0x8000_0000_1000_0000 * 0x8000_0000_0000_0000 <= scaled * (factor as i128)
        <= 0x8000_0000_1000_0000 * 0x8000_0000_0000_0000) by (nonlinear_arith)
        requires
            -0x8000_0000_1000_0000 <= scaled <= 0x8000_0000_1000_0000,
            -0x8000_0000_0000_0000 <= factor <= 0x8000_0000_0000_0000,
    ;
    let exact: i128 = scaled * (factor as i128) + (threshold as i128) * one;
    if exact <= 0 {
        0
    } else {
        let whole: i128 = exact / (one * one);
        if whole >= 255 {
            255
        } else {
            whole as u8
        }
    }
}

/// Stretches every sample of a buffer, each independently of the others.
pub fn contrast_samples(samples: &[u8], ratio: i64, threshold: i64) -> (out: Vec<u8>)
    ensures
        out@ == contrast_samples_of(samples@, ratio as int, threshold as int),
{
    let mut out: Vec<u8> = Vec::with_capacity(samples.len());
    let mut i: usize = 0;
    while i < samples.len()
        invariant
            i <= samples@.len(),
            out@ == contrast_samples_of(samples@.take(i as int), ratio as int, threshold as int),
        decreases samples@.len() - i,
    {
        out.push(adjust_pixel_contrast(samples[i], ratio, threshold));
        i += 1;
        assert(out@ =~= contrast_samples_of(samples@.take(i as int), ratio as int, threshold as int));
    }
    assert(samples@.take(i as int) =~= samples@);
    out
}

/// Adjusts the contrast of an image: every channel of every pixel is moved
/// away from `threshold` (or towards it, for a ratio below one) by `ratio`.
///
/// The parameters are checked first; a rejected call reads no pixel. The
/// result has the dimensions of `img`.
pub fn apply_contrast(img: DynamicImage, ratio: i64, threshold: i64) -> (res: Result<
    DynamicImage,
    InvalidParameter,
>)
    requires
        dimensions_fit(width_of(img), height_of(img)),
    ensures
        res is Ok <==> contrast_valid(ratio as int, threshold as int),
        res is Err ==> Some(res->Err_0) == contrast_rejection(ratio as int, threshold as int),
        res is Ok ==> width_of(res->Ok_0) == width_of(img) && height_of(res->Ok_0) == height_of(
            img,
        ) && rgb8_of(res->Ok_0) == contrast_samples_of(
            rgb8_of(img),
            ratio as int,
            threshold as int,
        ),
{
    match validate_contrast(ratio, threshold) {
        Err(rejected) => Err(rejected),
        Ok(()) => {
            let width: u32 = image_width(&img);
            let height: u32 = image_height(&img);
            let samples: Vec<u8> = image_rgb8(&img);
            let stretched: Vec<u8> = contrast_samples(samples.as_slice(), ratio, threshold);
            Ok(image_from_rgb8(width, height, stretched).unwrap())
        },
    }
}

/// Adjusts the contrast of an image of any size: as [`apply_contrast`], but
/// `None` for an image whose samples would not fit in a vector. The
/// parameters are still checked first.
pub fn try_apply_contrast(img: DynamicImage, ratio: i64, threshold: i64) -> (res: Option<
    Result<DynamicImage, InvalidParameter>,
>)
    ensures
        contrast_rejection(ratio as int, threshold as int) is Some ==> res == Some(
            Err::<DynamicImage, InvalidParameter>(
                contrast_rejection(ratio as int, threshold as int)->0,
            ),
        ),
        contrast_valid(ratio as int, threshold as int) ==> (res is Some <==> dimensions_fit(width_of(img), height_of(img))),
        contrast_valid(ratio as int, threshold as int) && res is Some ==> res->0 is Ok && width_of(
            res->0->Ok_0,
        ) == width_of(img) && height_of(res->0->Ok_0) == height_of(img) && rgb8_of(res->0->Ok_0)
            == contrast_samples_of(rgb8_of(img), ratio as int, threshold as int),
{
    match validate_contrast(ratio, threshold) {
        Err(rejected) => Some(Err(rejected)),
        Ok(()) => if samples_fit(&img) {
            Some(apply_contrast(img, ratio, threshold))
        } else {
            None
        },
    }
}

/// A ratio of exactly one leaves every sample as it was, whatever the
/// threshold.
pub proof fn lemma_unit_ratio_is_identity(samples: Seq<u8>, threshold: int)
    ensures
        contrast_samples_of(samples, unit(), threshold) == samples,
{
    assert forall|i: int| 0 <= i < samples.len() implies contrast_value(
        samples[i] as int,
        unit(),
        threshold,
    ) == samples[i] as int by {
        let value: int = samples[i] as int;
        assert(contrast_exact(value, unit(), threshold) == value * unit_squared());
    }
    assert(contrast_samples_of(samples, unit(), threshold) =~= samples);
}

/// The distance of the exact stretched value from the threshold, as a
/// numerator over `unit_squared()`.
pub open spec fn contrast_distance(value: int, ratio: int, threshold: int) -> int {
    let offset: int = contrast_exact(value, ratio, threshold) - threshold * unit();
    if offset < 0 {
        -offset
    } else {
        offset
    }
}

/// A larger ratio moves a value further from the threshold. Before truncation
/// the distance grows strictly for every value off the threshold; after
/// truncation and clamping the result never moves back towards it, and a value
/// on the threshold stays where it is.
pub proof fn lemma_larger_ratio_moves_further(value: int, low: int, high: int, threshold: int)
    requires
        0 < low < high,
    ensures
        value * unit() != threshold ==> contrast_distance(value, low, threshold)
            < contrast_distance(value, high, threshold),
        value * unit() > threshold ==> contrast_value(value, low, threshold) <= contrast_value(
            value,
            high,
            threshold,
        ),
        value * unit() < threshold ==> contrast_value(value, low, threshold) >= contrast_value(
            value,
            high,
            threshold,
        ),
        value * unit() == threshold ==> contrast_value(value, low, threshold) == contrast_value(
            value,
            high,
            threshold,
        ),
{
    let offset: int = value * unit() - threshold;
    assert(offset > 0 ==> offset * low < offset * high) by (nonlinear_arith)
        requires
            low < high,
    ;
    assert(offset < 0 ==> offset * low > offset * high) by (nonlinear_arith)
        requires
            low < high,
    ;
    assert(offset > 0 ==> offset * low > 0) by (nonlinear_arith)
        requires
            low > 0,
    ;
    assert(offset < 0 ==> offset * low < 0) by (nonlinear_arith)
        requires
            low > 0,
    ;
    assert(offset == 0 ==> offset * low == 0 && offset * high == 0);
}

} // verus!
