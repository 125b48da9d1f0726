//! The boundary to the `image` crate: a decoded image is carried through the
//! transforms as an opaque value, and read or built as a flat run of 8-bit RGB
//! samples.
//!
//! The functions that call into the `image` crate are believed, not proved:
//! their contracts restate what that crate's source does. What is built on
//! them is verified against those contracts.

use vstd::prelude::*;
use image::DynamicImage;

verus! {

/// A decoded image of the `image` crate, opaque to the verifier.
#[verifier::external_type_specification]
#[verifier::external_body]
pub struct ExDynamicImage(image::DynamicImage);

/// What `DynamicImage::width` returns: the number of pixel columns.
pub uninterp spec fn width_of(img: DynamicImage) -> u32;

/// What `DynamicImage::height` returns: the number of pixel rows.
pub uninterp spec fn height_of(img: DynamicImage) -> u32;

/// The samples of `DynamicImage::to_rgb8`: red, green and blue of each pixel,
/// row by row.
pub uninterp spec fn rgb8_of(img: DynamicImage) -> Seq<u8>;

/// The number of samples in an RGB image of the given dimensions.
pub open spec fn sample_count(width: u32, height: u32) -> int {
    3 * (width as int) * (height as int)
}

/// Whether an RGB image of the given dimensions can be held on this machine.
/// The `image` crate counts the samples of one row in a machine word before
/// it looks at the number of rows, so a row must fit in a word even where
/// there are no rows; and all the samples together must fit in a vector.
pub open spec fn dimensions_fit(width: u32, height: u32) -> bool {
    &&& 3 * (width as int) <= usize::MAX
    &&& sample_count(width, height) <= isize::MAX
}

/// Calls `DynamicImage::width`.
#[verifier::external_body]
pub(crate) fn image_width(img: &DynamicImage) -> (width: u32)
    ensures
        width == width_of(*img),
{
    img.width()
}

/// Calls `DynamicImage::height`.
#[verifier::external_body]
pub(crate) fn image_height(img: &DynamicImage) -> (height: u32)
    ensures
        height == height_of(*img),
{
    img.height()
}

/// Calls `DynamicImage::to_rgb8` and copies the pixels out in iteration order,
/// three samples each. The converted buffer has the dimensions of `img`, and
/// `ImageBuffer::pixels` walks exactly `width * height` pixels, so the result
/// holds `3 * width * height` samples.
///
/// For an image that is not 8-bit RGB already, the conversion allocates that
/// many bytes and then builds the buffer with `ImageBuffer::from_vec`, whose
/// refusal it treats as a fault. `from_vec` refuses where `3 * width` does not
/// fit in a machine word, whatever the height. `requires` leaves out both:
/// the samples fit in a `Vec`, and a row fits in a word.
#[verifier::external_body]
pub(crate) fn image_rgb8(img: &DynamicImage) -> (samples: Vec<u8>)
    requires
        dimensions_fit(width_of(*img), height_of(*img)),
    ensures
        samples@ == rgb8_of(*img),
        samples@.len() == sample_count(width_of(*img), height_of(*img)),
{
    img.to_rgb8().pixels().flat_map(|pixel| pixel.0).collect()
}

/// Calls `ImageBuffer::from_raw` for an RGB image and wraps it as
/// `DynamicImage::ImageRgb8`. `from_raw` computes `3 * width` and then that
/// times `height`, each checked in a machine word, and returns `Some` when
/// neither overflows and the buffer holds at least that many samples; it
/// keeps the buffer as it is. `to_rgb8` of an `ImageRgb8` is a clone, so the
/// samples read back are the ones given. Nothing is said of a call in which
/// `3 * width` does not fit in a word, or the buffer has another length.
#[verifier::external_body]
pub(crate) fn image_from_rgb8(width: u32, height: u32, samples: Vec<u8>) -> (img: Option<DynamicImage>)
    ensures
        3 * width <= usize::MAX && samples@.len() == sample_count(width, height) ==> img is Some,
        3 * width <= usize::MAX && samples@.len() == sample_count(width, height) ==> width_of(
            img->0,
        ) == width && height_of(img->0) == height && rgb8_of(img->0) == samples@,
{
    image::RgbImage::from_raw(width, height, samples).map(DynamicImage::ImageRgb8)
}

/// Whether an image can be held as RGB samples on this machine, which is what
/// the transforms ask of the images they are given.
pub fn samples_fit(img: &DynamicImage) -> (fits: bool)
    ensures
        fits == dimensions_fit(width_of(*img), height_of(*img)),
{
    let width: u128 = image_width(img) as u128;
    let height: u128 = image_height(img) as u128;
    assert(0 <= 3 * width * height <= 3 * 0xffff_ffff * 0xffff_ffff) by (nonlinear_arith)
        requires
            0 <= width <= 0xffff_ffff,
            0 <= height <= 0xffff_ffff,
    ;
    3 * width <= usize::MAX as u128 && 3 * width * height <= isize::MAX as u128
}

} // verus!
