use foto::cmds::contrast::{
    adjust_pixel_contrast, apply_contrast, contrast_samples, validate_contrast,
};
use foto::error::InvalidParameter;
use image::{DynamicImage, GrayImage, RgbImage};

const HALF: i64 = 500_000;
const ONE: i64 = 1_000_000;
const MID: i64 = 128_000_000;

fn rgb_image(width: u32, height: u32, samples: Vec<u8>) -> DynamicImage {
    DynamicImage::ImageRgb8(RgbImage::from_raw(width, height, samples).unwrap())
}

#[test]
fn stretch_follows_the_formula() {
    let values: [u8; 6] = [0, 50, 128, 129, 200, 255];
    let stretched: Vec<u8> = values.iter().map(|&v| adjust_pixel_contrast(v, 1_500_000, MID)).collect();
    assert_eq!(stretched, vec![0, 11, 128, 129, 236, 255]);
    let squeezed: Vec<u8> = values.iter().map(|&v| adjust_pixel_contrast(v, HALF, MID)).collect();
    assert_eq!(squeezed, vec![64, 89, 128, 128, 164, 191]);
}

#[test]
fn stretch_with_a_fractional_threshold() {
    let values: [u8; 5] = [0, 100, 101, 150, 255];
    let out: Vec<u8> = values.iter().map(|&v| adjust_pixel_contrast(v, 2 * ONE, 100_500_000)).collect();
    assert_eq!(out, vec![0, 99, 101, 199, 255]);
}

#[test]
fn stretch_never_overflows() {
    for value in [0u8, 1, 128, 255] {
        for factor in [i64::MIN, -1, 0, 1, i64::MAX] {
            for threshold in [i64::MIN, -1, 0, 1, i64::MAX] {
                let _ = adjust_pixel_contrast(value, factor, threshold);
            }
        }
    }
    assert_eq!(adjust_pixel_contrast(255, i64::MAX, 1), 255);
    assert_eq!(adjust_pixel_contrast(0, i64::MAX, 1), 0);
}

#[test]
fn unit_ratio_is_the_identity() {
    let samples: Vec<u8> = (0..=255).collect();
    for threshold in [1, HALF, MID, 100_500_000, 255_999_999] {
        assert_eq!(contrast_samples(&samples, ONE, threshold), samples);
    }
}

#[test]
fn larger_ratio_never_moves_a_value_back() {
    let ratios: [i64; 6] = [100_000, HALF, ONE, 1_100_000, 2 * ONE, 50 * ONE];
    for value in 0..=255u8 {
        for pair in ratios.windows(2) {
            let low = adjust_pixel_contrast(value, pair[0], MID);
            let high = adjust_pixel_contrast(value, pair[1], MID);
            if value > 128 {
                assert!(low <= high);
            } else if value < 128 {
                assert!(low >= high);
            } else {
                assert_eq!(low, high);
            }
        }
    }
}

#[test]
fn truncation_can_hide_a_small_increase_of_the_ratio() {
    assert_eq!(adjust_pixel_contrast(129, ONE, MID), 129);
    assert_eq!(adjust_pixel_contrast(129, 1_100_000, MID), 129);
    assert_eq!(adjust_pixel_contrast(129, 2 * ONE, MID), 130);
}

#[test]
fn validation_accepts_the_open_interval() {
    assert_eq!(validate_contrast(1, 1), Ok(()));
    assert_eq!(validate_contrast(ONE, MID), Ok(()));
    assert_eq!(validate_contrast(i64::MAX, 255_999_999), Ok(()));
}

#[test]
fn validation_rejects_a_ratio_that_is_not_positive() {
    assert_eq!(validate_contrast(0, MID), Err(InvalidParameter::Ratio));
    assert_eq!(validate_contrast(-ONE, MID), Err(InvalidParameter::Ratio));
    assert_eq!(validate_contrast(0, 0), Err(InvalidParameter::Ratio));
}

#[test]
fn validation_rejects_a_threshold_outside_the_interval() {
    for threshold in [0, 256 * ONE, -5 * ONE, 300 * ONE] {
        assert_eq!(validate_contrast(ONE, threshold), Err(InvalidParameter::Threshold));
    }
}

#[test]
fn image_comes_back_stretched() {
    let img = rgb_image(2, 2, vec![0, 50, 128, 129, 200, 255, 10, 20, 30, 250, 240, 230]);
    let out = apply_contrast(img, 1_500_000, MID).unwrap();
    assert_eq!((out.width(), out.height()), (2, 2));
    assert_eq!(
        out.to_rgb8().into_raw(),
        vec![0, 11, 128, 129, 236, 255, 0, 0, 0, 255, 255, 255]
    );
}

#[test]
fn image_keeps_its_shape() {
    for (width, height) in [(0u32, 0u32), (1, 1), (3, 1), (1, 5), (4, 3)] {
        let count = (3 * width * height) as usize;
        let samples: Vec<u8> = (0..count).map(|i| (i * 7 % 256) as u8).collect();
        let out = apply_contrast(rgb_image(width, height, samples.clone()), 2 * ONE, MID).unwrap();
        assert_eq!((out.width(), out.height()), (width, height));
        assert_eq!(out.to_rgb8().into_raw(), contrast_samples(&samples, 2 * ONE, MID));
    }
}

#[test]
fn image_with_unit_ratio_is_unchanged() {
    let samples: Vec<u8> = vec![1, 2, 3, 4, 5, 6, 7, 8, 9, 250, 251, 252];
    let out = apply_contrast(rgb_image(4, 1, samples.clone()), ONE, 77_000_000).unwrap();
    assert_eq!(out.to_rgb8().into_raw(), samples);
}

#[test]
fn image_with_spare_bytes_yields_only_its_pixels() {
    let img = rgb_image(1, 1, vec![10, 20, 30, 40, 50, 60]);
    let out = apply_contrast(img, ONE, MID).unwrap();
    assert_eq!(out.to_rgb8().into_raw(), vec![10, 20, 30]);
}

#[test]
fn gray_image_is_read_as_rgb() {
    let gray = DynamicImage::ImageLuma8(GrayImage::from_raw(2, 1, vec![50, 200]).unwrap());
    let as_rgb = gray.to_rgb8().into_raw();
    assert_eq!(as_rgb.len(), 6);
    let out = apply_contrast(gray, 1_500_000, MID).unwrap();
    assert_eq!((out.width(), out.height()), (2, 1));
    assert_eq!(out.to_rgb8().into_raw(), contrast_samples(&as_rgb, 1_500_000, MID));
}

#[test]
fn image_is_rejected_with_invalid_parameters() {
    let img = || rgb_image(1, 1, vec![1, 2, 3]);
    assert_eq!(apply_contrast(img(), 0, MID).err(), Some(InvalidParameter::Ratio));
    assert_eq!(apply_contrast(img(), -1, MID).err(), Some(InvalidParameter::Ratio));
    for threshold in [0, 256 * ONE, -5 * ONE, 300 * ONE] {
        assert_eq!(apply_contrast(img(), ONE, threshold).err(), Some(InvalidParameter::Threshold));
    }
}

#[test]
fn messages_name_the_rejected_parameter() {
    assert_eq!(InvalidParameter::Ratio.message(), "Contrast ratio must be greater than 0");
    assert_eq!(InvalidParameter::Threshold.message(), "Threshold must be between 1 and 255");
    assert_eq!(InvalidParameter::Amount.message(), "Saturation amount must be greater than 0");
    assert_eq!(
        InvalidParameter::Strategy.message(),
        "Invalid saturation type. Use 'hsv' or 'lum' or 'lumsimd'"
    );
}

#[test]
fn threshold_range_is_open_at_both_ends() {
    assert!(!foto::cmds::contrast::threshold_in_range(0));
    assert!(foto::cmds::contrast::threshold_in_range(1));
    assert!(foto::cmds::contrast::threshold_in_range(255_999_999));
    assert!(!foto::cmds::contrast::threshold_in_range(256_000_000));
    assert!(!foto::cmds::contrast::threshold_in_range(-5_000_000));
    assert!(!foto::cmds::contrast::threshold_in_range(300_000_000));
}

#[test]
fn try_apply_checks_parameters_then_size() {
    let img = || rgb_image(2, 1, vec![0, 50, 128, 129, 200, 255]);
    assert!(foto::raster::samples_fit(&img()));
    let out = foto::cmds::contrast::try_apply_contrast(img(), 1_500_000, MID).unwrap().unwrap();
    assert_eq!(out.to_rgb8().into_raw(), vec![0, 11, 128, 129, 236, 255]);
    assert_eq!(
        foto::cmds::contrast::try_apply_contrast(img(), 0, MID),
        Some(Err(InvalidParameter::Ratio))
    );
    assert_eq!(
        foto::cmds::contrast::try_apply_contrast(img(), ONE, 256 * ONE),
        Some(Err(InvalidParameter::Threshold))
    );
}

#[test]
fn a_wide_image_without_rows_is_held_where_a_row_fits_in_a_word() {
    let wide = || DynamicImage::new_luma8(0x8000_0000, 0);
    let row_fits = 3 * 0x8000_0000u128 <= usize::MAX as u128;
    assert_eq!(foto::raster::samples_fit(&wide()), row_fits);
    let out = foto::cmds::contrast::try_apply_contrast(wide(), 2 * ONE, MID);
    assert_eq!(out.is_some(), row_fits);
    if let Some(res) = out {
        let img = res.unwrap();
        assert_eq!((img.width(), img.height()), (0x8000_0000, 0));
        assert!(img.to_rgb8().into_raw().is_empty());
    }
    let checked_first = foto::cmds::contrast::try_apply_contrast(wide(), 0, MID);
    assert_eq!(checked_first, Some(Err(InvalidParameter::Ratio)));
}
