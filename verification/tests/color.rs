use foto::utils::color::{hsv_to_rgb, rgb_to_hsv};

// Values can be confirmed from: https://www.rapidtables.com/convert/color/rgb-to-hsv.html
#[test]
fn test_rgb_to_hsv() {
    let (h, s, v) = rgb_to_hsv(51, 100, 222);
    let (h, s, v) = (h as f64 / 1e6, s as f64 / 1e6, v as f64 / 1e6);
    assert!((h - 222.807).abs() < 0.01, "Hue should be approx 223");
    assert!((s - 0.77).abs() < 0.01, "Saturation should be approx 0.77");
    assert!((v - 0.871).abs() < 0.01, "Value should be approx 0.871");
}

#[test]
fn test_hsv_to_rgb() {
    let (r, g, b) = hsv_to_rgb(222_807_000, 770_000, 871_000);
    assert_eq!(r, 51);
    assert_eq!(g, 100);
    assert_eq!(b, 222);
}

#[test]
fn rgb_to_hsv_gives_exact_fixed_point_components() {
    assert_eq!(rgb_to_hsv(51, 100, 222), (222_807_017, 770_270, 870_588));
    assert_eq!(rgb_to_hsv(10, 200, 30), (126_315_789, 950_000, 784_313));
    assert_eq!(rgb_to_hsv(200, 10, 30), (353_684_210, 950_000, 784_313));
}

#[test]
fn rgb_to_hsv_of_primaries() {
    assert_eq!(rgb_to_hsv(255, 0, 0), (0, 1_000_000, 1_000_000));
    assert_eq!(rgb_to_hsv(255, 255, 0), (60_000_000, 1_000_000, 1_000_000));
    assert_eq!(rgb_to_hsv(0, 255, 0), (120_000_000, 1_000_000, 1_000_000));
    assert_eq!(rgb_to_hsv(0, 0, 255), (240_000_000, 1_000_000, 1_000_000));
}

#[test]
fn rgb_to_hsv_of_grays_has_hue_zero() {
    assert_eq!(rgb_to_hsv(0, 0, 0), (0, 0, 0));
    assert_eq!(rgb_to_hsv(128, 128, 128), (0, 0, 501_960));
    assert_eq!(rgb_to_hsv(255, 255, 255), (0, 0, 1_000_000));
}

#[test]
fn rgb_to_hsv_stays_in_range() {
    for r in (0..=255u8).step_by(5) {
        for g in (0..=255u8).step_by(15) {
            for b in (0..=255u8).step_by(17) {
                let (h, s, v) = rgb_to_hsv(r, g, b);
                assert!(h < 360_000_000);
                assert!(s <= 1_000_000);
                assert!(v <= 1_000_000);
            }
        }
    }
}

#[test]
fn hsv_to_rgb_of_sector_colours() {
    assert_eq!(hsv_to_rgb(0, 1_000_000, 1_000_000), (255, 0, 0));
    assert_eq!(hsv_to_rgb(60_000_000, 500_000, 1_000_000), (255, 255, 128));
    assert_eq!(hsv_to_rgb(120_000_000, 1_000_000, 500_000), (0, 128, 0));
    assert_eq!(hsv_to_rgb(300_000_000, 250_000, 800_000), (204, 153, 204));
}

#[test]
fn hsv_to_rgb_at_full_turn_falls_back_to_the_match_value() {
    assert_eq!(hsv_to_rgb(360_000_000, 1_000_000, 1_000_000), (0, 0, 0));
    assert_eq!(hsv_to_rgb(360_000_000, 0, 1_000_000), (255, 255, 255));
    assert_eq!(hsv_to_rgb(u32::MAX, 0, 500_000), (128, 128, 128));
}

#[test]
fn hsv_to_rgb_clamps_components_beyond_their_range() {
    assert_eq!(hsv_to_rgb(0, 2_000_000, 1_000_000), (255, 0, 0));
    assert_eq!(hsv_to_rgb(0, 0, 2_000_000), (255, 255, 255));
    let _ = hsv_to_rgb(u32::MAX, u32::MAX, u32::MAX);
}

#[test]
fn every_colour_on_a_grid_survives_the_round_trip() {
    for r in (0..=255u8).step_by(3) {
        for g in (0..=255u8).step_by(5) {
            for b in (0..=255u8).step_by(7) {
                let (h, s, v) = rgb_to_hsv(r, g, b);
                assert_eq!(hsv_to_rgb(h, s, v), (r, g, b));
            }
        }
    }
}

#[test]
fn hsv_survives_the_round_trip_within_tolerance() {
    let cases: [(u32, u32, u32); 4] = [
        (222_807_000, 770_000, 871_000),
        (30_000_000, 500_000, 900_000),
        (200_000_000, 900_000, 600_000),
        (340_000_000, 300_000, 1_000_000),
    ];
    for (h, s, v) in cases {
        let (r, g, b) = hsv_to_rgb(h, s, v);
        let (h2, s2, v2) = rgb_to_hsv(r, g, b);
        assert!((h as f64 - h2 as f64).abs() / 1e6 <= 1.0);
        assert!((s as f64 - s2 as f64).abs() / 1e6 <= 0.01);
        assert!((v as f64 - v2 as f64).abs() / 1e6 <= 0.01);
    }
}

#[test]
fn value_survives_the_round_trip_for_every_triple_on_a_grid() {
    for h in (0..360_000_000u32).step_by(7_300_001) {
        for s in (0..=1_000_000u32).step_by(90_909) {
            for v in (0..=1_000_000u32).step_by(1_237) {
                let (r, g, b) = hsv_to_rgb(h, s, v);
                let (_, _, back) = rgb_to_hsv(r, g, b);
                let drift = 510 * (back as i64 - v as i64);
                assert!(-(1_000_000 + 510) < drift && drift <= 1_000_000);
            }
        }
    }
}

#[test]
fn a_dark_colour_cannot_carry_its_hue_and_saturation() {
    let (r, g, b) = hsv_to_rgb(100_000_000, 500_000, 3_000);
    assert_eq!((r, g, b), (1, 1, 0));
    assert_eq!(rgb_to_hsv(r, g, b), (60_000_000, 1_000_000, 3_921));
}

fn hue_distance(h: u32, k: u32) -> i64 {
    let apart = (h as i64 - k as i64).abs();
    apart.min(360_000_000 - apart)
}

#[test]
fn a_bright_and_colourful_triple_survives_the_round_trip() {
    let mut checked = 0;
    for h in (0..360_000_000u32).step_by(1_234_567) {
        for s in (0..=1_000_000u32).step_by(33_331) {
            for v in (400_000..=1_000_000u32).step_by(25_003) {
                if (v as u64) * (s as u64) < 480_000_000_000 {
                    continue;
                }
                let (r, g, b) = hsv_to_rgb(h, s, v);
                let (h2, s2, v2) = rgb_to_hsv(r, g, b);
                assert!(hue_distance(h2, h) <= 1_000_000);
                assert!((s2 as i64 - s as i64).abs() <= 10_000);
                assert!((v2 as i64 - v as i64).abs() <= 10_000);
                checked += 1;
            }
        }
    }
    assert!(checked > 50_000);
}

#[test]
fn hue_and_saturation_drift_no_further_than_the_colour_allows() {
    for h in (0..360_000_000u32).step_by(3_456_789) {
        for s in (0..=1_000_000u32).step_by(47_619) {
            for v in (0..=1_000_000u32).step_by(9_091) {
                let (r, g, b) = hsv_to_rgb(h, s, v);
                let (h2, s2, _) = rgb_to_hsv(r, g, b);
                let largest = r.max(g).max(b) as i64;
                let spread = largest - r.min(g).min(b) as i64;
                let moved = largest * (s2 as i64 - s as i64);
                assert!(-(1_000_000 + largest) < moved && moved <= 1_000_000);
                if spread >= 3 {
                    assert!(spread * hue_distance(h2, h) < 2 * (60_000_000 + spread));
                }
            }
        }
    }
}

#[test]
fn a_dim_colour_loses_hue_and_saturation() {
    let (r, g, b) = hsv_to_rgb(100_000_000, 500_000, 10_000);
    assert_eq!((r, g, b), (2, 3, 1));
    assert_eq!(rgb_to_hsv(r, g, b), (90_000_000, 666_666, 11_764));
}
