use imgcmp::compare::{abs_diff, channel_divergent, compare, diff_channel, pixel_mismatched, Config};
use imgcmp::raster::{Image, Pixel};
use imgcmp::threshold::ErrorThreshold;

fn px(r: u8, g: u8, b: u8) -> Pixel {
    Pixel { r, g, b }
}

fn img(w: u32, h: u32, pixels: Vec<Pixel>) -> Image {
    Image::from_pixels(w, h, pixels).unwrap()
}

#[test]
fn identical_images_match_under_any_thresholds() {
    let pixels = vec![px(1, 2, 3), px(4, 5, 6), px(7, 8, 9), px(250, 251, 252)];
    let a = img(2, 2, pixels.clone());
    let b = img(2, 2, pixels);
    for t in [0u8, 5, 255] {
        let cfg = Config {
            channel_threshold: t,
            error_threshold: ErrorThreshold::Absolute(0),
            want_diff_image: true,
        };
        let out = compare(&a, &b, &cfg);
        assert!(out.matched);
        assert_eq!(out.mismatched_pixel_count, 0);
        let d = out.diff_image.unwrap();
        assert_eq!(d.width, 2);
        assert_eq!(d.height, 2);
        for p in &d.pixels {
            assert_eq!((p.r, p.g, p.b), (0, 0, 0));
        }
    }
}

#[test]
fn dimension_mismatch_is_immediate_non_match() {
    let a = img(4, 4, vec![px(0, 0, 0); 16]);
    let b = img(4, 5, vec![px(0, 0, 0); 20]);
    let cfg = Config {
        channel_threshold: 255,
        error_threshold: ErrorThreshold::Absolute(1_000_000),
        want_diff_image: true,
    };
    let out = compare(&a, &b, &cfg);
    assert!(!out.matched);
    assert!(out.dimension_mismatch);
    assert_eq!(out.mismatched_pixel_count, 0);
    assert!(out.diff_image.is_none());
}

#[test]
fn one_divergent_pixel_with_zero_error_threshold_is_a_mismatch() {
    let base = vec![px(50, 60, 70); 4];
    let mut other = base.clone();
    other[2] = px(60, 60, 70); // red differs by 10
    let a = img(2, 2, base);
    let b = img(2, 2, other);
    let cfg = Config {
        channel_threshold: 5,
        error_threshold: ErrorThreshold::Absolute(0),
        want_diff_image: true,
    };
    let out = compare(&a, &b, &cfg);
    assert!(!out.matched);
    assert!(!out.dimension_mismatch);
    assert_eq!(out.mismatched_pixel_count, 1);
    let d = out.diff_image.unwrap();
    assert_eq!(d.width, 2);
    assert_eq!(d.height, 2);
    // 128 | (10 >> 1) == 133 in the red channel of the one divergent pixel
    assert_eq!((d.pixels[2].r, d.pixels[2].g, d.pixels[2].b), (133, 0, 0));
    for (i, p) in d.pixels.iter().enumerate() {
        if i != 2 {
            assert_eq!((p.r, p.g, p.b), (0, 0, 0));
        }
    }
}

#[test]
fn one_divergent_pixel_within_error_threshold_is_a_match() {
    let base = vec![px(50, 60, 70); 4];
    let mut other = base.clone();
    other[2] = px(60, 60, 70);
    let a = img(2, 2, base);
    let b = img(2, 2, other);
    let cfg = Config {
        channel_threshold: 5,
        error_threshold: ErrorThreshold::Absolute(1),
        want_diff_image: false,
    };
    let out = compare(&a, &b, &cfg);
    assert!(out.matched);
    assert_eq!(out.mismatched_pixel_count, 1);
    assert!(out.diff_image.is_none());
}

#[test]
fn error_threshold_boundary_is_inclusive() {
    // two mismatched pixels
    let base = vec![px(0, 0, 0); 4];
    let mut other = base.clone();
    other[0] = px(100, 0, 0);
    other[3] = px(0, 100, 0);
    let a = img(4, 1, base);
    let b = img(4, 1, other);
    for (limit, expected_match) in [(1u32, false), (2, true), (3, true)] {
        let cfg = Config {
            channel_threshold: 0,
            error_threshold: ErrorThreshold::Absolute(limit),
            want_diff_image: false,
        };
        let out = compare(&a, &b, &cfg);
        assert_eq!(out.mismatched_pixel_count, 2);
        assert_eq!(out.matched, expected_match);
    }
}

#[test]
fn raising_channel_threshold_never_raises_the_count() {
    let base = vec![px(10, 10, 10), px(10, 10, 10), px(10, 10, 10), px(10, 10, 10)];
    let mut other = base.clone();
    other[0] = px(15, 10, 10); // diff 5
    other[1] = px(10, 40, 10); // diff 30
    let a = img(2, 2, base);
    let b = img(2, 2, other);
    let mut last = u64::MAX;
    for t in 0u8..=255 {
        let cfg = Config {
            channel_threshold: t,
            error_threshold: ErrorThreshold::Absolute(0),
            want_diff_image: false,
        };
        let out = compare(&a, &b, &cfg);
        assert!(out.mismatched_pixel_count <= last);
        last = out.mismatched_pixel_count;
    }
    // spot values: both divergent below 5, one between 5 and 29, none from 30 on
    let count_at = |t: u8| {
        let cfg = Config {
            channel_threshold: t,
            error_threshold: ErrorThreshold::Absolute(0),
            want_diff_image: false,
        };
        compare(&a, &b, &cfg).mismatched_pixel_count
    };
    assert_eq!(count_at(4), 2);
    assert_eq!(count_at(5), 1);
    assert_eq!(count_at(29), 1);
    assert_eq!(count_at(30), 0);
}

#[test]
fn diff_channel_boundary_values() {
    // a difference of exactly the threshold stays 0; one past it is remapped
    assert_eq!(diff_channel(15, 10, 5), 0);
    assert_eq!(diff_channel(16, 10, 5), 128 | (6 >> 1)); // 131
    assert_eq!(diff_channel(10, 20, 5), 133); // 128 | (10 >> 1)
    assert_eq!(diff_channel(0, 255, 0), 255); // 128 | (255 >> 1)
    assert_eq!(diff_channel(0, 255, 255), 0); // nothing exceeds 255
}

#[test]
fn channel_helpers_agree_with_their_definitions() {
    assert_eq!(abs_diff(3, 250), 247);
    assert_eq!(abs_diff(250, 3), 247);
    assert_eq!(abs_diff(9, 9), 0);
    assert!(channel_divergent(0, 1, 0));
    assert!(!channel_divergent(0, 1, 1));
    assert!(pixel_mismatched(px(0, 0, 0), px(0, 0, 9), 8));
    assert!(!pixel_mismatched(px(0, 0, 0), px(8, 8, 8), 8));
}

#[test]
fn ratio_threshold_scales_with_the_image() {
    // 8 of 16 pixels mismatched: exactly at a 50% threshold, over a 33% one
    let base = vec![px(0, 0, 0); 16];
    let mut other = base.clone();
    for i in 0..8 {
        other[i] = px(255, 255, 255);
    }
    let a = img(4, 4, base);
    let b = img(4, 4, other);
    let half = Config {
        channel_threshold: 0,
        error_threshold: ErrorThreshold::Ratio { num: 50, den: 100 },
        want_diff_image: false,
    };
    let third = Config {
        channel_threshold: 0,
        error_threshold: ErrorThreshold::Ratio { num: 33, den: 100 },
        want_diff_image: false,
    };
    let out_half = compare(&a, &b, &half);
    assert_eq!(out_half.mismatched_pixel_count, 8);
    assert!(out_half.matched); // 8 <= floor(0.5 * 16) = 8
    let out_third = compare(&a, &b, &third);
    assert!(!out_third.matched); // 8 > floor(0.33 * 16) = 5
}

#[test]
fn from_pixels_rejects_a_wrong_buffer_length() {
    assert!(Image::from_pixels(2, 2, vec![px(0, 0, 0); 3]).is_none());
    assert!(Image::from_pixels(2, 2, vec![px(0, 0, 0); 4]).is_some());
    assert!(Image::from_pixels(0, 7, Vec::new()).is_some());
}

#[test]
fn pixel_lookup_is_row_major() {
    let a = img(3, 2, vec![
        px(0, 0, 0), px(1, 0, 0), px(2, 0, 0),
        px(0, 1, 0), px(1, 1, 0), px(2, 1, 0),
    ]);
    assert_eq!(a.pixel_at(2, 0), px(2, 0, 0));
    assert_eq!(a.pixel_at(0, 1), px(0, 1, 0));
    assert_eq!(a.pixel_index(4), px(1, 1, 0));
    assert_eq!(a.pixel_count(), 6);
}
