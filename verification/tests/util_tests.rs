use asset_formats::bcn::util::{
    absdiff, avg_error, distinct_values, generate_palette, generate_palette3d_rgb, map_color, pol,
};

#[test]
fn absolute_difference() {
    assert_eq!(absdiff(10, 3), 7);
    assert_eq!(absdiff(3, 10), 7);
    assert_eq!(absdiff(255, 0), 255);
    assert_eq!(absdiff(9, 9), 0);
}

/// The fixed-point interpolation hits its endpoints and is monotone in the
/// step when the endpoints are ordered.
#[test]
fn interpolation_steps() {
    assert_eq!(pol(100, 200, 0, 7), 100);
    assert_eq!(pol(100, 200, 7, 7), 200);
    assert_eq!(pol(0, 255, 1, 3), 85);
    assert_eq!(pol(0, 255, 2, 3), 170);
    let mut last = 0;
    for i in 0..=7 {
        let v = pol(17, 231, i, 7);
        assert!(v >= last);
        last = v;
    }
}

#[test]
fn distinct_values_sorted_unique() {
    assert_eq!(distinct_values(&[5, 1, 5, 3, 1]), vec![1, 3, 5]);
    assert_eq!(distinct_values(&[9, 9, 9]), vec![9]);
    assert_eq!(distinct_values(&[]), Vec::<u8>::new());
}

/// The fitted endpoints: a single repeated value yields itself twice, an
/// exact line yields its extremities, and an outlier is regressed away from.
#[test]
fn fitted_endpoints() {
    assert_eq!(generate_palette(&[5, 5, 5]), (5, 5));
    assert_eq!(generate_palette(&[0, 128]), (0, 128));
    assert_eq!(generate_palette(&[10, 20, 30, 40]), (10, 40));
    // the regression line is gentler than the raw min/max here
    assert_eq!(generate_palette(&[0, 100, 110, 120]), (27, 138));
}

#[test]
fn fitted_endpoints_clamped() {
    // a steep two-point line evaluated at its ends stays within the byte range
    let (lo, hi) = generate_palette(&[0, 255]);
    assert_eq!((lo, hi), (0, 255));
}

#[test]
fn three_channel_endpoints() {
    let (lo, hi) = generate_palette3d_rgb(&[0, 0, 0, 30, 60, 90]);
    assert_eq!(lo, [0, 0, 0]);
    assert_eq!(hi, [30, 60, 90]);
}

/// The stepped palette mapper returns the nearest entry, first on ties.
#[test]
fn stepped_palette_mapping() {
    // entries 0, 50, 100, 150
    assert_eq!(map_color(100, (0, 200), 4), (2, 100));
    assert_eq!(map_color(149, (0, 200), 4), (3, 150));
    // 25 is equidistant from entries 0 and 50: the lower index wins
    assert_eq!(map_color(25, (0, 200), 4), (0, 0));
    // endpoint order does not matter
    assert_eq!(map_color(100, (200, 0), 4), (2, 100));
}

#[test]
fn average_mapping_error() {
    assert_eq!(avg_error(&[0, 50, 100], (0, 200), 4), 0);
    // 10 maps to entry 0 (error 10), 60 maps to entry 50 (error 10)
    assert_eq!(avg_error(&[10, 60], (0, 200), 4), 10);
    assert_eq!(avg_error(&[7, 7, 7, 7], (7, 7), 8), 0);
}
