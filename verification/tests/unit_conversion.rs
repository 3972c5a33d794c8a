use hungry_hammers::geom::Vec2;
use hungry_hammers::units::{scale, scale_vec2, unscale, unscale_vec2};

#[test]
fn scale_maps_millipixels_to_microunits() {
    // one pixel is a hundredth of a physics unit
    assert_eq!(scale(1000), 10_000);
    assert_eq!(scale(0), 0);
    assert_eq!(scale(-300_000), -3_000_000);
    assert_eq!(scale(328_000), 3_280_000);
}

#[test]
fn unscale_maps_microunits_to_millipixels() {
    assert_eq!(unscale(10_000), 1000);
    assert_eq!(unscale(0), 0);
    assert_eq!(unscale(-3_000_000), -300_000);
    // rounding is toward zero on both sides of zero
    assert_eq!(unscale(9), 0);
    assert_eq!(unscale(-9), 0);
    assert_eq!(unscale(15), 1);
    assert_eq!(unscale(-15), -1);
}

#[test]
fn unscale_inverts_scale_exactly() {
    for x in [
        0i64,
        1,
        -1,
        7,
        -7,
        1000,
        -1000,
        300_000,
        -300_000,
        999_999_999_999,
        -999_999_999_999,
    ] {
        assert_eq!(unscale(scale(x)), x);
    }
}

#[test]
fn vector_conversion_matches_scalar_conversion() {
    let v = Vec2 { x: -300_000, y: 150_000 };
    let s = scale_vec2(v);
    assert_eq!(s.x, -3_000_000);
    assert_eq!(s.y, 1_500_000);
    let u = unscale_vec2(s);
    assert_eq!(u.x, v.x);
    assert_eq!(u.y, v.y);
}
