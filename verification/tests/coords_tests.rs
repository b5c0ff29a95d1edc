use photo_catalog::coords::{
    distance, dms_to_fixed, to_decimal_degrees, GpsDms, Location, Rational, MAX_COORD,
    MILLI_ARCSEC_PER_DEGREE,
};

fn dms(dn: u32, dd: u32, mn: u32, md: u32, sn: u32, sd: u32, negative: bool) -> GpsDms {
    GpsDms {
        degrees: Rational { num: dn, den: dd },
        minutes: Rational { num: mn, den: md },
        seconds: Rational { num: sn, den: sd },
        negative,
    }
}

#[test]
fn ten_degrees_thirty_minutes_is_ten_point_five() {
    let r = to_decimal_degrees(10, 30, 0, false);
    assert_eq!(r, 37_800_000);
    assert_eq!(r as f64 / MILLI_ARCSEC_PER_DEGREE as f64, 10.5);
}

#[test]
fn southern_hemisphere_negates() {
    let r = to_decimal_degrees(10, 30, 0, true);
    assert_eq!(r, -37_800_000);
    assert_eq!(r as f64 / MILLI_ARCSEC_PER_DEGREE as f64, -10.5);
}

#[test]
fn monotonic_in_each_component() {
    let base = to_decimal_degrees(10, 30, 0, false);
    assert!(to_decimal_degrees(11, 30, 0, false) > base);
    assert!(to_decimal_degrees(10, 31, 0, false) > base);
    assert!(to_decimal_degrees(10, 30, 1, false) > base);
}

#[test]
fn zero_is_zero_in_both_hemispheres() {
    assert_eq!(to_decimal_degrees(0, 0, 0, false), 0);
    assert_eq!(to_decimal_degrees(0, 0, 0, true), 0);
}

#[test]
fn rational_coordinate_converts_exactly() {
    // 70 deg 30 min 45.5 sec
    let d = dms(70, 1, 30, 1, 91, 2, false);
    let r = dms_to_fixed(&d).unwrap();
    assert_eq!(r, 70 * 3_600_000 + 30 * 60_000 + 45_500);
}

#[test]
fn rational_coordinate_negative_hemisphere() {
    let d = dms(70, 1, 30, 1, 91, 2, true);
    let r = dms_to_fixed(&d).unwrap();
    assert_eq!(r, -(70 * 3_600_000 + 30 * 60_000 + 45_500));
}

#[test]
fn zero_denominator_is_malformed() {
    assert!(dms_to_fixed(&dms(70, 0, 30, 1, 0, 1, false)).is_none());
    assert!(dms_to_fixed(&dms(70, 1, 30, 0, 0, 1, false)).is_none());
    assert!(dms_to_fixed(&dms(70, 1, 30, 1, 0, 0, false)).is_none());
}

#[test]
fn magnitude_beyond_180_degrees_is_malformed() {
    assert!(dms_to_fixed(&dms(181, 1, 0, 1, 0, 1, false)).is_none());
    let r = dms_to_fixed(&dms(180, 1, 0, 1, 0, 1, false)).unwrap();
    assert_eq!(r, MAX_COORD);
}

#[test]
fn distance_is_squared_euclidean() {
    let a = Location { lat: 0, lng: 0 };
    let b = Location { lat: 3, lng: 4 };
    assert_eq!(distance(&a, &b), 25);
    assert_eq!(distance(&b, &a), 25);
    assert_eq!(distance(&a, &a), 0);
}
