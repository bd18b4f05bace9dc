use geotimezone::coords::{
    Coords, natural_tz_offset_from_utc, natural_hours_offset_from_utc, loc_string_to_coords,
};

#[test]
fn natural_offset_at_meridian_is_zero() {
    assert_eq!(natural_tz_offset_from_utc(0), 0);
}

#[test]
fn natural_offset_mid_atlantic() {
    assert_eq!(natural_tz_offset_from_utc(-30_000_000), -7200);
}

#[test]
fn natural_offset_date_line() {
    assert_eq!(natural_tz_offset_from_utc(180_000_000), -43200);
    assert_eq!(natural_tz_offset_from_utc(-180_000_000), -43200);
}

#[test]
fn natural_offset_range_samples() {
    // the offset stays within half a day for all longitudes
    for lng in [
        -100_000_000_000i64,
        -540_000_000,
        -180_000_000,
        -1,
        0,
        1,
        7_499_999,
        172_500_000,
        359_000_000,
        100_000_000_000,
    ] {
        let r = natural_tz_offset_from_utc(lng);
        assert!(-43200 <= r && r < 43200);
    }
}

#[test]
fn natural_offset_mirror_symmetry() {
    // offsets of a longitude and its negation cancel modulo a day
    for lng in [10_000_000i64, 30_000_000, 123_456_789, 179_999_999] {
        let a = natural_tz_offset_from_utc(lng) as i64;
        let b = natural_tz_offset_from_utc(-lng) as i64;
        assert_eq!((a + b).rem_euclid(86400), 0);
    }
}

#[test]
fn natural_hours_mid_atlantic() {
    assert_eq!(natural_hours_offset_from_utc(-30_000_000), -2);
}

#[test]
fn natural_hours_far_east_cap() {
    assert_eq!(natural_hours_offset_from_utc(172_500_000), 12);
    assert_eq!(natural_hours_offset_from_utc(179_000_000), 12);
}

#[test]
fn natural_hours_near_meridian() {
    assert_eq!(natural_hours_offset_from_utc(0), 0);
    assert_eq!(natural_hours_offset_from_utc(7_400_000), 0);
    assert_eq!(natural_hours_offset_from_utc(7_500_000), 1);
}

#[test]
fn parses_coordinate_pair() {
    let c = loc_string_to_coords("51.5,-0.12");
    assert_eq!(c.lat, 51_500_000);
    assert_eq!(c.lng, -120_000);
}

#[test]
fn parses_bare_integers_and_extras() {
    let c = loc_string_to_coords("1,2,3");
    assert_eq!(c.lat, 1_000_000);
    assert_eq!(c.lng, 2_000_000);
}

#[test]
fn parses_signs_and_partial_decimals() {
    let c = loc_string_to_coords("+3.25,-4");
    assert_eq!(c.lat, 3_250_000);
    assert_eq!(c.lng, -4_000_000);
    let d = loc_string_to_coords(".5,5.");
    assert_eq!(d.lat, 500_000);
    assert_eq!(d.lng, 5_000_000);
}

#[test]
fn truncates_long_fractions() {
    let c = loc_string_to_coords("1.23456789,0");
    assert_eq!(c.lat, 1_234_567);
}

#[test]
fn too_few_valid_fields_is_origin() {
    let c = loc_string_to_coords("abc,1x");
    assert_eq!(c.lat, 0);
    assert_eq!(c.lng, 0);
    let d = loc_string_to_coords("5");
    assert_eq!((d.lat, d.lng), (0, 0));
}

#[test]
fn zero_constructor() {
    let z = Coords::zero();
    assert_eq!((z.lat, z.lng), (0, 0));
    let c = Coords::new(7, -9);
    assert_eq!((c.lat, c.lng), (7, -9));
}
