use geotimezone::datetime::{
    iso_string_to_datetime, unixtime_to_utc, unixtime_to_weekday, unixtime_to_julian_day,
    julian_day_to_unixtime, julian_day_to_iso_datetime, julian_day_to_datetime,
    datetime_to_julian_day, match_unix_ts_from_fuzzy_datetime, DateTime, TS_MAX, TS_MIN,
    JD_UNIX_EPOCH_SECS,
};

const NOW: i64 = 1686830400;

#[test]
fn formats_epoch() {
    assert_eq!(unixtime_to_utc(0), "1970-01-01T00:00:00");
}

#[test]
fn formats_modern_instant() {
    assert_eq!(unixtime_to_utc(1686830400), "2023-06-15T12:00:00");
}

#[test]
fn formats_pre_epoch_instant() {
    assert_eq!(unixtime_to_utc(-86400), "1969-12-31T00:00:00");
}

#[test]
fn formats_leap_day() {
    // 2024-02-29T00:00:00 UTC
    assert_eq!(unixtime_to_utc(1709164800), "2024-02-29T00:00:00");
}

#[test]
fn parses_full_datetime() {
    let dt = iso_string_to_datetime("2023-06-15T12:00:00");
    assert_eq!(dt.timestamp(), 1686830400);
}

#[test]
fn parses_space_separator() {
    let dt = iso_string_to_datetime("2023-06-15 12:00:00");
    assert_eq!(dt.timestamp(), 1686830400);
}

#[test]
fn parses_date_only_padding_time() {
    let dt = iso_string_to_datetime("2023-06-15");
    assert_eq!(unixtime_to_utc(dt.timestamp()), "2023-06-15T00:00:00");
}

#[test]
fn parses_year_month_padding_day() {
    let dt = iso_string_to_datetime("2023-06");
    assert_eq!(unixtime_to_utc(dt.timestamp()), "2023-06-01T00:00:00");
}

#[test]
fn drops_fractional_seconds() {
    let dt = iso_string_to_datetime("2023-06-15T12:00:30.500");
    assert_eq!(dt.second, 30);
    assert_eq!(dt.timestamp(), 1686830430);
}

#[test]
fn unparseable_input_is_epoch() {
    let dt = iso_string_to_datetime("not a datetime");
    assert_eq!(dt.timestamp(), 0);
}

#[test]
fn invalid_month_is_epoch() {
    let dt = iso_string_to_datetime("2023-13-01T00:00:00");
    assert_eq!(dt.timestamp(), 0);
}

#[test]
fn invalid_day_is_epoch() {
    let dt = iso_string_to_datetime("2023-02-29T00:00:00");
    assert_eq!(dt.timestamp(), 0);
}

#[test]
fn fuzzy_round_trip_examples() {
    // formatting then parsing restores the instant across the range
    for ts in [
        0i64,
        1686830400,
        -1,
        -62135596800,
        253402300799,
        951782400, // 2000-02-29
    ] {
        let s = unixtime_to_utc(ts);
        assert_eq!(iso_string_to_datetime(&s).timestamp(), ts);
    }
}

#[test]
fn range_bounds_format() {
    assert_eq!(unixtime_to_utc(TS_MIN), "0001-01-01T00:00:00");
    assert_eq!(unixtime_to_utc(TS_MAX), "9999-12-31T23:59:59");
}

#[test]
fn weekday_of_epoch_is_thursday() {
    let wd = unixtime_to_weekday(0);
    assert_eq!(wd.iso, 4);
    assert_eq!(wd.sun, 5);
    assert_eq!(wd.abbr, "Thu");
}

#[test]
fn weekday_of_modern_thursday() {
    let wd = unixtime_to_weekday(1686830400);
    assert_eq!(wd.iso, 4);
    assert_eq!(wd.abbr, "Thu");
}

#[test]
fn weekday_sunday_wraps() {
    // 2023-06-18 was a Sunday
    let wd = unixtime_to_weekday(1687089600);
    assert_eq!(wd.iso, 7);
    assert_eq!(wd.sun, 1);
    assert_eq!(wd.abbr, "Sun");
}

#[test]
fn julian_day_round_trip() {
    let ts = 1686830400i64;
    let jd = unixtime_to_julian_day(ts);
    assert_eq!(jd, ts + JD_UNIX_EPOCH_SECS);
    assert_eq!(julian_day_to_unixtime(jd), ts);
}

#[test]
fn julian_day_formats_datetime() {
    let jd = unixtime_to_julian_day(1686830400);
    assert_eq!(julian_day_to_iso_datetime(jd), "2023-06-15T12:00:00");
    let dt = julian_day_to_datetime(jd);
    assert_eq!(dt.hour, 12);
}

#[test]
fn small_julian_day_is_empty() {
    assert_eq!(julian_day_to_iso_datetime(86400), "");
    assert_eq!(julian_day_to_iso_datetime(0), "");
}

#[test]
fn datetime_to_julian_day_matches() {
    assert_eq!(
        datetime_to_julian_day("2023-06-15T12:00:00"),
        1686830400 + JD_UNIX_EPOCH_SECS
    );
}

#[test]
fn strict_parse_accepts_canonical() {
    assert_eq!(
        match_unix_ts_from_fuzzy_datetime("2023-06-15T12:00:00", NOW),
        1686830400
    );
    assert_eq!(
        match_unix_ts_from_fuzzy_datetime("2023-06-15 12:00:00", NOW),
        1686830400
    );
}

#[test]
fn strict_parse_falls_back_to_now() {
    assert_eq!(match_unix_ts_from_fuzzy_datetime("2023-06-15", NOW), NOW);
    assert_eq!(match_unix_ts_from_fuzzy_datetime("junk", NOW), NOW);
}

#[test]
fn datetime_epoch_constructor() {
    let e = DateTime::epoch();
    assert_eq!(e.year, 1970);
    assert_eq!(e.timestamp(), 0);
    assert_eq!(e.year(), 1970);
}
