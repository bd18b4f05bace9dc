use geotimezone::timezone::{OffsetOverride, TimeZone, TimeZonePeriod};
use geotimezone::transitions::{TransitionRow, nearest_at_or_before, nearest_after,
    match_current_time_zone};
use geotimezone::reconcile::fetch_adjusted_date_str;

const NOW: i64 = 1686830400;

fn row(abbr: &str, start: i64, offset: i32, dst: bool) -> TransitionRow {
    TransitionRow {
        zone_name: "Europe/London".to_string(),
        country_code: "GB".to_string(),
        abbreviation: abbr.to_string(),
        time_start: start,
        gmt_offset: offset,
        dst,
    }
}

fn london_rows() -> Vec<TransitionRow> {
    vec![
        row("GMT", 1667091600, 0, false),       // 2022-10-30T01:00Z
        row("BST", 1679792400, 3600, true),     // 2023-03-26T01:00Z
        row("GMT", 1698541200, 0, false),       // 2023-10-29T01:00Z
        row("BST", 1711846800, 3600, true),     // 2024-03-31T01:00Z
    ]
}

fn la_rows() -> Vec<TransitionRow> {
    vec![
        TransitionRow {
            zone_name: "America/Los_Angeles".to_string(),
            country_code: "US".to_string(),
            abbreviation: "PST".to_string(),
            time_start: 1699174800, // 2023-11-05T09:00Z
            gmt_offset: -28800,
            dst: false,
        },
        TransitionRow {
            zone_name: "America/Los_Angeles".to_string(),
            country_code: "US".to_string(),
            abbreviation: "PDT".to_string(),
            time_start: 1710064800, // 2024-03-10T10:00Z
            gmt_offset: -25200,
            dst: true,
        },
        TransitionRow {
            zone_name: "America/Los_Angeles".to_string(),
            country_code: "US".to_string(),
            abbreviation: "PST".to_string(),
            time_start: 1730624400, // 2024-11-03T09:00Z
            gmt_offset: -28800,
            dst: false,
        },
    ]
}

#[test]
fn nearest_selection() {
    let rows = london_rows();
    let before = nearest_at_or_before(&rows, 1686830400).unwrap();
    assert_eq!(rows[before].abbreviation, "BST");
    let after = nearest_after(&rows, 1686830400).unwrap();
    assert_eq!(rows[after].time_start, 1698541200);
    assert!(nearest_at_or_before(&rows, 1667091599).is_none());
    assert!(nearest_after(&rows, 1711846800).is_none());
}

#[test]
fn summer_lookup_is_bst() {
    // zn=Europe/London dt=2023-06-15T12:00:00
    let rows = london_rows();
    let mut ov = OffsetOverride::default();
    let tz = match_current_time_zone(
        &rows,
        "Europe/London",
        "2023-06-15T12:00:00",
        None,
        true,
        &mut ov,
        NOW,
    )
    .unwrap();
    assert_eq!(tz.gmt_offset, 3600);
    assert!(tz.dst);
    assert_eq!(tz.abbreviation, "BST");
    assert_eq!(tz.local_dt.as_deref(), Some("2023-06-15T13:00:00"));
    assert_eq!(tz.utc.as_deref(), Some("2023-06-15T12:00:00"));
    assert_eq!(tz.ref_jd, Some(1686830400 + 210866760000));
    let wd = tz.week_day.as_ref().unwrap();
    assert_eq!(wd.iso, 4);
    assert_eq!(wd.sun, 5);
    assert_eq!(wd.abbr, "Thu");
    assert_eq!(tz.period.start, Some(1679792400));
    assert_eq!(tz.period.end, Some(1698541200));
    assert_eq!(tz.period.next_gmt_offset, Some(0));
    // containment of the reference instant in its period
    let t = tz.ref_unix.unwrap();
    assert!(tz.period.start.unwrap() <= t && t < tz.period.end.unwrap());
}

#[test]
fn fall_back_overlap_prefers_gmt_without_dst() {
    // zn=Europe/London dtl=2023-10-29T01:30:00 dst=0: the later (GMT) instant
    let rows = london_rows();
    let adjusted = fetch_adjusted_date_str(&rows, "2023-10-29T01:30:00", false, NOW);
    assert_eq!(adjusted, "2023-10-29T01:30:00");
    let mut ov = OffsetOverride::default();
    let tz = match_current_time_zone(&rows, "Europe/London", &adjusted, None, false, &mut ov, NOW)
        .unwrap();
    assert_eq!(tz.gmt_offset, 0);
    assert_eq!(tz.utc.as_deref(), Some("2023-10-29T01:30:00"));
}

#[test]
fn fall_back_overlap_prefers_bst_with_dst() {
    // zn=Europe/London dtl=2023-10-29T01:30:00 dst=1: the earlier (BST) instant
    let rows = london_rows();
    let adjusted = fetch_adjusted_date_str(&rows, "2023-10-29T01:30:00", true, NOW);
    assert_eq!(adjusted, "2023-10-29T00:30:00");
    let mut ov = OffsetOverride::default();
    let tz = match_current_time_zone(&rows, "Europe/London", &adjusted, None, true, &mut ov, NOW)
        .unwrap();
    assert_eq!(tz.gmt_offset, 3600);
    assert_eq!(tz.utc.as_deref(), Some("2023-10-29T00:30:00"));
}

#[test]
fn dst_policy_orders_the_two_overlap_instants() {
    // the enforced (earlier) reading precedes the relaxed (later) one
    let rows = london_rows();
    let early = fetch_adjusted_date_str(&rows, "2023-10-29T01:30:00", true, NOW);
    let late = fetch_adjusted_date_str(&rows, "2023-10-29T01:30:00", false, NOW);
    assert!(early < late);
}

#[test]
fn spring_forward_gap_maps_past_the_jump() {
    // zn=America/Los_Angeles dtl=2024-03-10T02:30:00 dst=1
    let rows = la_rows();
    let adjusted = fetch_adjusted_date_str(&rows, "2024-03-10T02:30:00", true, NOW);
    assert_eq!(adjusted, "2024-03-10T10:30:00");
    let mut ov = OffsetOverride::default();
    let tz = match_current_time_zone(
        &rows,
        "America/Los_Angeles",
        &adjusted,
        None,
        true,
        &mut ov,
        NOW,
    )
    .unwrap();
    assert_eq!(tz.gmt_offset, -25200);
    assert_eq!(tz.utc.as_deref(), Some("2024-03-10T10:30:00"));
    // the reconciled instant does not precede the transition
    assert!(tz.ref_unix.unwrap() >= 1710064800);
}

#[test]
fn normal_local_time_reconciles_uniquely() {
    let rows = london_rows();
    let adjusted = fetch_adjusted_date_str(&rows, "2023-06-15T13:00:00", true, NOW);
    assert_eq!(adjusted, "2023-06-15T12:00:00");
    let relaxed = fetch_adjusted_date_str(&rows, "2023-06-15T13:00:00", false, NOW);
    assert_eq!(relaxed, "2023-06-15T12:00:00");
}

#[test]
fn reconcile_without_rows_returns_input() {
    let rows: Vec<TransitionRow> = vec![];
    let adjusted = fetch_adjusted_date_str(&rows, "2023-06-15T13:00:00", true, NOW);
    assert_eq!(adjusted, "2023-06-15T13:00:00");
}

#[test]
fn missing_zone_without_longitude_is_none() {
    let rows: Vec<TransitionRow> = vec![];
    let mut ov = OffsetOverride::default();
    let r = match_current_time_zone(&rows, "Nowhere/City", "2023-06-15T12:00:00", None, true,
        &mut ov, NOW);
    assert!(r.is_none());
}

#[test]
fn missing_zone_with_longitude_synthesises_loc() {
    let rows: Vec<TransitionRow> = vec![];
    let mut ov = OffsetOverride::default();
    let tz = match_current_time_zone(
        &rows,
        "North_Atlantic/2W",
        "2023-01-01T00:00:00",
        Some(-30_000_000),
        true,
        &mut ov,
        NOW,
    )
    .unwrap();
    assert_eq!(tz.abbreviation, "LOC");
    assert_eq!(tz.gmt_offset, -7200);
    assert_eq!(tz.zone_name, "North_Atlantic/2W");
    assert_eq!(tz.country_code, "-");
    assert_eq!(tz.solar_utc_offset, Some(-7200));
    assert!(!tz.dst);
}

#[test]
fn missing_zone_before_1900_synthesises_sol() {
    let rows: Vec<TransitionRow> = vec![];
    let mut ov = OffsetOverride::default();
    let tz = match_current_time_zone(
        &rows,
        "Somewhere/Sea",
        "1880-06-01T00:00:00",
        Some(-29_000_000),
        true,
        &mut ov,
        NOW,
    )
    .unwrap();
    assert_eq!(tz.abbreviation, "SOL");
    // second-accurate solar mean time: -29 degrees * 240 s
    assert_eq!(tz.gmt_offset, -6960);
}

#[test]
fn override_carries_into_later_constructions() {
    let rows = london_rows();
    let mut ov = OffsetOverride::default();
    // dst=0 lookup inside the overlap records the corrected offset
    let _ = match_current_time_zone(
        &rows,
        "Europe/London",
        "2023-10-29T01:30:00",
        None,
        false,
        &mut ov,
        NOW,
    )
    .unwrap();
    assert_eq!(ov.get(), Some(0));
    assert!(ov.is_set());
    ov.reset();
    assert!(!ov.is_set());
}

#[test]
fn overlap_predicates_match_bracketing() {
    // forward change: within |diff| of the period end
    let mut tz = TimeZone::new(
        "Test/Zone".to_string(),
        "XX".to_string(),
        "TST".to_string(),
        1000,
        3600,
        true,
        &OffsetOverride::default(),
    );
    tz.add_end(100000, 0);
    tz.set_ref_time(98000);
    // diff = 3600 - 0 = 3600; secs_to_end = 2000 < 3600
    assert!(tz.is_overlap_period());
    tz.set_ref_time(90000);
    // secs_to_end = 10000 >= 3600 and secs_since_start large
    assert!(!tz.is_overlap_period());
    // backward change: within |diff| of the period start
    let mut tz2 = TimeZone::new(
        "Test/Zone".to_string(),
        "XX".to_string(),
        "TST".to_string(),
        100000,
        0,
        false,
        &OffsetOverride::default(),
    );
    tz2.add_end(10000000, 3600);
    tz2.set_ref_time(101000);
    // diff = 0 - 3600 < 0; secs_since_start = 1000 < 3600
    assert!(tz2.is_overlap_period());
    tz2.set_ref_time(109000);
    assert!(!tz2.is_overlap_period());
}

#[test]
fn timezone_accessors() {
    let mut tz = TimeZone::new(
        "A/B".to_string(),
        "XX".to_string(),
        "AAA".to_string(),
        1000,
        7200,
        false,
        &OffsetOverride::default(),
    );
    assert_eq!(tz.time_start(), 1000);
    assert_eq!(tz.offset(), 7200);
    assert_eq!(tz.next_offset(), 7200);
    assert_eq!(tz.next_diff_offset(), 0);
    tz.add_end(5000, 3600);
    assert_eq!(tz.next_offset(), 3600);
    assert_eq!(tz.next_diff_offset(), 3600);
    tz.set_ref_time(4000);
    assert_eq!(tz.secs_since_start(), 3000);
    assert_eq!(tz.secs_to_end(), 1000);
    assert_eq!(tz.ref_jd, Some(4000 + 210866760000));
}

#[test]
fn override_applies_to_new_zone() {
    let mut ov = OffsetOverride::default();
    ov.set(1800);
    let tz = TimeZone::new(
        "A/B".to_string(),
        "XX".to_string(),
        "AAA".to_string(),
        1000,
        7200,
        false,
        &ov,
    );
    assert_eq!(tz.gmt_offset, 1800);
}

#[test]
fn period_constructors() {
    let p = TimeZonePeriod::new(0, Some(3600), Some(86400));
    assert_eq!(p.start, Some(0));
    assert_eq!(p.start_utc.as_deref(), Some("1970-01-01T00:00:00"));
    assert_eq!(p.end_utc.as_deref(), Some("1970-01-02T00:00:00"));
    assert_eq!(p.next_gmt_offset, Some(3600));
    let e = TimeZonePeriod::empty();
    assert!(e.start.is_none() && e.end.is_none() && e.next_gmt_offset.is_none());
}

#[test]
fn ocean_zone_construction() {
    let tz = TimeZone::new_ocean("North_Atlantic", -30_000_000, "2023-01-01T00:00:00");
    assert_eq!(tz.zone_name, "North_Atlantic/02W");
    assert_eq!(tz.abbreviation, "LOC");
    assert_eq!(tz.gmt_offset, -7200);
    assert_eq!(tz.utc.as_deref(), Some("2023-01-01T00:00:00"));
    assert_eq!(tz.local_dt.as_deref(), Some("2022-12-31T22:00:00"));
    assert_eq!(tz.country_code, "");
    assert!(!tz.dst);
}

fn paris_rows() -> Vec<TransitionRow> {
    let mk = |abbr: &str, start: i64, offset: i32, dst: bool| TransitionRow {
        zone_name: "Europe/Paris".to_string(),
        country_code: "FR".to_string(),
        abbreviation: abbr.to_string(),
        time_start: start,
        gmt_offset: offset,
        dst,
    };
    vec![
        mk("CET", 1667091600, 3600, false),  // 2022-10-30T01:00Z
        mk("CEST", 1679792400, 7200, true),  // 2023-03-26T01:00Z
        mk("CET", 1698541200, 3600, false),  // 2023-10-29T01:00Z
        mk("CEST", 1711846800, 7200, true),  // 2024-03-31T01:00Z
    ]
}

#[test]
fn positive_offset_gap_maps_past_the_jump() {
    // 02:30 local does not exist on the spring-forward night in Paris
    let rows = paris_rows();
    let adjusted = fetch_adjusted_date_str(&rows, "2023-03-26T02:30:00", true, NOW);
    assert_eq!(adjusted, "2023-03-26T01:30:00");
    let mut ov = OffsetOverride::default();
    let tz = match_current_time_zone(&rows, "Europe/Paris", &adjusted, None, true, &mut ov, NOW)
        .unwrap();
    assert_eq!(tz.gmt_offset, 7200);
    assert_eq!(tz.local_dt.as_deref(), Some("2023-03-26T03:30:00"));
}

#[test]
fn positive_offset_overlap_follows_the_policy() {
    // 02:30 local happens twice on the fall-back night in Paris
    let rows = paris_rows();
    let early = fetch_adjusted_date_str(&rows, "2023-10-29T02:30:00", true, NOW);
    assert_eq!(early, "2023-10-29T00:30:00");
    let late = fetch_adjusted_date_str(&rows, "2023-10-29T02:30:00", false, NOW);
    assert_eq!(late, "2023-10-29T01:30:00");
    assert!(early < late);
}

#[test]
fn positive_offset_normal_local_time() {
    let rows = paris_rows();
    let adjusted = fetch_adjusted_date_str(&rows, "2023-06-15T14:00:00", true, NOW);
    assert_eq!(adjusted, "2023-06-15T12:00:00");
}
