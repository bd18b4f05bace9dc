use geotimezone::params::{
    InputOptions, is_valid_date_string, is_valid_zone_name, match_datetime_from_params,
    match_coords_from_params,
};
use geotimezone::config::{
    Args, EnvSettings, parse_db_options, match_port, match_geonames_username,
    match_max_nearby_radius, empty_string,
};

const NOW: i64 = 1686830400;

fn no_params() -> InputOptions {
    InputOptions {
        dt: None,
        dtl: None,
        jd: None,
        un: None,
        zn: None,
        loc: None,
        place: None,
        cc: None,
        reg: None,
        mode: None,
        dst: None,
        fuzzy: None,
        max: None,
        included: None,
    }
}

fn bare_args() -> Args {
    Args {
        host: String::new(),
        port: 0,
        db: String::new(),
        user: String::new(),
        pass: String::new(),
        geoname: String::new(),
        webport: 0,
    }
}

fn bare_env() -> EnvSettings {
    EnvSettings {
        db_host: None,
        db_port: None,
        db_name: None,
        db_user: None,
        db_pass: None,
        geonames_username: None,
        max_nearby_radius: None,
        port: None,
    }
}

#[test]
fn date_string_validity() {
    assert!(is_valid_date_string("2023-06-15"));
    assert!(is_valid_date_string("2023-06-15T12:00:00"));
    assert!(!is_valid_date_string("20230615"));
    assert!(!is_valid_date_string("23-6-5"));
    assert!(!is_valid_date_string(""));
}

#[test]
fn zone_name_validity() {
    assert!(is_valid_zone_name("Europe/London"));
    assert!(is_valid_zone_name("America/Argentina"));
    assert!(!is_valid_zone_name("UTC"));
    assert!(!is_valid_zone_name("/Europe"));
    assert!(!is_valid_zone_name("Europe/"));
    assert!(!is_valid_zone_name("ab/c"));
}

#[test]
fn datetime_prefers_dt() {
    let mut p = no_params();
    p.dt = Some("2023-06-15T12:00:00".to_string());
    p.dtl = Some("2023-01-01T00:00:00".to_string());
    let (s, local) = match_datetime_from_params(&p, NOW);
    assert_eq!(s, "2023-06-15T12:00:00");
    assert!(!local);
}

#[test]
fn datetime_falls_back_to_local() {
    let mut p = no_params();
    p.dtl = Some("2023-10-29 01:30:00".to_string());
    let (s, local) = match_datetime_from_params(&p, NOW);
    assert_eq!(s, "2023-10-29T01:30:00");
    assert!(local);
}

#[test]
fn datetime_canonicalises_partial_dates() {
    let mut p = no_params();
    p.dt = Some("2023-06-15".to_string());
    let (s, _) = match_datetime_from_params(&p, NOW);
    assert_eq!(s, "2023-06-15T00:00:00");
}

#[test]
fn datetime_uses_julian_day() {
    let mut p = no_params();
    // 2023-06-15T12:00:00 in Julian seconds
    p.jd = Some(1686830400 + 210866760000);
    let (s, local) = match_datetime_from_params(&p, NOW);
    assert_eq!(s, "2023-06-15T12:00:00");
    assert!(!local);
}

#[test]
fn datetime_uses_unix_seconds() {
    let mut p = no_params();
    p.un = Some(0);
    let (s, _) = match_datetime_from_params(&p, NOW);
    assert_eq!(s, "1970-01-01T00:00:00");
}

#[test]
fn datetime_rejects_out_of_range_unix() {
    let mut p = no_params();
    p.un = Some(4_000_000_001);
    let (s, _) = match_datetime_from_params(&p, NOW);
    assert_eq!(s, "2023-06-15T12:00:00"); // falls through to now
}

#[test]
fn datetime_defaults_to_now() {
    let (s, local) = match_datetime_from_params(&no_params(), NOW);
    assert_eq!(s, "2023-06-15T12:00:00");
    assert!(!local);
}

#[test]
fn coords_need_a_comma() {
    let mut p = no_params();
    p.loc = Some("51.5,-0.12".to_string());
    let c = match_coords_from_params(&p).unwrap();
    assert_eq!(c.lat, 51_500_000);
    assert_eq!(c.lng, -120_000);
    p.loc = Some("51.5".to_string());
    assert!(match_coords_from_params(&p).is_none());
    assert!(match_coords_from_params(&no_params()).is_none());
}

#[test]
fn db_options_prefer_arguments() {
    let mut args = bare_args();
    args.host = "db.example".to_string();
    args.port = 3307;
    let mut env = bare_env();
    env.db_host = Some("ignored".to_string());
    env.db_user = Some("envuser".to_string());
    let p = parse_db_options(&args, &env);
    assert_eq!(p.host, "db.example");
    assert_eq!(p.port, 3307);
    assert_eq!(p.user, "envuser");
    assert_eq!(p.db, "timezonedb");
    assert_eq!(p.pass, "password");
}

#[test]
fn db_options_all_defaults() {
    let p = parse_db_options(&bare_args(), &bare_env());
    assert_eq!(p.host, "127.0.0.1");
    assert_eq!(p.port, 3306);
    assert_eq!(p.user, "timezonedb");
}

#[test]
fn web_port_selection() {
    let mut args = bare_args();
    let mut env = bare_env();
    assert_eq!(match_port(&args, &env), 8089);
    env.port = Some(0);
    assert_eq!(match_port(&args, &env), 8089);
    env.port = Some(9001);
    assert_eq!(match_port(&args, &env), 9001);
    args.webport = 7000;
    assert_eq!(match_port(&args, &env), 7000);
}

#[test]
fn geonames_username_selection() {
    let mut args = bare_args();
    let env = bare_env();
    assert_eq!(match_geonames_username(&args, &env), "demo");
    args.geoname = "me".to_string(); // too short, falls back
    assert_eq!(match_geonames_username(&args, &env), "demo");
    args.geoname = "myuser".to_string();
    assert_eq!(match_geonames_username(&args, &env), "myuser");
}

#[test]
fn nearby_radius_selection() {
    let mut env = bare_env();
    assert_eq!(match_max_nearby_radius(&env), 240_000);
    env.max_nearby_radius = Some(-5);
    assert_eq!(match_max_nearby_radius(&env), 240_000);
    env.max_nearby_radius = Some(100_000);
    assert_eq!(match_max_nearby_radius(&env), 100_000);
    assert_eq!(empty_string(), "");
}
