use geotimezone::geonames::{
    GeoNameRow, GeoNameNearby, TimeZoneInfo, filter_geoname_rows, sort_rows_by_weighted_pop,
    extract_best_lat_lng_from_placenames, extract_time_from_first_row, is_in_ocean_zone,
    expand_nearby_rows, abbreviate_ocean_name,
};

fn plain_row(name: &str, fcode: &str, pop: u32) -> GeoNameRow {
    GeoNameRow::new_from_params(1_000_000, 2_000_000, name.to_string(), fcode.to_string(), pop)
}

#[test]
fn weighted_pop_multiplies_populated_places() {
    assert_eq!(plain_row("A", "PPLC", 10).weighted_pop(), 80);
    assert_eq!(plain_row("B", "ADM1", 10).weighted_pop(), 10);
    assert_eq!(plain_row("C", "", 10).weighted_pop(), 10);
}

#[test]
fn row_constructor_corrects_country_code() {
    let r = GeoNameRow::new(
        0,
        0,
        "London".to_string(),
        "London".to_string(),
        "PPLC".to_string(),
        9_000_000,
        Some("UK".to_string()),
        Some("England".to_string()),
    );
    assert_eq!(r.country_code.as_deref(), Some("GB"));
}

#[test]
fn row_text_assembles_suffixes() {
    let r = GeoNameRow::new(
        0,
        0,
        "London".to_string(),
        "London".to_string(),
        "PPLC".to_string(),
        9_000_000,
        Some("GB".to_string()),
        Some("England".to_string()),
    );
    assert_eq!(r.text(), "London, England (GB)");
    assert_eq!(plain_row("Lagos", "PPL", 1).text(), "Lagos");
}

#[test]
fn row_key_floors_negative_degrees() {
    // -1.5 degrees floors to -2, keeping one dedup class per whole degree
    let r = GeoNameRow::new_from_params(
        -1_500_000,
        -500_000,
        "Reef".to_string(),
        "PPL".to_string(),
        0,
    );
    assert_eq!(r.to_key(), "Reef___-2_-1");
}

#[test]
fn row_key_includes_whole_degrees() {
    let r = GeoNameRow::new(
        51_500_000,
        -120_000,
        "London".to_string(),
        "London".to_string(),
        "PPLC".to_string(),
        9_000_000,
        Some("GB".to_string()),
        Some("England".to_string()),
    );
    assert_eq!(r.to_key(), "London_England_GB_51_-1");
}

#[test]
fn ocean_row_has_ocean_fcode() {
    let r = GeoNameRow::new_ocean("North Atlantic Ocean".to_string(), 0, -30_000_000);
    assert_eq!(r.fcode, "OCEAN");
    assert_eq!(r.pop, 0);
}

#[test]
fn filter_drops_area_and_crowded_cont() {
    let rows = vec![
        plain_row("a", "AREA", 1),
        plain_row("b", "CONT", 2),
        plain_row("c", "PPL", 3),
    ];
    let kept = filter_geoname_rows(rows, 3);
    assert_eq!(kept.len(), 1);
    assert_eq!(kept[0].name, "c");
    let rows2 = vec![plain_row("b", "CONT", 2), plain_row("c", "PPL", 3)];
    let kept2 = filter_geoname_rows(rows2, 2);
    assert_eq!(kept2.len(), 2);
}

#[test]
fn sort_orders_by_weighted_population() {
    let rows = vec![
        plain_row("adm", "ADM1", 100),
        plain_row("city", "PPL", 20),
        plain_row("area", "RGN", 90),
    ];
    let sorted = sort_rows_by_weighted_pop(rows);
    // city: 20*8=160, adm: 100, area: 90
    assert_eq!(sorted[0].name, "city");
    assert_eq!(sorted[1].name, "adm");
    assert_eq!(sorted[2].name, "area");
}

#[test]
fn best_lat_lng_prefers_last_row() {
    let rows = vec![plain_row("a", "PCLI", 0), plain_row("b", "PPL", 5)];
    assert_eq!(extract_best_lat_lng_from_placenames(&rows, 9, 9), (1_000_000, 2_000_000));
    let empty: Vec<GeoNameRow> = vec![];
    assert_eq!(extract_best_lat_lng_from_placenames(&empty, 9, 9), (9, 9));
}

#[test]
fn ocean_time_skips_directional_words() {
    let rows = vec![GeoNameRow::new_ocean(
        "North Atlantic Ocean".to_string(),
        0,
        -30_000_000,
    )];
    let tz = extract_time_from_first_row(&rows, -30_000_000, "2023-01-01T00:00:00").unwrap();
    assert_eq!(tz.zone_name, "Atlantic/02W");
    assert_eq!(tz.gmt_offset, -7200);
    assert_eq!(tz.abbreviation, "LOC");
    assert_eq!(tz.utc.as_deref(), Some("2023-01-01T00:00:00"));
    assert_eq!(tz.local_dt.as_deref(), Some("2022-12-31T22:00:00"));
}

#[test]
fn ocean_time_none_for_empty() {
    let empty: Vec<GeoNameRow> = vec![];
    assert!(extract_time_from_first_row(&empty, 0, "2023-01-01T00:00:00").is_none());
}

#[test]
fn basin_classifier_covers_the_globe() {
    let cases: [(i64, i64, &str); 10] = [
        (70_000_000, 0, "Arctic"),
        (30_000_000, 160_000_000, "North_Pacific"),
        (-30_000_000, -120_000_000, "South_Pacific"),
        (10_000_000, -30_000_000, "North_Atlantic"),
        (-10_000_000, -30_000_000, "South_Atlantic"),
        (25_000_000, 70_000_000, "Indian"),
        (-70_000_000, 100_000_000, "Southern"),
        (40_000_000, -90_000_000, "North_America"),
        (10_000_000, 140_000_000, "Northern_Hemisphere"),
        (-10_000_000, 140_000_000, "Southern_Hemisphere"),
    ];
    for (lat, lng, basin) in cases {
        let info = TimeZoneInfo::new("".to_string(), "".to_string(), -7200, lat, lng);
        let prefix: String = info.tz.chars().take_while(|c| *c != '/').collect();
        assert_eq!(prefix, basin);
        assert_eq!(info.cc, "-");
        assert!(!info.tz.is_empty());
    }
}

#[test]
fn synthesised_zone_id_mid_atlantic() {
    let info = TimeZoneInfo::new("".to_string(), "".to_string(), -7200, 0, -30_000_000);
    assert_eq!(info.tz, "North_Atlantic/2W");
}

#[test]
fn synthesised_zone_id_fractional_hours() {
    let half = TimeZoneInfo::new("".to_string(), "".to_string(), 19800, 21_000_000, 77_000_000);
    assert_eq!(half.tz, "Indian/5.5E");
    let quarter = TimeZoneInfo::new("".to_string(), "".to_string(), 20700, 27_000_000, 84_000_000);
    assert_eq!(quarter.tz, "Indian/5.75E");
}

#[test]
fn remote_zone_id_is_kept() {
    let info = TimeZoneInfo::new(
        "GB".to_string(),
        "Europe/London".to_string(),
        0,
        51_500_000,
        -120_000,
    );
    assert_eq!(info.tz, "Europe/London");
    assert_eq!(info.cc, "GB");
    assert!(info.usable());
    let short = TimeZoneInfo::new("".to_string(), "".to_string(), 0, 0, 0);
    assert!(short.usable());
}

#[test]
fn ocean_box_test_mirrors_the_boxes() {
    assert!(is_in_ocean_zone(0, 20_000_000));
    assert!(is_in_ocean_zone(10_000_000, 70_000_000));
    assert!(!is_in_ocean_zone(40_000_000, -90_000_000));
}

#[test]
fn nearby_expansion_uses_nearest_within_radius() {
    let near = || {
        GeoNameNearby::new(
            1,
            2,
            "Lagos".to_string(),
            "Lagos State".to_string(),
            "Lagos Metro".to_string(),
            "Nigeria".to_string(),
            "Lagos".to_string(),
            "PPLA".to_string(),
            15_000_000,
            100_000,
        )
    };
    let far = GeoNameNearby::new(
        3,
        4,
        "Accra".to_string(),
        "Greater Accra".to_string(),
        "Accra Metro".to_string(),
        "Ghana".to_string(),
        "Accra".to_string(),
        "PPLC".to_string(),
        2_000_000,
        500_000,
    );
    let rows = expand_nearby_rows(&vec![far, near()], 240_000);
    assert!(rows.len() >= 1);
    assert_eq!(rows.last().unwrap().name, "Lagos");
    // with two qualifying candidates the first (nearest) wins
    let closer = GeoNameNearby::new(
        5,
        6,
        "Ikeja".to_string(),
        "Lagos State".to_string(),
        "Ikeja Metro".to_string(),
        "Nigeria".to_string(),
        "Ikeja".to_string(),
        "PPLA2".to_string(),
        600_000,
        50_000,
    );
    let both = expand_nearby_rows(&vec![closer, near()], 240_000);
    assert_eq!(both.last().unwrap().name, "Ikeja");
    let none = expand_nearby_rows(&vec![], 240_000);
    assert!(none.is_empty());
}

#[test]
fn nearby_chain_expansion() {
    let nb = GeoNameNearby::from_db_row(
        6_500_000,
        3_400_000,
        "Lagos".to_string(),
        "NG".to_string(),
        "Lagos State".to_string(),
        "Lagos Metro".to_string(),
        "Africa/Lagos".to_string(),
        "PPLA".to_string(),
        15_000_000,
        1000,
        Some("Nigeria".to_string()),
    );
    assert_eq!(nb.cc.as_deref(), Some("NG"));
    assert_eq!(nb.country_name, "Nigeria");
    assert_eq!(nb.zone_name.as_deref(), Some("Africa/Lagos"));
    let rows = nb.to_rows(Some("Nigeria".to_string()));
    assert_eq!(rows.len(), 4);
    assert_eq!(rows[0].fcode, "PCLI");
    assert_eq!(rows[1].fcode, "ADM1");
    assert_eq!(rows[2].fcode, "ADM2");
    assert_eq!(rows[3].name, "Lagos");
}

#[test]
fn from_places_condenses_the_chain() {
    let places = vec![
        plain_row("Nigeria", "PCLI", 0),
        plain_row("Lagos State", "ADM1", 0),
        plain_row("Lagos", "PPLA", 15_000_000),
    ];
    let nb = GeoNameNearby::from_places(&places, "2023-01-01T00:00:00", Some("NG".to_string()))
        .unwrap();
    assert_eq!(nb.name, "Lagos");
    assert_eq!(nb.pop, 15_000_000);
    assert_eq!(nb.admin_name, "Lagos State");
    assert_eq!(nb.country_name, "Nigeria");
    assert!(nb.zone_name.is_none());
    let empty: Vec<GeoNameRow> = vec![];
    assert!(GeoNameNearby::from_places(&empty, "2023-01-01T00:00:00", None).is_none());
}

#[test]
fn from_places_ocean_synthesises_zone() {
    let places = vec![GeoNameRow::new_ocean(
        "North Atlantic Ocean".to_string(),
        0,
        -30_000_000,
    )];
    let nb = GeoNameNearby::from_places(&places, "2023-01-01T00:00:00", None).unwrap();
    assert_eq!(nb.zone_name.as_deref(), Some("North Atlantic Ocean/02W"));
    assert_eq!(nb.pop, 0);
}

#[test]
fn ocean_name_abbreviation() {
    assert_eq!(abbreviate_ocean_name("North Atlantic Ocean"), "North_Atlantic");
    assert_eq!(abbreviate_ocean_name("Indian Ocean"), "Indian");
    assert_eq!(abbreviate_ocean_name("  Baltic Sea "), "Baltic_Sea");
}

#[test]
fn nearby_chain_without_region_or_admin() {
    let nb = GeoNameNearby::from_db_row(
        1,
        2,
        "Atoll".to_string(),
        "KI".to_string(),
        "".to_string(),
        "".to_string(),
        "Pacific/Tarawa".to_string(),
        "PPL".to_string(),
        50,
        1000,
        None,
    );
    let rows = nb.to_rows(None);
    assert_eq!(rows.len(), 2);
    assert_eq!(rows[0].fcode, "PCLI");
    assert_eq!(rows[1].name, "Atoll");
    let nb2 = GeoNameNearby::from_db_row(
        1,
        2,
        "Town".to_string(),
        "FR".to_string(),
        "".to_string(),
        "Province".to_string(),
        "Europe/Paris".to_string(),
        "PPL".to_string(),
        50,
        1000,
        None,
    );
    let rows2 = nb2.to_rows(None);
    assert_eq!(rows2.len(), 3);
    // without a region the administrative row takes the first level
    assert_eq!(rows2[1].fcode, "ADM1");
    assert_eq!(rows2[1].name, "Province");
}

#[test]
fn from_places_takes_first_adm_and_pcli_rows() {
    let places = vec![
        plain_row("Nigeria", "PCLI", 0),
        plain_row("Lagos State", "ADM1", 0),
        plain_row("Lagos Metro", "ADM2", 0),
        plain_row("Ghana", "PCLI", 0),
        plain_row("Lagos", "PPLA", 15_000_000),
    ];
    let nb = GeoNameNearby::from_places(&places, "2023-01-01T00:00:00", None).unwrap();
    assert_eq!(nb.admin_name, "Lagos State");
    assert_eq!(nb.country_name, "Nigeria");
}
