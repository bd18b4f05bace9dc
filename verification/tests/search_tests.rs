use geotimezone::search::{
    Locality, sort_localities_by_weight, list_by_fuzzy_name_match_rows, locality_query_limit,
    min_local_hits, prefer_remote_search, search_query_params,
};
use geotimezone::names::{
    matches_alternative, correct_country_code, recorrect_country_code, correct_country_code_optional,
    alternative_names, corrected_country_codes, simplify_string,
};
use geotimezone::geonames::GeoNameRow;

fn locality(name: &str, ascii: &str, pop: u32) -> Locality {
    Locality::new(
        name.to_string(),
        ascii.to_string(),
        "Tamil Nadu".to_string(),
        13_080_000,
        80_270_000,
        "IN".to_string(),
        pop,
        "Asia/Kolkata".to_string(),
    )
}

#[test]
fn weight_of_exact_match() {
    // base (3000+5000)/800 = 10, position weight 20, start word 2, exact 4
    let l = locality("Chennai", "Chennai", 3000);
    assert_eq!(l.weight("chennai"), 1600);
}

#[test]
fn weight_of_miss_is_zero() {
    let l = locality("Chennai", "Chennai", 3000);
    assert_eq!(l.weight("berlin"), 0);
}

#[test]
fn weight_folds_case_through_lowercasing() {
    // an upper-case stored name still matches a lower-case query
    let l = locality("CHENNAI", "CHENNAI", 3000);
    assert_eq!(l.weight("chennai"), 1600);
}

#[test]
fn weight_of_short_exact_match() {
    // exact match of a short name scores 3 instead of 4
    let l = locality("Ube", "Ube", 3000);
    assert_eq!(l.weight("ube"), 10 * 20 * 2 * 3);
}

#[test]
fn weight_of_partial_match() {
    // "madras" sits at position 0 of neither; name "Madras City" starts with it
    let l = locality("Madras City", "Madras City", 3000);
    // pos 0, start word 0 == main word 0 (longest "madras"), not exact
    assert_eq!(l.weight("madras"), 10 * 20 * 2 * 2);
}

#[test]
fn locality_text_and_simple() {
    let l = locality("Chennai", "Chennai", 3000);
    assert_eq!(l.text(), "Chennai, Tamil Nadu (IN)");
    let s = l.to_simple();
    assert_eq!(s.zone_name.as_deref(), Some("Asia/Kolkata"));
    assert_eq!(s.lat, 13_080_000);
}

#[test]
fn locality_new_corrects_country_code() {
    let l = Locality::new(
        "London".to_string(),
        "London".to_string(),
        "England".to_string(),
        51_500_000,
        -120_000,
        "UK".to_string(),
        9_000_000,
        "Europe/London".to_string(),
    );
    assert_eq!(l.cc, "GB");
}

#[test]
fn sort_by_weight_ranks_population() {
    let rows = vec![
        locality("Chennai North", "Chennai North", 1000),
        locality("Chennai", "Chennai", 4_000_000),
    ];
    let sorted = sort_localities_by_weight(rows, "chennai");
    assert_eq!(sorted[0].name, "Chennai");
    assert_eq!(sorted.len(), 2);
}

#[test]
fn alternative_name_lookup() {
    assert_eq!(matches_alternative("Madras").as_deref(), Some("Chennai"));
    assert_eq!(matches_alternative("madr").as_deref(), Some("Chennai"));
    assert_eq!(matches_alternative("Peking").as_deref(), Some("Beijing"));
    assert!(matches_alternative("Atlantis").is_none());
}

#[test]
fn alternative_lookup_folds_diacritics() {
    // the bare-ASCII spelling still reaches the accented table entry
    assert_eq!(matches_alternative("Munchen").as_deref(), Some("Munich"));
    assert_eq!(matches_alternative("München").as_deref(), Some("Munich"));
}

#[test]
fn country_code_corrections() {
    assert_eq!(correct_country_code("UK"), "GB");
    assert_eq!(correct_country_code("FR"), "FR");
    assert_eq!(recorrect_country_code("GB"), "UK");
    assert_eq!(
        correct_country_code_optional(Some("UK".to_string())).as_deref(),
        Some("GB")
    );
    assert!(correct_country_code_optional(None).is_none());
}

#[test]
fn name_tables_have_expected_shapes() {
    let alts = alternative_names();
    assert_eq!(alts.len(), 11);
    assert_eq!(alts[0].0, "Madras");
    assert_eq!(alts[0].1, "Chennai");
    let ccs = corrected_country_codes();
    assert_eq!(ccs.len(), 1);
    assert_eq!(simplify_string("MÜNCHEN"), "munchen");
}

#[test]
fn fuzzy_rows_fold_variant_names() {
    // a Madras query still surfaces the canonical Chennai row
    let rows = vec![GeoNameRow::new(
        13_080_000,
        80_270_000,
        "Chennai".to_string(),
        "Chennai".to_string(),
        "PPLA".to_string(),
        4_600_000,
        Some("IN".to_string()),
        Some("Tamil Nadu".to_string()),
    )];
    let out = list_by_fuzzy_name_match_rows(&rows, "Madras", 5);
    assert_eq!(out.len(), 1);
    assert_eq!(out[0].text, "Chennai, Tamil Nadu (IN)");
}

#[test]
fn fuzzy_rows_match_directly_and_deduplicate() {
    let row = || {
        GeoNameRow::new(
            13_080_000,
            80_270_000,
            "Chennai".to_string(),
            "Chennai".to_string(),
            "PPLA".to_string(),
            4_600_000,
            Some("IN".to_string()),
            Some("Tamil Nadu".to_string()),
        )
    };
    let rows = vec![row(), row()];
    let out = list_by_fuzzy_name_match_rows(&rows, "Chennai", 5);
    assert_eq!(out.len(), 1);
}

#[test]
fn fuzzy_rows_drop_mismatches_and_cap() {
    let mk = |name: &str| {
        GeoNameRow::new(
            1,
            2,
            name.to_string(),
            name.to_string(),
            "PPL".to_string(),
            10,
            None,
            None,
        )
    };
    let rows = vec![mk("Springfield"), mk("Berlin")];
    let out = list_by_fuzzy_name_match_rows(&rows, "Springfield", 5);
    assert_eq!(out.len(), 1);
    let capped = list_by_fuzzy_name_match_rows(&vec![mk("Paris One"), mk("Paris Two")], "Paris", 1);
    assert_eq!(capped.len(), 1);
}

#[test]
fn query_limits_grow_with_max() {
    assert_eq!(locality_query_limit(20), 30);
    assert_eq!(locality_query_limit(50), 70);
    assert_eq!(locality_query_limit(100), 130);
    assert_eq!(locality_query_limit(230), 255);
}

#[test]
fn local_hit_thresholds() {
    // tight first hit: one local row suffices
    assert_eq!(min_local_hits(20, 7, Some(7)), 1);
    // loose first hit on a long query halves the long threshold
    assert_eq!(min_local_hits(30, 7, Some(12)), 3);
    // loose first hit on a short query keeps it
    assert_eq!(min_local_hits(30, 4, Some(12)), 6);
    // no local hits at all: the length-dependent default
    assert_eq!(min_local_hits(10, 4, None), 5);
    assert_eq!(min_local_hits(1, 4, None), 0);
}

#[test]
fn remote_preference_threshold() {
    assert!(prefer_remote_search(Some(150)));
    assert!(prefer_remote_search(Some(200)));
    assert!(!prefer_remote_search(Some(100)));
    assert!(!prefer_remote_search(None));
}

#[test]
fn search_query_assembly() {
    let items = search_query_params(
        "Madras",
        &Some("IN".to_string()),
        &None,
        None,
        false,
        true,
        50,
    );
    let pairs: Vec<(String, String)> = items;
    assert_eq!(pairs[0], ("q".to_string(), "Madras".to_string()));
    assert_eq!(pairs[1], ("fuzzy".to_string(), "1".to_string()));
    assert_eq!(pairs[2], ("featureClass".to_string(), "P".to_string()));
    assert_eq!(pairs[3], ("featureClass".to_string(), "A".to_string()));
    assert_eq!(pairs[4], ("orderby".to_string(), "population".to_string()));
    assert_eq!(pairs[5], ("country".to_string(), "IN".to_string()));
    assert_eq!(pairs[6], ("isNameRequired".to_string(), "true".to_string()));
    assert_eq!(pairs[7], ("maxRows".to_string(), "50".to_string()));
    assert_eq!(pairs.len(), 8);
}

#[test]
fn search_query_short_strings_get_prefix() {
    let items = search_query_params("Ab", &None, &Some("Bavaria".to_string()), Some(55), true,
        false, 1);
    assert_eq!(items[0], ("q".to_string(), "Ab Bavaria".to_string()));
    assert_eq!(items[1], ("fuzzy".to_string(), "0.55".to_string()));
    assert_eq!(items[2], ("name_startsWith".to_string(), "Ab".to_string()));
    assert_eq!(items.len(), 3);
    let one = search_query_params("X", &None, &None, Some(50), true, false, 0);
    assert_eq!(one[1], ("fuzzy".to_string(), "0.5".to_string()));
    assert_eq!(one[2], ("name_startsWith".to_string(), "X".to_string()));
}

#[test]
fn fuzzy_rows_keep_every_fresh_match_in_order() {
    let mk = |name: &str| {
        GeoNameRow::new(
            1,
            2,
            name.to_string(),
            name.to_string(),
            "PPL".to_string(),
            10,
            None,
            None,
        )
    };
    let rows = vec![mk("Paris East"), mk("Berlin"), mk("Paris West")];
    let out = list_by_fuzzy_name_match_rows(&rows, "Paris", 5);
    assert_eq!(out.len(), 2);
    assert_eq!(out[0].text, "Paris East");
    assert_eq!(out[1].text, "Paris West");
}

#[test]
fn weight_takes_the_earlier_of_both_positions() {
    // the localised name matches at the front even when the plain one
    // matches later; the smaller position decides the weight
    let l = Locality::new(
        "Chennai Town".to_string(),
        "Town Chennai".to_string(),
        "Tamil Nadu".to_string(),
        13_080_000,
        80_270_000,
        "IN".to_string(),
        3000,
        "Asia/Kolkata".to_string(),
    );
    // base 10, position 0 -> 20, start word 0 == main word 0 -> 2, not exact -> 2
    assert_eq!(l.weight("chennai"), 10 * 20 * 2 * 2);
}
