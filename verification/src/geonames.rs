//! Geographic rows and the decisions around them: place rows and their
//! population weighting, the nearby-place chain, the remote time-zone
//! answer with its ocean-basin fall-back, and the pure decision steps of
//! the coordinate-to-zone orchestration.
use vstd::prelude::*;
use vstd::multiset::Multiset;
use crate::text::{
    dec_chars_signed, push_char, push_i64_decimal, push_two_digits, dec_digits, string_of_chars,
    chars_of, split_chars, split_all, eq_ignore_ascii, eq_ignore_ascii_chars, sub_chars,
};
use crate::names::{lookup_first, corrected_cc_pairs, correct_country_code_optional,
    correct_country_code};
use crate::datetime::ts_in_range;
use crate::timezone::{TimeZone};
use crate::coords::LNG_LIMIT;
use crate::config::GEONAMES_MAX_NEARBY_DISTANCE;

verus! {

/// A place row as the remote dataset reports it; coordinates in
/// micro-degrees.
pub struct GeoNameRow {
    pub lat: i64,
    pub lng: i64,
    pub name: String,
    pub toponym: String,
    pub fcode: String,
    pub pop: u32,
    pub country_code: Option<String>,
    pub admin_name: Option<String>,
}

/// Coordinates of a row stay within the longitude domain the offset
/// functions accept.
pub open spec fn geo_row_wf(r: GeoNameRow) -> bool {
    -LNG_LIMIT <= r.lat <= LNG_LIMIT && -LNG_LIMIT <= r.lng <= LNG_LIMIT
}

/// Population weight: populated places (feature codes starting with `P`)
/// count eight-fold.
pub open spec fn weighted_pop_spec(fcode: Seq<char>, pop: int) -> int {
    if fcode.len() > 0 && fcode[0] == 'P' {
        pop * 8
    } else {
        pop
    }
}

/// The display text of a row: `Name, Admin (CC)`, each part as present.
pub open spec fn row_text_spec(r: GeoNameRow) -> Seq<char> {
    r.name@ + (match r.admin_name {
        Some(a) => seq![',', ' '] + a@,
        None => Seq::<char>::empty(),
    }) + (match r.country_code {
        Some(cc) => seq![' ', '('] + cc@ + seq![')'],
        None => Seq::<char>::empty(),
    })
}

/// The deduplication key of a row: name, admin, code and the whole
/// degrees of the coordinates, underscore separated.
pub open spec fn row_key_spec(r: GeoNameRow) -> Seq<char> {
    r.name@ + seq!['_'] + (match r.admin_name {
        Some(a) => a@,
        None => Seq::<char>::empty(),
    }) + seq!['_'] + (match r.country_code {
        Some(c) => c@,
        None => Seq::<char>::empty(),
    }) + seq!['_'] + dec_chars_signed(r.lat as int / 1000000) + seq!['_'] + dec_chars_signed(
        r.lng as int / 1000000,
    )
}

impl GeoNameRow {
    /// Builds a row from the fields a remote record carries, rewriting a
    /// drifted country code.
    pub fn new(
        lat: i64,
        lng: i64,
        name: String,
        toponym: String,
        fcode: String,
        pop: u32,
        cc: Option<String>,
        admin_name: Option<String>,
    ) -> (r: GeoNameRow)
        ensures
            r.lat == lat,
            r.lng == lng,
            r.name == name,
            r.toponym == toponym,
            r.fcode == fcode,
            r.pop == pop,
            (match (&cc, &r.country_code) {
                (Some(c), Some(rc)) => rc@ == (match lookup_first(corrected_cc_pairs(), c@) {
                    Some(n) => n,
                    None => c@,
                }),
                (None, None) => true,
                _ => false,
            }),
            r.admin_name == admin_name,
    {
        let country_code = correct_country_code_optional(cc);
        GeoNameRow { lat, lng, name, toponym, fcode, pop, country_code, admin_name }
    }

    /// An ocean row synthesised from a name alone.
    pub fn new_ocean(name: String, lat: i64, lng: i64) -> (r: GeoNameRow)
        ensures
            r.lat == lat,
            r.lng == lng,
            r.name == name,
            r.toponym@ == name@,
            r.fcode@ == "OCEAN"@,
            r.pop == 0,
            r.country_code is None,
            r.admin_name is None,
    {
        let toponym = name.clone();
        GeoNameRow {
            lat,
            lng,
            name,
            toponym,
            fcode: "OCEAN".to_owned(),
            pop: 0,
            country_code: None,
            admin_name: None,
        }
    }

    /// A bare row from a name and feature code.
    pub fn new_from_params(lat: i64, lng: i64, name: String, fcode: String, pop: u32) -> (r:
        GeoNameRow)
        ensures
            r.lat == lat,
            r.lng == lng,
            r.name == name,
            r.toponym@ == name@,
            r.fcode == fcode,
            r.pop == pop,
            r.country_code is None,
            r.admin_name is None,
    {
        let toponym = name.clone();
        GeoNameRow { lat, lng, name, toponym, fcode, pop, country_code: None, admin_name: None }
    }

    /// A row whose toponym carries the full country name.
    pub fn new_with_country_name(
        lat: i64,
        lng: i64,
        name: String,
        full_name: String,
        fcode: String,
        pop: u32,
    ) -> (r: GeoNameRow)
        ensures
            r.lat == lat,
            r.lng == lng,
            r.name == name,
            r.toponym == full_name,
            r.fcode == fcode,
            r.pop == pop,
            r.country_code is None,
            r.admin_name is None,
    {
        GeoNameRow {
            lat,
            lng,
            name,
            toponym: full_name,
            fcode,
            pop,
            country_code: None,
            admin_name: None,
        }
    }

    /// ` (CC)` when a country code is present.
    pub fn cc_suffix(&self) -> (r: String)
        ensures
            r@ == (match self.country_code {
                Some(cc) => seq![' ', '('] + cc@ + seq![')'],
                None => Seq::<char>::empty(),
            }),
    {
        let mut out = String::new();
        if let Some(cc) = &self.country_code {
            push_char(&mut out, ' ');
            push_char(&mut out, '(');
            out.append(cc.as_str());
            push_char(&mut out, ')');
            proof {
                assert(out@ =~= seq![' ', '('] + self.country_code.unwrap()@ + seq![')']);
            }
        }
        out
    }

    /// `, Admin` when an administrative name is present.
    pub fn admin_suffix(&self) -> (r: String)
        ensures
            r@ == (match self.admin_name {
                Some(a) => seq![',', ' '] + a@,
                None => Seq::<char>::empty(),
            }),
    {
        let mut out = String::new();
        if let Some(a) = &self.admin_name {
            push_char(&mut out, ',');
            push_char(&mut out, ' ');
            out.append(a.as_str());
            proof {
                assert(out@ =~= seq![',', ' '] + self.admin_name.unwrap()@);
            }
        }
        out
    }

    /// `Name, Admin (CC)`, each part as present.
    pub fn text(&self) -> (r: String)
        ensures
            r@ == row_text_spec(*self),
    {
        let mut out = self.name.clone();
        let a = self.admin_suffix();
        let c = self.cc_suffix();
        out.append(a.as_str());
        out.append(c.as_str());
        out
    }

    pub fn to_simple(&self) -> (r: GeoNameSimple)
        ensures
            r.lat == self.lat,
            r.lng == self.lng,
            r.text@ == row_text_spec(*self),
            r.zone_name is None,
    {
        GeoNameSimple { lng: self.lng, lat: self.lat, text: self.text(), zone_name: None }
    }

    /// A deduplication key: name, admin, code and the whole degrees of the
    /// coordinates.
    pub fn to_key(&self) -> (r: String)
        requires
            geo_row_wf(*self),
        ensures
            r@ == row_key_spec(*self),
    {
        let mut out = self.name.clone();
        push_char(&mut out, '_');
        if let Some(a) = &self.admin_name {
            out.append(a.as_str());
        }
        push_char(&mut out, '_');
        if let Some(c) = &self.country_code {
            out.append(c.as_str());
        }
        push_char(&mut out, '_');
        let latd = whole_degrees(self.lat);
        push_i64_decimal(&mut out, latd);
        push_char(&mut out, '_');
        let lngd = whole_degrees(self.lng);
        push_i64_decimal(&mut out, lngd);
        out
    }

    pub fn weighted_pop(&self) -> (r: u64)
        ensures
            r == weighted_pop_spec(self.fcode@, self.pop as int),
    {
        let fc = self.fcode.as_str();
        if fc.unicode_len() > 0 && fc.get_char(0) == 'P' {
            self.pop as u64 * 8
        } else {
            self.pop as u64
        }
    }
}

/// Whole degrees of a micro-degree coordinate, truncated toward zero.
fn whole_degrees(v: i64) -> (r: i64)
    requires
        -4000000000000000 <= v <= 4000000000000000,
    ensures
        r == v as int / 1000000 && r > i64::MIN,
{
    if v >= 0 {
        v / 1000000
    } else {
        let a = -v;
        let q = (a + 999999) / 1000000;
        proof {
            let d = 1000000int;
            let ai = a as int;
            let q1 = ai / d;
            let r1 = ai % d;
            vstd::arithmetic::div_mod::lemma_fundamental_div_mod(ai, d);
            vstd::arithmetic::div_mod::lemma_div_pos_is_pos(ai, d);
            if r1 == 0 {
                vstd::arithmetic::div_mod::lemma_fundamental_div_mod_converse(
                    ai + d - 1,
                    d,
                    q1,
                    d - 1,
                );
                vstd::arithmetic::div_mod::lemma_fundamental_div_mod_converse(-ai, d, -q1, 0);
            } else {
                vstd::arithmetic::div_mod::lemma_fundamental_div_mod_converse(
                    ai + d - 1,
                    d,
                    q1 + 1,
                    r1 - 1,
                );
                vstd::arithmetic::div_mod::lemma_fundamental_div_mod_converse(
                    -ai,
                    d,
                    -q1 - 1,
                    d - r1,
                );
            }
        }
        -q
    }
}

/// A country row of the local store.
pub struct CountryRow {
    pub country_code: String,
    pub country_name: String,
}

impl CountryRow {
    pub fn new(cc: String, name: String) -> (r: CountryRow)
        ensures
            r.country_code == cc,
            r.country_name == name,
    {
        CountryRow { country_code: cc, country_name: name }
    }
}

/// A search result reduced to coordinates, display text and zone.
pub struct GeoNameSimple {
    pub lng: i64,
    pub lat: i64,
    pub text: String,
    pub zone_name: Option<String>,
}

/// A nearby place with its distance (metres) and administrative context.
pub struct GeoNameNearby {
    pub lng: i64,
    pub lat: i64,
    pub name: String,
    pub toponym: String,
    pub fcode: String,
    pub distance: i64,
    pub pop: u32,
    pub admin_name: String,
    pub region: String,
    pub cc: Option<String>,
    pub country_name: String,
    pub zone_name: Option<String>,
}

impl GeoNameNearby {
    /// Builds a nearby row from the fields a remote record carries.
    pub fn new(
        lat: i64,
        lng: i64,
        name: String,
        region: String,
        admin_name: String,
        country_name: String,
        toponym: String,
        fcode: String,
        pop: u32,
        distance: i64,
    ) -> (r: GeoNameNearby)
        ensures
            r.lat == lat,
            r.lng == lng,
            r.name == name,
            r.region == region,
            r.admin_name == admin_name,
            r.country_name == country_name,
            r.toponym == toponym,
            r.fcode == fcode,
            r.pop == pop,
            r.distance == distance,
            r.cc is None,
            r.zone_name is None,
    {
        GeoNameNearby {
            lng,
            lat,
            name,
            toponym,
            fcode,
            distance,
            pop,
            admin_name,
            region,
            cc: None,
            country_name,
            zone_name: None,
        }
    }

    /// Builds a nearby row from a local toponym row; the caller supplies
    /// the country's full name when it wants one shown, since only the
    /// store knows it.
    pub fn from_db_row(
        lat: i64,
        lng: i64,
        name: String,
        cc: String,
        region: String,
        admin_name: String,
        zn: String,
        fcode: String,
        pop: u32,
        distance: i64,
        country_name_opt: Option<String>,
    ) -> (r: GeoNameNearby)
        ensures
            r.lat == lat,
            r.lng == lng,
            r.name == name,
            r.toponym@ == name@,
            r.fcode == fcode,
            r.distance == distance,
            r.pop == pop,
            r.admin_name == admin_name,
            r.region == region,
            r.zone_name is Some && r.zone_name.unwrap() == zn,
            (match (&country_name_opt, &r.cc) {
                (Some(_), Some(c)) => c@ == corrected_cc(cc@),
                (None, None) => true,
                _ => false,
            }),
            r.country_name@ == (match country_name_opt {
                Some(n) => n@,
                None => corrected_cc(cc@),
            }),
    {
        let c_code = correct_country_code(cc.as_str());
        let add_country_name = country_name_opt.is_some();
        let country_name = match country_name_opt {
            Some(n) => n,
            None => c_code.clone(),
        };
        let cc_out = if add_country_name {
            Some(c_code)
        } else {
            None
        };
        let toponym = name.clone();
        GeoNameNearby {
            lng,
            lat,
            name,
            toponym,
            fcode,
            distance,
            pop,
            admin_name,
            region,
            cc: cc_out,
            country_name,
            zone_name: Some(zn),
        }
    }

    /// The best remote place chain condensed into one nearby row: the last
    /// (most specific) row gives the identity; administrative and country
    /// names come from the chain; an ocean row brings a synthesised zone
    /// name.
    pub fn from_places(places: &Vec<GeoNameRow>, date_str: &str, cc_for_country: Option<String>) -> (r:
        Option<GeoNameNearby>)
        requires
            forall|i: int|
                0 <= i < places@.len() ==> -LNG_LIMIT
                    <= (#[trigger] places@[i]).lng <= LNG_LIMIT,
        ensures
            r is Some <==> places@.len() > 0,
            ({
                match r {
                    Some(nb) => {
                        let best = places@.last();
                        let ocean = is_ocean_fcode_spec(best.fcode@);
                        &&& nb.lat == best.lat
                        &&& nb.lng == best.lng
                        &&& nb.name == best.name
                        &&& nb.toponym@ == best.name@
                        &&& nb.region@ == best.name@
                        &&& nb.fcode == best.fcode
                        &&& nb.distance == 0
                        &&& nb.pop == (if ocean {
                            0int
                        } else {
                            best.pop as int
                        })
                        &&& nb.cc == (if !ocean && places@.len() > 1 {
                            cc_for_country
                        } else {
                            None
                        })
                        &&& (ocean ==> nb.zone_name is Some && nb.zone_name.unwrap()@
                            == best.name@ + seq!['/'] + crate::text::dec_digits(
                            ({
                                let h = crate::coords::natural_hours_spec(best.lng as int);
                                if h < 0 {
                                    -h
                                } else {
                                    h
                                }
                            }),
                            2,
                        ) + seq![
                            if best.lng < 0 {
                                'W'
                            } else {
                                'E'
                            },
                        ])
                        &&& (!ocean ==> nb.zone_name is None)
                        &&& nb.admin_name@ == (if !ocean && places@.len() > 1 {
                            match first_adm_from(places@, 0) {
                                Some(t) => places@[t].name@,
                                None => Seq::<char>::empty(),
                            }
                        } else {
                            Seq::<char>::empty()
                        })
                        &&& nb.country_name@ == (if !ocean && places@.len() > 1 {
                            match first_pcli_from(places@, 0) {
                                Some(t) => places@[t].name@,
                                None => Seq::<char>::empty(),
                            }
                        } else {
                            Seq::<char>::empty()
                        })
                    },
                    None => true,
                }
            }),
    {
        let num_places = places.len();
        if num_places == 0 {
            return None;
        }
        let best = &places[num_places - 1];
        let is_ocean = is_ocean_fcode(&best.fcode);
        let pop: u32 = if is_ocean {
            0
        } else {
            best.pop
        };
        let mut admin_name = String::new();
        let mut country_name = String::new();
        if !is_ocean && num_places > 1 {
            let mut admin_found = false;
            let mut country_found = false;
            let ghost mut af: int = 0;
            let ghost mut cf: int = 0;
            let mut i: usize = 0;
            while i < num_places
                invariant
                    0 <= i <= num_places == places@.len(),
                    first_adm_from(places@, 0) == (if admin_found {
                        Some(af)
                    } else {
                        first_adm_from(places@, i as int)
                    }),
                    admin_found ==> 0 <= af < places@.len() && admin_name@ == places@[af].name@,
                    !admin_found ==> admin_name@ == Seq::<char>::empty(),
                    first_pcli_from(places@, 0) == (if country_found {
                        Some(cf)
                    } else {
                        first_pcli_from(places@, i as int)
                    }),
                    country_found ==> 0 <= cf < places@.len() && country_name@ == places@[
                        cf].name@,
                    !country_found ==> country_name@ == Seq::<char>::empty(),
                decreases places@.len() - i,
            {
                let fc = places[i].fcode.as_str();
                let is_adm = fc.unicode_len() >= 3 && fc.get_char(0) == 'A' && fc.get_char(1)
                    == 'D' && fc.get_char(2) == 'M';
                let is_pcli = fc.unicode_len() >= 4 && fc.get_char(0) == 'P' && fc.get_char(1)
                    == 'C' && fc.get_char(2) == 'L' && fc.get_char(3) == 'I';
                proof {
                    assert(is_adm == is_adm_fcode(places@[i as int].fcode@));
                    assert(is_pcli == is_pcli_fcode(places@[i as int].fcode@));
                }
                if !admin_found && is_adm {
                    admin_name = places[i].name.clone();
                    admin_found = true;
                    proof {
                        af = i as int;
                    }
                }
                if !country_found && is_pcli {
                    country_name = places[i].name.clone();
                    country_found = true;
                    proof {
                        cf = i as int;
                    }
                }
                i = i + 1;
            }
        }
        let cc: Option<String> = if !is_ocean && num_places > 1 {
            cc_for_country
        } else {
            None
        };
        let mut zone_name: Option<String> = None;
        if is_ocean {
            let tz = TimeZone::new_ocean(best.name.as_str(), best.lng, date_str);
            zone_name = Some(tz.zone_name);
        }
        let name = best.name.clone();
        let toponym = best.name.clone();
        let region = best.name.clone();
        Some(
            GeoNameNearby {
                lng: best.lng,
                lat: best.lat,
                name,
                toponym,
                fcode: best.fcode.clone(),
                distance: 0,
                pop,
                admin_name,
                region,
                cc,
                country_name,
                zone_name,
            },
        )
    }

    /// Expands a nearby row into the place chain `[country, region,
    /// admin, place]`, skipping absent levels. The caller supplies the
    /// country's full name where the store knows it.
    pub fn to_rows(&self, full_country_name: Option<String>) -> (rows: Vec<GeoNameRow>)
        ensures
            ({
                let has_region = self.region@.len() > 0;
                let has_admin = self.admin_name@.len() > 0 && self.admin_name@ != self.region@;
                &&& rows@.len() == 2 + (if has_region {
                    1int
                } else {
                    0int
                }) + (if has_admin {
                    1int
                } else {
                    0int
                })
                &&& (has_region ==> rows@[1].fcode@ == "ADM1"@ && rows@[1].name == self.region
                    && rows@[1].pop == 0)
                &&& (has_admin ==> {
                    let ai: int = if has_region {
                        2
                    } else {
                        1
                    };
                    &&& rows@[ai].fcode@ == (if has_region {
                        "ADM2"@
                    } else {
                        "ADM1"@
                    })
                    &&& rows@[ai].name == self.admin_name
                    &&& rows@[ai].pop == 0
                })
            }),
            forall|i: int|
                0 <= i < rows@.len() ==> (#[trigger] rows@[i]).lat == self.lat && rows@[i].lng
                    == self.lng,
            rows@[0].fcode@ == "PCLI"@,
            rows@[0].name == self.country_name,
            rows@[0].toponym@ == (match full_country_name {
                Some(n) => n@,
                None => self.country_name@,
            }),
            rows@.last().name == self.name,
            rows@.last().fcode == self.fcode,
            rows@.last().pop == self.pop,
    {
        let mut rows: Vec<GeoNameRow> = Vec::new();
        let cc = self.country_name.clone();
        let full_name = match full_country_name {
            Some(n) => n,
            None => self.country_name.clone(),
        };
        rows.push(
            GeoNameRow::new_with_country_name(
                self.lat,
                self.lng,
                cc,
                full_name,
                "PCLI".to_owned(),
                0,
            ),
        );
        let has_region = self.region.as_str().unicode_len() > 0;
        if has_region {
            rows.push(
                GeoNameRow::new_from_params(
                    self.lat,
                    self.lng,
                    self.region.clone(),
                    "ADM1".to_owned(),
                    0,
                ),
            );
        }
        let admin_differs = !crate::names::str_eq(self.admin_name.as_str(), self.region.as_str());
        if self.admin_name.as_str().unicode_len() > 0 && admin_differs {
            let fcode: &str = if has_region {
                "ADM2"
            } else {
                "ADM1"
            };
            rows.push(
                GeoNameRow::new_from_params(
                    self.lat,
                    self.lng,
                    self.admin_name.clone(),
                    fcode.to_owned(),
                    0,
                ),
            );
        }
        rows.push(
            GeoNameRow::new_from_params(
                self.lat,
                self.lng,
                self.name.clone(),
                self.fcode.clone(),
                self.pop,
            ),
        );
        rows
    }

}

/// The corrected spelling of a country code, as a spec value.
pub open spec fn corrected_cc(cc: Seq<char>) -> Seq<char> {
    match lookup_first(corrected_cc_pairs(), cc) {
        Some(c) => c,
        None => cc,
    }
}

/// Whether a feature code names open water.
pub open spec fn is_ocean_fcode_spec(fc: Seq<char>) -> bool {
    fc == "OCEAN"@ || fc == "SEA"@
}

pub fn is_ocean_fcode(fcode: &String) -> (r: bool)
    ensures
        r == is_ocean_fcode_spec(fcode@),
{
    crate::names::str_eq(fcode.as_str(), "OCEAN") || crate::names::str_eq(fcode.as_str(), "SEA")
}

/// An administrative-division feature code: one starting with `ADM`.
pub open spec fn is_adm_fcode(fc: Seq<char>) -> bool {
    fc.len() >= 3 && fc[0] == 'A' && fc[1] == 'D' && fc[2] == 'M'
}

/// A country feature code: one starting with `PCLI`.
pub open spec fn is_pcli_fcode(fc: Seq<char>) -> bool {
    fc.len() >= 4 && fc[0] == 'P' && fc[1] == 'C' && fc[2] == 'L' && fc[3] == 'I'
}

/// Index of the first administrative row at or after `k`.
pub open spec fn first_adm_from(places: Seq<GeoNameRow>, k: int) -> Option<int>
    decreases places.len() - k,
{
    if k < 0 || k >= places.len() {
        None
    } else if is_adm_fcode(places[k].fcode@) {
        Some(k)
    } else {
        first_adm_from(places, k + 1)
    }
}

/// Index of the first country row at or after `k`.
pub open spec fn first_pcli_from(places: Seq<GeoNameRow>, k: int) -> Option<int>
    decreases places.len() - k,
{
    if k < 0 || k >= places.len() {
        None
    } else if is_pcli_fcode(places[k].fcode@) {
        Some(k)
    } else {
        first_pcli_from(places, k + 1)
    }
}

/// The ten ocean/continental basin tokens a synthesised zone can carry.
pub open spec fn basin_of(lat: int, lng: int) -> Seq<char> {
    if lat > 68000000 {
        "Arctic"@
    } else if lng > 150000000 || (lng < -110000000 && lat > -60000000 && lat < 68000000) {
        if lat < 0 {
            "South_Pacific"@
        } else {
            "North_Pacific"@
        }
    } else if lng < 15000000 && lng > -80000000 {
        if lat < 0 {
            "South_Atlantic"@
        } else {
            "North_Atlantic"@
        }
    } else if lat > 20000000 && lng > 20000000 && lng > -60000000 && lat < 100000000 {
        "Indian"@
    } else if lat <= -60000000 {
        "Southern"@
    } else if lat > 30000000 && lng > -120000000 && lng < -60000000 {
        "North_America"@
    } else if lat < 0 {
        "Southern_Hemisphere"@
    } else {
        "Northern_Hemisphere"@
    }
}

/// The basin classifier is total: every coordinate gets one of the ten
/// enumerated tokens, so a synthesised zone always has a name.
pub proof fn lemma_basin_classifier_total(lat: int, lng: int)
    ensures
        ({
            let b = basin_of(lat, lng);
            ||| b == "Arctic"@
            ||| b == "North_Pacific"@
            ||| b == "South_Pacific"@
            ||| b == "North_Atlantic"@
            ||| b == "South_Atlantic"@
            ||| b == "Indian"@
            ||| b == "Southern"@
            ||| b == "North_America"@
            ||| b == "Northern_Hemisphere"@
            ||| b == "Southern_Hemisphere"@
        }),
        basin_of(lat, lng).len() > 0,
{
    reveal_strlit("Arctic");
    reveal_strlit("North_Pacific");
    reveal_strlit("South_Pacific");
    reveal_strlit("North_Atlantic");
    reveal_strlit("South_Atlantic");
    reveal_strlit("Indian");
    reveal_strlit("Southern");
    reveal_strlit("North_America");
    reveal_strlit("Northern_Hemisphere");
    reveal_strlit("Southern_Hemisphere");
}

fn basin_token(lat: i64, lng: i64) -> (r: &'static str)
    ensures
        r@ == basin_of(lat as int, lng as int),
{
    if lat > 68000000 {
        "Arctic"
    } else if lng > 150000000 || (lng < -110000000 && lat > -60000000 && lat < 68000000) {
        if lat < 0 {
            "South_Pacific"
        } else {
            "North_Pacific"
        }
    } else if lng < 15000000 && lng > -80000000 {
        if lat < 0 {
            "South_Atlantic"
        } else {
            "North_Atlantic"
        }
    } else if lat > 20000000 && lng > 20000000 && lng > -60000000 && lat < 100000000 {
        "Indian"
    } else if lat <= -60000000 {
        "Southern"
    } else if lat > 30000000 && lng > -120000000 && lng < -60000000 {
        "North_America"
    } else if lat < 0 {
        "Southern_Hemisphere"
    } else {
        "Northern_Hemisphere"
    }
}

/// The hour part of a synthesised zone suffix: whole hours, and a short
/// decimal fraction for quarter-hour offsets.
pub open spec fn hours_suffix_of(secs: int) -> Seq<char> {
    let habs = if secs < 0 {
        -secs
    } else {
        secs
    };
    let whole = habs / 3600;
    let frac100 = (habs % 3600) * 100 / 3600;
    if habs % 3600 == 0 {
        crate::text::dec_chars(whole)
    } else if frac100 % 10 == 0 {
        crate::text::dec_chars(whole) + seq!['.'] + crate::text::dec_chars(frac100 / 10)
    } else {
        crate::text::dec_chars(whole) + seq!['.'] + dec_digits(frac100, 2)
    }
}

/// The remote time-zone answer, or its synthesised stand-in.
pub struct TimeZoneInfo {
    pub cc: String,
    pub tz: String,
}

impl TimeZoneInfo {
    /// Accepts the remote zone identifier when it carries one, and
    /// otherwise fabricates `{basin}/{hours}{E|W}` from the coordinates
    /// and the remote UTC offset, with `-` for the country.
    pub fn new(cc: String, tz_id: String, gmt_offset_secs: i64, lat: i64, lng: i64) -> (r:
        TimeZoneInfo)
        requires
            -86400 <= gmt_offset_secs <= 86400,
        ensures
            tz_id@.len() >= 3 ==> r.tz == tz_id && r.cc == cc,
            tz_id@.len() < 3 ==> r.tz@ == basin_of(lat as int, lng as int) + seq!['/']
                + hours_suffix_of(gmt_offset_secs as int) + seq![
                if gmt_offset_secs < 0 {
                    'W'
                } else {
                    'E'
                },
            ] && r.cc@ == seq!['-'],
    {
        if tz_id.as_str().unicode_len() >= 3 {
            TimeZoneInfo { cc, tz: tz_id }
        } else {
            let habs: i64 = if gmt_offset_secs < 0 {
                -gmt_offset_secs
            } else {
                gmt_offset_secs
            };
            let letter = if gmt_offset_secs < 0 {
                'W'
            } else {
                'E'
            };
            let mut tz = basin_token(lat, lng).to_owned();
            push_char(&mut tz, '/');
            crate::text::push_u64_decimal(&mut tz, (habs / 3600) as u64);
            if habs % 3600 != 0 {
                let frac100 = (habs % 3600) * 100 / 3600;
                push_char(&mut tz, '.');
                if frac100 % 10 == 0 {
                    crate::text::push_u64_decimal(&mut tz, (frac100 / 10) as u64);
                } else {
                    push_two_digits(&mut tz, frac100 as u64);
                }
            }
            push_char(&mut tz, letter);
            let mut dash = String::new();
            push_char(&mut dash, '-');
            proof {
                assert(tz@ =~= basin_of(lat as int, lng as int) + seq!['/'] + hours_suffix_of(
                    gmt_offset_secs as int,
                ) + seq![letter]);
                assert(dash@ =~= seq!['-']);
            }
            TimeZoneInfo { cc: dash, tz }
        }
    }

    /// Whether the zone identifier is substantial enough to resolve with.
    pub fn usable(&self) -> (r: bool)
        ensures
            r == (self.tz@.len() > 3),
    {
        self.tz.as_str().unicode_len() > 3
    }
}

/// The `/geotime` response body: the place chain and the resolved zone.
pub struct GeoTimeInfo {
    pub placenames: Vec<GeoNameRow>,
    pub time: Option<TimeZone>,
}

/// The `/geotz` response body: one place and the resolved zone.
pub struct GeoTimeZone {
    pub place: Option<GeoNameNearby>,
    pub time: Option<TimeZone>,
}

/// Whether a remote row survives the chain filter: `AREA` rows never do,
/// `CONT` rows only in short responses.
pub open spec fn keep_row_spec(fcode: Seq<char>, num_items: int) -> bool {
    fcode != "AREA"@ && (fcode != "CONT"@ || num_items < 3)
}

/// The rows that survive the chain filter, in order.
pub open spec fn kept_rows(rows: Seq<GeoNameRow>, num_items: int) -> Seq<GeoNameRow>
    decreases rows.len(),
{
    if rows.len() == 0 {
        Seq::empty()
    } else {
        let pre = kept_rows(rows.drop_last(), num_items);
        if keep_row_spec(rows.last().fcode@, num_items) {
            pre.push(rows.last())
        } else {
            pre
        }
    }
}

/// Filters a remote place chain as `kept_rows` describes.
pub fn filter_geoname_rows(rows: Vec<GeoNameRow>, num_items: usize) -> (r: Vec<GeoNameRow>)
    ensures
        r@ == kept_rows(rows@, num_items as int),
{
    let mut out: Vec<GeoNameRow> = Vec::new();
    let mut i: usize = 0;
    let n = rows.len();
    let mut src = rows;
    let ghost rs = src@;
    proof {
        assert(rs.subrange(0, 0) =~= Seq::<GeoNameRow>::empty());
        assert(rs.subrange(0, n as int) =~= rs);
    }
    while i < n
        invariant
            0 <= i <= n,
            n == rs.len(),
            src@ =~= rs.subrange(i as int, n as int),
            out@ == kept_rows(rs.subrange(0, i as int), num_items as int),
        decreases n - i,
    {
        let row = src.remove(0);
        proof {
            let pre = rs.subrange(0, i as int);
            let post = rs.subrange(0, i + 1 as int);
            assert(post.drop_last() =~= pre);
            assert(post.last() == rs[i as int]);
            assert(row == rs[i as int]);
            assert(rs.subrange(i as int, n as int).remove(0) =~= rs.subrange(
                i as int + 1,
                n as int,
            ));
        }
        let keep = {
            let fc = row.fcode.as_str();
            let is_area = crate::names::str_eq(fc, "AREA");
            let is_cont = crate::names::str_eq(fc, "CONT");
            !is_area && (!is_cont || num_items < 3)
        };
        if keep {
            out.push(row);
        }
        i = i + 1;
    }
    proof {
        assert(rs.subrange(0, n as int) =~= rs);
    }
    out
}

/// Sorts place rows by weighted population, largest first; the result is
/// a reordering of the input.
pub fn sort_rows_by_weighted_pop(rows: Vec<GeoNameRow>) -> (r: Vec<GeoNameRow>)
    ensures
        r@.len() == rows@.len(),
        r@.to_multiset() == rows@.to_multiset(),
        forall|i: int, j: int|
            0 <= i < j < r@.len() ==> weighted_pop_spec((#[trigger] r@[i]).fcode@, r@[i].pop as int)
                >= weighted_pop_spec((#[trigger] r@[j]).fcode@, r@[j].pop as int),
{
    broadcast use vstd::seq_lib::group_to_multiset_ensures;

    let ghost orig = rows@;
    let mut src = rows;
    let mut out: Vec<GeoNameRow> = Vec::new();
    while src.len() > 0
        invariant
            out@.to_multiset().add(src@.to_multiset()) =~= orig.to_multiset(),
            out@.len() + src@.len() == orig.len(),
            forall|i: int, j: int|
                0 <= i < j < out@.len() ==> weighted_pop_spec(
                    (#[trigger] out@[i]).fcode@,
                    out@[i].pop as int,
                ) >= weighted_pop_spec((#[trigger] out@[j]).fcode@, out@[j].pop as int),
            forall|a: int, b: int|
                0 <= a < out@.len() && 0 <= b < src@.len() ==> weighted_pop_spec(
                    (#[trigger] out@[a]).fcode@,
                    out@[a].pop as int,
                ) >= weighted_pop_spec((#[trigger] src@[b]).fcode@, src@[b].pop as int),
        decreases src@.len(),
    {
        let mut mi: usize = 0;
        let mut best = src[0].weighted_pop();
        let mut k: usize = 1;
        while k < src.len()
            invariant
                0 <= mi < k <= src@.len(),
                src@.len() > 0,
                best == weighted_pop_spec(src@[mi as int].fcode@, src@[mi as int].pop as int),
                forall|t: int|
                    0 <= t < k ==> best >= weighted_pop_spec(
                        (#[trigger] src@[t]).fcode@,
                        src@[t].pop as int,
                    ),
            decreases src@.len() - k,
        {
            let w = src[k].weighted_pop();
            if w > best {
                best = w;
                mi = k;
            }
            k = k + 1;
        }
        let ghost pre = src@;
        let x = src.remove(mi);
        proof {
            broadcast use vstd::seq_lib::group_to_multiset_ensures;
            broadcast use vstd::multiset::group_multiset_axioms;

            assert(pre.remove(mi as int).to_multiset() =~= pre.to_multiset().remove(x));
            assert(pre.to_multiset().count(x) > 0) by {
                assert(pre[mi as int] == x);
                assert(pre.contains(x));
            };
            assert(out@.push(x).to_multiset() =~= out@.to_multiset().insert(x));
            assert(out@.to_multiset().insert(x).add(pre.to_multiset().remove(x))
                =~= out@.to_multiset().add(pre.to_multiset()));
            assert(forall|b: int|
                0 <= b < src@.len() ==> pre.to_multiset().contains(#[trigger] src@[b]));
        }
        out.push(x);
    }
    proof {
        broadcast use vstd::seq_lib::group_to_multiset_ensures;
        broadcast use vstd::multiset::group_multiset_axioms;

        assert(src@.to_multiset() =~= Multiset::<GeoNameRow>::empty());
        assert(out@.to_multiset() =~= orig.to_multiset());
    }
    out
}

/// The coordinates the zone lookup should use: the last (most specific)
/// place of the chain, or the query's own.
pub fn extract_best_lat_lng_from_placenames(placenames: &Vec<GeoNameRow>, lat: i64, lng: i64) -> (r:
    (i64, i64))
    ensures
        placenames@.len() > 0 ==> r == (
            placenames@.last().lat,
            placenames@.last().lng,
        ),
        placenames@.len() == 0 ==> r == (lat, lng),
{
    if placenames.len() > 0 {
        let last = &placenames[placenames.len() - 1];
        (last.lat, last.lng)
    } else {
        (lat, lng)
    }
}

/// Whether a word is one of the four compass directions, up to ASCII
/// case.
pub open spec fn is_directional(w: Seq<char>) -> bool {
    ||| eq_ignore_ascii(w, "north"@)
    ||| eq_ignore_ascii(w, "south"@)
    ||| eq_ignore_ascii(w, "east"@)
    ||| eq_ignore_ascii(w, "west"@)
}

/// The first word that is not a compass direction.
pub open spec fn nondirectional_word(words: Seq<Seq<char>>) -> Option<Seq<char>>
    decreases words.len(),
{
    if words.len() == 0 {
        None
    } else if !is_directional(words[0]) {
        Some(words[0])
    } else {
        nondirectional_word(words.drop_first())
    }
}

/// Synthesises an ocean zone from the first placename row: the first
/// non-directional word of its name becomes the basin token.
pub fn extract_time_from_first_row(
    placenames: &Vec<GeoNameRow>,
    lng: i64,
    utc_string: &str,
) -> (r: Option<TimeZone>)
    requires
        -LNG_LIMIT <= lng <= LNG_LIMIT,
    ensures
        ({
            if placenames@.len() == 0 {
                r is None
            } else {
                match nondirectional_word(split_all(placenames@[0].name@, ' ')) {
                    Some(w) => {
                        &&& r is Some
                        &&& ({
                            let hours = crate::coords::natural_hours_spec(lng as int);
                            let habs = if hours < 0 {
                                -hours
                            } else {
                                hours
                            };
                            let letter = if lng < 0 {
                                'W'
                            } else {
                                'E'
                            };
                            let ts = crate::datetime::parse_fuzzy_spec(utc_string@).ts();
                            let tz = r.unwrap();
                            &&& tz.zone_name@ == w + seq!['/'] + dec_digits(habs, 2)
                                + seq![letter]
                            &&& tz.gmt_offset == hours * 3600
                            &&& tz.abbreviation@ == seq!['L', 'O', 'C']
                            &&& tz.country_code@ == Seq::<char>::empty()
                            &&& !tz.dst
                            &&& tz.ref_unix == Some(ts as i64)
                            &&& tz.utc is Some && tz.utc.unwrap()@
                                == crate::datetime::utc_chars(ts)
                            &&& tz.local_dt is Some && tz.local_dt.unwrap()@
                                == crate::datetime::utc_chars(
                                crate::timezone::clamp_ts(ts + hours * 3600),
                            )
                            &&& tz.week_day is Some && crate::datetime::is_weekday_code_of(
                                tz.week_day.unwrap(),
                                crate::timezone::clamp_ts(ts + hours * 3600),
                            )
                            &&& tz.period.start is None && tz.period.end is None
                            &&& tz.solar_utc_offset == Some(
                                (crate::coords::natural_offset_spec(lng as int) as i32),
                            )
                        })
                    },
                    None => r is None,
                }
            }
        }),
{
    if placenames.len() == 0 {
        return None;
    }
    let row = &placenames[0];
    let nv = chars_of(row.name.as_str());
    let words = split_chars(&nv, ' ');
    let ghost ws = split_all(row.name@, ' ');
    let mut i: usize = 0;
    proof {
        assert(ws.skip(0) =~= ws);
    }
    while i < words.len()
        invariant
            0 <= i <= words@.len(),
            placenames@.len() > 0,
            ws == split_all(placenames@[0].name@, ' '),
            words@.map_values(|p: Vec<char>| p@) == ws,
            nondirectional_word(ws) == nondirectional_word(ws.skip(i as int)),
            -LNG_LIMIT <= lng <= LNG_LIMIT,
        decreases words@.len() - i,
    {
        proof {
            assert(ws[i as int] == words@[i as int]@);
            assert(ws.skip(i as int)[0] == ws[i as int]);
            assert(ws.skip(i as int).drop_first() =~= ws.skip(i as int + 1));
        }
        let w = &words[i];
        let directional = eq_ignore_ascii_chars(w, "north") || eq_ignore_ascii_chars(w, "south")
            || eq_ignore_ascii_chars(w, "east") || eq_ignore_ascii_chars(w, "west");
        if !directional {
            let name = string_of_chars(w);
            proof {
                assert(nondirectional_word(ws.skip(i as int)) == Some(ws[i as int]));
            }
            return Some(TimeZone::new_ocean(name.as_str(), lng, utc_string));
        }
        i = i + 1;
    }
    proof {
        assert(ws.skip(words@.len() as int) =~= Seq::<Seq<char>>::empty());
    }
    None
}

/// `s` with every occurrence of `pat` cut out, scanning left to right.
pub open spec fn remove_all_spec(s: Seq<char>, pat: Seq<char>) -> Seq<char>
    decreases s.len(),
{
    if pat.len() == 0 {
        s
    } else {
        match crate::text::find_sub_spec(s, pat) {
            Some(i) => {
                if 0 <= i && i + pat.len() <= s.len() {
                    s.subrange(0, i) + remove_all_spec(
                        s.subrange(i + pat.len(), s.len() as int),
                        pat,
                    )
                } else {
                    s
                }
            },
            None => s,
        }
    }
}

/// Every space replaced by an underscore.
pub open spec fn underscored(s: Seq<char>) -> Seq<char> {
    Seq::new(
        s.len(),
        |i: int|
            if s[i] == ' ' {
                '_'
            } else {
                s[i]
            },
    )
}

/// A successful substring search yields a valid occurrence index.
proof fn lemma_find_sub_bounds(hay: Seq<char>, nd: Seq<char>, k: int)
    ensures
        match crate::text::first_sub_from(hay, nd, k) {
            Some(i) => k <= i && i + nd.len() <= hay.len(),
            None => true,
        },
    decreases hay.len() - k,
{
    if !(k < 0 || k + nd.len() > hay.len()) && nd.len() != 0 && hay.subrange(k, k + nd.len())
        != nd {
        lemma_find_sub_bounds(hay, nd, k + 1);
    }
}

/// The basin token of an ocean name: the word `Ocean` cut out, the ends
/// trimmed, and the remaining spaces turned into underscores.
pub fn abbreviate_ocean_name(name: &str) -> (r: String)
    ensures
        r@ == underscored(
            crate::text::trim_spec(remove_all_spec(name@, seq![' ', 'O', 'c', 'e', 'a', 'n'])),
        ),
{
    let pat: Vec<char> = vec![' ', 'O', 'c', 'e', 'a', 'n'];
    let mut v = chars_of(name);
    let ghost p = pat@;
    let mut out: Vec<char> = Vec::new();
    proof {
        assert(p =~= seq![' ', 'O', 'c', 'e', 'a', 'n']);
    }
    loop
        invariant_except_break
            pat@ == p,
            p.len() == 6,
            remove_all_spec(name@, p) =~= out@ + remove_all_spec(v@, p),
        ensures
            out@ =~= remove_all_spec(name@, p),
        decreases v@.len(),
    {
        match crate::text::find_sub(&v, &pat) {
            Some(i) => {
                proof {
                    lemma_find_sub_bounds(v@, p, 0);
                    assert(i as int + 6 <= v@.len());
                    assert(remove_all_spec(v@, p) =~= v@.subrange(0, i as int) + remove_all_spec(
                        v@.subrange(i as int + 6, v@.len() as int),
                        p,
                    ));
                }
                let ghost out0 = out@;
                let mut k: usize = 0;
                while k < i
                    invariant
                        0 <= k <= i,
                        i + 6 <= v@.len(),
                        out@ =~= out0 + v@.subrange(0, k as int),
                    decreases i - k,
                {
                    out.push(v[k]);
                    proof {
                        assert(out@ =~= out0 + v@.subrange(0, k + 1 as int));
                    }
                    k = k + 1;
                }
                let n = v.len();
                let rest = sub_chars(&v, i + 6, n);
                v = rest;
            },
            None => {
                let ghost out0 = out@;
                let mut k: usize = 0;
                while k < v.len()
                    invariant
                        0 <= k <= v@.len(),
                        out@ =~= out0 + v@.subrange(0, k as int),
                    decreases v@.len() - k,
                {
                    out.push(v[k]);
                    proof {
                        assert(out@ =~= out0 + v@.subrange(0, k + 1 as int));
                    }
                    k = k + 1;
                }
                proof {
                    assert(v@.subrange(0, v@.len() as int) =~= v@);
                }
                break ;
            },
        }
    }
    let trimmed = crate::text::trim_chars(&out);
    let mut res: Vec<char> = Vec::new();
    let mut k: usize = 0;
    while k < trimmed.len()
        invariant
            0 <= k <= trimmed@.len(),
            res@ =~= underscored(trimmed@).subrange(0, k as int),
        decreases trimmed@.len() - k,
    {
        let c = trimmed[k];
        if c == ' ' {
            res.push('_');
        } else {
            res.push(c);
        }
        proof {
            assert(res@ =~= underscored(trimmed@).subrange(0, k + 1 as int));
        }
        k = k + 1;
    }
    proof {
        assert(res@ =~= underscored(trimmed@));
        assert(trimmed@ == crate::text::trim_spec(remove_all_spec(name@, p)));
    }
    string_of_chars(&res)
}

/// The coarse ocean-box test the proximity retry policy consults, exactly
/// as the service has always drawn its boxes.
pub fn is_in_ocean_zone(lat: i64, lng: i64) -> (r: bool)
    ensures
        r == ((lng > 150000000 && lng < -130000000) || (lng > -50000000 && lng > 10000000) || (lat
            < 20000000 && lng > 40000000 && lng < 110000000)),
{
    if (lng > 150000000 && lng < -130000000) || (lng > -50000000 && lng > 10000000) {
        true
    } else if lat < 20000000 && lng > 40000000 && lng < 110000000 {
        true
    } else {
        false
    }
}

/// The index of the first candidate within the radius; the remote hands
/// its results nearest-first, so this is the nearest qualifying place.
pub open spec fn first_within(cands: Seq<GeoNameNearby>, radius: int, k: int) -> Option<int>
    decreases cands.len() - k,
{
    if k < 0 || k >= cands.len() {
        None
    } else if cands[k].distance <= radius {
        Some(k)
    } else {
        first_within(cands, radius, k + 1)
    }
}

/// A successful scan lands on a qualifying candidate.
proof fn lemma_first_within_props(cands: Seq<GeoNameNearby>, radius: int, k: int)
    ensures
        match first_within(cands, radius, k) {
            Some(w) => 0 <= w < cands.len() && cands[w].distance <= radius,
            None => true,
        },
    decreases cands.len() - k,
{
    if 0 <= k < cands.len() && !(cands[k].distance <= radius) {
        lemma_first_within_props(cands, radius, k + 1);
    }
}

/// The nearest candidate within the radius (the first, as the remote
/// orders them), expanded into a place chain; empty when none qualifies.
pub fn expand_nearby_rows(cands: &Vec<GeoNameNearby>, radius: i64) -> (r: Vec<GeoNameRow>)
    ensures
        ({
            match first_within(cands@, radius as int, 0) {
                Some(w) => {
                    let c = cands@[w];
                    &&& 2 <= r@.len() <= 4
                    &&& r@[0].fcode@ == "PCLI"@
                    &&& r@[0].name == c.country_name
                    &&& r@.last().name == c.name
                    &&& r@.last().fcode == c.fcode
                    &&& r@.last().pop == c.pop
                    &&& r@.last().lat == c.lat && r@.last().lng == c.lng
                },
                None => r@.len() == 0,
            }
        }),
{
    let mut i: usize = 0;
    while i < cands.len()
        invariant
            0 <= i <= cands@.len(),
            first_within(cands@, radius as int, 0) == first_within(
                cands@,
                radius as int,
                i as int,
            ),
        decreases cands@.len() - i,
    {
        if cands[i].distance <= radius {
            proof {
                assert(first_within(cands@, radius as int, i as int) == Some(i as int));
            }
            return cands[i].to_rows(None);
        }
        i = i + 1;
    }
    Vec::new()
}

} // verus!
