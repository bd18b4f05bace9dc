//! Place-name search: locality rows from the local store with their
//! population-and-position ranking weight, the deduplicated fuzzy search
//! results, and the policy that decides between the local table and the
//! remote search.
use vstd::prelude::*;
use vstd::multiset::Multiset;
use crate::text::{
    chars_of, find_sub, find_sub_spec, split_chars, split_all, prefix_of, starts_with_chars,
    push_char,
};
use crate::names::{
    lower_of, simplified, simple_match, is_in_simple_string, matches_alternative,
    matches_alternative_spec, alternative_pairs, to_lowercase_str, lookup_first,
    corrected_cc_pairs, correct_country_code, str_eq,
};
use crate::geonames::{GeoNameRow, GeoNameSimple, geo_row_wf, row_key_spec};
use crate::coords::LNG_LIMIT;

verus! {

/// A row of the local city table; coordinates in micro-degrees.
pub struct Locality {
    pub name: String,
    pub ascii_name: String,
    pub admin_name: String,
    pub lat: i64,
    pub lng: i64,
    pub cc: String,
    pub population: u32,
    pub zone_name: String,
}

/// Index of the first word `t` is a prefix of, or ten when none is.
pub open spec fn first_prefix_index(words: Seq<Seq<char>>, t: Seq<char>, k: int) -> int
    decreases words.len() - k,
{
    if k < 0 || k >= words.len() {
        10
    } else if prefix_of(t, words[k]) {
        k
    } else {
        first_prefix_index(words, t, k + 1)
    }
}

/// Index of the first longest word.
pub open spec fn main_word_index(words: Seq<Seq<char>>, k: int, bi: int, bl: int) -> int
    decreases words.len() - k,
{
    if k < 0 || k >= words.len() {
        bi
    } else if words[k].len() > bl {
        main_word_index(words, k + 1, k, words[k].len() as int)
    } else {
        main_word_index(words, k + 1, bi, bl)
    }
}

/// Position of the search string in a lowered name, twenty when absent.
pub open spec fn find_or_20(s: Seq<char>, t: Seq<char>) -> int {
    match find_sub_spec(s, t) {
        Some(i) => i,
        None => 20,
    }
}

/// The ranking weight of a locality for a lowered search string: its
/// padded population, scaled by how early the match sits (the smaller of
/// its positions in the plain and localised names), whether it opens the
/// name's main word, and whether it is exact.
pub open spec fn locality_weight_spec(
    name_l: Seq<char>,
    ascii_l: Seq<char>,
    pop: int,
    text: Seq<char>,
) -> int {
    let pos0 = find_or_20(ascii_l, text);
    let pos2 = find_or_20(name_l, text);
    let pos = if pos2 < pos0 {
        pos2
    } else {
        pos0
    };
    let ref_name = name_l;
    let words = split_all(ref_name, ' ');
    let start_idx = first_prefix_index(words, text, 0);
    let main_idx = main_word_index(words, 0, 0, 0);
    let exact: int = if ref_name == text {
        if ref_name.len() > 3 {
            4
        } else {
            3
        }
    } else {
        2
    };
    let start_w: int = if start_idx == main_idx {
        2
    } else {
        1
    };
    let pos_w: int = if pos <= 20 {
        20 - pos
    } else {
        0
    };
    ((pop + 5000) / 800) * pos_w * start_w * exact
}

impl Locality {
    /// Builds a row from the local store's fields, rewriting a drifted
    /// country code.
    pub fn new(
        name: String,
        ascii_name: String,
        admin_name: String,
        lat: i64,
        lng: i64,
        cc: String,
        population: u32,
        zone_name: String,
    ) -> (r: Locality)
        ensures
            r.name == name,
            r.ascii_name == ascii_name,
            r.admin_name == admin_name,
            r.lat == lat,
            r.lng == lng,
            r.cc@ == (match lookup_first(corrected_cc_pairs(), cc@) {
                Some(c) => c,
                None => cc@,
            }),
            r.population == population,
            r.zone_name == zone_name,
    {
        let cc = correct_country_code(cc.as_str());
        Locality { name, ascii_name, admin_name, lat, lng, cc, population, zone_name }
    }

    /// The ranking weight of this row for a lowered search string.
    pub fn weight(&self, text: &str) -> (r: u32)
        ensures
            r == locality_weight_spec(
                lower_of(self.name@),
                lower_of(self.ascii_name@),
                self.population as int,
                text@,
            ),
    {
        let plain = to_lowercase_str(self.ascii_name.as_str());
        let normal = to_lowercase_str(self.name.as_str());
        let tv = chars_of(text);
        let pv = chars_of(plain.as_str());
        let nv = chars_of(normal.as_str());
        let mut pos: u64 = match find_sub(&pv, &tv) {
            Some(i) => i as u64,
            None => 20,
        };
        let pos2: u64 = match find_sub(&nv, &tv) {
            Some(i) => i as u64,
            None => 20,
        };
        if pos2 < pos {
            pos = pos2;
        }
        let words = split_chars(&nv, ' ');
        let ghost ws = split_all(nv@, ' ');
        let mut start_idx: u64 = 10;
        let mut k: usize = 0;
        let mut found = false;
        while k < words.len() && !found
            invariant
                0 <= k <= words@.len(),
                words@.map_values(|p: Vec<char>| p@) == ws,
                tv@ == text@,
                if found {
                    k >= 1 && start_idx == k - 1 && first_prefix_index(ws, tv@, 0)
                        == first_prefix_index(ws, tv@, k - 1)
                        && prefix_of(tv@, ws[k - 1])
                } else {
                    start_idx == 10 && first_prefix_index(ws, tv@, 0) == first_prefix_index(
                        ws,
                        tv@,
                        k as int,
                    )
                },
            decreases words@.len() - k,
        {
            proof {
                assert(ws[k as int] == words@[k as int]@);
            }
            if starts_with_chars(&words[k], &tv) {
                start_idx = k as u64;
                found = true;
            }
            k = k + 1;
        }
        proof {
            if found {
                assert(first_prefix_index(ws, tv@, k - 1 as int) == k - 1);
            } else {
                assert(k >= ws.len());
            }
            assert(start_idx == first_prefix_index(ws, tv@, 0) || (!found && start_idx == 10
                && first_prefix_index(ws, tv@, 0) == first_prefix_index(ws, tv@, k as int)
                && first_prefix_index(ws, tv@, k as int) == 10));
        }
        let mut main_idx: u64 = 0;
        let mut best_len: u64 = 0;
        let mut j: usize = 0;
        while j < words.len()
            invariant
                0 <= j <= words@.len(),
                words@.map_values(|p: Vec<char>| p@) == ws,
                main_idx <= words@.len(),
                best_len <= usize::MAX,
                main_word_index(ws, 0, 0, 0) == main_word_index(
                    ws,
                    j as int,
                    main_idx as int,
                    best_len as int,
                ),
            decreases words@.len() - j,
        {
            proof {
                assert(ws[j as int] == words@[j as int]@);
            }
            if words[j].len() as u64 > best_len {
                best_len = words[j].len() as u64;
                main_idx = j as u64;
            }
            j = j + 1;
        }
        let exact: u64 = if str_eq(normal.as_str(), text) {
            if normal.as_str().unicode_len() > 3 {
                4
            } else {
                3
            }
        } else {
            2
        };
        let start_w: u64 = if start_idx == main_idx {
            2
        } else {
            1
        };
        let pos_w: u64 = if pos <= 20 {
            20 - pos
        } else {
            0
        };
        let base: u64 = (self.population as u64 + 5000) / 800;
        proof {
            vstd::arithmetic::div_mod::lemma_div_is_ordered(
                self.population as int + 5000,
                4294972295,
                800,
            );
            vstd::arithmetic::div_mod::lemma_fundamental_div_mod_converse(
                4294972295,
                800,
                5368715,
                295,
            );
            assert(base * pos_w * start_w * exact <= 858994400) by (nonlinear_arith)
                requires
                    base <= 5368715,
                    pos_w <= 20,
                    start_w <= 2,
                    exact <= 4,
            ;
        }
        let w: u64 = base * pos_w * start_w * exact;
        w as u32
    }

    /// ` (CC)` when the country code is substantial.
    pub fn cc_suffix(&self) -> (r: String)
        ensures
            r@ == (if self.cc@.len() > 1 {
                seq![' ', '('] + self.cc@ + seq![')']
            } else {
                Seq::<char>::empty()
            }),
    {
        let mut out = String::new();
        if self.cc.as_str().unicode_len() > 1 {
            push_char(&mut out, ' ');
            push_char(&mut out, '(');
            out.append(self.cc.as_str());
            push_char(&mut out, ')');
            proof {
                assert(out@ =~= seq![' ', '('] + self.cc@ + seq![')']);
            }
        }
        out
    }

    /// `, Admin` when the administrative name is substantial and differs
    /// from the country code.
    pub fn admin_suffix(&self) -> (r: String)
        ensures
            r@ == (if self.admin_name@.len() > 1 && self.admin_name@ != self.cc@ {
                seq![',', ' '] + self.admin_name@
            } else {
                Seq::<char>::empty()
            }),
    {
        let mut out = String::new();
        let differs = !str_eq(self.admin_name.as_str(), self.cc.as_str());
        if self.admin_name.as_str().unicode_len() > 1 && differs {
            push_char(&mut out, ',');
            push_char(&mut out, ' ');
            out.append(self.admin_name.as_str());
            proof {
                assert(out@ =~= seq![',', ' '] + self.admin_name@);
            }
        }
        out
    }

    /// `Name, Admin (CC)`, each part as present.
    pub fn text(&self) -> (r: String)
        ensures
            r@ == self.name@ + (if self.admin_name@.len() > 1 && self.admin_name@ != self.cc@ {
                seq![',', ' '] + self.admin_name@
            } else {
                Seq::<char>::empty()
            }) + (if self.cc@.len() > 1 {
                seq![' ', '('] + self.cc@ + seq![')']
            } else {
                Seq::<char>::empty()
            }),
    {
        let mut out = self.name.clone();
        let a = self.admin_suffix();
        let c = self.cc_suffix();
        out.append(a.as_str());
        out.append(c.as_str());
        out
    }

    /// The row reduced to coordinates, display text and zone.
    pub fn to_simple(&self) -> (r: GeoNameSimple)
        ensures
            r.lat == self.lat,
            r.lng == self.lng,
            r.zone_name is Some && r.zone_name.unwrap() == self.zone_name,
    {
        GeoNameSimple {
            lng: self.lng,
            lat: self.lat,
            text: self.text(),
            zone_name: Some(self.zone_name.clone()),
        }
    }
}

/// The row limit the locality query uses for a requested maximum.
pub fn locality_query_limit(max: u8) -> (r: u16)
    ensures
        r == (if max < 40 {
            max + 10
        } else if max < 80 {
            max + 20
        } else if max < 225 {
            max + 30
        } else {
            255int
        }),
{
    if max < 40 {
        max as u16 + 10
    } else if max < 80 {
        max as u16 + 20
    } else if max < 225 {
        max as u16 + 30
    } else {
        255
    }
}

/// Sorts locality rows by their ranking weight for the lowered search
/// string, heaviest first; the result is a reordering of the input.
pub fn sort_localities_by_weight(rows: Vec<Locality>, lc_text: &str) -> (r: Vec<Locality>)
    ensures
        r@.len() == rows@.len(),
        r@.to_multiset() == rows@.to_multiset(),
        forall|i: int, j: int|
            0 <= i < j < r@.len() ==> locality_weight_spec(
                lower_of((#[trigger] r@[i]).name@),
                lower_of(r@[i].ascii_name@),
                r@[i].population as int,
                lc_text@,
            ) >= locality_weight_spec(
                lower_of((#[trigger] r@[j]).name@),
                lower_of(r@[j].ascii_name@),
                r@[j].population as int,
                lc_text@,
            ),
{
    broadcast use vstd::seq_lib::group_to_multiset_ensures;
    broadcast use vstd::multiset::group_multiset_axioms;

    let ghost orig = rows@;
    let mut src = rows;
    let mut out: Vec<Locality> = Vec::new();
    proof {
        assert(out@.to_multiset().add(src@.to_multiset()) =~= orig.to_multiset());
    }
    while src.len() > 0
        invariant
            out@.to_multiset().add(src@.to_multiset()) =~= orig.to_multiset(),
            out@.len() + src@.len() == orig.len(),
            forall|i: int, j: int|
                0 <= i < j < out@.len() ==> locality_weight_spec(
                    lower_of((#[trigger] out@[i]).name@),
                    lower_of(out@[i].ascii_name@),
                    out@[i].population as int,
                    lc_text@,
                ) >= locality_weight_spec(
                    lower_of((#[trigger] out@[j]).name@),
                    lower_of(out@[j].ascii_name@),
                    out@[j].population as int,
                    lc_text@,
                ),
            forall|a: int, b: int|
                0 <= a < out@.len() && 0 <= b < src@.len() ==> locality_weight_spec(
                    lower_of((#[trigger] out@[a]).name@),
                    lower_of(out@[a].ascii_name@),
                    out@[a].population as int,
                    lc_text@,
                ) >= locality_weight_spec(
                    lower_of((#[trigger] src@[b]).name@),
                    lower_of(src@[b].ascii_name@),
                    src@[b].population as int,
                    lc_text@,
                ),
        decreases src@.len(),
    {
        let mut mi: usize = 0;
        let mut best = src[0].weight(lc_text);
        let mut k: usize = 1;
        while k < src.len()
            invariant
                0 <= mi < k <= src@.len(),
                src@.len() > 0,
                best == locality_weight_spec(
                    lower_of(src@[mi as int].name@),
                    lower_of(src@[mi as int].ascii_name@),
                    src@[mi as int].population as int,
                    lc_text@,
                ),
                forall|t: int|
                    0 <= t < k ==> best >= locality_weight_spec(
                        lower_of((#[trigger] src@[t]).name@),
                        lower_of(src@[t].ascii_name@),
                        src@[t].population as int,
                        lc_text@,
                    ),
            decreases src@.len() - k,
        {
            let w = src[k].weight(lc_text);
            if w > best {
                best = w;
                mi = k;
            }
            k = k + 1;
        }
        let ghost pre = src@;
        let x = src.remove(mi);
        proof {
            broadcast use vstd::seq_lib::group_to_multiset_ensures;
            broadcast use vstd::multiset::group_multiset_axioms;

            assert(pre.remove(mi as int).to_multiset() =~= pre.to_multiset().remove(x));
            assert(pre.to_multiset().count(x) > 0) by {
                assert(pre[mi as int] == x);
                assert(pre.contains(x));
            };
            assert(out@.push(x).to_multiset() =~= out@.to_multiset().insert(x));
            assert(out@.to_multiset().insert(x).add(pre.to_multiset().remove(x))
                =~= out@.to_multiset().add(pre.to_multiset()));
        }
        out.push(x);
    }
    proof {
        broadcast use vstd::seq_lib::group_to_multiset_ensures;
        broadcast use vstd::multiset::group_multiset_axioms;

        assert(src@.to_multiset() =~= Multiset::<Locality>::empty());
        assert(out@.to_multiset() =~= orig.to_multiset());
    }
    out
}

/// The indices the deduplicating filter keeps, scanning from `k` with
/// the keys and picks gathered so far: a row is taken when fewer than
/// `max` are taken, its key is new, and it matches the search directly
/// or through a name variant.
pub open spec fn selected_from(
    rows: Seq<GeoNameRow>,
    search: Seq<char>,
    max: int,
    k: int,
    keys: Seq<Seq<char>>,
    acc: Seq<int>,
) -> Seq<int>
    decreases rows.len() - k,
{
    if k < 0 || k >= rows.len() {
        acc
    } else {
        let key = row_key_spec(rows[k]);
        if acc.len() < max && !keys.contains(key) && in_geo_row_alternative(rows[k], search) {
            selected_from(rows, search, max, k + 1, keys.push(key), acc.push(k))
        } else {
            selected_from(rows, search, max, k + 1, keys, acc)
        }
    }
}

/// The indices of the rows the fuzzy search keeps, in input order.
pub open spec fn selected_rows(rows: Seq<GeoNameRow>, search: Seq<char>, max: int) -> Seq<int> {
    selected_from(rows, search, max, 0, Seq::<Seq<char>>::empty(), Seq::<int>::empty())
}

/// Whether the search string pattern-matches a row's name or toponym.
pub open spec fn in_geo_row(row: GeoNameRow, search: Seq<char>) -> bool {
    simple_match(row.name@, search) || simple_match(row.toponym@, search)
}

/// The row matches directly, or the search is a known variant whose
/// canonical name pattern-matches against the row.
pub open spec fn in_geo_row_alternative(row: GeoNameRow, search: Seq<char>) -> bool {
    in_geo_row(row, search) || (match matches_alternative_spec(
        alternative_pairs(),
        simplified(search),
    ) {
        Some(alt) => simple_match(alt, row.name@) || simple_match(alt, row.toponym@),
        None => false,
    })
}

fn is_in_geo_row_alternative(row: &GeoNameRow, search: &str) -> (r: bool)
    ensures
        r == in_geo_row_alternative(*row, search@),
{
    let mut ok = is_in_simple_string(&row.name, search) || is_in_simple_string(
        &row.toponym,
        search,
    );
    if !ok {
        if let Some(matched_name) = matches_alternative(search) {
            ok = is_in_simple_string(&matched_name, row.name.as_str());
            if !ok {
                ok = is_in_simple_string(&matched_name, row.toponym.as_str());
            }
        }
    }
    ok
}

/// Deduplicates and filters remote search rows, exactly as
/// `selected_rows` describes: every matching row whose key is not that
/// of an earlier kept row appears, in input order, until `max` rows are
/// taken; the result carries each kept row's coordinates and display
/// text.
pub fn list_by_fuzzy_name_match_rows(rows: &Vec<GeoNameRow>, search: &str, max: u8) -> (r: Vec<
    GeoNameSimple,
>)
    requires
        forall|i: int| 0 <= i < rows@.len() ==> geo_row_wf(#[trigger] rows@[i]),
    ensures
        r@.len() <= max,
        r@.len() == selected_rows(rows@, search@, max as int).len(),
        forall|t: int|
            0 <= t < r@.len() ==> {
                let j = selected_rows(rows@, search@, max as int)[t];
                &&& 0 <= j < rows@.len()
                &&& (#[trigger] r@[t]).lat == rows@[j].lat
                &&& r@[t].lng == rows@[j].lng
                &&& r@[t].text@ == crate::geonames::row_text_spec(rows@[j])
                &&& r@[t].zone_name is None
                &&& in_geo_row_alternative(rows@[j], search@)
            },
{
    let ghost sel = selected_rows(rows@, search@, max as int);
    let mut out: Vec<GeoNameSimple> = Vec::new();
    let mut keys: Vec<String> = Vec::new();
    let ghost mut sacc: Seq<int> = Seq::<int>::empty();
    let mut i: usize = 0;
    proof {
        assert(keys@.map_values(|s: String| s@) =~= Seq::<Seq<char>>::empty());
    }
    while i < rows.len()
        invariant
            0 <= i <= rows@.len(),
            sel == selected_rows(rows@, search@, max as int),
            sel == selected_from(
                rows@,
                search@,
                max as int,
                i as int,
                keys@.map_values(|s: String| s@),
                sacc,
            ),
            out@.len() == sacc.len() <= max,
            forall|t: int| 0 <= t < rows@.len() ==> geo_row_wf(#[trigger] rows@[t]),
            forall|t: int|
                0 <= t < sacc.len() ==> {
                    let j = #[trigger] sacc[t];
                    &&& 0 <= j < rows@.len()
                    &&& out@[t].lat == rows@[j].lat
                    &&& out@[t].lng == rows@[j].lng
                    &&& out@[t].text@ == crate::geonames::row_text_spec(rows@[j])
                    &&& out@[t].zone_name is None
                    &&& in_geo_row_alternative(rows@[j], search@)
                },
        decreases rows@.len() - i,
    {
        let ghost kseq = keys@.map_values(|s: String| s@);
        if out.len() < max as usize {
            let row = &rows[i];
            let key = row.to_key();
            let mut seen = false;
            let mut k: usize = 0;
            while k < keys.len()
                invariant
                    0 <= k <= keys@.len(),
                    kseq == keys@.map_values(|s: String| s@),
                    key@ == row_key_spec(rows@[i as int]),
                    i < rows@.len(),
                    seen == (exists|t: int| 0 <= t < k && kseq[t] == key@),
                decreases keys@.len() - k,
            {
                proof {
                    assert(kseq[k as int] == keys@[k as int]@);
                }
                if str_eq(keys[k].as_str(), key.as_str()) {
                    seen = true;
                }
                k = k + 1;
            }
            proof {
                assert(seen == kseq.contains(key@));
            }
            if !seen && is_in_geo_row_alternative(row, search) {
                keys.push(key);
                let simple = row.to_simple();
                proof {
                    assert(keys@.map_values(|s: String| s@) =~= kseq.push(
                        row_key_spec(rows@[i as int]),
                    ));
                    sacc = sacc.push(i as int);
                }
                out.push(simple);
            }
        }
        i = i + 1;
    }
    proof {
        assert(sel == sacc);
    }
    out
}

/// The smallest local hit count that avoids the remote search, by query
/// and first-hit lengths.
pub fn min_local_hits(max: u8, str_len: usize, first_name_len: Option<usize>) -> (r: usize)
    ensures
        ({
            let min_long: int = if max < 2 {
                0
            } else if max < 5 {
                max - 2
            } else if max < 20 {
                5
            } else {
                6
            };
            match first_name_len {
                Some(fl) => {
                    let first_len = if fl > str_len {
                        fl as int
                    } else {
                        str_len as int
                    };
                    if first_len - str_len < 1 {
                        r == 1
                    } else {
                        let m: int = if str_len > 5 {
                            min_long / 2
                        } else {
                            min_long
                        };
                        r == (if m < 1 {
                            1int
                        } else {
                            m
                        })
                    }
                },
                None => r == min_long,
            }
        }),
{
    let min_long: usize = if max < 2 {
        0
    } else if max < 5 {
        max as usize - 2
    } else if max < 20 {
        5
    } else {
        6
    };
    match first_name_len {
        Some(fl) => {
            let first_len = if fl > str_len {
                fl
            } else {
                str_len
            };
            if first_len - str_len < 1 {
                1
            } else {
                let m = if str_len > 5 {
                    min_long / 2
                } else {
                    min_long
                };
                if m < 1 {
                    1
                } else {
                    m
                }
            }
        },
        None => min_long,
    }
}

/// The fuzziness fraction the remote search receives: `1` by default, or
/// `0.NN` for a percentage below one hundred.
pub open spec fn fuzzy_fraction_chars(fuzzy_pct: Option<u8>) -> Seq<char> {
    match fuzzy_pct {
        None => seq!['1'],
        Some(p) => {
            if p % 10 == 0 {
                seq!['0', '.'] + seq![crate::text::digit_char(p as int / 10)]
            } else {
                seq!['0', '.'] + crate::text::dec_digits(p as int, 2)
            }
        },
    }
}

/// The query pairs of a remote fuzzy place search, in order: the search
/// string (with the region appended), the fuzziness, the feature-class
/// and ordering restrictions unless all classes are wanted, the country,
/// the name-required flag, a name prefix for very short queries, and the
/// row limit.
pub open spec fn search_query_pairs(
    search: Seq<char>,
    cc: Option<String>,
    region: Option<String>,
    fuzzy_pct: Option<u8>,
    all_classes: bool,
    included: bool,
    max_rows: u8,
) -> Seq<(Seq<char>, Seq<char>)> {
    let q = match region {
        Some(rg) => search + seq![' '] + rg@,
        None => search,
    };
    let base = seq![("q"@, q), ("fuzzy"@, fuzzy_fraction_chars(fuzzy_pct))];
    let with_class = if !all_classes {
        base + seq![
            ("featureClass"@, "P"@),
            ("featureClass"@, "A"@),
            ("orderby"@, "population"@),
        ]
    } else {
        base
    };
    let with_cc = match cc {
        Some(c) => with_class + seq![("country"@, c@)],
        None => with_class,
    };
    let with_inc = if included {
        with_cc + seq![("isNameRequired"@, "true"@)]
    } else {
        with_cc
    };
    let with_prefix = if 0 < search.len() < 4 {
        let ml: int = if search.len() < 2 {
            1
        } else {
            2
        };
        with_inc + seq![("name_startsWith"@, search.subrange(0, ml))]
    } else {
        with_inc
    };
    if max_rows > 1 {
        with_prefix + seq![("maxRows"@, crate::text::dec_chars(max_rows as int))]
    } else {
        with_prefix
    }
}

/// Builds the query pairs of a remote fuzzy place search.
#[verifier::rlimit(100)]
pub fn search_query_params(
    search: &str,
    cc: &Option<String>,
    region: &Option<String>,
    fuzzy_pct: Option<u8>,
    all_classes: bool,
    included: bool,
    max_rows: u8,
) -> (r: Vec<(String, String)>)
    requires
        fuzzy_pct is Some ==> fuzzy_pct.unwrap() < 100,
    ensures
        r@.map_values(|p: (String, String)| (p.0@, p.1@)) == search_query_pairs(
            search@,
            *cc,
            *region,
            fuzzy_pct,
            all_classes,
            included,
            max_rows,
        ),
{
    let mut items: Vec<(String, String)> = Vec::new();
    let mut q = search.to_owned();
    if let Some(rg) = region {
        push_char(&mut q, ' ');
        q.append(rg.as_str());
    }
    let mut fz = String::new();
    match fuzzy_pct {
        None => {
            push_char(&mut fz, '1');
        },
        Some(p) => {
            push_char(&mut fz, '0');
            push_char(&mut fz, '.');
            if p % 10 == 0 {
                push_char(&mut fz, crate::text::digit_char_exec(p as u64 / 10));
            } else {
                crate::text::push_two_digits(&mut fz, p as u64);
            }
        },
    }
    proof {
        assert(fz@ =~= fuzzy_fraction_chars(fuzzy_pct));
        assert(q@ =~= (match region {
            Some(rg) => search@ + seq![' '] + rg@,
            None => search@,
        }));
    }
    items.push(("q".to_owned(), q));
    items.push(("fuzzy".to_owned(), fz));
    if !all_classes {
        items.push(("featureClass".to_owned(), "P".to_owned()));
        items.push(("featureClass".to_owned(), "A".to_owned()));
        items.push(("orderby".to_owned(), "population".to_owned()));
    }
    if let Some(c) = cc {
        items.push(("country".to_owned(), c.clone()));
    }
    if included {
        items.push(("isNameRequired".to_owned(), "true".to_owned()));
    }
    let slen = search.unicode_len();
    if 0 < slen && slen < 4 {
        let ml: usize = if slen < 2 {
            1
        } else {
            2
        };
        let sv = chars_of(search);
        let pre = crate::text::sub_chars(&sv, 0, ml);
        let prefix = crate::text::string_of_chars(&pre);
        items.push(("name_startsWith".to_owned(), prefix));
    }
    if max_rows > 1 {
        let mut mr = String::new();
        crate::text::push_u64_decimal(&mut mr, max_rows as u64);
        items.push(("maxRows".to_owned(), mr));
    }
    proof {
        assert(items@.map_values(|p: (String, String)| (p.0@, p.1@)) =~= search_query_pairs(
            search@,
            *cc,
            *region,
            fuzzy_pct,
            all_classes,
            included,
            max_rows,
        ));
    }
    items
}

/// Whether the caller's fuzziness hint asks for the remote search
/// outright.
pub fn prefer_remote_search(fuzzy: Option<u16>) -> (r: bool)
    ensures
        r == (fuzzy is Some && fuzzy.unwrap() >= 150),
{
    match fuzzy {
        Some(f) => f >= 150,
        None => false,
    }
}

} // verus!
