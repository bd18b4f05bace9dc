//! Name folding and lookup tables: historical or localised place-name
//! variants mapped to their canonical names, country codes that drift
//! between datasets, and the diacritic- and case-folding the comparisons
//! rely on.
use vstd::prelude::*;
use string_patterns::PatternMatch;
use crate::text::{prefix_of, chars_of, starts_with_chars, trim_chars, sub_chars, find_from};

verus! {

/// What diacritic removal yields; the result depends on the characters
/// alone.
pub uninterp spec fn folded_of(s: Seq<char>) -> Seq<char>;

/// Relies on `diacritics::remove_diacritics`: folds accented and decorated
/// letters to plain ASCII, a pure function of the characters.
#[verifier::external_body]
pub fn remove_diacritics_str(s: &str) -> (r: String)
    ensures
        r@ == folded_of(s@),
        s@.len() == 0 ==> r@.len() == 0,
{
    diacritics::remove_diacritics(s)
}

/// What Unicode lower-casing yields; the result depends on the characters
/// alone.
pub uninterp spec fn lower_of(s: Seq<char>) -> Seq<char>;

/// Relies on `str::to_lowercase`: the lowercase mapping of the characters
/// alone.
#[verifier::external_body]
pub fn to_lowercase_str(s: &str) -> (r: String)
    ensures
        r@ == lower_of(s@),
        s@.len() == 0 ==> r@.len() == 0,
{
    s.to_lowercase()
}

/// Whether the cached regular expression built from `pat` (with the given
/// case flag) matches `text`; false when the pattern does not compile. A
/// pure function of its inputs.
pub uninterp spec fn regex_match_of(text: Seq<char>, pat: Seq<char>, ci: bool) -> bool;

/// Relies on `string_patterns`' `PatternMatch::pattern_match`: a regex
/// match that returns false when the pattern fails to compile.
#[verifier::external_body]
pub fn pattern_match_str(text: &str, pat: &str, case_insensitive: bool) -> (r: bool)
    ensures
        r == regex_match_of(text@, pat@, case_insensitive),
{
    text.pattern_match(pat, case_insensitive)
}

/// A name simplified for comparison: diacritics folded away, then
/// lower-cased.
pub open spec fn simplified(s: Seq<char>) -> Seq<char> {
    lower_of(folded_of(s))
}

pub fn simplify_string(text: &str) -> (r: String)
    ensures
        r@ == simplified(text@),
{
    let folded = remove_diacritics_str(text);
    to_lowercase_str(folded.as_str())
}

/// The variant-to-canonical name pairs the search results are folded
/// through.
pub open spec fn alternative_pairs() -> Seq<(Seq<char>, Seq<char>)> {
    seq![
        ("Madras"@, "Chennai"@),
        ("Bombay"@, "Mumbai"@),
        ("Brussel"@, "Brussels"@),
        ("Bruxelles"@, "Brussels"@),
        ("Calcutta"@, "Kolkata"@),
        ("Lakhnau"@, "Lucknow"@),
        ("Helsingfors"@, "Helsinki"@),
        ("Venezia"@, "Venice"@),
        ("Peking"@, "Beijing"@),
        ("München"@, "Munich"@),
        ("Muenchen"@, "Munich"@),
    ]
}

/// The variant name pairs as owned strings.
pub fn alternative_names() -> (r: Vec<(String, String)>)
    ensures
        r@.map_values(|p: (String, String)| (p.0@, p.1@)) == alternative_pairs(),
{
    let mut v: Vec<(String, String)> = Vec::new();
    v.push(("Madras".to_owned(), "Chennai".to_owned()));
    v.push(("Bombay".to_owned(), "Mumbai".to_owned()));
    v.push(("Brussel".to_owned(), "Brussels".to_owned()));
    v.push(("Bruxelles".to_owned(), "Brussels".to_owned()));
    v.push(("Calcutta".to_owned(), "Kolkata".to_owned()));
    v.push(("Lakhnau".to_owned(), "Lucknow".to_owned()));
    v.push(("Helsingfors".to_owned(), "Helsinki".to_owned()));
    v.push(("Venezia".to_owned(), "Venice".to_owned()));
    v.push(("Peking".to_owned(), "Beijing".to_owned()));
    v.push(("München".to_owned(), "Munich".to_owned()));
    v.push(("Muenchen".to_owned(), "Munich".to_owned()));
    proof {
        assert(v@.map_values(|p: (String, String)| (p.0@, p.1@)) =~= alternative_pairs());
    }
    v
}

/// Country codes whose spelling drifts between the local and remote
/// datasets, with the remote form second.
pub open spec fn corrected_cc_pairs() -> Seq<(Seq<char>, Seq<char>)> {
    seq![("UK"@, "GB"@)]
}

pub fn corrected_country_codes() -> (r: Vec<(String, String)>)
    ensures
        r@.map_values(|p: (String, String)| (p.0@, p.1@)) == corrected_cc_pairs(),
{
    let mut v: Vec<(String, String)> = Vec::new();
    v.push(("UK".to_owned(), "GB".to_owned()));
    proof {
        assert(v@.map_values(|p: (String, String)| (p.0@, p.1@)) =~= corrected_cc_pairs());
    }
    v
}

/// The first pair whose first component equals `key`, searched in order.
pub open spec fn lookup_first(pairs: Seq<(Seq<char>, Seq<char>)>, key: Seq<char>) -> Option<
    Seq<char>,
>
    decreases pairs.len(),
{
    if pairs.len() == 0 {
        None
    } else if pairs[0].0 == key {
        Some(pairs[0].1)
    } else {
        lookup_first(pairs.drop_first(), key)
    }
}

/// The first pair whose second component equals `key`, searched in order.
pub open spec fn lookup_second(pairs: Seq<(Seq<char>, Seq<char>)>, key: Seq<char>) -> Option<
    Seq<char>,
>
    decreases pairs.len(),
{
    if pairs.len() == 0 {
        None
    } else if pairs[0].1 == key {
        Some(pairs[0].0)
    } else {
        lookup_second(pairs.drop_first(), key)
    }
}

/// Compares two string slices character by character.
pub fn str_eq(a: &str, b: &str) -> (r: bool)
    ensures
        r == (a@ == b@),
{
    let n = a.unicode_len();
    if n != b.unicode_len() {
        proof {
            assert(a@.len() != b@.len());
        }
        return false;
    }
    let mut i: usize = 0;
    while i < n
        invariant
            0 <= i <= n,
            n == a@.len() == b@.len(),
            forall|t: int| 0 <= t < i ==> a@[t] == b@[t],
        decreases n - i,
    {
        if a.get_char(i) != b.get_char(i) {
            return false;
        }
        i = i + 1;
    }
    proof {
        assert(a@ =~= b@);
    }
    true
}

/// Rewrites a country code that the remote dataset spells otherwise.
pub fn correct_country_code(cc: &str) -> (r: String)
    ensures
        lookup_first(corrected_cc_pairs(), cc@) is Some ==> r@ == lookup_first(
            corrected_cc_pairs(),
            cc@,
        ).unwrap(),
        lookup_first(corrected_cc_pairs(), cc@) is None ==> r@ == cc@,
{
    let pairs = corrected_country_codes();
    let mut i: usize = 0;
    let ghost ps = corrected_cc_pairs();
    proof {
        assert(ps.skip(0) =~= ps);
    }
    while i < pairs.len()
        invariant
            0 <= i <= pairs@.len(),
            ps == corrected_cc_pairs(),
            pairs@.map_values(|p: (String, String)| (p.0@, p.1@)) == ps,
            lookup_first(ps, cc@) == lookup_first(ps.skip(i as int), cc@),
        decreases pairs@.len() - i,
    {
        proof {
            assert(ps[i as int] == (pairs@[i as int].0@, pairs@[i as int].1@));
            assert(ps.skip(i as int)[0] == ps[i as int]);
            assert(ps.skip(i as int).drop_first() =~= ps.skip(i as int + 1));
        }
        if str_eq(cc, pairs[i].0.as_str()) {
            proof {
                assert(ps.skip(i as int)[0].0 == cc@);
                assert(lookup_first(ps.skip(i as int), cc@) == Some(ps[i as int].1));
            }
            proof {
                assert(lookup_first(ps, cc@) == Some(ps[i as int].1));
            }
            return pairs[i].1.clone();
        }
        i = i + 1;
    }
    proof {
        assert(ps.skip(pairs@.len() as int) =~= Seq::<(Seq<char>, Seq<char>)>::empty());
    }
    cc.to_owned()
}

/// Rewrites an optional country code the same way.
pub fn correct_country_code_optional(cc_opt: Option<String>) -> (r: Option<String>)
    ensures
        match cc_opt {
            Some(cc) => r is Some && r.unwrap()@ == (match lookup_first(
                corrected_cc_pairs(),
                cc@,
            ) {
                Some(c) => c,
                None => cc@,
            }),
            None => r is None,
        },
{
    match cc_opt {
        Some(cc) => Some(correct_country_code(cc.as_str())),
        None => None,
    }
}

/// Undoes the country-code rewrite, for queries against the local store.
pub fn recorrect_country_code(cc: &str) -> (r: String)
    ensures
        lookup_second(corrected_cc_pairs(), cc@) is Some ==> r@ == lookup_second(
            corrected_cc_pairs(),
            cc@,
        ).unwrap(),
        lookup_second(corrected_cc_pairs(), cc@) is None ==> r@ == cc@,
{
    let pairs = corrected_country_codes();
    let mut i: usize = 0;
    let ghost ps = corrected_cc_pairs();
    proof {
        assert(ps.skip(0) =~= ps);
    }
    while i < pairs.len()
        invariant
            0 <= i <= pairs@.len(),
            ps == corrected_cc_pairs(),
            pairs@.map_values(|p: (String, String)| (p.0@, p.1@)) == ps,
            lookup_second(ps, cc@) == lookup_second(ps.skip(i as int), cc@),
        decreases pairs@.len() - i,
    {
        proof {
            assert(ps[i as int] == (pairs@[i as int].0@, pairs@[i as int].1@));
            assert(ps.skip(i as int)[0] == ps[i as int]);
            assert(ps.skip(i as int).drop_first() =~= ps.skip(i as int + 1));
        }
        if str_eq(cc, pairs[i].1.as_str()) {
            proof {
                assert(ps.skip(i as int)[0].1 == cc@);
                assert(lookup_second(ps.skip(i as int), cc@) == Some(ps[i as int].0));
            }
            return pairs[i].0.clone();
        }
        i = i + 1;
    }
    proof {
        assert(ps.skip(pairs@.len() as int) =~= Seq::<(Seq<char>, Seq<char>)>::empty());
    }
    cc.to_owned()
}

/// The canonical name behind a variant: the first table entry whose
/// simplified variant starts with the simplified search string.
pub open spec fn matches_alternative_spec(
    pairs: Seq<(Seq<char>, Seq<char>)>,
    text: Seq<char>,
) -> Option<Seq<char>>
    decreases pairs.len(),
{
    if pairs.len() == 0 {
        None
    } else if prefix_of(text, simplified(pairs[0].0)) {
        Some(pairs[0].1)
    } else {
        matches_alternative_spec(pairs.drop_first(), text)
    }
}

/// Looks a search string up among the known name variants.
pub fn matches_alternative(search: &str) -> (r: Option<String>)
    ensures
        match r {
            Some(s) => matches_alternative_spec(alternative_pairs(), simplified(search@)) == Some(
                s@,
            ),
            None => matches_alternative_spec(alternative_pairs(), simplified(search@)) is None,
        },
{
    let text = simplify_string(search);
    let tv = chars_of(text.as_str());
    let pairs = alternative_names();
    let mut i: usize = 0;
    let ghost ps = alternative_pairs();
    proof {
        assert(ps.skip(0) =~= ps);
    }
    while i < pairs.len()
        invariant
            0 <= i <= pairs@.len(),
            ps == alternative_pairs(),
            pairs@.map_values(|p: (String, String)| (p.0@, p.1@)) == ps,
            tv@ == simplified(search@),
            matches_alternative_spec(ps, tv@) == matches_alternative_spec(
                ps.skip(i as int),
                tv@,
            ),
        decreases pairs@.len() - i,
    {
        proof {
            assert(ps[i as int] == (pairs@[i as int].0@, pairs@[i as int].1@));
            assert(ps.skip(i as int)[0] == ps[i as int]);
            assert(ps.skip(i as int).drop_first() =~= ps.skip(i as int + 1));
        }
        let simple = simplify_string(pairs[i].0.as_str());
        let sv = chars_of(simple.as_str());
        if starts_with_chars(&sv, &tv) {
            proof {
                assert(prefix_of(tv@, simplified(ps.skip(i as int)[0].0)));
                assert(matches_alternative_spec(ps.skip(i as int), tv@) == Some(ps[i as int].1));
            }
            return Some(pairs[i].1.clone());
        }
        i = i + 1;
    }
    proof {
        assert(ps.skip(pairs@.len() as int) =~= Seq::<(Seq<char>, Seq<char>)>::empty());
    }
    None
}

/// The first whitespace-separated word of the trimmed search string.
pub open spec fn first_word(s: Seq<char>) -> Seq<char> {
    let t = crate::text::trim_spec(s);
    t.subrange(0, crate::text::first_index_of(t, ' '))
}

/// Whether a simplified text matches the simplified first word of the
/// search string as a pattern.
pub open spec fn simple_match(text: Seq<char>, search: Seq<char>) -> bool {
    regex_match_of(folded_of(text), folded_of(first_word(search)), true)
}

/// Diacritic-folded, case-insensitive pattern match of the search's first
/// word against a name.
pub fn is_in_simple_string(text: &String, search: &str) -> (r: bool)
    ensures
        r == simple_match(text@, search@),
{
    let sv = chars_of(search);
    let trimmed = trim_chars(&sv);
    proof {
        assert(trimmed@.subrange(0, trimmed@.len() as int) =~= trimmed@);
    }
    let sp = find_from(&trimmed, 0, ' ');
    let first = sub_chars(&trimmed, 0, sp);
    let first_str = crate::text::string_of_chars(&first);
    let pat = remove_diacritics_str(first_str.as_str());
    let simple_text = remove_diacritics_str(text.as_str());
    pattern_match_str(simple_text.as_str(), pat.as_str(), true)
}

} // verus!
