//! Request parameter normalisation: choosing among the `dt`, `dtl`, `jd`
//! and `un` datetime parameters, reading the `loc` coordinate pair, and
//! validating zone names.
use vstd::prelude::*;
use crate::text::{is_digit_char, chars_of, is_digit_exec};
use crate::datetime::{
    ts_in_range, utc_chars, utc_chars_of_parts, parse_fuzzy_spec, iso_string_to_datetime,
    format_datetime, unixtime_to_utc, julian_day_to_iso_datetime, JD_UNIX_EPOCH_SECS, TS_MAX,
};
use crate::coords::{Coords, coords_of_loc, loc_string_to_coords};

verus! {

/// Smallest `jd` parameter treated as a Julian day: two million days, in
/// Julian seconds.
pub const JD_PARAM_FLOOR: i64 = 172800000000;

/// Exclusive lower bound of the `un` parameter.
pub const UN_PARAM_MIN: i64 = -5000000000;

/// Inclusive upper bound of the `un` parameter.
pub const UN_PARAM_MAX: i64 = 4000000000;

/// The query parameters a request may carry. Datetimes arrive as strings,
/// a Julian day in whole Julian seconds, Unix time in seconds.
pub struct InputOptions {
    pub dt: Option<String>,
    pub dtl: Option<String>,
    pub jd: Option<i64>,
    pub un: Option<i64>,
    pub zn: Option<String>,
    pub loc: Option<String>,
    pub place: Option<String>,
    pub cc: Option<String>,
    pub reg: Option<String>,
    pub mode: Option<String>,
    pub dst: Option<u8>,
    pub fuzzy: Option<u8>,
    pub max: Option<u8>,
    pub included: Option<u8>,
}

pub open spec fn count_digits(s: Seq<char>) -> int
    decreases s.len(),
{
    if s.len() == 0 {
        0
    } else {
        count_digits(s.drop_last()) + if is_digit_char(s.last()) {
            1int
        } else {
            0int
        }
    }
}

/// A usable datetime parameter: holds a dash, is longer than six
/// characters, and carries at least six digits.
pub open spec fn valid_date_string(s: Seq<char>) -> bool {
    (exists|i: int| 0 <= i < s.len() && s[i] == '-') && s.len() > 6 && count_digits(s) >= 6
}

pub fn is_valid_date_string(dt_str: &str) -> (r: bool)
    ensures
        r == valid_date_string(dt_str@),
{
    let v = chars_of(dt_str);
    let mut has_dash = false;
    let mut digits: usize = 0;
    let mut i: usize = 0;
    while i < v.len()
        invariant
            0 <= i <= v@.len(),
            v@ =~= dt_str@,
            digits <= i,
            digits == count_digits(v@.subrange(0, i as int)),
            has_dash == (exists|j: int| 0 <= j < i && v@[j] == '-'),
        decreases v@.len() - i,
    {
        let c = v[i];
        proof {
            let pre = v@.subrange(0, i as int);
            let post = v@.subrange(0, i + 1 as int);
            assert(post.drop_last() =~= pre);
            assert(post.last() == c);
        }
        if c == '-' {
            has_dash = true;
        }
        if is_digit_exec(c) {
            digits = digits + 1;
        }
        i = i + 1;
    }
    proof {
        assert(v@.subrange(0, v@.len() as int) =~= v@);
    }
    has_dash && dt_str.unicode_len() > 6 && digits >= 6
}

/// The zone-name shape the service accepts: longer than four characters,
/// holding a slash, not starting or ending with one.
pub open spec fn valid_zone_name(s: Seq<char>) -> bool {
    &&& s.len() > 4
    &&& exists|i: int| 0 <= i < s.len() && s[i] == '/'
    &&& s[0] != '/'
    &&& s[s.len() - 1] != '/'
}

pub fn is_valid_zone_name(zn: &str) -> (r: bool)
    ensures
        r == valid_zone_name(zn@),
{
    let v = chars_of(zn);
    if v.len() <= 4 {
        return false;
    }
    let mut has_slash = false;
    let mut i: usize = 0;
    while i < v.len()
        invariant
            0 <= i <= v@.len(),
            v@ =~= zn@,
            has_slash == (exists|j: int| 0 <= j < i && v@[j] == '/'),
        decreases v@.len() - i,
    {
        if v[i] == '/' {
            has_slash = true;
        }
        i = i + 1;
    }
    has_slash && v[0] != '/' && v[v.len() - 1] != '/'
}

/// Which datetime string the parameters denote, before canonicalisation,
/// and whether it was declared local. Precedence: `dt`, then `dtl`
/// (local), then a Julian day above the floor, then Unix seconds in
/// range, then `now`.
pub open spec fn chosen_datetime_spec(params: InputOptions, now: int) -> (Seq<char>, bool) {
    let dts = match params.dt {
        Some(s) => s@,
        None => Seq::<char>::empty(),
    };
    if valid_date_string(dts) {
        (dts, false)
    } else {
        let dtls = match params.dtl {
            Some(s) => s@,
            None => Seq::<char>::empty(),
        };
        if valid_date_string(dtls) {
            (dtls, true)
        } else {
            let jd = match params.jd {
                Some(j) => j as int,
                None => 0,
            };
            if jd > JD_PARAM_FLOOR && jd <= TS_MAX + JD_UNIX_EPOCH_SECS {
                (utc_chars(jd - JD_UNIX_EPOCH_SECS), false)
            } else {
                let un = match params.un {
                    Some(u) => u as int,
                    None => UN_PARAM_MIN as int,
                };
                if un > UN_PARAM_MIN && un <= UN_PARAM_MAX {
                    (utc_chars(un), false)
                } else {
                    (utc_chars(now), false)
                }
            }
        }
    }
}

/// Canonicalises the chosen datetime parameter into `YYYY-MM-DDTHH:MM:SS`
/// (the epoch when unparseable) and reports whether it was local.
pub fn match_datetime_from_params(params: &InputOptions, now: i64) -> (r: (String, bool))
    requires
        ts_in_range(now as int),
    ensures
        ({
            let (chosen, local) = chosen_datetime_spec(*params, now as int);
            &&& r.0@ == utc_chars_of_parts(parse_fuzzy_spec(chosen))
            &&& r.1 == local
        }),
{
    let empty = String::new();
    let dt_ref: &String = match &params.dt {
        Some(s) => s,
        None => &empty,
    };
    let mut local = false;
    let mut dt_str: String;
    if is_valid_date_string(dt_ref.as_str()) {
        dt_str = dt_ref.clone();
    } else {
        let dtl_ref: &String = match &params.dtl {
            Some(s) => s,
            None => &empty,
        };
        if is_valid_date_string(dtl_ref.as_str()) {
            dt_str = dtl_ref.clone();
            local = true;
        } else {
            let jd = match params.jd {
                Some(j) => j,
                None => 0,
            };
            if jd > JD_PARAM_FLOOR && jd <= TS_MAX + JD_UNIX_EPOCH_SECS {
                dt_str = julian_day_to_iso_datetime(jd);
            } else {
                let un = match params.un {
                    Some(u) => u,
                    None => UN_PARAM_MIN,
                };
                if un > UN_PARAM_MIN && un <= UN_PARAM_MAX {
                    dt_str = unixtime_to_utc(un);
                } else {
                    dt_str = unixtime_to_utc(now);
                }
            }
        }
    }
    let dt = iso_string_to_datetime(dt_str.as_str());
    (format_datetime(&dt), local)
}

/// Reads the `loc` parameter when it holds a comma-separated pair.
pub fn match_coords_from_params(params: &InputOptions) -> (r: Option<Coords>)
    ensures
        ({
            match &params.loc {
                Some(s) => {
                    if exists|i: int| 0 <= i < s@.len() && s@[i] == ',' {
                        r == Some(coords_of_loc(s@))
                    } else {
                        r is None
                    }
                },
                None => r is None,
            }
        }),
{
    let coord_ref: &String = match &params.loc {
        Some(s) => s,
        None => {
            return None;
        },
    };
    let v = chars_of(coord_ref.as_str());
    let mut has_comma = false;
    let mut i: usize = 0;
    while i < v.len()
        invariant
            0 <= i <= v@.len(),
            v@ =~= coord_ref@,
            has_comma == (exists|j: int| 0 <= j < i && v@[j] == ','),
        decreases v@.len() - i,
    {
        if v[i] == ',' {
            has_comma = true;
        }
        i = i + 1;
    }
    if has_comma {
        Some(loc_string_to_coords(coord_ref.as_str()))
    } else {
        None
    }
}

} // verus!
