//! Geographic coordinates in micro-degrees, parsing of `lat,lng` strings,
//! and the natural (solar) offset a longitude gives from UTC.
use vstd::prelude::*;
use vstd::arithmetic::div_mod::*;
use crate::text::{
    all_digits, num_of, pow10, first_index_of, lemma_num_of_bounds,
    lemma_pow10_mono, sub_chars, find_from, parse_field, chars_of, check_digits,
};

verus! {

/// Micro-degrees per degree.
pub const MICRO_PER_DEG: i64 = 1000000;

/// Largest longitude magnitude, in micro-degrees, that the natural-offset
/// functions accept; far beyond the geographic range.
pub const LNG_LIMIT: i64 = 100000000000;

/// A point on Earth; latitude and longitude in micro-degrees.
#[derive(Clone, Copy, Debug, PartialEq, Eq, Structural)]
pub struct Coords {
    pub lat: i64,
    pub lng: i64,
}

impl Coords {
    pub fn new(lat: i64, lng: i64) -> (r: Coords)
        ensures
            r.lat == lat,
            r.lng == lng,
    {
        Coords { lat, lng }
    }

    /// The origin, used as the sentinel for "no coordinates supplied".
    pub fn zero() -> (r: Coords)
        ensures
            r.lat == 0,
            r.lng == 0,
    {
        Coords { lat: 0, lng: 0 }
    }
}

/// Division truncated toward zero, as machine division behaves.
pub open spec fn trunc_div(a: int, b: int) -> int {
    if a >= 0 {
        a / b
    } else {
        -((-a) / b)
    }
}

/// Solar offset from UTC in seconds: four minutes per degree, the
/// longitude first normalised into `[-180, 180)` degrees.
pub open spec fn natural_offset_spec(lng: int) -> int {
    let m = (lng + 540000000) % 360000000;
    trunc_div((m - 180000000) * 240, 1000000)
}

/// The natural offset stays within half a day of UTC.
pub proof fn lemma_natural_offset_range(lng: int)
    ensures
        -43200 <= natural_offset_spec(lng) < 43200,
{
    let m = (lng + 540000000) % 360000000;
    assert(0 <= m < 360000000);
    let c = m - 180000000;
    if c >= 0 {
        lemma_div_is_ordered(c * 240, 43199999760, 1000000);
        lemma_fundamental_div_mod_converse(43199999760, 1000000, 43199, 999760);
        lemma_div_pos_is_pos(c * 240, 1000000);
    } else {
        lemma_div_is_ordered(-(c * 240), 43200000000, 1000000);
        lemma_fundamental_div_mod_converse(43200000000, 1000000, 43200, 0);
        lemma_div_pos_is_pos(-(c * 240), 1000000);
    }
}

/// Mirror symmetry of the natural offset: the offsets of a longitude and
/// of its negation cancel modulo a whole day.
pub proof fn lemma_natural_offset_mirror(lng: int)
    ensures
        (natural_offset_spec(lng) + natural_offset_spec(-lng)) % 86400 == 0,
{
    let b = 360000000;
    let m1 = (lng + 540000000) % b;
    let m2 = (-lng + 540000000) % b;
    assert(0 <= m1 < b);
    assert(0 <= m2 < b);
    assert((m1 + m2) % b == 0) by {
        lemma_add_mod_noop(lng + 540000000, -lng + 540000000, b);
        lemma_mod_multiples_basic(3, b);
    };
    if m1 + m2 > 0 {
        assert(m1 + m2 == b) by {
            if m1 + m2 < b {
                lemma_small_mod((m1 + m2) as nat, b as nat);
            } else if m1 + m2 > b {
                lemma_mod_sub_multiples_vanish(m1 + m2, b);
                lemma_small_mod((m1 + m2 - b) as nat, b as nat);
            }
        };
        let c = m1 - 180000000;
        assert(m2 - 180000000 == -c);
        assert(natural_offset_spec(lng) + natural_offset_spec(-lng) == 0) by {
            assert((-c) * 240 == -(c * 240)) by (nonlinear_arith);
        };
        lemma_mod_multiples_basic(0, 86400);
    } else {
        assert(m1 == 0 && m2 == 0);
        assert(natural_offset_spec(lng) == trunc_div((-180000000) * 240, 1000000));
        assert((-180000000) * 240 == -43200000000);
        lemma_fundamental_div_mod_converse(43200000000, 1000000, 43200, 0);
        assert(natural_offset_spec(lng) + natural_offset_spec(-lng) == -86400);
        lemma_mod_multiples_basic(-1, 86400);
    }
}

/// Solar offset from UTC in seconds for a longitude in micro-degrees.
pub fn natural_tz_offset_from_utc(lng: i64) -> (r: i32)
    requires
        -LNG_LIMIT - 8000000 <= lng <= LNG_LIMIT + 8000000,
    ensures
        r == natural_offset_spec(lng as int),
        -43200 <= r < 43200,
{
    proof {
        lemma_natural_offset_range(lng as int);
    }
    let b: i64 = 360000000;
    let shifted: i64 = lng + 540000000 + 100800000000;
    let m: i64 = shifted % b;
    proof {
        assert(shifted >= 0);
        assert(shifted as int % (b as int) == (lng as int + 540000000) % (b as int)) by {
            lemma_mod_multiples_vanish(280, lng as int + 540000000, b as int);
        };
        assert(0 <= m < b) by {
            lemma_mod_pos_bound(shifted as int, b as int);
        };
    }
    let c: i64 = m - 180000000;
    let r: i64 = if c >= 0 {
        (c * 240) / 1000000
    } else {
        -((-(c * 240)) / 1000000)
    };
    proof {
        assert(c < 0 ==> -(c * 240) == (-(c as int)) * 240);
    }
    r as i32
}

/// Whole-hour solar offset for a longitude, biased so that each hourly
/// bucket is centred on its nominal meridian.
pub open spec fn natural_hours_spec(lng: int) -> int {
    let delta: int = if lng < 7500000 {
        -7500000
    } else {
        7500000
    };
    let secs: int = if lng >= 172500000 {
        43200
    } else {
        natural_offset_spec(lng + delta)
    };
    trunc_div(secs, 3600)
}

/// The whole-hour offset stays within twelve hours.
pub proof fn lemma_natural_hours_range(lng: int)
    ensures
        -12 <= natural_hours_spec(lng) <= 12,
{
    let delta: int = if lng < 7500000 {
        -7500000
    } else {
        7500000
    };
    let secs: int = if lng >= 172500000 {
        43200
    } else {
        natural_offset_spec(lng + delta)
    };
    lemma_natural_offset_range(lng + delta);
    if secs >= 0 {
        lemma_div_is_ordered(secs, 43200, 3600);
        lemma_div_pos_is_pos(secs, 3600);
    } else {
        lemma_div_is_ordered(-secs, 43200, 3600);
        lemma_div_pos_is_pos(-secs, 3600);
    }
}

/// Whole-hour solar offset for a longitude in micro-degrees.
pub fn natural_hours_offset_from_utc(lng: i64) -> (r: i32)
    requires
        -LNG_LIMIT <= lng <= LNG_LIMIT,
    ensures
        r == natural_hours_spec(lng as int),
        -12 <= r <= 12,
{
    proof {
        lemma_natural_hours_range(lng as int);
    }
    let delta: i64 = if lng < 7500000 {
        -7500000
    } else {
        7500000
    };
    let secs: i32 = if lng >= 172500000 {
        43200
    } else {
        natural_tz_offset_from_utc(lng + delta)
    };
    if secs >= 0 {
        secs / 3600
    } else {
        -((-secs) / 3600)
    }
}

/// Decimal coordinate text as micro-degrees: optional sign, digits with at
/// most one dot, fraction truncated past six places.
pub open spec fn parse_micro_spec(s: Seq<char>) -> Option<int> {
    if s.len() == 0 {
        None
    } else {
        let neg = s[0] == '-';
        let rest = if s[0] == '-' || s[0] == '+' {
            s.subrange(1, s.len() as int)
        } else {
            s
        };
        let dot = first_index_of(rest, '.');
        let ip = rest.subrange(0, dot);
        let fp = if dot == rest.len() {
            Seq::<char>::empty()
        } else {
            rest.subrange(dot + 1, rest.len() as int)
        };
        if ip.len() + fp.len() == 0 || ip.len() > 9 || !all_digits(ip) || !all_digits(fp) {
            None
        } else {
            let k = if fp.len() <= 6 {
                fp.len() as int
            } else {
                6
            };
            let v = num_of(ip) * 1000000 + num_of(fp.subrange(0, k)) * pow10((6 - k) as nat);
            Some(
                if neg {
                    -v
                } else {
                    v
                },
            )
        }
    }
}

/// All the comma-separated fields of `s` that parse as coordinates, in
/// order.
pub open spec fn coord_values_spec(s: Seq<char>) -> Seq<i64>
    decreases s.len(),
{
    let i = first_index_of(s, ',');
    let head: Seq<i64> = match parse_micro_spec(s.subrange(0, i)) {
        Some(v) => seq![v as i64],
        None => Seq::empty(),
    };
    if 0 <= i < s.len() {
        head + coord_values_spec(s.subrange(i + 1, s.len() as int))
    } else {
        head
    }
}

/// The coordinates a `lat,lng` string denotes: the first two numeric
/// fields, or the origin when fewer parse.
pub open spec fn coords_of_loc(s: Seq<char>) -> Coords {
    let vals = coord_values_spec(s);
    if vals.len() >= 2 {
        Coords { lat: vals[0], lng: vals[1] }
    } else {
        Coords { lat: 0, lng: 0 }
    }
}

fn pow10_exec(k: usize) -> (r: u64)
    requires
        k <= 6,
    ensures
        r == pow10(k as nat),
{
    proof {
        reveal_with_fuel(pow10, 7);
    }
    if k == 0 {
        1
    } else if k == 1 {
        10
    } else if k == 2 {
        100
    } else if k == 3 {
        1000
    } else if k == 4 {
        10000
    } else if k == 5 {
        100000
    } else {
        1000000
    }
}

/// Reads one coordinate field as micro-degrees.
#[verifier::rlimit(30)]
fn parse_micro(v: &Vec<char>) -> (r: Option<i64>)
    ensures
        match r {
            Some(x) => parse_micro_spec(v@) == Some(x as int),
            None => parse_micro_spec(v@) is None,
        },
{
    if v.len() == 0 {
        return None;
    }
    let c0 = v[0];
    let neg = c0 == '-';
    let start: usize = if c0 == '-' || c0 == '+' {
        1
    } else {
        0
    };
    let rest = sub_chars(v, start, v.len());
    proof {
        if c0 == '-' || c0 == '+' {
            assert(rest@ =~= v@.subrange(1, v@.len() as int));
        } else {
            assert(rest@ =~= v@);
        }
        assert(rest@.subrange(0, rest@.len() as int) =~= rest@);
    }
    let dot = find_from(&rest, 0, '.');
    let ghost ip = rest@.subrange(0, dot as int);
    let ghost fp = if dot == rest@.len() {
        Seq::<char>::empty()
    } else {
        rest@.subrange(dot as int + 1, rest@.len() as int)
    };
    let fplen: usize = if dot == rest.len() {
        0
    } else {
        rest.len() - dot - 1
    };
    if dot + fplen == 0 || dot > 9 {
        return None;
    }
    if dot > 0 && !check_digits(&rest, 0, dot) {
        return None;
    }
    if fplen > 0 && !check_digits(&rest, dot + 1, rest.len()) {
        return None;
    }
    proof {
        if dot == 0 {
            assert(ip =~= Seq::<char>::empty());
        }
        assert(all_digits(ip));
        assert(all_digits(fp));
        lemma_pow10_mono(dot as nat, 9);
        reveal_with_fuel(pow10, 10);
    }
    let ipn: u64 = if dot == 0 {
        0
    } else {
        match parse_field(&rest, 0, dot) {
            Some(n) => n,
            None => {
                proof {
                    assert(false);
                }
                return None;
            },
        }
    };
    let k: usize = if fplen <= 6 {
        fplen
    } else {
        6
    };
    let ghost fpk = fp.subrange(0, k as int);
    proof {
        if k > 0 {
            let sub = rest@.subrange(dot as int + 1, dot as int + 1 + k as int);
            assert(forall|i: int| 0 <= i < sub.len() ==> sub[i] == fp[i]);
            assert(sub =~= fpk);
        } else {
            assert(fpk =~= Seq::<char>::empty());
        }
    }
    let fn0: u64 = if k == 0 {
        0
    } else {
        match parse_field(&rest, dot + 1, dot + 1 + k) {
            Some(n) => n,
            None => {
                proof {
                    assert(false);
                }
                return None;
            },
        }
    };
    let scale = pow10_exec(6 - k);
    proof {
        assert(num_of(ip) < pow10(9)) by {
            lemma_num_of_bounds(ip);
            lemma_pow10_mono(ip.len(), 9);
        };
        assert(fn0 * scale < 1000000) by {
            if k > 0 {
                assert(num_of(fpk) < pow10(k as nat)) by {
                    lemma_num_of_bounds(fpk);
                };
                assert(pow10(k as nat) * pow10((6 - k) as nat) == pow10(6)) by {
                    lemma_pow10_add(k as nat, (6 - k) as nat);
                };
                assert((pow10(k as nat) - 1) * pow10((6 - k) as nat) <= pow10(6) - pow10(
                    (6 - k) as nat,
                )) by (nonlinear_arith)
                    requires
                        pow10(k as nat) * pow10((6 - k) as nat) == pow10(6),
                        pow10((6 - k) as nat) >= 1,
                ;
                assert(fn0 * scale <= (pow10(k as nat) - 1) * pow10((6 - k) as nat))
                    by (nonlinear_arith)
                    requires
                        fn0 <= pow10(k as nat) - 1,
                        scale == pow10((6 - k) as nat),
                        scale >= 0,
                ;
            }
        };
    }
    let v0: u64 = ipn * 1000000 + fn0 * scale;
    if neg {
        Some(-(v0 as i64))
    } else {
        Some(v0 as i64)
    }
}

/// Product rule for powers of ten.
pub proof fn lemma_pow10_add(a: nat, b: nat)
    ensures
        pow10(a) * pow10(b) == pow10(a + b),
    decreases a,
{
    if a == 0 {
        assert(pow10(0) * pow10(b) == pow10(b));
    } else {
        lemma_pow10_add((a - 1) as nat, b);
        assert(pow10(a) * pow10(b) == 10 * (pow10((a - 1) as nat) * pow10(b)))
            by (nonlinear_arith)
            requires
                pow10(a) == 10 * pow10((a - 1) as nat),
        ;
    }
}

/// Reads a `lat,lng` string; the origin when fewer than two fields parse.
pub fn loc_string_to_coords(loc: &str) -> (r: Coords)
    ensures
        r == coords_of_loc(loc@),
{
    let v = chars_of(loc);
    let mut vals: Vec<i64> = Vec::new();
    let mut pos: usize = 0;
    proof {
        assert(v@.subrange(0, v@.len() as int) =~= v@);
    }
    loop
        invariant_except_break
            pos <= v@.len(),
            coord_values_spec(v@) =~= vals@ + coord_values_spec(
                v@.subrange(pos as int, v@.len() as int),
            ),
        ensures
            coord_values_spec(v@) =~= vals@,
        decreases v@.len() - pos,
    {
        let ghost remain = v@.subrange(pos as int, v@.len() as int);
        proof {
            assert(remain.subrange(0, remain.len() as int) =~= remain);
        }
        let i = find_from(&v, pos, ',');
        let seg = sub_chars(&v, pos, i);
        proof {
            assert(seg@ =~= remain.subrange(0, i - pos));
        }
        let parsed = parse_micro(&seg);
        if let Some(x) = parsed {
            vals.push(x);
        }
        if i == v.len() {
            proof {
                assert(coord_values_spec(remain) =~= match parse_micro_spec(seg@) {
                    Some(vv) => seq![vv as i64],
                    None => Seq::<i64>::empty(),
                });
            }
            break ;
        }
        proof {
            assert(remain.subrange(i - pos + 1, remain.len() as int) =~= v@.subrange(
                i as int + 1,
                v@.len() as int,
            ));
        }
        pos = i + 1;
    }
    if vals.len() >= 2 {
        Coords { lat: vals[0], lng: vals[1] }
    } else {
        Coords { lat: 0, lng: 0 }
    }
}

} // verus!
