//! Civil date-times: conversion between Unix seconds and calendar fields,
//! ISO-8601 `YYYY-MM-DDTHH:MM:SS` formatting and fuzzy parsing, weekday
//! codes and whole-second Julian-day conversions.
use vstd::prelude::*;
use vstd::arithmetic::div_mod::*;
use crate::calendar::{
    valid_ymd, rata_die, civil_of_day, lemma_civil_of_day, days_before_year, days_before_month,
    days_in_month_exec,
    days_in_month_of, lemma_days_before_year_bounds, lemma_days_before_month_mono,
    lemma_days_before_month_le_year, lemma_days_before_year_step, days_from_civil, civil_from_days,
    UNIX_EPOCH_DAYS, DAY_LIMIT, MAX_YEAR,
};
use crate::text::{
    dec_digits, digit_char, digit_val, is_digit_char, all_digits, num_of, pow10, first_index_of,
    lemma_first_index_absent, lemma_first_index_witness, lemma_dec_digits,
    lemma_pow10_mono, lemma_num_of_bounds, is_space_char, trim_front, trim_back, trim_spec, lemma_trim_no_spaces,
    chars_of, sub_chars, find_from, parse_field, push_char, push_two_digits, push_four_digits,
    trim_chars,
};

verus! {

/// Earliest supported instant, 0001-01-01T00:00:00.
pub const TS_MIN: i64 = -62135596800;

/// Latest supported instant, 9999-12-31T23:59:59.
pub const TS_MAX: i64 = 253402300799;

/// Seconds between the Julian-day epoch and the Unix epoch; the Julian day
/// number 2440587.5 of 1970-01-01, in whole seconds.
pub const JD_UNIX_EPOCH_SECS: i64 = 210866760000;

/// Julian-second threshold below which a value is not treated as a Julian
/// day: one hundred days.
pub const JD_SECS_FLOOR: i64 = 8640000;

pub open spec fn ts_in_range(ts: int) -> bool {
    TS_MIN <= ts <= TS_MAX
}

/// A civil date and time of day, second precision, no zone attached.
#[derive(Clone, Copy, Debug, PartialEq, Eq, Structural)]
pub struct DateTime {
    pub year: u32,
    pub month: u32,
    pub day: u32,
    pub hour: u32,
    pub minute: u32,
    pub second: u32,
}

impl DateTime {
    pub open spec fn wf(self) -> bool {
        &&& valid_ymd(self.year as int, self.month as int, self.day as int)
        &&& self.hour < 24
        &&& self.minute < 60
        &&& self.second < 60
    }

    /// Unix seconds of this civil date-time read as UTC.
    pub open spec fn ts(self) -> int {
        (rata_die(self.year as int, self.month as int, self.day as int) - UNIX_EPOCH_DAYS)
            * 86400 + self.hour * 3600 + self.minute * 60 + self.second
    }

    /// The Unix epoch, 1970-01-01T00:00:00; the fall-back value of the
    /// fuzzy parser.
    pub fn epoch() -> (r: DateTime)
        ensures
            r == epoch_dt(),
    {
        DateTime { year: 1970, month: 1, day: 1, hour: 0, minute: 0, second: 0 }
    }

    pub fn timestamp(&self) -> (r: i64)
        requires
            self.wf(),
        ensures
            r == self.ts(),
            ts_in_range(r as int),
    {
        proof {
            lemma_rata_bounds(self.year as int, self.month as int, self.day as int);
        }
        let days = days_from_civil(self.year as u64, self.month as u64, self.day as u64);
        (days as i64 - UNIX_EPOCH_DAYS as i64) * 86400 + self.hour as i64 * 3600
            + self.minute as i64 * 60 + self.second as i64
    }

    pub fn year(&self) -> (r: u32)
        ensures
            r == self.year,
    {
        self.year
    }
}

pub open spec fn epoch_dt() -> DateTime {
    DateTime { year: 1970, month: 1, day: 1, hour: 0, minute: 0, second: 0 }
}

/// The rata-die day count of a valid date stays inside the supported range.
pub proof fn lemma_rata_bounds(y: int, m: int, d: int)
    requires
        valid_ymd(y, m, d),
    ensures
        0 <= rata_die(y, m, d) < DAY_LIMIT,
{
    lemma_days_before_year_bounds(y);
    lemma_days_before_month_mono(y, 1, m);
    lemma_days_before_month_le_year(y, m);
    lemma_days_before_year_bounds(y + 1);
    lemma_days_before_year_step(y);
}

/// The epoch datetime is well formed and sits at Unix second zero.
pub proof fn lemma_epoch_dt()
    ensures
        epoch_dt().wf(),
        epoch_dt().ts() == 0,
{
    assert(days_before_year(1970) == 365 * 1969 + 492 - 19 + 4);
    reveal_with_fuel(days_before_month, 2);
}

pub open spec fn dt_of_unix(ts: int) -> DateTime {
    let ts0 = ts - TS_MIN;
    let day = ts0 / 86400;
    let sod = ts0 % 86400;
    let (y, m, d) = civil_of_day(day);
    DateTime {
        year: y as u32,
        month: m as u32,
        day: d as u32,
        hour: (sod / 3600) as u32,
        minute: (sod % 3600 / 60) as u32,
        second: (sod % 3600 % 60) as u32,
    }
}

/// Splitting an in-range instant into date and second-of-day fields is
/// exact: the fields are well formed and recombine to the instant.
pub proof fn lemma_dt_of_unix(ts: int)
    requires
        ts_in_range(ts),
    ensures
        dt_of_unix(ts).wf(),
        dt_of_unix(ts).ts() == ts,
{
    let ts0 = ts - TS_MIN;
    let day = ts0 / 86400;
    let sod = ts0 % 86400;
    assert(0 <= sod < 86400);
    assert(0 <= day < DAY_LIMIT) by {
        lemma_div_pos_is_pos(ts0, 86400);
        lemma_div_is_ordered(ts0, DAY_LIMIT * 86400 - 1, 86400);
        lemma_fundamental_div_mod_converse(
            DAY_LIMIT * 86400 - 1,
            86400,
            DAY_LIMIT as int - 1,
            86399,
        );
    };
    lemma_civil_of_day(day);
    lemma_fundamental_div_mod(ts0, 86400);
    lemma_fundamental_div_mod(sod, 3600);
    lemma_fundamental_div_mod(sod % 3600, 60);
    assert(sod / 3600 < 24) by {
        lemma_div_is_ordered(sod, 86399, 3600);
        lemma_fundamental_div_mod_converse(86399, 3600, 23, 3599);
    };
    assert(sod % 3600 / 60 < 60) by {
        lemma_div_is_ordered(sod % 3600, 3599, 60);
        lemma_fundamental_div_mod_converse(3599, 60, 59, 59);
    };
}

/// Converts Unix seconds to calendar fields.
pub fn datetime_from_unixtime(ts: i64) -> (r: DateTime)
    requires
        ts_in_range(ts as int),
    ensures
        r == dt_of_unix(ts as int),
        r.wf(),
        r.ts() == ts,
{
    proof {
        lemma_dt_of_unix(ts as int);
    }
    let ts0 = (ts - TS_MIN) as u64;
    let day = ts0 / 86400;
    let sod = ts0 % 86400;
    let (y, m, d) = civil_from_days(day);
    DateTime {
        year: y as u32,
        month: m as u32,
        day: d as u32,
        hour: (sod / 3600) as u32,
        minute: (sod % 3600 / 60) as u32,
        second: (sod % 3600 % 60) as u32,
    }
}

/// The canonical `YYYY-MM-DDTHH:MM:SS` spelling of calendar fields.
pub open spec fn utc_chars_of_parts(dt: DateTime) -> Seq<char> {
    dec_digits(dt.year as int, 4) + seq!['-'] + dec_digits(dt.month as int, 2) + seq!['-']
        + dec_digits(dt.day as int, 2) + seq!['T'] + dec_digits(dt.hour as int, 2) + seq![':']
        + dec_digits(dt.minute as int, 2) + seq![':'] + dec_digits(dt.second as int, 2)
}

/// The canonical spelling of an instant.
pub open spec fn utc_chars(ts: int) -> Seq<char> {
    utc_chars_of_parts(dt_of_unix(ts))
}

/// Formats calendar fields as `YYYY-MM-DDTHH:MM:SS`.
pub fn format_datetime(dt: &DateTime) -> (r: String)
    requires
        dt.wf(),
    ensures
        r@ == utc_chars_of_parts(*dt),
{
    let mut out = String::new();
    push_four_digits(&mut out, dt.year as u64);
    push_char(&mut out, '-');
    push_two_digits(&mut out, dt.month as u64);
    push_char(&mut out, '-');
    push_two_digits(&mut out, dt.day as u64);
    push_char(&mut out, 'T');
    push_two_digits(&mut out, dt.hour as u64);
    push_char(&mut out, ':');
    push_two_digits(&mut out, dt.minute as u64);
    push_char(&mut out, ':');
    push_two_digits(&mut out, dt.second as u64);
    proof {
        assert(out@ =~= utc_chars_of_parts(*dt));
    }
    out
}

/// Formats an instant as `YYYY-MM-DDTHH:MM:SS` with no zone suffix.
pub fn unixtime_to_utc(ts: i64) -> (r: String)
    requires
        ts_in_range(ts as int),
    ensures
        r@ == utc_chars(ts as int),
{
    let dt = datetime_from_unixtime(ts);
    format_datetime(&dt)
}

/// ISO weekday number of an instant: Monday is 1, Sunday is 7.
pub open spec fn iso_weekday_of(ts: int) -> int {
    (ts - TS_MIN) / 86400 % 7 + 1
}

pub open spec fn weekday_abbr(iso: int) -> Seq<char> {
    if iso == 1 {
        seq!['M', 'o', 'n']
    } else if iso == 2 {
        seq!['T', 'u', 'e']
    } else if iso == 3 {
        seq!['W', 'e', 'd']
    } else if iso == 4 {
        seq!['T', 'h', 'u']
    } else if iso == 5 {
        seq!['F', 'r', 'i']
    } else if iso == 6 {
        seq!['S', 'a', 't']
    } else {
        seq!['S', 'u', 'n']
    }
}

/// A weekday under both numbering conventions, with its short name.
#[derive(Clone, Debug)]
pub struct WeekdayCode {
    pub iso: u8,
    pub sun: u8,
    pub abbr: String,
}

impl WeekdayCode {
    /// Derives the Sunday-first number from the ISO number.
    pub fn new(iso: u8, abbr: &str) -> (r: WeekdayCode)
        ensures
            r.iso == iso,
            r.sun == if iso < 7 {
                iso as int + 1
            } else {
                1int
            },
            r.abbr@ == abbr@,
    {
        let sun: u8 = if iso < 7 {
            iso + 1
        } else {
            1
        };
        WeekdayCode { iso, sun, abbr: abbr.to_owned() }
    }
}

/// The weekday code an instant determines: its ISO number, the
/// Sunday-first number derived from it, and the matching short name.
pub open spec fn is_weekday_code_of(w: WeekdayCode, ts: int) -> bool {
    &&& w.iso as int == iso_weekday_of(ts)
    &&& w.sun as int == (if iso_weekday_of(ts) < 7 {
        iso_weekday_of(ts) + 1
    } else {
        1int
    })
    &&& w.abbr@ == weekday_abbr(iso_weekday_of(ts))
}

/// Weekday of the day that contains an instant.
pub fn unixtime_to_weekday(ts: i64) -> (r: WeekdayCode)
    requires
        ts_in_range(ts as int),
    ensures
        is_weekday_code_of(r, ts as int),
        r.iso == iso_weekday_of(ts as int),
{
    let ts0 = (ts - TS_MIN) as u64;
    let iso = (ts0 / 86400 % 7 + 1) as u8;
    let abbr: &str = match iso {
        1 => "Mon",
        2 => "Tue",
        3 => "Wed",
        4 => "Thu",
        5 => "Fri",
        6 => "Sat",
        _ => "Sun",
    };
    proof {
        reveal_strlit("Mon");
        reveal_strlit("Tue");
        reveal_strlit("Wed");
        reveal_strlit("Thu");
        reveal_strlit("Fri");
        reveal_strlit("Sat");
        reveal_strlit("Sun");
        assert(abbr@ =~= weekday_abbr(iso as int));
    }
    WeekdayCode::new(iso, abbr)
}

/// Julian day of an instant, in whole Julian seconds.
pub fn unixtime_to_julian_day(ts: i64) -> (jd: i64)
    requires
        ts_in_range(ts as int),
    ensures
        jd == ts + JD_UNIX_EPOCH_SECS,
{
    ts + JD_UNIX_EPOCH_SECS
}

/// Unix seconds of a Julian day given in whole Julian seconds.
pub fn julian_day_to_unixtime(jd: i64) -> (ts: i64)
    requires
        ts_in_range(jd - JD_UNIX_EPOCH_SECS),
    ensures
        ts == jd - JD_UNIX_EPOCH_SECS,
{
    jd - JD_UNIX_EPOCH_SECS
}

/// Calendar fields of a Julian day given in whole Julian seconds.
pub fn julian_day_to_datetime(jd: i64) -> (r: DateTime)
    requires
        ts_in_range(jd - JD_UNIX_EPOCH_SECS),
    ensures
        r == dt_of_unix(jd - JD_UNIX_EPOCH_SECS),
        r.wf(),
{
    datetime_from_unixtime(jd - JD_UNIX_EPOCH_SECS)
}

/// Everything before the first dot: a fractional-second suffix is dropped.
pub open spec fn before_dot(s: Seq<char>) -> Seq<char> {
    s.subrange(0, first_index_of(s, '.'))
}

/// The ISO `T` separator replaced by a space.
pub open spec fn t_to_space(s: Seq<char>) -> Seq<char> {
    Seq::new(s.len(), |i: int| if s[i] == 'T' { ' ' } else { s[i] })
}

/// The cleanup the fuzzy parser applies before splitting.
pub open spec fn clean_fuzzy(s: Seq<char>) -> Seq<char> {
    trim_spec(t_to_space(before_dot(s)))
}

/// The date half: everything before the first space.
pub open spec fn date_part_of(c: Seq<char>) -> Seq<char> {
    c.subrange(0, first_index_of(c, ' '))
}

/// The time half: between the first and second spaces, empty when the
/// cleaned string holds no space.
pub open spec fn time_part_of(c: Seq<char>) -> Seq<char> {
    let i = first_index_of(c, ' ');
    if i == c.len() {
        Seq::<char>::empty()
    } else {
        let rest = c.subrange(i + 1, c.len() as int);
        rest.subrange(0, first_index_of(rest, ' '))
    }
}

/// The first three `sep`-separated fields of `v`; missing second and third
/// fields are replaced by `pad`.
pub open spec fn split_three_spec(v: Seq<char>, sep: char, pad: Seq<char>) -> (
    Seq<char>,
    Seq<char>,
    Seq<char>,
) {
    let i1 = first_index_of(v, sep);
    let a = v.subrange(0, i1);
    if i1 == v.len() {
        (a, pad, pad)
    } else {
        let rest1 = v.subrange(i1 + 1, v.len() as int);
        let i2 = first_index_of(rest1, sep);
        let b = rest1.subrange(0, i2);
        if i2 == rest1.len() {
            (a, b, pad)
        } else {
            let rest2 = rest1.subrange(i2 + 1, rest1.len() as int);
            (a, b, rest2.subrange(0, first_index_of(rest2, sep)))
        }
    }
}

/// Year, month and day fields of the date half. A missing month or day
/// becomes `01`; a date half of at most one character becomes 2000-01-01.
pub open spec fn fuzzy_date_fields(dp: Seq<char>) -> (Seq<char>, Seq<char>, Seq<char>) {
    if dp.len() <= 1 {
        (seq!['2', '0', '0', '0'], seq!['0', '1'], seq!['0', '1'])
    } else {
        split_three_spec(dp, '-', seq!['0', '1'])
    }
}

/// Hour, minute and second fields of the time half; missing parts are `00`.
pub open spec fn fuzzy_time_fields(tp: Seq<char>) -> (Seq<char>, Seq<char>, Seq<char>) {
    if tp.len() <= 1 {
        (seq!['0', '0'], seq!['0', '0'], seq!['0', '0'])
    } else {
        split_three_spec(tp, ':', seq!['0', '0'])
    }
}

/// A non-empty run of at most `w` decimal digits.
pub open spec fn field_ok(f: Seq<char>, w: int) -> bool {
    1 <= f.len() <= w && all_digits(f)
}

pub open spec fn fields_to_dt(
    yf: Seq<char>,
    mf: Seq<char>,
    df: Seq<char>,
    hf: Seq<char>,
    mif: Seq<char>,
    sf: Seq<char>,
) -> DateTime {
    if field_ok(yf, 4) && field_ok(mf, 2) && field_ok(df, 2) && field_ok(hf, 2) && field_ok(
        mif,
        2,
    ) && field_ok(sf, 2) && valid_ymd(num_of(yf), num_of(mf), num_of(df)) && num_of(hf) <= 23
        && num_of(mif) <= 59 && num_of(sf) <= 59 {
        DateTime {
            year: num_of(yf) as u32,
            month: num_of(mf) as u32,
            day: num_of(df) as u32,
            hour: num_of(hf) as u32,
            minute: num_of(mif) as u32,
            second: num_of(sf) as u32,
        }
    } else {
        epoch_dt()
    }
}

/// What the fuzzy parser yields: cleaned, split, padded and validated
/// fields, or the epoch when any field is out of order.
pub open spec fn parse_fuzzy_spec(s: Seq<char>) -> DateTime {
    let c = clean_fuzzy(s);
    let (yf, mf, df) = fuzzy_date_fields(date_part_of(c));
    let (hf, mif, sf) = fuzzy_time_fields(time_part_of(c));
    fields_to_dt(yf, mf, df, hf, mif, sf)
}

/// Splits the three `sep`-separated fields of `v`, padding missing ones
/// with `pad`.
fn split_three(v: &Vec<char>, sep: char, pad: Vec<char>) -> (r: (Vec<char>, Vec<char>, Vec<char>))
    ensures
        (r.0@, r.1@, r.2@) == split_three_spec(v@, sep, pad@),
{
    proof {
        assert(v@.subrange(0, v@.len() as int) =~= v@);
    }
    let i1 = find_from(v, 0, sep);
    let a = sub_chars(v, 0, i1);
    if i1 == v.len() {
        let p2 = clone_chars(&pad);
        (a, pad, p2)
    } else {
        let rest1 = sub_chars(v, i1 + 1, v.len());
        proof {
            assert(rest1@.subrange(0, rest1@.len() as int) =~= rest1@);
        }
        let i2 = find_from(&rest1, 0, sep);
        let b = sub_chars(&rest1, 0, i2);
        if i2 == rest1.len() {
            (a, b, pad)
        } else {
            let rest2 = sub_chars(&rest1, i2 + 1, rest1.len());
            proof {
                assert(rest2@.subrange(0, rest2@.len() as int) =~= rest2@);
            }
            let i3 = find_from(&rest2, 0, sep);
            let c = sub_chars(&rest2, 0, i3);
            (a, b, c)
        }
    }
}

fn clone_chars(v: &Vec<char>) -> (r: Vec<char>)
    ensures
        r@ =~= v@,
{
    sub_chars(v, 0, v.len())
}

/// Reads one field as a number when it is a digit run of width at most `w`.
fn field_value(f: &Vec<char>, w: usize) -> (r: Option<u64>)
    requires
        1 <= w <= 6,
    ensures
        if field_ok(f@, w as int) {
            r == Some((num_of(f@) as u64)) && 0 <= num_of(f@) < pow10(w as nat)
        } else {
            r is None
        },
{
    if f.len() == 0 || f.len() > w {
        return None;
    }
    proof {
        assert(f@.subrange(0, f@.len() as int) =~= f@);
        lemma_pow10_mono((f@.len()) as nat, w as nat);
    }
    parse_field(f, 0, f.len())
}

/// Fuzzy ISO-8601 parser. Drops a fractional-second suffix, accepts `T` or
/// space as the separator, pads a missing month, day or time component,
/// and yields the Unix epoch for anything unparseable.
pub fn iso_string_to_datetime(s: &str) -> (dt: DateTime)
    ensures
        dt == parse_fuzzy_spec(s@),
        dt.wf(),
{
    let v = chars_of(s);
    proof {
        assert(v@.subrange(0, v@.len() as int) =~= v@);
    }
    let dot = find_from(&v, 0, '.');
    let v1 = sub_chars(&v, 0, dot);
    let mut v2: Vec<char> = Vec::new();
    let mut i: usize = 0;
    while i < v1.len()
        invariant
            0 <= i <= v1@.len(),
            v2@ =~= t_to_space(v1@).subrange(0, i as int),
        decreases v1@.len() - i,
    {
        let c = v1[i];
        if c == 'T' {
            v2.push(' ');
        } else {
            v2.push(c);
        }
        proof {
            assert(v2@ =~= t_to_space(v1@).subrange(0, i + 1 as int));
        }
        i = i + 1;
    }
    proof {
        assert(v2@ =~= t_to_space(v1@));
    }
    let c = trim_chars(&v2);
    let ghost cs = clean_fuzzy(s@);
    proof {
        assert(c@ == cs);
        assert(c@.subrange(0, c@.len() as int) =~= c@);
    }
    let sp = find_from(&c, 0, ' ');
    let dp = sub_chars(&c, 0, sp);
    let tp: Vec<char> = if sp == c.len() {
        Vec::new()
    } else {
        let rest = sub_chars(&c, sp + 1, c.len());
        proof {
            assert(rest@.subrange(0, rest@.len() as int) =~= rest@);
        }
        let sp2 = find_from(&rest, 0, ' ');
        sub_chars(&rest, 0, sp2)
    };
    proof {
        assert(dp@ == date_part_of(cs));
        assert(tp@ == time_part_of(cs));
    }
    let (yf, mf, df): (Vec<char>, Vec<char>, Vec<char>) = if dp.len() <= 1 {
        let y2k = vec!['2', '0', '0', '0'];
        let m01 = vec!['0', '1'];
        let d01 = vec!['0', '1'];
        (y2k, m01, d01)
    } else {
        let pad = vec!['0', '1'];
        split_three(&dp, '-', pad)
    };
    let (hf, mif, sf): (Vec<char>, Vec<char>, Vec<char>) = if tp.len() <= 1 {
        let h00 = vec!['0', '0'];
        let m00 = vec!['0', '0'];
        let s00 = vec!['0', '0'];
        (h00, m00, s00)
    } else {
        let pad = vec!['0', '0'];
        split_three(&tp, ':', pad)
    };
    proof {
        assert((yf@, mf@, df@) == fuzzy_date_fields(dp@));
        assert((hf@, mif@, sf@) == fuzzy_time_fields(tp@));
    }
    build_datetime(&yf, &mf, &df, &hf, &mif, &sf)
}

/// Validates the six fields and assembles the result, or the epoch.
fn build_datetime(
    yf: &Vec<char>,
    mf: &Vec<char>,
    df: &Vec<char>,
    hf: &Vec<char>,
    mif: &Vec<char>,
    sf: &Vec<char>,
) -> (dt: DateTime)
    ensures
        dt == fields_to_dt(yf@, mf@, df@, hf@, mif@, sf@),
        dt.wf(),
{
    proof {
        lemma_epoch_dt();
    }
    let yv = field_value(yf, 4);
    let mv = field_value(mf, 2);
    let dv = field_value(df, 2);
    let hv = field_value(hf, 2);
    let miv = field_value(mif, 2);
    let sv = field_value(sf, 2);
    if let (Some(y), Some(m), Some(d), Some(h), Some(mi), Some(se)) = (yv, mv, dv, hv, miv, sv) {
        proof {
            reveal_with_fuel(pow10, 5);
        }
        let month_ok = 1 <= m && m <= 12;
        let day_ok = month_ok && 1 <= y && y <= MAX_YEAR && 1 <= d && d <= days_in_month_exec(
            y,
            m,
        );
        if day_ok && h <= 23 && mi <= 59 && se <= 59 {
            DateTime {
                year: y as u32,
                month: m as u32,
                day: d as u32,
                hour: h as u32,
                minute: mi as u32,
                second: se as u32,
            }
        } else {
            DateTime::epoch()
        }
    } else {
        DateTime::epoch()
    }
}

/// Exactly three `sep`-separated fields, with nothing after the third.
pub open spec fn exact_three_spec(v: Seq<char>, sep: char) -> Option<
    (Seq<char>, Seq<char>, Seq<char>),
> {
    let i1 = first_index_of(v, sep);
    if i1 == v.len() {
        None
    } else {
        let rest1 = v.subrange(i1 + 1, v.len() as int);
        let i2 = first_index_of(rest1, sep);
        if i2 == rest1.len() {
            None
        } else {
            let rest2 = rest1.subrange(i2 + 1, rest1.len() as int);
            if first_index_of(rest2, sep) == rest2.len() {
                Some((v.subrange(0, i1), rest1.subrange(0, i2), rest2))
            } else {
                None
            }
        }
    }
}

/// The strict parser: `T` replaced by a space, trimmed, then exactly
/// `y-m-d h:m:s` with valid numeric fields, or nothing.
pub open spec fn parse_strict_spec(s: Seq<char>) -> Option<DateTime> {
    let c = trim_spec(t_to_space(s));
    let i1 = first_index_of(c, ' ');
    if i1 == c.len() {
        None
    } else {
        let dp = c.subrange(0, i1);
        let tp = c.subrange(i1 + 1, c.len() as int);
        match (exact_three_spec(dp, '-'), exact_three_spec(tp, ':')) {
            (Some((yf, mf, df)), Some((hf, mif, sf))) => {
                if fields_all_ok(yf, mf, df, hf, mif, sf) {
                    Some(fields_to_dt(yf, mf, df, hf, mif, sf))
                } else {
                    None
                }
            },
            _ => None,
        }
    }
}

/// Splits exactly three `sep`-separated fields, refusing extras.
fn exact_three(v: &Vec<char>, sep: char) -> (r: Option<(Vec<char>, Vec<char>, Vec<char>)>)
    ensures
        match r {
            Some(t) => exact_three_spec(v@, sep) == Some((t.0@, t.1@, t.2@)),
            None => exact_three_spec(v@, sep) is None,
        },
{
    proof {
        assert(v@.subrange(0, v@.len() as int) =~= v@);
    }
    let i1 = find_from(v, 0, sep);
    if i1 == v.len() {
        return None;
    }
    let rest1 = sub_chars(v, i1 + 1, v.len());
    proof {
        assert(rest1@.subrange(0, rest1@.len() as int) =~= rest1@);
    }
    let i2 = find_from(&rest1, 0, sep);
    if i2 == rest1.len() {
        return None;
    }
    let rest2 = sub_chars(&rest1, i2 + 1, rest1.len());
    proof {
        assert(rest2@.subrange(0, rest2@.len() as int) =~= rest2@);
    }
    let i3 = find_from(&rest2, 0, sep);
    if i3 != rest2.len() {
        return None;
    }
    let a = sub_chars(v, 0, i1);
    let b = sub_chars(&rest1, 0, i2);
    Some((a, b, rest2))
}

/// Unix seconds of a strictly formatted datetime string, or `now` when it
/// does not parse.
pub fn match_unix_ts_from_fuzzy_datetime(date_str: &str, now: i64) -> (ts: i64)
    requires
        ts_in_range(now as int),
    ensures
        match parse_strict_spec(date_str@) {
            Some(dt) => ts == dt.ts(),
            None => ts == now,
        },
        ts_in_range(ts as int),
{
    proof {
        lemma_strict_wf(date_str@);
    }
    let v0 = chars_of(date_str);
    let mut v2: Vec<char> = Vec::new();
    let mut i: usize = 0;
    while i < v0.len()
        invariant
            0 <= i <= v0@.len(),
            v2@ =~= t_to_space(v0@).subrange(0, i as int),
        decreases v0@.len() - i,
    {
        let ch = v0[i];
        if ch == 'T' {
            v2.push(' ');
        } else {
            v2.push(ch);
        }
        proof {
            assert(v2@ =~= t_to_space(v0@).subrange(0, i + 1 as int));
        }
        i = i + 1;
    }
    proof {
        assert(v2@ =~= t_to_space(v0@));
    }
    let c = trim_chars(&v2);
    proof {
        assert(c@.subrange(0, c@.len() as int) =~= c@);
    }
    let sp = find_from(&c, 0, ' ');
    if sp == c.len() {
        return now;
    }
    let dp = sub_chars(&c, 0, sp);
    let tp = sub_chars(&c, sp + 1, c.len());
    let dparts = exact_three(&dp, '-');
    let tparts = exact_three(&tp, ':');
    if let (Some((yf, mf, df)), Some((hf, mif, sf))) = (dparts, tparts) {
        if fields_all_ok_exec(&yf, &mf, &df, &hf, &mif, &sf) {
            let dt = build_datetime(&yf, &mf, &df, &hf, &mif, &sf);
            dt.timestamp()
        } else {
            now
        }
    } else {
        now
    }
}

/// All six fields are digit runs whose values form a valid datetime.
pub open spec fn fields_all_ok(
    yf: Seq<char>,
    mf: Seq<char>,
    df: Seq<char>,
    hf: Seq<char>,
    mif: Seq<char>,
    sf: Seq<char>,
) -> bool {
    &&& field_ok(yf, 4)
    &&& field_ok(mf, 2)
    &&& field_ok(df, 2)
    &&& field_ok(hf, 2)
    &&& field_ok(mif, 2)
    &&& field_ok(sf, 2)
    &&& valid_ymd(num_of(yf), num_of(mf), num_of(df))
    &&& num_of(hf) <= 23
    &&& num_of(mif) <= 59
    &&& num_of(sf) <= 59
}

fn fields_all_ok_exec(
    yf: &Vec<char>,
    mf: &Vec<char>,
    df: &Vec<char>,
    hf: &Vec<char>,
    mif: &Vec<char>,
    sf: &Vec<char>,
) -> (r: bool)
    ensures
        r == fields_all_ok(yf@, mf@, df@, hf@, mif@, sf@),
{
    let yv = field_value(yf, 4);
    let mv = field_value(mf, 2);
    let dv = field_value(df, 2);
    let hv = field_value(hf, 2);
    let miv = field_value(mif, 2);
    let sv = field_value(sf, 2);
    if let (Some(y), Some(m), Some(d), Some(h), Some(mi), Some(se)) = (yv, mv, dv, hv, miv, sv) {
        proof {
            reveal_with_fuel(pow10, 5);
        }
        let month_ok = 1 <= m && m <= 12;
        let day_ok = month_ok && 1 <= y && y <= MAX_YEAR && 1 <= d && d <= days_in_month_exec(
            y,
            m,
        );
        day_ok && h <= 23 && mi <= 59 && se <= 59
    } else {
        false
    }
}

/// A strict parse, when it succeeds, yields a well-formed datetime.
pub proof fn lemma_strict_wf(s: Seq<char>)
    ensures
        parse_strict_spec(s) is Some ==> parse_strict_spec(s).unwrap().wf(),
{
    reveal_with_fuel(pow10, 5);
    let c = trim_spec(t_to_space(s));
    let i1 = first_index_of(c, ' ');
    if i1 != c.len() {
        let dp = c.subrange(0, i1);
        let tp = c.subrange(i1 + 1, c.len() as int);
        match (exact_three_spec(dp, '-'), exact_three_spec(tp, ':')) {
            (Some((yf, mf, df)), Some((hf, mif, sf))) => {
                if fields_all_ok(yf, mf, df, hf, mif, sf) {
                    lemma_num_of_bounds(yf);
                    lemma_num_of_bounds(mf);
                    lemma_num_of_bounds(df);
                    lemma_num_of_bounds(hf);
                    lemma_num_of_bounds(mif);
                    lemma_num_of_bounds(sf);
                    lemma_pow10_mono(yf.len(), 4);
                    lemma_pow10_mono(mf.len(), 2);
                    lemma_pow10_mono(df.len(), 2);
                    lemma_pow10_mono(hf.len(), 2);
                    lemma_pow10_mono(mif.len(), 2);
                    lemma_pow10_mono(sf.len(), 2);
                }
            },
            _ => {},
        }
    }
}

/// Julian day (whole Julian seconds) of a fuzzy datetime string.
pub fn datetime_to_julian_day(dt: &str) -> (jd: i64)
    ensures
        jd == parse_fuzzy_spec(dt@).ts() + JD_UNIX_EPOCH_SECS,
{
    let d = iso_string_to_datetime(dt);
    let ts = d.timestamp();
    unixtime_to_julian_day(ts)
}

/// Formats a Julian day (whole Julian seconds) as an ISO datetime string.
/// Values below one hundred days are not Julian days and give the empty
/// string.
pub fn julian_day_to_iso_datetime(jd: i64) -> (r: String)
    requires
        jd >= JD_SECS_FLOOR ==> ts_in_range(jd - JD_UNIX_EPOCH_SECS),
    ensures
        jd >= JD_SECS_FLOOR ==> r@ == utc_chars(jd - JD_UNIX_EPOCH_SECS),
        jd < JD_SECS_FLOOR ==> r@ == Seq::<char>::empty(),
{
    if jd >= JD_SECS_FLOOR {
        unixtime_to_utc(jd - JD_UNIX_EPOCH_SECS)
    } else {
        let r = String::new();
        r
    }
}

/// The canonical spelling of well-formed fields parses back to exactly
/// those fields.
pub proof fn lemma_canonical_parse(dt: DateTime)
    requires
        dt.wf(),
    ensures
        parse_fuzzy_spec(utc_chars_of_parts(dt)) == dt,
{
    reveal_with_fuel(pow10, 5);
    let yd = dec_digits(dt.year as int, 4);
    let md = dec_digits(dt.month as int, 2);
    let dd = dec_digits(dt.day as int, 2);
    let hd = dec_digits(dt.hour as int, 2);
    let mid = dec_digits(dt.minute as int, 2);
    let sd = dec_digits(dt.second as int, 2);
    lemma_dec_digits(dt.year as int, 4);
    lemma_dec_digits(dt.month as int, 2);
    lemma_dec_digits(dt.day as int, 2);
    lemma_dec_digits(dt.hour as int, 2);
    lemma_dec_digits(dt.minute as int, 2);
    lemma_dec_digits(dt.second as int, 2);
    let c = utc_chars_of_parts(dt);
    let flat = seq![
        yd[0],
        yd[1],
        yd[2],
        yd[3],
        '-',
        md[0],
        md[1],
        '-',
        dd[0],
        dd[1],
        'T',
        hd[0],
        hd[1],
        ':',
        mid[0],
        mid[1],
        ':',
        sd[0],
        sd[1],
    ];
    assert(c =~= flat);
    assert(forall|j: int| 0 <= j < c.len() ==> c[j] != '.') by {
        assert(forall|j: int|
            0 <= j < c.len() && is_digit_char(#[trigger] c[j]) ==> c[j] != '.');
    };
    lemma_first_index_absent(c, '.');
    assert(before_dot(c) =~= c);
    let c2 = t_to_space(before_dot(c));
    let flat2 = seq![
        yd[0],
        yd[1],
        yd[2],
        yd[3],
        '-',
        md[0],
        md[1],
        '-',
        dd[0],
        dd[1],
        ' ',
        hd[0],
        hd[1],
        ':',
        mid[0],
        mid[1],
        ':',
        sd[0],
        sd[1],
    ];
    assert(c2 =~= flat2) by {
        assert(forall|j: int|
            0 <= j < c.len() && is_digit_char(#[trigger] c[j]) ==> c[j] != 'T');
    };
    assert(!is_space_char(c2[0]));
    assert(!is_space_char(c2[18]));
    lemma_trim_no_spaces(c2);
    let cs = clean_fuzzy(c);
    assert(cs == c2);
    assert(forall|j: int| 0 <= j < 10 ==> cs[j] != ' ') by {
        assert(forall|j: int|
            0 <= j < cs.len() && is_digit_char(#[trigger] cs[j]) ==> cs[j] != ' ');
    };
    lemma_first_index_witness(cs, ' ', 10);
    let dp = date_part_of(cs);
    let dflat = seq![yd[0], yd[1], yd[2], yd[3], '-', md[0], md[1], '-', dd[0], dd[1]];
    assert(dp =~= dflat);
    let rest = cs.subrange(11, cs.len() as int);
    let tflat = seq![hd[0], hd[1], ':', mid[0], mid[1], ':', sd[0], sd[1]];
    assert(rest =~= tflat);
    assert(forall|j: int| 0 <= j < rest.len() ==> rest[j] != ' ') by {
        assert(forall|j: int|
            0 <= j < rest.len() && is_digit_char(#[trigger] rest[j]) ==> rest[j] != ' ');
    };
    lemma_first_index_absent(rest, ' ');
    let tp = time_part_of(cs);
    assert(tp =~= rest);
    // date fields
    assert(forall|j: int| 0 <= j < 4 ==> dp[j] != '-') by {
        assert(forall|j: int|
            0 <= j < dp.len() && is_digit_char(#[trigger] dp[j]) ==> dp[j] != '-');
    };
    lemma_first_index_witness(dp, '-', 4);
    let a = dp.subrange(0, 4);
    assert(a =~= yd);
    let rest1 = dp.subrange(5, 10);
    assert(rest1 =~= seq![md[0], md[1], '-', dd[0], dd[1]]);
    assert(forall|j: int| 0 <= j < 2 ==> rest1[j] != '-') by {
        assert(forall|j: int|
            0 <= j < rest1.len() && is_digit_char(#[trigger] rest1[j]) ==> rest1[j] != '-');
    };
    lemma_first_index_witness(rest1, '-', 2);
    let b = rest1.subrange(0, 2);
    assert(b =~= md);
    let rest2 = rest1.subrange(3, 5);
    assert(rest2 =~= dd);
    assert(forall|j: int| 0 <= j < rest2.len() ==> rest2[j] != '-') by {
        assert(forall|j: int|
            0 <= j < rest2.len() && is_digit_char(#[trigger] rest2[j]) ==> rest2[j] != '-');
    };
    lemma_first_index_absent(rest2, '-');
    assert(rest2.subrange(0, 2) =~= dd);
    assert(fuzzy_date_fields(dp) == (yd, md, dd));
    // time fields
    assert(forall|j: int| 0 <= j < 2 ==> tp[j] != ':') by {
        assert(forall|j: int|
            0 <= j < tp.len() && is_digit_char(#[trigger] tp[j]) ==> tp[j] != ':');
    };
    lemma_first_index_witness(tp, ':', 2);
    let ta = tp.subrange(0, 2);
    assert(ta =~= hd);
    let trest1 = tp.subrange(3, 8);
    assert(trest1 =~= seq![mid[0], mid[1], ':', sd[0], sd[1]]);
    assert(forall|j: int| 0 <= j < 2 ==> trest1[j] != ':') by {
        assert(forall|j: int|
            0 <= j < trest1.len() && is_digit_char(#[trigger] trest1[j]) ==> trest1[j] != ':');
    };
    lemma_first_index_witness(trest1, ':', 2);
    let tb = trest1.subrange(0, 2);
    assert(tb =~= mid);
    let trest2 = trest1.subrange(3, 5);
    assert(trest2 =~= sd);
    assert(forall|j: int| 0 <= j < trest2.len() ==> trest2[j] != ':') by {
        assert(forall|j: int|
            0 <= j < trest2.len() && is_digit_char(#[trigger] trest2[j]) ==> trest2[j] != ':');
    };
    lemma_first_index_absent(trest2, ':');
    assert(trest2.subrange(0, 2) =~= sd);
    assert(fuzzy_time_fields(tp) == (hd, mid, sd));
    // fields are valid and recombine
    assert(fields_all_ok(yd, md, dd, hd, mid, sd));
    assert(fields_to_dt(yd, md, dd, hd, mid, sd) == dt);
}

/// The canonical spelling of well-formed fields also satisfies the strict
/// parser, yielding exactly those fields.
pub proof fn lemma_canonical_strict_parse(dt: DateTime)
    requires
        dt.wf(),
    ensures
        parse_strict_spec(utc_chars_of_parts(dt)) == Some(dt),
{
    reveal_with_fuel(pow10, 5);
    let yd = dec_digits(dt.year as int, 4);
    let md = dec_digits(dt.month as int, 2);
    let dd = dec_digits(dt.day as int, 2);
    let hd = dec_digits(dt.hour as int, 2);
    let mid = dec_digits(dt.minute as int, 2);
    let sd = dec_digits(dt.second as int, 2);
    lemma_dec_digits(dt.year as int, 4);
    lemma_dec_digits(dt.month as int, 2);
    lemma_dec_digits(dt.day as int, 2);
    lemma_dec_digits(dt.hour as int, 2);
    lemma_dec_digits(dt.minute as int, 2);
    lemma_dec_digits(dt.second as int, 2);
    let c = utc_chars_of_parts(dt);
    let flat = seq![
        yd[0],
        yd[1],
        yd[2],
        yd[3],
        '-',
        md[0],
        md[1],
        '-',
        dd[0],
        dd[1],
        'T',
        hd[0],
        hd[1],
        ':',
        mid[0],
        mid[1],
        ':',
        sd[0],
        sd[1],
    ];
    assert(c =~= flat);
    let c2 = t_to_space(c);
    let flat2 = seq![
        yd[0],
        yd[1],
        yd[2],
        yd[3],
        '-',
        md[0],
        md[1],
        '-',
        dd[0],
        dd[1],
        ' ',
        hd[0],
        hd[1],
        ':',
        mid[0],
        mid[1],
        ':',
        sd[0],
        sd[1],
    ];
    assert(c2 =~= flat2) by {
        assert(forall|j: int|
            0 <= j < c.len() && is_digit_char(#[trigger] c[j]) ==> c[j] != 'T');
    };
    assert(!is_space_char(c2[0]));
    assert(!is_space_char(c2[18]));
    lemma_trim_no_spaces(c2);
    let cs = trim_spec(t_to_space(c));
    assert(cs == c2);
    assert(forall|j: int| 0 <= j < 10 ==> cs[j] != ' ') by {
        assert(forall|j: int|
            0 <= j < cs.len() && is_digit_char(#[trigger] cs[j]) ==> cs[j] != ' ');
    };
    lemma_first_index_witness(cs, ' ', 10);
    let dp = cs.subrange(0, 10);
    let dflat = seq![yd[0], yd[1], yd[2], yd[3], '-', md[0], md[1], '-', dd[0], dd[1]];
    assert(dp =~= dflat);
    let tp = cs.subrange(11, cs.len() as int);
    let tflat = seq![hd[0], hd[1], ':', mid[0], mid[1], ':', sd[0], sd[1]];
    assert(tp =~= tflat);
    // the date half splits into exactly three dash-separated fields
    assert(forall|j: int| 0 <= j < 4 ==> dp[j] != '-') by {
        assert(forall|j: int|
            0 <= j < dp.len() && is_digit_char(#[trigger] dp[j]) ==> dp[j] != '-');
    };
    lemma_first_index_witness(dp, '-', 4);
    assert(dp.subrange(0, 4) =~= yd);
    let rest1 = dp.subrange(5, 10);
    assert(rest1 =~= seq![md[0], md[1], '-', dd[0], dd[1]]);
    assert(forall|j: int| 0 <= j < 2 ==> rest1[j] != '-') by {
        assert(forall|j: int|
            0 <= j < rest1.len() && is_digit_char(#[trigger] rest1[j]) ==> rest1[j] != '-');
    };
    lemma_first_index_witness(rest1, '-', 2);
    assert(rest1.subrange(0, 2) =~= md);
    let rest2 = rest1.subrange(3, 5);
    assert(rest2 =~= dd);
    assert(forall|j: int| 0 <= j < rest2.len() ==> rest2[j] != '-') by {
        assert(forall|j: int|
            0 <= j < rest2.len() && is_digit_char(#[trigger] rest2[j]) ==> rest2[j] != '-');
    };
    lemma_first_index_absent(rest2, '-');
    assert(exact_three_spec(dp, '-') == Some((yd, md, dd)));
    // the time half splits into exactly three colon-separated fields
    assert(forall|j: int| 0 <= j < 2 ==> tp[j] != ':') by {
        assert(forall|j: int|
            0 <= j < tp.len() && is_digit_char(#[trigger] tp[j]) ==> tp[j] != ':');
    };
    lemma_first_index_witness(tp, ':', 2);
    assert(tp.subrange(0, 2) =~= hd);
    let trest1 = tp.subrange(3, 8);
    assert(trest1 =~= seq![mid[0], mid[1], ':', sd[0], sd[1]]);
    assert(forall|j: int| 0 <= j < 2 ==> trest1[j] != ':') by {
        assert(forall|j: int|
            0 <= j < trest1.len() && is_digit_char(#[trigger] trest1[j]) ==> trest1[j] != ':');
    };
    lemma_first_index_witness(trest1, ':', 2);
    assert(trest1.subrange(0, 2) =~= mid);
    let trest2 = trest1.subrange(3, 5);
    assert(trest2 =~= sd);
    assert(forall|j: int| 0 <= j < trest2.len() ==> trest2[j] != ':') by {
        assert(forall|j: int|
            0 <= j < trest2.len() && is_digit_char(#[trigger] trest2[j]) ==> trest2[j] != ':');
    };
    lemma_first_index_absent(trest2, ':');
    assert(exact_three_spec(tp, ':') == Some((hd, mid, sd)));
    assert(fields_all_ok(yd, md, dd, hd, mid, sd));
    assert(fields_to_dt(yd, md, dd, hd, mid, sd) == dt);
}

/// Round trip of the fuzzy datetime format: formatting an in-range instant
/// and parsing it back restores the instant.
pub proof fn lemma_fuzzy_datetime_round_trip(ts: int)
    requires
        ts_in_range(ts),
    ensures
        parse_fuzzy_spec(utc_chars(ts)) == dt_of_unix(ts),
        parse_fuzzy_spec(utc_chars(ts)).ts() == ts,
{
    lemma_dt_of_unix(ts);
    lemma_canonical_parse(dt_of_unix(ts));
}

/// Symmetry of the Julian-day conversions: an instant taken to Julian
/// seconds and back is unchanged, and the Julian seconds of any supported
/// instant clear the hundred-day floor.
pub proof fn lemma_julian_day_round_trip(ts: int)
    requires
        ts_in_range(ts),
    ensures
        (ts + JD_UNIX_EPOCH_SECS) - JD_UNIX_EPOCH_SECS == ts,
        ts + JD_UNIX_EPOCH_SECS >= JD_SECS_FLOOR,
{
}

} // verus!
