//! Time-zone values: the period between two transitions, reference-instant
//! annotations, the DST overlap predicates, and the request-scoped offset
//! override that the fall-back correction records.
use vstd::prelude::*;
use crate::datetime::{
    ts_in_range, utc_chars, unixtime_to_utc, unixtime_to_weekday, unixtime_to_julian_day,
    iso_string_to_datetime, parse_fuzzy_spec, WeekdayCode, is_weekday_code_of,
    TS_MIN, TS_MAX, JD_UNIX_EPOCH_SECS,
};
use crate::coords::{
    natural_tz_offset_from_utc, natural_hours_offset_from_utc, natural_offset_spec,
    natural_hours_spec, LNG_LIMIT,
};
use crate::text::{dec_digits, push_char, push_two_digits};

verus! {

/// An instant forced into the supported range; local-time shifts near the
/// calendar's edges saturate rather than leave it.
pub open spec fn clamp_ts(t: int) -> int {
    if t < TS_MIN {
        TS_MIN as int
    } else if t > TS_MAX {
        TS_MAX as int
    } else {
        t
    }
}

pub fn clamp_ts_exec(t: i64) -> (r: i64)
    ensures
        r == clamp_ts(t as int),
        ts_in_range(r as int),
{
    if t < TS_MIN {
        TS_MIN
    } else if t > TS_MAX {
        TS_MAX
    } else {
        t
    }
}

/// The request-scoped effective-offset override recorded by the fall-back
/// correction, so later constructions in the same request inherit it.
pub struct OffsetOverride {
    value: Option<i32>,
}

impl OffsetOverride {
    /// The override in force, if any.
    pub closed spec fn value_spec(self) -> Option<i32> {
        self.value
    }

    pub fn set(&mut self, value: i32)
        ensures
            final(self).value_spec() == Some(value),
    {
        self.value = Some(value);
    }

    pub fn reset(&mut self)
        ensures
            final(self).value_spec() is None,
    {
        self.value = None;
    }

    pub fn get(&self) -> (r: Option<i32>)
        ensures
            r == self.value_spec(),
    {
        self.value
    }

    pub fn is_set(&self) -> (r: bool)
        ensures
            r == (self.value_spec() is Some),
    {
        self.value.is_some()
    }
}

impl Default for OffsetOverride {
    /// A fresh request scope holds no override.
    fn default() -> (r: Self)
        ensures
            r.value_spec() is None,
    {
        OffsetOverride { value: None }
    }
}

/// The interval between two adjacent transitions of a zone, with its
/// bounds also spelled as UTC strings.
pub struct TimeZonePeriod {
    pub start: Option<i64>,
    pub start_utc: Option<String>,
    pub next_gmt_offset: Option<i32>,
    pub end: Option<i64>,
    pub end_utc: Option<String>,
}

impl TimeZonePeriod {
    /// Bounds are in range, an end implies a start strictly before it, and
    /// the string forms spell the bounds.
    pub open spec fn wf(self) -> bool {
        &&& (self.start is Some ==> ts_in_range(self.start.unwrap() as int))
        &&& (self.end is Some ==> ts_in_range(self.end.unwrap() as int))
        &&& (self.end is Some ==> self.start is Some && self.start.unwrap()
            < self.end.unwrap())
        &&& (self.start is Some <==> self.start_utc is Some)
        &&& (self.start is Some ==> self.start_utc.unwrap()@ == utc_chars(
            self.start.unwrap() as int,
        ))
        &&& (self.end is Some <==> self.end_utc is Some)
        &&& (self.end is Some ==> self.end_utc.unwrap()@ == utc_chars(self.end.unwrap() as int))
    }

    pub fn new(start_ts: i64, next_offset: Option<i32>, end: Option<i64>) -> (r: TimeZonePeriod)
        requires
            ts_in_range(start_ts as int),
            end is Some ==> ts_in_range(end.unwrap() as int) && start_ts < end.unwrap(),
        ensures
            r.start == Some(start_ts),
            r.next_gmt_offset == next_offset,
            r.end == end,
            r.wf(),
    {
        let start_utc = Some(unixtime_to_utc(start_ts));
        let end_utc = match end {
            Some(e) => Some(unixtime_to_utc(e)),
            None => None,
        };
        TimeZonePeriod { start: Some(start_ts), start_utc, next_gmt_offset: next_offset, end, end_utc }
    }

    /// The period of a synthesised zone: no known transitions.
    pub fn empty() -> (r: TimeZonePeriod)
        ensures
            r.start is None,
            r.start_utc is None,
            r.next_gmt_offset is None,
            r.end is None,
            r.end_utc is None,
            r.wf(),
    {
        TimeZonePeriod { start: None, start_utc: None, next_gmt_offset: None, end: None, end_utc: None }
    }
}

/// A resolved time zone: the transition in effect, its period, and the
/// reference-instant annotations.
pub struct TimeZone {
    pub zone_name: String,
    pub country_code: String,
    pub abbreviation: String,
    pub gmt_offset: i32,
    pub dst: bool,
    pub local_dt: Option<String>,
    pub utc: Option<String>,
    pub period: TimeZonePeriod,
    pub week_day: Option<WeekdayCode>,
    pub ref_unix: Option<i64>,
    pub ref_jd: Option<i64>,
    pub solar_utc_offset: Option<i32>,
}

impl TimeZone {
    pub open spec fn wf(self) -> bool {
        &&& self.period.wf()
        &&& (self.ref_unix is Some ==> ts_in_range(self.ref_unix.unwrap() as int))
    }

    /// The offset in effect, in seconds.
    pub open spec fn offset_spec(self) -> int {
        self.gmt_offset as int
    }

    /// The offset after the period's end, defaulting to the current one.
    pub open spec fn next_offset_spec(self) -> int {
        match self.period.next_gmt_offset {
            Some(n) => n as int,
            None => self.gmt_offset as int,
        }
    }

    /// Current minus next offset: positive before a fall-back, negative
    /// before a spring-forward.
    pub open spec fn next_diff_spec(self) -> int {
        self.offset_spec() - self.next_offset_spec()
    }

    pub open spec fn ref_or_zero(self) -> int {
        match self.ref_unix {
            Some(t) => t as int,
            None => 0,
        }
    }

    /// Seconds from the period's start to the reference instant; zero
    /// without a start.
    pub open spec fn secs_since_start_spec(self) -> int {
        match self.period.start {
            Some(s) => self.ref_or_zero() - s,
            None => 0,
        }
    }

    /// Seconds from the reference instant to the period's end; zero
    /// without an end.
    pub open spec fn secs_to_end_spec(self) -> int {
        match self.period.end {
            Some(e) => e - self.ref_or_zero(),
            None => 0,
        }
    }

    /// The overlap test shifted by `off`: the reference instant is within
    /// one offset-difference of the period's end (ahead of a change) or of
    /// its start (just after one).
    pub open spec fn overlap_spec(self, off: int) -> bool {
        let d = self.next_diff_spec();
        let a = if d < 0 {
            -d
        } else {
            d
        };
        if self.secs_to_end_spec() - off < a {
            d >= 0
        } else if self.secs_since_start_spec() < a {
            d < 0
        } else {
            false
        }
    }

    pub fn new(
        zone_name: String,
        country_code: String,
        abbreviation: String,
        time_start: i64,
        gmt_offset: i32,
        dst: bool,
        ov: &OffsetOverride,
    ) -> (r: TimeZone)
        requires
            ts_in_range(time_start as int),
        ensures
            r.zone_name == zone_name,
            r.country_code == country_code,
            r.abbreviation == abbreviation,
            r.gmt_offset as int == match ov.value_spec() {
                Some(o) => o as int,
                None => gmt_offset as int,
            },
            r.dst == dst,
            r.period.start == Some(time_start),
            r.period.next_gmt_offset is None,
            r.period.end is None,
            r.local_dt is None,
            r.utc is None,
            r.week_day is None,
            r.ref_unix is None,
            r.ref_jd is None,
            r.solar_utc_offset is None,
            r.wf(),
    {
        let period = TimeZonePeriod::new(time_start, None, None);
        let gmt_offset = match ov.get() {
            Some(o) => o,
            None => gmt_offset,
        };
        TimeZone {
            zone_name,
            country_code,
            abbreviation,
            gmt_offset,
            dst,
            local_dt: None,
            utc: None,
            period,
            week_day: None,
            ref_unix: None,
            ref_jd: None,
            solar_utc_offset: None,
        }
    }

    /// Synthesises a zone for open ocean: the name gains a `/HHW` or
    /// `/HHE` suffix for the whole-hour solar offset, the abbreviation is
    /// the whole-hour local-time token, and the reference annotations
    /// come from the supplied datetime string.
    pub fn new_ocean(name: &str, lng: i64, date_str: &str) -> (r: TimeZone)
        requires
            -LNG_LIMIT <= lng <= LNG_LIMIT,
        ensures
            ({
                let hours = natural_hours_spec(lng as int);
                let habs = if hours < 0 {
                    -hours
                } else {
                    hours
                };
                let letter = if lng < 0 {
                    'W'
                } else {
                    'E'
                };
                let ts = parse_fuzzy_spec(date_str@).ts();
                &&& r.zone_name@ == name@ + seq!['/'] + dec_digits(habs, 2) + seq![letter]
                &&& r.country_code@ == Seq::<char>::empty()
                &&& r.abbreviation@ == seq!['L', 'O', 'C']
                &&& r.gmt_offset == hours * 3600
                &&& !r.dst
                &&& r.ref_unix == Some(ts as i64)
                &&& r.utc is Some && r.utc.unwrap()@ == utc_chars(ts)
                &&& r.local_dt is Some && r.local_dt.unwrap()@ == utc_chars(
                    clamp_ts(ts + hours * 3600),
                )
                &&& r.week_day is Some && is_weekday_code_of(
                    r.week_day.unwrap(),
                    clamp_ts(ts + hours * 3600),
                )
                &&& r.period.start is None && r.period.end is None
                    && r.period.next_gmt_offset is None
                &&& r.ref_jd is None
                &&& r.solar_utc_offset == Some((natural_offset_spec(lng as int) as i32))
                &&& r.wf()
            }),
    {
        let solar_utc_offset = Some(natural_tz_offset_from_utc(lng));
        let gmt_offset_hours = natural_hours_offset_from_utc(lng);
        let letter = if lng < 0 {
            'W'
        } else {
            'E'
        };
        let hours: i32 = if gmt_offset_hours < 0 {
            -gmt_offset_hours
        } else {
            gmt_offset_hours
        };
        let mut zone_name = name.to_owned();
        push_char(&mut zone_name, '/');
        push_two_digits(&mut zone_name, hours as u64);
        push_char(&mut zone_name, letter);
        proof {
            assert(zone_name@ =~= name@ + seq!['/'] + dec_digits(hours as int, 2) + seq![letter]);
        }
        let gmt_offset = gmt_offset_hours * 3600;
        let dt = iso_string_to_datetime(date_str);
        let unix_ts = dt.timestamp();
        let ref_unix = Some(unix_ts);
        let utc = Some(unixtime_to_utc(unix_ts));
        let adjusted_unix_ts = clamp_ts_exec(unix_ts + gmt_offset as i64);
        let local_dt = Some(unixtime_to_utc(adjusted_unix_ts));
        let week_day = Some(unixtime_to_weekday(adjusted_unix_ts));
        let empty_cc = String::new();
        let abbr = "LOC".to_owned();
        proof {
            reveal_strlit("LOC");
            assert(abbr@ =~= seq!['L', 'O', 'C']);
        }
        TimeZone {
            zone_name,
            country_code: empty_cc,
            abbreviation: abbr,
            gmt_offset,
            dst: false,
            local_dt,
            utc,
            period: TimeZonePeriod::empty(),
            week_day,
            ref_unix,
            ref_jd: None,
            solar_utc_offset,
        }
    }

    /// Closes the period at `end_ts` and records the offset active from
    /// there on; without a start nothing changes.
    pub fn add_end(&mut self, end_ts: i64, gmt_offset: i32)
        requires
            old(self).wf(),
            ts_in_range(end_ts as int),
            old(self).period.start is Some ==> old(self).period.start.unwrap() < end_ts,
        ensures
            final(self).period.start == old(self).period.start,
            old(self).period.start is Some ==> final(self).period.end == Some(end_ts)
                && final(self).period.next_gmt_offset == Some(gmt_offset),
            old(self).period.start is None ==> final(self).period == old(self).period,
            final(self).zone_name == old(self).zone_name,
            final(self).country_code == old(self).country_code,
            final(self).abbreviation == old(self).abbreviation,
            final(self).gmt_offset == old(self).gmt_offset,
            final(self).dst == old(self).dst,
            final(self).local_dt == old(self).local_dt,
            final(self).utc == old(self).utc,
            final(self).week_day == old(self).week_day,
            final(self).ref_unix == old(self).ref_unix,
            final(self).ref_jd == old(self).ref_jd,
            final(self).solar_utc_offset == old(self).solar_utc_offset,
            final(self).wf(),
    {
        if let Some(start) = self.period.start {
            self.period = TimeZonePeriod::new(start, Some(gmt_offset), Some(end_ts));
        }
    }

    /// The period's start, or the smallest instant when none is known.
    pub fn time_start(&self) -> (r: i64)
        ensures
            r == match self.period.start {
                Some(s) => s as int,
                None => i64::MIN as int,
            },
    {
        if let Some(start) = self.period.start {
            start
        } else {
            i64::MIN
        }
    }

    /// Sets the reference instant and derives its annotations: Julian day,
    /// UTC and local strings, and the local weekday.
    pub fn set_ref_time(&mut self, ref_ts: i64)
        requires
            ts_in_range(ref_ts as int),
        ensures
            final(self).ref_unix == Some(ref_ts),
            final(self).ref_jd == Some((ref_ts + JD_UNIX_EPOCH_SECS) as i64),
            final(self).utc is Some && final(self).utc.unwrap()@ == utc_chars(ref_ts as int),
            final(self).local_dt is Some && final(self).local_dt.unwrap()@ == utc_chars(
                clamp_ts(ref_ts + old(self).gmt_offset),
            ),
            final(self).week_day is Some && is_weekday_code_of(
                final(self).week_day.unwrap(),
                clamp_ts(ref_ts + old(self).gmt_offset),
            ),
            final(self).zone_name == old(self).zone_name,
            final(self).country_code == old(self).country_code,
            final(self).abbreviation == old(self).abbreviation,
            final(self).gmt_offset == old(self).gmt_offset,
            final(self).dst == old(self).dst,
            final(self).period == old(self).period,
            final(self).solar_utc_offset == old(self).solar_utc_offset,
            old(self).wf() ==> final(self).wf(),
    {
        self.ref_unix = Some(ref_ts);
        self.ref_jd = Some(unixtime_to_julian_day(ref_ts));
        let local_unix_ts = clamp_ts_exec(ref_ts + self.gmt_offset as i64);
        self.local_dt = Some(unixtime_to_utc(local_unix_ts));
        self.utc = Some(unixtime_to_utc(ref_ts));
        self.week_day = Some(unixtime_to_weekday(local_unix_ts));
    }

    /// Records the solar offset of a longitude.
    pub fn set_natural_offset(&mut self, lng: i64)
        requires
            -LNG_LIMIT <= lng <= LNG_LIMIT,
        ensures
            final(self).solar_utc_offset is Some && final(self).solar_utc_offset.unwrap() as int
                == natural_offset_spec(lng as int),
            final(self).zone_name == old(self).zone_name,
            final(self).country_code == old(self).country_code,
            final(self).abbreviation == old(self).abbreviation,
            final(self).gmt_offset == old(self).gmt_offset,
            final(self).dst == old(self).dst,
            final(self).local_dt == old(self).local_dt,
            final(self).utc == old(self).utc,
            final(self).period == old(self).period,
            final(self).week_day == old(self).week_day,
            final(self).ref_unix == old(self).ref_unix,
            final(self).ref_jd == old(self).ref_jd,
            old(self).wf() ==> final(self).wf(),
    {
        self.solar_utc_offset = Some(natural_tz_offset_from_utc(lng));
    }

    pub fn offset(&self) -> (r: i64)
        ensures
            r == self.offset_spec(),
    {
        self.gmt_offset as i64
    }

    pub fn next_offset(&self) -> (r: i64)
        ensures
            r == self.next_offset_spec(),
    {
        if let Some(nx) = self.period.next_gmt_offset {
            nx as i64
        } else {
            self.gmt_offset as i64
        }
    }

    pub fn next_diff_offset(&self) -> (r: i64)
        ensures
            r == self.next_diff_spec(),
    {
        self.offset() - self.next_offset()
    }

    pub fn secs_since_start(&self) -> (r: i64)
        requires
            self.wf(),
        ensures
            r == self.secs_since_start_spec(),
    {
        let curr_ts = match self.ref_unix {
            Some(t) => t,
            None => 0,
        };
        if let Some(start_ts) = self.period.start {
            curr_ts - start_ts
        } else {
            0
        }
    }

    pub fn secs_to_end(&self) -> (r: i64)
        requires
            self.wf(),
        ensures
            r == self.secs_to_end_spec(),
    {
        let curr_ts = match self.ref_unix {
            Some(t) => t,
            None => 0,
        };
        if let Some(end_ts) = self.period.end {
            end_ts - curr_ts
        } else {
            0
        }
    }

    /// Whether the reference instant lies in a DST overlap window.
    pub fn is_overlap_period(&self) -> (r: bool)
        requires
            self.wf(),
        ensures
            r == self.overlap_spec(0),
    {
        self.is_overlap_period_offset(0)
    }

    /// The overlap test shifted back by the zone's own offset, as the
    /// local-time reconciler applies it.
    pub fn is_overlap_period_extra(&self) -> (r: bool)
        requires
            self.wf(),
        ensures
            r == self.overlap_spec(0 - self.offset_spec()),
    {
        self.is_overlap_period_offset(0 - self.offset())
    }

    pub fn is_overlap_period_offset(&self, offset: i64) -> (r: bool)
        requires
            self.wf(),
            -3000000000 <= offset <= 3000000000,
        ensures
            r == self.overlap_spec(offset as int),
    {
        let diff = self.next_diff_offset();
        let next_back = diff < 0;
        let diff_abs = if diff < 0 {
            -diff
        } else {
            diff
        };
        if self.secs_to_end() - offset < diff_abs {
            !next_back
        } else if self.secs_since_start() < diff_abs {
            next_back
        } else {
            false
        }
    }
}

/// The overlap test holds exactly when the offset difference brackets the
/// seconds to the period's end (ahead of a fall-back) or the seconds since
/// its start (just after one).
pub proof fn lemma_overlap_characterisation(tz: TimeZone)
    requires
        tz.secs_to_end_spec() >= 0,
        tz.secs_since_start_spec() >= 0,
    ensures
        tz.overlap_spec(0) == ({
            let d = tz.next_diff_spec();
            ||| (d > 0 && tz.secs_to_end_spec() < d)
            ||| (d < 0 && tz.secs_to_end_spec() >= -d && tz.secs_since_start_spec() < -d)
        }),
{
}

} // verus!
