//! The time-zone transition table for one zone, and the resolver that
//! assembles the period in effect at an instant, applies the DST overlap
//! correction, and synthesises a natural zone when the table has no row.
use vstd::prelude::*;
use crate::datetime::{
    ts_in_range, parse_strict_spec, parse_fuzzy_spec, match_unix_ts_from_fuzzy_datetime,
    iso_string_to_datetime, utc_chars, is_weekday_code_of, JD_UNIX_EPOCH_SECS,
};
use crate::timezone::{TimeZone, OffsetOverride, clamp_ts};
use crate::coords::{
    natural_offset_spec, natural_hours_spec, natural_tz_offset_from_utc,
    natural_hours_offset_from_utc, LNG_LIMIT,
};
use crate::text::push_char;

verus! {

/// One row of the transition table: the offset regime a zone enters at
/// `time_start`.
pub struct TransitionRow {
    pub zone_name: String,
    pub country_code: String,
    pub abbreviation: String,
    pub time_start: i64,
    pub gmt_offset: i32,
    pub dst: bool,
}

pub open spec fn row_wf(r: TransitionRow) -> bool {
    ts_in_range(r.time_start as int)
}

pub open spec fn rows_wf(rows: Seq<TransitionRow>) -> bool {
    forall|i: int| 0 <= i < rows.len() ==> row_wf(#[trigger] rows[i])
}

pub open spec fn has_at_or_before(rows: Seq<TransitionRow>, ts: int) -> bool {
    exists|i: int| 0 <= i < rows.len() && (#[trigger] rows[i]).time_start <= ts
}

pub open spec fn has_after(rows: Seq<TransitionRow>, ts: int) -> bool {
    exists|i: int| 0 <= i < rows.len() && (#[trigger] rows[i]).time_start > ts
}

/// `rows[i]` is a latest transition at or before `ts`.
pub open spec fn is_nearest_before(rows: Seq<TransitionRow>, ts: int, i: int) -> bool {
    &&& 0 <= i < rows.len()
    &&& rows[i].time_start <= ts
    &&& forall|j: int|
        0 <= j < rows.len() && (#[trigger] rows[j]).time_start <= ts ==> rows[j].time_start
            <= rows[i].time_start
}

/// `rows[i]` is an earliest transition strictly after `ts`.
pub open spec fn is_nearest_after(rows: Seq<TransitionRow>, ts: int, i: int) -> bool {
    &&& 0 <= i < rows.len()
    &&& rows[i].time_start > ts
    &&& forall|j: int|
        0 <= j < rows.len() && (#[trigger] rows[j]).time_start > ts ==> rows[j].time_start
            >= rows[i].time_start
}

/// The index the forward scan for "latest at or before" settles on, the
/// earliest index winning ties.
pub open spec fn scan_before_from(
    rows: Seq<TransitionRow>,
    ts: int,
    k: int,
    best: Option<int>,
) -> Option<int>
    decreases rows.len() - k,
{
    if k < 0 || k >= rows.len() {
        best
    } else {
        let take = rows[k].time_start <= ts && (match best {
            Some(b) => rows[k].time_start > rows[b].time_start,
            None => true,
        });
        scan_before_from(
            rows,
            ts,
            k + 1,
            if take {
                Some(k)
            } else {
                best
            },
        )
    }
}

pub open spec fn scan_before(rows: Seq<TransitionRow>, ts: int) -> Option<int> {
    scan_before_from(rows, ts, 0, None)
}

/// The index the forward scan for "earliest after" settles on, the
/// earliest index winning ties.
pub open spec fn scan_after_from(
    rows: Seq<TransitionRow>,
    ts: int,
    k: int,
    best: Option<int>,
) -> Option<int>
    decreases rows.len() - k,
{
    if k < 0 || k >= rows.len() {
        best
    } else {
        let take = rows[k].time_start > ts && (match best {
            Some(b) => rows[k].time_start < rows[b].time_start,
            None => true,
        });
        scan_after_from(
            rows,
            ts,
            k + 1,
            if take {
                Some(k)
            } else {
                best
            },
        )
    }
}

pub open spec fn scan_after(rows: Seq<TransitionRow>, ts: int) -> Option<int> {
    scan_after_from(rows, ts, 0, None)
}

/// Latest transition at or before `ts`, scanning the zone's rows.
pub fn nearest_at_or_before(rows: &Vec<TransitionRow>, ts: i64) -> (r: Option<usize>)
    ensures
        match r {
            Some(i) => is_nearest_before(rows@, ts as int, i as int) && scan_before(
                rows@,
                ts as int,
            ) == Some(i as int),
            None => !has_at_or_before(rows@, ts as int) && scan_before(rows@, ts as int) is None,
        },
{
    let mut best: Option<usize> = None;
    let mut k: usize = 0;
    while k < rows.len()
        invariant
            0 <= k <= rows@.len(),
            scan_before(rows@, ts as int) == scan_before_from(
                rows@,
                ts as int,
                k as int,
                match best {
                    Some(i) => Some(i as int),
                    None => None,
                },
            ),
            match best {
                Some(i) => i < k && rows@[i as int].time_start <= ts && forall|j: int|
                    0 <= j < k && (#[trigger] rows@[j]).time_start <= ts ==> rows@[j].time_start
                        <= rows@[i as int].time_start,
                None => forall|j: int| 0 <= j < k ==> (#[trigger] rows@[j]).time_start > ts,
            },
        decreases rows@.len() - k,
    {
        if rows[k].time_start <= ts {
            match best {
                Some(i) => {
                    if rows[k].time_start > rows[i].time_start {
                        best = Some(k);
                    }
                },
                None => {
                    best = Some(k);
                },
            }
        }
        k = k + 1;
    }
    best
}

/// Earliest transition strictly after `ts`, scanning the zone's rows.
pub fn nearest_after(rows: &Vec<TransitionRow>, ts: i64) -> (r: Option<usize>)
    ensures
        match r {
            Some(i) => is_nearest_after(rows@, ts as int, i as int) && scan_after(
                rows@,
                ts as int,
            ) == Some(i as int),
            None => !has_after(rows@, ts as int) && scan_after(rows@, ts as int) is None,
        },
{
    let mut best: Option<usize> = None;
    let mut k: usize = 0;
    while k < rows.len()
        invariant
            0 <= k <= rows@.len(),
            scan_after(rows@, ts as int) == scan_after_from(
                rows@,
                ts as int,
                k as int,
                match best {
                    Some(i) => Some(i as int),
                    None => None,
                },
            ),
            match best {
                Some(i) => i < k && rows@[i as int].time_start > ts && forall|j: int|
                    0 <= j < k && (#[trigger] rows@[j]).time_start > ts ==> rows@[j].time_start
                        >= rows@[i as int].time_start,
                None => forall|j: int| 0 <= j < k ==> (#[trigger] rows@[j]).time_start <= ts,
            },
        decreases rows@.len() - k,
    {
        if rows[k].time_start > ts {
            match best {
                Some(i) => {
                    if rows[k].time_start < rows[i].time_start {
                        best = Some(k);
                    }
                },
                None => {
                    best = Some(k);
                },
            }
        }
        k = k + 1;
    }
    best
}

/// The instant a datetime string resolves to: its strict parse, or `now`.
pub open spec fn strict_ts_of(s: Seq<char>, now: int) -> int {
    match parse_strict_spec(s) {
        Some(dt) => dt.ts(),
        None => now,
    }
}

/// The offset the resolver starts from: an inherited override wins over
/// the row's own offset.
pub open spec fn base_offset_of(ov: OffsetOverride, row_offset: int) -> int {
    match ov.value_spec() {
        Some(o) => o as int,
        None => row_offset,
    }
}

/// The overlap test on raw period data: within one offset-difference of
/// the period's end ahead of a change, or of its start just after one.
pub open spec fn overlap_here(
    start: int,
    end_opt: Option<i64>,
    off: int,
    next_opt: Option<i32>,
    ts: int,
) -> bool {
    let next_off = match next_opt {
        Some(n) => n as int,
        None => off,
    };
    let d = off - next_off;
    let a = if d < 0 {
        -d
    } else {
        d
    };
    let s2e = match end_opt {
        Some(e) => e - ts,
        None => 0,
    };
    let s_since = ts - start;
    if s2e < a {
        d >= 0
    } else if s_since < a {
        d < 0
    } else {
        false
    }
}

/// What a resolved zone looks like when the table held a row: the nearest
/// transitions bracket the reference instant (so the period contains it),
/// the row's identity fields carry over, and the offset is the base
/// offset unless the fall-back correction adopted the offset in force a
/// day later and recorded it in the override.
pub open spec fn resolved_from_rows(
    rows: Seq<TransitionRow>,
    ts: int,
    enforce_dst: bool,
    ov_in: OffsetOverride,
    tz: TimeZone,
    ov_out: OffsetOverride,
) -> bool {
    exists|i: int|
        {
            &&& #[trigger] is_nearest_before(rows, ts, i)
            &&& tz.zone_name == rows[i].zone_name
            &&& tz.country_code == rows[i].country_code
            &&& tz.abbreviation == rows[i].abbreviation
            &&& tz.dst == rows[i].dst
            &&& tz.period.start == Some(rows[i].time_start)
            &&& tz.ref_unix == Some(ts as i64)
            &&& (if has_after(rows, ts) {
                exists|j: int|
                    #[trigger] is_nearest_after(rows, ts, j) && tz.period.end == Some(
                        rows[j].time_start,
                    ) && tz.period.next_gmt_offset == Some(rows[j].gmt_offset)
            } else {
                tz.period.end is None && tz.period.next_gmt_offset is None
            })
            &&& ({
                let base = base_offset_of(ov_in, rows[i].gmt_offset as int);
                let over = overlap_here(
                    rows[i].time_start as int,
                    tz.period.end,
                    base,
                    tz.period.next_gmt_offset,
                    ts,
                );
                if !enforce_dst && over && has_at_or_before(rows, ts + 86400) {
                    exists|k: int|
                        #[trigger] is_nearest_before(rows, ts + 86400, k) && tz.gmt_offset
                            == rows[k].gmt_offset && ov_out.value_spec() == Some(rows[k].gmt_offset)
                } else {
                    tz.gmt_offset as int == base && ov_out == ov_in
                }
            })
        }
}

/// Period containment: a zone resolved from the table has its reference
/// instant at or after the period's start and, when an end is known,
/// strictly before it.
pub proof fn lemma_period_contains_reference(
    rows: Seq<TransitionRow>,
    ts: int,
    enforce_dst: bool,
    ov_in: OffsetOverride,
    tz: TimeZone,
    ov_out: OffsetOverride,
)
    requires
        resolved_from_rows(rows, ts, enforce_dst, ov_in, tz, ov_out),
    ensures
        tz.ref_unix == Some(ts as i64),
        tz.period.start is Some && tz.period.start.unwrap() <= ts,
        tz.period.end is Some ==> ts < tz.period.end.unwrap(),
{
    let i = choose|i: int|
        {
            &&& #[trigger] is_nearest_before(rows, ts, i)
            &&& tz.zone_name == rows[i].zone_name
            &&& tz.country_code == rows[i].country_code
            &&& tz.abbreviation == rows[i].abbreviation
            &&& tz.dst == rows[i].dst
            &&& tz.period.start == Some(rows[i].time_start)
            &&& tz.ref_unix == Some(ts as i64)
            &&& (if has_after(rows, ts) {
                exists|j: int|
                    #[trigger] is_nearest_after(rows, ts, j) && tz.period.end == Some(
                        rows[j].time_start,
                    ) && tz.period.next_gmt_offset == Some(rows[j].gmt_offset)
            } else {
                tz.period.end is None && tz.period.next_gmt_offset is None
            })
            &&& ({
                let base = base_offset_of(ov_in, rows[i].gmt_offset as int);
                let over = overlap_here(
                    rows[i].time_start as int,
                    tz.period.end,
                    base,
                    tz.period.next_gmt_offset,
                    ts,
                );
                if !enforce_dst && over && has_at_or_before(rows, ts + 86400) {
                    exists|k: int|
                        #[trigger] is_nearest_before(rows, ts + 86400, k) && tz.gmt_offset
                            == rows[k].gmt_offset && ov_out.value_spec() == Some(rows[k].gmt_offset)
                } else {
                    tz.gmt_offset as int == base && ov_out == ov_in
                }
            })
        };
    assert(is_nearest_before(rows, ts, i));
    if has_after(rows, ts) {
        let j = choose|j: int|
            #[trigger] is_nearest_after(rows, ts, j) && tz.period.end == Some(rows[j].time_start)
                && tz.period.next_gmt_offset == Some(rows[j].gmt_offset);
        assert(rows[j].time_start > ts);
    }
}

/// What a synthesised natural zone looks like: solar time before 1900,
/// whole-hour local time from then on, period anchored at the parsed
/// instant.
pub open spec fn natural_zone_of(
    zn: Seq<char>,
    date_str: Seq<char>,
    lng: int,
    cc: Seq<char>,
    ov: OffsetOverride,
    tz: TimeZone,
) -> bool {
    let dt = parse_fuzzy_spec(date_str);
    let before_1900 = dt.year < 1900;
    let raw = if before_1900 {
        natural_offset_spec(lng)
    } else {
        natural_hours_spec(lng) * 3600
    };
    &&& tz.zone_name@ == zn
    &&& tz.country_code@ == cc
    &&& tz.abbreviation@ == (if before_1900 {
        seq!['S', 'O', 'L']
    } else {
        seq!['L', 'O', 'C']
    })
    &&& tz.gmt_offset as int == base_offset_of(ov, raw)
    &&& !tz.dst
    &&& tz.period.start == Some((dt.ts()) as i64)
    &&& tz.period.end is None
    &&& tz.ref_unix is None
    &&& tz.solar_utc_offset == Some((natural_offset_spec(lng) as i32))
}

/// Builds the natural (solar or whole-hour) zone for a longitude.
fn build_natural_timezone(zn: &str, date_str: &str, lng: i64, cc: String, ov: &OffsetOverride) -> (r:
    TimeZone)
    requires
        -LNG_LIMIT <= lng <= LNG_LIMIT,
    ensures
        natural_zone_of(zn@, date_str@, lng as int, cc@, *ov, r),
        r.wf(),
{
    let dt = iso_string_to_datetime(date_str);
    let year = dt.year();
    let is_before_1900 = year < 1900;
    let abbr: &str = if is_before_1900 {
        "SOL"
    } else {
        "LOC"
    };
    proof {
        reveal_strlit("SOL");
        reveal_strlit("LOC");
        assert(abbr@ =~= (if is_before_1900 {
            seq!['S', 'O', 'L']
        } else {
            seq!['L', 'O', 'C']
        }));
    }
    let gmt_offset: i32 = if is_before_1900 {
        natural_tz_offset_from_utc(lng)
    } else {
        natural_hours_offset_from_utc(lng) * 3600
    };
    let ts = dt.timestamp();
    let mut tz_info = TimeZone::new(zn.to_owned(), cc, abbr.to_owned(), ts, gmt_offset, false, ov);
    tz_info.set_natural_offset(lng);
    tz_info
}

/// Resolves a zone at the instant a datetime string denotes: assembles the
/// period in effect from the zone's transition rows, applies the fall-back
/// overlap correction when DST is not enforced, and falls back to a
/// natural zone (when a longitude is known) or nothing.
pub fn match_current_time_zone(
    rows: &Vec<TransitionRow>,
    zn: &str,
    date_str: &str,
    lng_opt: Option<i64>,
    enforce_dst: bool,
    ov: &mut OffsetOverride,
    now: i64,
) -> (r: Option<TimeZone>)
    requires
        rows_wf(rows@),
        ts_in_range(now as int),
        lng_opt is Some ==> -LNG_LIMIT <= lng_opt.unwrap() <= LNG_LIMIT,
    ensures
        ({
            let ts = strict_ts_of(date_str@, now as int);
            match r {
                Some(tz) => {
                    &&& tz.wf()
                    &&& (if has_at_or_before(rows@, ts) {
                        &&& resolved_from_rows(rows@, ts, enforce_dst, *old(ov), tz, *final(ov))
                        &&& tz.utc is Some && tz.utc.unwrap()@ == utc_chars(ts)
                        &&& tz.local_dt is Some && tz.local_dt.unwrap()@ == utc_chars(
                            clamp_ts(ts + tz.gmt_offset),
                        )
                        &&& tz.ref_jd == Some((ts + JD_UNIX_EPOCH_SECS) as i64)
                        &&& tz.week_day is Some && is_weekday_code_of(
                            tz.week_day.unwrap(),
                            clamp_ts(ts + tz.gmt_offset),
                        )
                        &&& (lng_opt is Some ==> tz.solar_utc_offset == Some(
                            (natural_offset_spec(lng_opt.unwrap() as int) as i32),
                        ))
                    } else {
                        &&& lng_opt is Some
                        &&& natural_zone_of(
                            zn@,
                            date_str@,
                            lng_opt.unwrap() as int,
                            match scan_before(rows@, now as int) {
                                Some(i) => rows@[i].country_code@,
                                None => seq!['-'],
                            },
                            *old(ov),
                            tz,
                        )
                        &&& *final(ov) == *old(ov)
                    })
                },
                None => {
                    &&& !has_at_or_before(rows@, ts)
                    &&& lng_opt is None
                    &&& *final(ov) == *old(ov)
                },
            }
        }),
{
    let ts = match_unix_ts_from_fuzzy_datetime(date_str, now);
    if let Some(ci) = nearest_at_or_before(rows, ts) {
        let row = &rows[ci];
        let mut current = TimeZone::new(
            row.zone_name.clone(),
            row.country_code.clone(),
            row.abbreviation.clone(),
            row.time_start,
            row.gmt_offset,
            row.dst,
            ov,
        );
        let ghost base = current.gmt_offset as int;
        if let Some(ni) = nearest_after(rows, ts) {
            let nrow = &rows[ni];
            proof {
                assert(rows@[ci as int].time_start <= ts);
                assert(rows@[ni as int].time_start > ts);
            }
            current.add_end(nrow.time_start, nrow.gmt_offset);
        }
        current.ref_unix = Some(ts);
        let ghost mid = current;
        let apply_correction = current.is_overlap_period() && !enforce_dst;
        proof {
            assert(current.overlap_spec(0) == overlap_here(
                rows@[ci as int].time_start as int,
                current.period.end,
                base,
                current.period.next_gmt_offset,
                ts as int,
            ));
        }
        if apply_correction {
            let ts_tomorrow = ts + 86400;
            if let Some(fi) = nearest_at_or_before(rows, ts_tomorrow) {
                let future_offset = rows[fi].gmt_offset;
                current.gmt_offset = future_offset;
                ov.set(future_offset);
                proof {
                    assert(is_nearest_before(rows@, ts as int + 86400, fi as int));
                }
            }
        }
        current.set_ref_time(ts);
        if let Some(lng) = lng_opt {
            current.set_natural_offset(lng);
        }
        proof {
            assert(is_nearest_before(rows@, ts as int, ci as int));
        }
        Some(current)
    } else {
        if let Some(lng) = lng_opt {
            let cc = match nearest_at_or_before(rows, now) {
                Some(i) => rows[i].country_code.clone(),
                None => {
                    let mut dash = String::new();
                    push_char(&mut dash, '-');
                    proof {
                        assert(dash@ =~= seq!['-']);
                    }
                    dash
                },
            };
            let tz = build_natural_timezone(zn, date_str, lng, cc, ov);
            Some(tz)
        } else {
            None
        }
    }
}

} // verus!
