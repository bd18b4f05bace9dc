//! The local-time reconciler: a wall-clock datetime declared local to a
//! zone becomes a UTC instant, across the three regimes. A normal local
//! time has one mapping; a fall-back overlap has two, and `enforce_dst`
//! picks the earlier (true) or later (false); a spring-forward gap has
//! none, and the mapping under the offset in force before the jump is
//! used, landing at or after the transition.
use vstd::prelude::*;
use crate::datetime::{ts_in_range, utc_chars, unixtime_to_utc, match_unix_ts_from_fuzzy_datetime};
use crate::timezone::{clamp_ts, clamp_ts_exec};
use crate::transitions::{
    TransitionRow, rows_wf, scan_before, scan_after, scan_before_from, scan_after_from,
    nearest_at_or_before, nearest_after, strict_ts_of,
};

verus! {

/// The UTC instant a local wall-clock instant reconciles to, or nothing
/// when the table has no row at or before it.
///
/// With the period `[start1, e1)` in effect at the instant read as UTC:
/// the candidate mapping uses that period's offset; a candidate before
/// the period consults the previous period; one at or past the end
/// consults the next; within the period, a second valid mapping through
/// the previous period marks a fall-back overlap and `enforce_dst`
/// chooses between the two.
pub open spec fn reconcile_spec(rows: Seq<TransitionRow>, ts: int, enforce_dst: bool) -> Option<
    int,
> {
    match scan_before(rows, ts) {
        None => None,
        Some(ci) => {
            let off1 = rows[ci].gmt_offset as int;
            let start1 = rows[ci].time_start as int;
            let cand = ts - off1;
            if cand < start1 {
                match scan_before(rows, start1 - 1) {
                    Some(pi) => Some(ts - rows[pi].gmt_offset),
                    None => Some(cand),
                }
            } else {
                match scan_after(rows, ts) {
                    Some(ni) => {
                        let e1 = rows[ni].time_start as int;
                        if cand >= e1 {
                            let un = ts - rows[ni].gmt_offset;
                            if un >= e1 {
                                Some(un)
                            } else {
                                Some(cand)
                            }
                        } else {
                            Some(within_period_spec(rows, ts, enforce_dst, cand, start1))
                        }
                    },
                    None => Some(within_period_spec(rows, ts, enforce_dst, cand, start1)),
                }
            }
        },
    }
}

/// A candidate inside its own period: unique unless the previous period
/// also maps the wall clock into itself, which is the fall-back overlap.
pub open spec fn within_period_spec(
    rows: Seq<TransitionRow>,
    ts: int,
    enforce_dst: bool,
    cand: int,
    start1: int,
) -> int {
    match scan_before(rows, start1 - 1) {
        Some(pi) => {
            let up = ts - rows[pi].gmt_offset;
            if rows[pi].time_start <= up && up < start1 {
                if enforce_dst {
                    up
                } else {
                    cand
                }
            } else {
                cand
            }
        },
        None => cand,
    }
}

/// Whether the wall-clock instant falls in a fall-back overlap of this
/// zone: its candidate mapping lies inside the period in effect, and the
/// previous period offers a second valid mapping.
pub open spec fn in_fall_back_overlap(rows: Seq<TransitionRow>, ts: int) -> bool {
    match scan_before(rows, ts) {
        None => false,
        Some(ci) => {
            let off1 = rows[ci].gmt_offset as int;
            let start1 = rows[ci].time_start as int;
            let cand = ts - off1;
            &&& cand >= start1
            &&& (match scan_after(rows, ts) {
                Some(ni) => cand < rows[ni].time_start,
                None => true,
            })
            &&& (match scan_before(rows, start1 - 1) {
                Some(pi) => rows[pi].time_start <= ts - rows[pi].gmt_offset && ts
                    - rows[pi].gmt_offset < start1,
                None => false,
            })
        },
    }
}

/// Whether the wall-clock instant falls in a spring-forward gap: mapping
/// by the period in effect overshoots its end, and mapping by the next
/// period's offset lands before that period begins.
pub open spec fn in_spring_forward_gap(rows: Seq<TransitionRow>, ts: int) -> bool {
    match (scan_before(rows, ts), scan_after(rows, ts)) {
        (Some(ci), Some(ni)) => {
            let cand = ts - rows[ci].gmt_offset;
            let e1 = rows[ni].time_start as int;
            cand >= e1 && ts - rows[ni].gmt_offset < e1
        },
        _ => false,
    }
}

/// Reconciles a wall-clock datetime string declared local to the zone of
/// `rows` into a UTC string; unparseable input stands for `now`. When the
/// table has no row the string comes back unchanged.
pub fn fetch_adjusted_date_str(
    rows: &Vec<TransitionRow>,
    date_str: &str,
    enforce_dst: bool,
    now: i64,
) -> (r: String)
    requires
        rows_wf(rows@),
        ts_in_range(now as int),
    ensures
        ({
            let ts = strict_ts_of(date_str@, now as int);
            match reconcile_spec(rows@, ts, enforce_dst) {
                Some(t) => r@ == utc_chars(clamp_ts(t)),
                None => r@ == date_str@,
            }
        }),
{
    let ts = match_unix_ts_from_fuzzy_datetime(date_str, now);
    if let Some(ci) = nearest_at_or_before(rows, ts) {
        proof {
            assert(crate::transitions::row_wf(rows@[ci as int]));
        }
        let off1 = rows[ci].gmt_offset as i64;
        let start1 = rows[ci].time_start;
        let cand = ts - off1;
        let result: i64 = if cand < start1 {
            match nearest_at_or_before(rows, start1 - 1) {
                Some(pi) => ts - rows[pi].gmt_offset as i64,
                None => cand,
            }
        } else {
            match nearest_after(rows, ts) {
                Some(ni) => {
                    let e1 = rows[ni].time_start;
                    if cand >= e1 {
                        let un = ts - rows[ni].gmt_offset as i64;
                        if un >= e1 {
                            un
                        } else {
                            cand
                        }
                    } else {
                        within_period(rows, ts, enforce_dst, cand, start1)
                    }
                },
                None => within_period(rows, ts, enforce_dst, cand, start1),
            }
        };
        unixtime_to_utc(clamp_ts_exec(result))
    } else {
        date_str.to_owned()
    }
}

fn within_period(
    rows: &Vec<TransitionRow>,
    ts: i64,
    enforce_dst: bool,
    cand: i64,
    start1: i64,
) -> (r: i64)
    requires
        rows_wf(rows@),
        ts_in_range(ts as int),
        ts_in_range(start1 as int),
        -4000000000000 <= cand <= 4000000000000,
    ensures
        r == within_period_spec(rows@, ts as int, enforce_dst, cand as int, start1 as int),
{
    match nearest_at_or_before(rows, start1 - 1) {
        Some(pi) => {
            let up = ts - rows[pi].gmt_offset as i64;
            if rows[pi].time_start <= up && up < start1 {
                if enforce_dst {
                    up
                } else {
                    cand
                }
            } else {
                cand
            }
        },
        None => cand,
    }
}

proof fn lemma_scan_before_from_props(rows: Seq<TransitionRow>, ts: int, k: int, best: Option<int>)
    requires
        match best {
            Some(b) => 0 <= b < rows.len() && rows[b].time_start <= ts,
            None => true,
        },
    ensures
        match scan_before_from(rows, ts, k, best) {
            Some(c) => 0 <= c < rows.len() && rows[c].time_start <= ts,
            None => true,
        },
    decreases rows.len() - k,
{
    if 0 <= k < rows.len() {
        let take = rows[k].time_start <= ts && (match best {
            Some(b) => rows[k].time_start > rows[b].time_start,
            None => true,
        });
        lemma_scan_before_from_props(
            rows,
            ts,
            k + 1,
            if take {
                Some(k)
            } else {
                best
            },
        );
    }
}

/// A successful backward scan lands on a row at or before the instant.
pub proof fn lemma_scan_before_props(rows: Seq<TransitionRow>, ts: int)
    ensures
        match scan_before(rows, ts) {
            Some(c) => 0 <= c < rows.len() && rows[c].time_start <= ts,
            None => true,
        },
{
    lemma_scan_before_from_props(rows, ts, 0, None);
}

proof fn lemma_scan_after_from_props(rows: Seq<TransitionRow>, ts: int, k: int, best: Option<int>)
    requires
        match best {
            Some(b) => 0 <= b < rows.len() && rows[b].time_start > ts,
            None => true,
        },
    ensures
        match scan_after_from(rows, ts, k, best) {
            Some(c) => 0 <= c < rows.len() && rows[c].time_start > ts,
            None => true,
        },
    decreases rows.len() - k,
{
    if 0 <= k < rows.len() {
        let take = rows[k].time_start > ts && (match best {
            Some(b) => rows[k].time_start < rows[b].time_start,
            None => true,
        });
        lemma_scan_after_from_props(
            rows,
            ts,
            k + 1,
            if take {
                Some(k)
            } else {
                best
            },
        );
    }
}

/// A successful forward scan lands on a row strictly after the instant.
pub proof fn lemma_scan_after_props(rows: Seq<TransitionRow>, ts: int)
    ensures
        match scan_after(rows, ts) {
            Some(c) => 0 <= c < rows.len() && rows[c].time_start > ts,
            None => true,
        },
{
    lemma_scan_after_from_props(rows, ts, 0, None);
}

/// The string the reconciler emits resolves, under the strict parser, to
/// exactly the reconciled instant: feeding it back into the zone resolver
/// anchors the final lookup at that instant.
pub proof fn lemma_adjusted_string_resolves(rows: Seq<TransitionRow>, ts: int, enforce_dst: bool, now: int)
    requires
        reconcile_spec(rows, ts, enforce_dst) is Some,
    ensures
        ({
            let t = clamp_ts(reconcile_spec(rows, ts, enforce_dst).unwrap());
            strict_ts_of(utc_chars(t), now) == t
        }),
{
    let t = clamp_ts(reconcile_spec(rows, ts, enforce_dst).unwrap());
    crate::datetime::lemma_dt_of_unix(t);
    crate::datetime::lemma_canonical_strict_parse(crate::datetime::dt_of_unix(t));
}

/// In a fall-back overlap, enforcing DST yields a strictly earlier UTC
/// instant than not enforcing it: the chosen mapping through the previous
/// period ends before the period in effect begins.
pub proof fn lemma_dst_policy_monotonic(rows: Seq<TransitionRow>, ts: int)
    requires
        in_fall_back_overlap(rows, ts),
    ensures
        reconcile_spec(rows, ts, true) is Some,
        reconcile_spec(rows, ts, false) is Some,
        reconcile_spec(rows, ts, true).unwrap() < reconcile_spec(rows, ts, false).unwrap(),
{
    lemma_scan_before_props(rows, ts);
    lemma_scan_after_props(rows, ts);
}

/// In a spring-forward gap, the reconciled instant is the mapping under
/// the offset in force before the jump, and lands at or after the
/// transition, whichever DST policy the caller asked for.
pub proof fn lemma_spring_forward_gap(rows: Seq<TransitionRow>, ts: int, enforce_dst: bool)
    requires
        in_spring_forward_gap(rows, ts),
    ensures
        reconcile_spec(rows, ts, enforce_dst) == Some(
            ts - rows[scan_before(rows, ts).unwrap()].gmt_offset,
        ),
        reconcile_spec(rows, ts, enforce_dst).unwrap() >= rows[scan_after(
            rows,
            ts,
        ).unwrap()].time_start,
{
    lemma_scan_before_props(rows, ts);
    lemma_scan_after_props(rows, ts);
}

} // verus!
