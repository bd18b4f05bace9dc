//! Proleptic Gregorian calendar arithmetic on whole days.
//!
//! Dates are modelled by a rata-die count: the number of days since
//! 0001-01-01. The closed-form day count `days_before_year` is related to
//! the per-year sum by `lemma_days_before_year_step`, which is what lets a
//! year-by-year scan recover the civil date from a day number.
use vstd::prelude::*;
use vstd::arithmetic::div_mod::*;

verus! {

/// Rata-die day number of the Unix epoch 1970-01-01.
pub const UNIX_EPOCH_DAYS: u64 = 719162;

/// Largest supported year.
pub const MAX_YEAR: u64 = 9999;

/// Day after the last supported day, 9999-12-31 (rata die).
pub const DAY_LIMIT: u64 = 3652059;

pub open spec fn is_leap_year(y: int) -> bool {
    y % 4 == 0 && (y % 100 != 0 || y % 400 == 0)
}

pub open spec fn days_in_year(y: int) -> int {
    if is_leap_year(y) {
        366
    } else {
        365
    }
}

pub open spec fn days_in_month_of(y: int, m: int) -> int {
    if m == 2 {
        if is_leap_year(y) {
            29
        } else {
            28
        }
    } else if m == 4 || m == 6 || m == 9 || m == 11 {
        30
    } else {
        31
    }
}

/// Days from 0001-01-01 up to the start of year `y`, in closed form.
pub open spec fn days_before_year(y: int) -> int {
    365 * (y - 1) + (y - 1) / 4 - (y - 1) / 100 + (y - 1) / 400
}

/// Days from the start of year `y` up to the start of month `m`.
pub open spec fn days_before_month(y: int, m: int) -> int
    decreases m,
{
    if m <= 1 {
        0
    } else {
        days_before_month(y, m - 1) + days_in_month_of(y, m - 1)
    }
}

pub open spec fn valid_ymd(y: int, m: int, d: int) -> bool {
    1 <= y <= MAX_YEAR && 1 <= m <= 12 && 1 <= d <= days_in_month_of(y, m)
}

/// Rata-die day number of the civil date (y, m, d): days since 0001-01-01.
pub open spec fn rata_die(y: int, m: int, d: int) -> int {
    days_before_year(y) + days_before_month(y, m) + d - 1
}

/// How a quotient moves when the dividend steps down by one.
proof fn lemma_div_step(a: int, b: int)
    requires
        b > 0,
    ensures
        a / b - (a - 1) / b == if a % b == 0 {
            1int
        } else {
            0int
        },
{
    let q = a / b;
    let r = a % b;
    lemma_fundamental_div_mod(a, b);
    if r == 0 {
        assert((q - 1) * b + (b - 1) == b * q - 1) by (nonlinear_arith);
        lemma_fundamental_div_mod_converse(a - 1, b, q - 1, b - 1);
    } else {
        assert(q * b == b * q) by (nonlinear_arith);
        lemma_fundamental_div_mod_converse(a - 1, b, q, r - 1);
    }
}

/// A multiple of 400 is a multiple of 100, and one of 100 a multiple of 4.
proof fn lemma_mod_chain(y: int)
    ensures
        y % 400 == 0 ==> y % 100 == 0,
        y % 100 == 0 ==> y % 4 == 0,
{
    if y % 400 == 0 {
        lemma_fundamental_div_mod(y, 400);
        lemma_mod_multiples_basic(4 * (y / 400), 100);
    }
    if y % 100 == 0 {
        lemma_fundamental_div_mod(y, 100);
        lemma_mod_multiples_basic(25 * (y / 100), 4);
    }
}

/// The closed-form day count grows by exactly the length of each year.
pub proof fn lemma_days_before_year_step(y: int)
    requires
        y >= 1,
    ensures
        days_before_year(y + 1) == days_before_year(y) + days_in_year(y),
{
    lemma_div_step(y, 4);
    lemma_div_step(y, 100);
    lemma_div_step(y, 400);
    lemma_mod_chain(y);
}

/// The month offsets within a year sum to that year's length.
pub proof fn lemma_months_fill_year(y: int)
    ensures
        days_before_month(y, 13) == days_in_year(y),
{
    reveal_with_fuel(days_before_month, 13);
}

/// `days_before_year` is non-negative and increasing over supported years.
pub proof fn lemma_days_before_year_bounds(y: int)
    requires
        1 <= y <= MAX_YEAR + 1,
    ensures
        0 <= days_before_year(y),
        days_before_year(y) <= days_before_year(MAX_YEAR as int + 1),
        days_before_year(MAX_YEAR as int + 1) == DAY_LIMIT,
    decreases MAX_YEAR + 1 - y,
{
    lemma_div_pos_is_pos(y - 1, 4);
    lemma_div_is_ordered_by_denominator(y - 1, 4, 100);
    lemma_div_pos_is_pos(y - 1, 400);
    if y <= MAX_YEAR {
        lemma_days_before_year_step(y);
        lemma_days_before_year_bounds(y + 1);
    }
}

/// Exec counterpart of `days_before_year`.
pub fn days_before_year_exec(y: u64) -> (r: u64)
    requires
        1 <= y <= MAX_YEAR,
    ensures
        r == days_before_year(y as int),
{
    proof {
        lemma_days_before_year_bounds(y as int);
        lemma_div_pos_is_pos((y - 1) as int, 4);
        lemma_div_is_ordered_by_denominator((y - 1) as int, 4, 100);
        lemma_div_pos_is_pos((y - 1) as int, 400);
        lemma_div_nonincreasing((y - 1) as int, 4);
        lemma_div_nonincreasing((y - 1) as int, 400);
    }
    365 * (y - 1) + (y - 1) / 4 - (y - 1) / 100 + (y - 1) / 400
}

pub fn is_leap_year_exec(y: u64) -> (r: bool)
    ensures
        r == is_leap_year(y as int),
{
    y % 4 == 0 && (y % 100 != 0 || y % 400 == 0)
}

pub fn days_in_month_exec(y: u64, m: u64) -> (r: u64)
    ensures
        r == days_in_month_of(y as int, m as int),
        28 <= r <= 31,
{
    if m == 2 {
        if is_leap_year_exec(y) {
            29
        } else {
            28
        }
    } else if m == 4 || m == 6 || m == 9 || m == 11 {
        30
    } else {
        31
    }
}

/// Rata-die day number of a civil date.
pub fn days_from_civil(y: u64, m: u64, d: u64) -> (r: u64)
    requires
        valid_ymd(y as int, m as int, d as int),
    ensures
        r == rata_die(y as int, m as int, d as int),
        r < DAY_LIMIT,
{
    proof {
        lemma_days_before_year_bounds(y as int);
        if y < MAX_YEAR {
            lemma_days_before_year_bounds(y as int + 1);
            lemma_days_before_year_step(y as int);
        }
        lemma_months_fill_year(y as int);
    }
    let before_year = days_before_year_exec(y);
    let mut before_month: u64 = 0;
    let mut mm: u64 = 1;
    while mm < m
        invariant
            1 <= mm <= m <= 12,
            before_month == days_before_month(y as int, mm as int),
            before_month <= 337,
        decreases m - mm,
    {
        proof {
            reveal_with_fuel(days_before_month, 13);
        }
        before_month = before_month + days_in_month_exec(y, mm);
        mm = mm + 1;
    }
    proof {
        lemma_days_before_month_le_year(y as int, m as int);
    }
    before_year + before_month + d - 1
}

/// Month offsets stay below the year's length while the month is in range.
pub proof fn lemma_days_before_month_le_year(y: int, m: int)
    requires
        1 <= m <= 12,
    ensures
        days_before_month(y, m) + days_in_month_of(y, m) <= days_in_year(y),
{
    lemma_months_fill_year(y);
    lemma_days_before_month_mono(y, m + 1, 13);
}

pub proof fn lemma_days_before_month_mono(y: int, m1: int, m2: int)
    requires
        m1 <= m2,
    ensures
        days_before_month(y, m1) <= days_before_month(y, m2),
    decreases m2 - m1,
{
    if m1 < m2 {
        lemma_days_before_month_mono(y, m1, m2 - 1);
    }
}

/// Year and remaining day offset reached by scanning whole years upward.
pub open spec fn year_scan(y: int, rem: int) -> (int, int)
    decreases rem,
{
    if rem < days_in_year(y) {
        (y, rem)
    } else {
        year_scan(y + 1, rem - days_in_year(y))
    }
}

/// Month and day offset reached by scanning whole months upward.
pub open spec fn month_scan(y: int, m: int, rem: int) -> (int, int)
    decreases rem,
{
    if rem < days_in_month_of(y, m) {
        (m, rem)
    } else {
        month_scan(y, m + 1, rem - days_in_month_of(y, m))
    }
}

/// The civil date of a rata-die day number, as a spec value.
pub open spec fn civil_of_day(day: int) -> (int, int, int) {
    let (y, yrem) = year_scan(1, day);
    let (m, mrem) = month_scan(y, 1, yrem);
    (y, m, mrem + 1)
}

pub proof fn lemma_year_scan(y: int, rem: int)
    requires
        1 <= y <= MAX_YEAR,
        0 <= rem,
        days_before_year(y) + rem < DAY_LIMIT,
    ensures
        ({
            let (ry, rrem) = year_scan(y, rem);
            &&& 1 <= ry <= MAX_YEAR
            &&& 0 <= rrem < days_in_year(ry)
            &&& days_before_year(ry) + rrem == days_before_year(y) + rem
        }),
    decreases rem,
{
    lemma_days_before_year_bounds(y);
    if rem >= days_in_year(y) {
        lemma_days_before_year_step(y);
        assert(y + 1 <= MAX_YEAR) by {
            if y == MAX_YEAR {
                lemma_days_before_year_bounds(y + 1);
            }
        };
        lemma_year_scan(y + 1, rem - days_in_year(y));
    }
}

pub proof fn lemma_month_scan(y: int, m: int, rem: int)
    requires
        1 <= m <= 12,
        0 <= rem,
        days_before_month(y, m) + rem < days_in_year(y),
    ensures
        ({
            let (rm, rrem) = month_scan(y, m, rem);
            &&& 1 <= rm <= 12
            &&& 0 <= rrem < days_in_month_of(y, rm)
            &&& days_before_month(y, rm) + rrem == days_before_month(y, m) + rem
        }),
    decreases rem,
{
    if rem >= days_in_month_of(y, m) {
        assert(m + 1 <= 12) by {
            if m == 12 {
                lemma_months_fill_year(y);
                reveal_with_fuel(days_before_month, 13);
            }
        };
        reveal_with_fuel(days_before_month, 13);
        lemma_month_scan(y, m + 1, rem - days_in_month_of(y, m));
    }
}

/// `civil_of_day` inverts `rata_die` on the supported day range.
pub proof fn lemma_civil_of_day(day: int)
    requires
        0 <= day < DAY_LIMIT,
    ensures
        ({
            let (y, m, d) = civil_of_day(day);
            &&& valid_ymd(y, m, d)
            &&& rata_die(y, m, d) == day
        }),
{
    lemma_days_before_year_bounds(1);
    lemma_year_scan(1, day);
    let (ry, yrem) = year_scan(1, day);
    lemma_month_scan(ry, 1, yrem);
}

/// Recovers the civil date from a rata-die day number.
pub fn civil_from_days(days: u64) -> (r: (u64, u64, u64))
    requires
        days < DAY_LIMIT,
    ensures
        valid_ymd(r.0 as int, r.1 as int, r.2 as int),
        rata_die(r.0 as int, r.1 as int, r.2 as int) == days,
        civil_of_day(days as int) == (r.0 as int, r.1 as int, r.2 as int),
{
    let mut y: u64 = 1;
    let mut rem: u64 = days;
    proof {
        lemma_days_before_year_bounds(1);
    }
    let mut year_len = if is_leap_year_exec(y) {
        366u64
    } else {
        365u64
    };
    while rem >= year_len
        invariant
            1 <= y <= MAX_YEAR,
            year_len == days_in_year(y as int),
            rem == days - days_before_year(y as int),
            days < DAY_LIMIT,
            year_scan(1, days as int) == year_scan(y as int, rem as int),
        decreases rem,
    {
        proof {
            lemma_days_before_year_step(y as int);
            lemma_days_before_year_bounds(y as int);
            if y as int + 1 <= MAX_YEAR as int + 1 {
                lemma_days_before_year_bounds(y as int + 1);
            }
            assert(y < MAX_YEAR) by {
                if y == MAX_YEAR {
                    lemma_months_fill_year(y as int);
                }
            };
        }
        rem = rem - year_len;
        y = y + 1;
        year_len = if is_leap_year_exec(y) {
            366u64
        } else {
            365u64
        };
    }
    let ghost yrem = rem as int;
    proof {
        assert(year_scan(y as int, rem as int) == (y as int, rem as int));
    }
    let mut m: u64 = 1;
    let mut month_len = days_in_month_exec(y, m);
    proof {
        lemma_months_fill_year(y as int);
    }
    while rem >= month_len
        invariant
            1 <= m <= 12,
            month_len == days_in_month_of(y as int, m as int),
            rem == days - days_before_year(y as int) - days_before_month(y as int, m as int),
            rem < days_in_year(y as int) - days_before_month(y as int, m as int),
            yrem == days - days_before_year(y as int),
            month_scan(y as int, 1, yrem) == month_scan(y as int, m as int, rem as int),
        decreases month_len + days_in_year(y as int) - days_before_month(y as int, m as int),
    {
        proof {
            assert(m < 12) by {
                if m == 12 {
                    lemma_months_fill_year(y as int);
                    reveal_with_fuel(days_before_month, 13);
                }
            };
            reveal_with_fuel(days_before_month, 13);
            lemma_days_before_month_le_year(y as int, (m + 1) as int);
        }
        rem = rem - month_len;
        m = m + 1;
        month_len = days_in_month_exec(y, m);
    }
    proof {
        assert(month_scan(y as int, m as int, rem as int) == (m as int, rem as int));
    }
    (y, m, rem + 1)
}

} // verus!
