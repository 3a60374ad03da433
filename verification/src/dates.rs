//! Calendar dates from a count of days.
use vstd::prelude::*;

use crate::number::{padded, to_padded};

verus! {

/// The year has a 29th of February.
pub open spec fn is_leap(y: int) -> bool {
    y % 4 == 0 && (y % 100 != 0 || y % 400 == 0)
}

pub open spec fn days_in_month(y: int, m: int) -> int {
    if m == 2 {
        if is_leap(y) {
            29
        } else {
            28
        }
    } else if m == 4 || m == 6 || m == 9 || m == 11 {
        30
    } else {
        31
    }
}

/// The date exists.
pub open spec fn valid_date(y: int, m: int, d: int) -> bool {
    1 <= m <= 12 && 1 <= d <= days_in_month(y, m)
}

/// How many days of the year come before month `m`.
pub open spec fn days_before_month(y: int, m: int) -> int
    decreases m,
{
    if m <= 1 {
        0
    } else {
        days_before_month(y, m - 1) + days_in_month(y, m - 1)
    }
}

/// How many leap years there are from year 1 up to `y`.
pub open spec fn leaps_through(y: int) -> int {
    y / 4 - y / 100 + y / 400
}

/// How many days there are from the first day of 1970 to the first day of `y`.
pub open spec fn days_before_year(y: int) -> int {
    365 * (y - 1970) + leaps_through(y - 1) - leaps_through(1969)
}

/// How many days there are from the first day of 1970 to a date.
pub open spec fn day_number(y: int, m: int, d: int) -> int {
    days_before_year(y) + days_before_month(y, m) + d - 1
}

/// Each year is as long as its months together: 366 days where it is a leap
/// year and 365 days where it is not.
pub proof fn law_years_follow_each_other(y: int)
    ensures
        days_before_year(y + 1) == days_before_year(y) + (if is_leap(y) {
            366int
        } else {
            365
        }),
        days_before_year(y + 1) == days_before_year(y) + days_before_month(y, 13),
        days_before_year(1970) == 0,
{
    lemma_leaps(y);
    reveal_with_fuel(days_before_month, 14);
}

proof fn lemma_leaps(y: int)
    ensures
        leaps_through(y) == leaps_through(y - 1) + (if is_leap(y) {
            1int
        } else {
            0
        }),
{
}

/// Day `doy` of the year that starts in March falls into month `mp`, counted
/// from March.
spec fn march_month(doy: int) -> int {
    (5 * doy + 2) / 153
}

/// The first day of month `mp`, counted from March.
spec fn march_start(mp: int) -> int {
    (153 * mp + 2) / 5
}

proof fn lemma_march(doy: int)
    requires
        0 <= doy <= 365,
    ensures
        0 <= march_month(doy) <= 11,
        march_start(march_month(doy)) <= doy,
        march_month(doy) < 11 ==> doy < march_start(march_month(doy) + 1),
{
    let mp = march_month(doy);
    assert(153 * mp <= 5 * doy + 2 < 153 * mp + 153);
}

proof fn lemma_month_starts(y: int)
    ensures
        days_before_month(y, 1) == 0,
        days_before_month(y, 2) == 31,
        forall|mp: int|
            0 <= mp <= 9 ==> #[trigger] march_start(mp) + 59 + (if is_leap(y) {
                1int
            } else {
                0
            }) == days_before_month(y, mp + 3),
        forall|mp: int|
            0 <= mp <= 9 ==> #[trigger] march_start(mp) + days_in_month(y, mp + 3) == march_start(
                mp + 1,
            ),
        march_start(10) == 306,
        march_start(11) == 337,
{
    reveal_with_fuel(days_before_month, 13);
    assert forall|mp: int| 0 <= mp <= 9 implies #[trigger] march_start(mp) + 59 + (if is_leap(y) {
        1int
    } else {
        0
    }) == days_before_month(y, mp + 3) by {
        assert(mp == 0 || mp == 1 || mp == 2 || mp == 3 || mp == 4 || mp == 5 || mp == 6 || mp == 7
            || mp == 8 || mp == 9);
    }
    assert forall|mp: int| 0 <= mp <= 9 implies #[trigger] march_start(mp) + days_in_month(
        y,
        mp + 3,
    ) == march_start(mp + 1) by {
        assert(mp == 0 || mp == 1 || mp == 2 || mp == 3 || mp == 4 || mp == 5 || mp == 6 || mp == 7
            || mp == 8 || mp == 9);
    }
}

/// A day of an era of 400 years, split into the year of the era and the day of
/// that year, where years start in March.
proof fn lemma_era_day(doe: int, century: int, cycle: int, year: int, doy: int)
    requires
        0 <= doe < 146_097,
        century == if doe / 36_524 > 3 {
            3
        } else {
            doe / 36_524
        },
        cycle == (doe - century * 36_524) / 1_461,
        ({
            let rest = doe - century * 36_524 - cycle * 1_461;
            &&& year == if rest / 365 > 3 {
                3
            } else {
                rest / 365
            }
            &&& doy == rest - year * 365
        }),
    ensures
        0 <= century <= 3,
        0 <= cycle <= 24,
        0 <= year <= 3,
        0 <= doy <= 365,
        doy == 365 ==> year == 3 && (cycle == 24 ==> century == 3),
        doe == 36_524 * century + 1_461 * cycle + 365 * year + doy,
{
    let in_century = doe - century * 36_524;
    assert(0 <= in_century <= 36_524);
    assert(in_century == 36_524 ==> century == 3);
    let rest = in_century - cycle * 1_461;
    assert(0 <= rest < 1_461);
}

proof fn lemma_year_of_era(era: int, century: int, cycle: int, year: int)
    requires
        0 <= century <= 3,
        0 <= cycle <= 24,
        0 <= year <= 3,
    ensures
        ({
            let n = era * 400 + century * 100 + cycle * 4 + year;
            &&& n / 4 == era * 100 + century * 25 + cycle
            &&& n / 100 == era * 4 + century
            &&& n / 400 == era
        }),
{
}

proof fn lemma_leap_day(era: int, century: int, cycle: int)
    requires
        0 <= century <= 3,
        0 <= cycle <= 24,
        cycle == 24 ==> century == 3,
    ensures
        is_leap(era * 400 + century * 100 + cycle * 4 + 4),
{
    let n = era * 400 + century * 100 + cycle * 4 + 4;
    assert(n % 4 == 0);
    if n % 100 == 0 {
        assert(cycle == 24);
        assert(n == (era + 1) * 400);
    }
}

/// Day `doy` of the year that starts in March of year `n` has a date.
proof fn lemma_march_date(n: int, doy: int, mp: int)
    requires
        0 <= doy <= 365,
        mp == march_month(doy),
        doy == 365 ==> is_leap(n + 1),
    ensures
        ({
            let d = doy - march_start(mp) + 1;
            let days = 365 * n + leaps_through(n) + doy - 719_468;
            if mp < 10 {
                valid_date(n, mp + 3, d) && day_number(n, mp + 3, d) == days
            } else {
                valid_date(n + 1, mp - 9, d) && day_number(n + 1, mp - 9, d) == days
            }
        }),
{
    lemma_march(doy);
    lemma_month_starts(n);
    lemma_month_starts(n + 1);
    lemma_leaps(n);
    if mp < 10 {
        assert(march_start(mp) + days_in_month(n, mp + 3) == march_start(mp + 1));
        assert(march_start(mp) + 59 + (if is_leap(n) {
            1int
        } else {
            0
        }) == days_before_month(n, mp + 3));
    }
}

/// The era of 400 years that a day falls into, and the day of that era.
fn era_of(days: i64) -> (r: (i64, u64))
    ensures
        days == r.0 * 146_097 + r.1,
        r.1 < 146_097,
        -0x4000_0000_0000 <= r.0 <= 0x4000_0000_0000,
{
    if days >= 0 {
        let n: u64 = days as u64;
        ((n / 146_097) as i64, n % 146_097)
    } else {
        let n: u64 = (-(days + 1)) as u64;
        (-((n / 146_097) as i64) - 1, 146_096 - n % 146_097)
    }
}

/// The century, the cycle of four years, the year and the day that a day of an
/// era falls into, where years start in March.
fn split_era(doe: u64) -> (r: (u64, u64, u64, u64))
    requires
        doe < 146_097,
    ensures
        r.0 <= 3,
        r.1 <= 24,
        r.2 <= 3,
        r.3 <= 365,
        r.3 == 365 ==> r.2 == 3 && (r.1 == 24 ==> r.0 == 3),
        doe == 36_524 * r.0 + 1_461 * r.1 + 365 * r.2 + r.3,
{
    let century: u64 = if doe / 36_524 > 3 {
        3
    } else {
        doe / 36_524
    };
    let in_century: u64 = doe - century * 36_524;
    let cycle: u64 = in_century / 1_461;
    let in_cycle: u64 = in_century - cycle * 1_461;
    let year: u64 = if in_cycle / 365 > 3 {
        3
    } else {
        in_cycle / 365
    };
    let doy: u64 = in_cycle - year * 365;
    proof {
        lemma_era_day(doe as int, century as int, cycle as int, year as int, doy as int);
    }
    (century, cycle, year, doy)
}

proof fn lemma_days(era: int, century: int, cycle: int, year: int, doy: int)
    requires
        0 <= century <= 3,
        0 <= cycle <= 24,
        0 <= year <= 3,
    ensures
        ({
            let y = era * 400 + century * 100 + cycle * 4 + year;
            era * 146_097 + 36_524 * century + 1_461 * cycle + 365 * year + doy == 365 * y
                + leaps_through(y) + doy
        }),
{
    lemma_year_of_era(era, century, cycle, year);
}

/// The date of the day that is `z` days after the first day of 1970.
pub fn civil_from_days(z: i64) -> (r: (i64, u32, u32))
    requires
        z <= i64::MAX - 719_468,
    ensures
        valid_date(r.0 as int, r.1 as int, r.2 as int),
        day_number(r.0 as int, r.1 as int, r.2 as int) == z,
{
    let (era, doe) = era_of(z + 719_468);
    let (century, cycle, year, doy) = split_era(doe);
    let yoe: u64 = century * 100 + cycle * 4 + year;
    let y: i64 = yoe as i64 + era * 400;
    let mp: u64 = (5 * doy + 2) / 153;
    proof {
        lemma_days(era as int, century as int, cycle as int, year as int, doy as int);
        if doy == 365 {
            lemma_leap_day(era as int, century as int, cycle as int);
        }
        lemma_march(doy as int);
        lemma_march_date(y as int, doy as int, mp as int);
    }
    let d: u32 = (doy - (153 * mp + 2) / 5 + 1) as u32;
    if mp < 10 {
        (y, (mp + 3) as u32, d)
    } else {
        (y + 1, (mp - 9) as u32, d)
    }
}

/// A date with its year in four digits and month and day in two.
pub open spec fn date_text(y: nat, m: nat, d: nat) -> Seq<char> {
    padded(y, 4) + "-"@ + padded(m, 2) + "-"@ + padded(d, 2)
}

/// The date of a moment, given in seconds after the start of 1970.
pub fn utc_date(secs: u64) -> (r: String)
    ensures
        exists|y: nat, m: nat, d: nat|
            {
                &&& valid_date(y as int, m as int, d as int)
                &&& day_number(y as int, m as int, d as int) == secs / 86_400
                &&& r@ == #[trigger] date_text(y, m, d)
            },
{
    let (y, m, d) = civil_from_days((secs / 86_400) as i64);
    proof {
        if y < 1970 {
            reveal_with_fuel(days_before_month, 13);
            lemma_before_1970(y as int, m as int, d as int);
        }
    }
    let mut s = to_padded(y as u64, 4);
    s.append("-");
    s.append(to_padded(m as u64, 2).as_str());
    s.append("-");
    s.append(to_padded(d as u64, 2).as_str());
    assert(s@ == date_text(y as nat, m as nat, d as nat));
    s
}

proof fn lemma_before_1970(y: int, m: int, d: int)
    requires
        y < 1970,
        valid_date(y, m, d),
    ensures
        day_number(y, m, d) < 0,
{
    reveal_with_fuel(days_before_month, 14);
    law_years_follow_each_other(y);
    lemma_years_grow(y + 1, 1970);
}

proof fn lemma_years_grow(a: int, b: int)
    requires
        a <= b,
    ensures
        days_before_year(a) <= days_before_year(b),
    decreases b - a,
{
    if a < b {
        law_years_follow_each_other(b - 1);
        lemma_years_grow(a, b - 1);
    }
}

proof fn lemma_months_grow(y: int, a: int, b: int)
    requires
        1 <= a < b <= 13,
    ensures
        days_before_month(y, a) + days_in_month(y, a) <= days_before_month(y, b),
    decreases b - a,
{
    if a + 1 < b {
        lemma_months_grow(y, a, b - 1);
    }
}

proof fn lemma_year_holds_its_days(y: int, m: int, d: int)
    requires
        valid_date(y, m, d),
    ensures
        days_before_year(y) <= day_number(y, m, d) < days_before_year(y + 1),
{
    law_years_follow_each_other(y);
    lemma_months_grow(y, m, 13);
    if m > 1 {
        lemma_months_grow(y, 1, m);
    }
}

/// Two dates of the same day are the same date.
pub proof fn law_days_have_one_date(y: int, m: int, d: int, y2: int, m2: int, d2: int)
    requires
        valid_date(y, m, d),
        valid_date(y2, m2, d2),
        day_number(y, m, d) == day_number(y2, m2, d2),
    ensures
        y == y2 && m == m2 && d == d2,
{
    lemma_year_holds_its_days(y, m, d);
    lemma_year_holds_its_days(y2, m2, d2);
    if y < y2 {
        lemma_years_grow(y + 1, y2);
    } else if y2 < y {
        lemma_years_grow(y2 + 1, y);
    } else if m < m2 {
        lemma_months_grow(y, m, m2);
    } else if m2 < m {
        lemma_months_grow(y, m2, m);
    }
}

} // verus!
