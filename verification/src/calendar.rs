//! Dates of the Gregorian calendar, and timestamps in RFC 3339.

use crate::text;
use vstd::prelude::*;

verus! {

/// A leap year: divisible by 4, and by 400 where it is divisible by 100.
pub open spec fn is_leap(year: int) -> bool {
    year % 4 == 0 && (year % 100 != 0 || year % 400 == 0)
}

/// The number of days in a month.
pub open spec fn month_length(year: int, month: int) -> int {
    if month == 2 {
        if is_leap(year) {
            29
        } else {
            28
        }
    } else if month == 4 || month == 6 || month == 9 || month == 11 {
        30
    } else {
        31
    }
}

/// A date that exists.
pub open spec fn is_date(date: (int, int, int)) -> bool {
    1 <= date.1 <= 12 && 1 <= date.2 <= month_length(date.0, date.1)
}

/// How many days of a year come before a month.
pub open spec fn days_before_month(year: int, month: int) -> int
    decreases month,
{
    if month <= 1 {
        0
    } else {
        days_before_month(year, month - 1) + month_length(year, month - 1)
    }
}

/// How many leap days come before a year, counted from the year 1.
pub open spec fn leap_days_before(year: int) -> int {
    (year - 1) / 4 - (year - 1) / 100 + (year - 1) / 400
}

/// The number of a day, counted from the first of January 1970.
pub open spec fn day_number(date: (int, int, int)) -> int {
    365 * (date.0 - 1970) + (leap_days_before(date.0) - leap_days_before(1970))
        + days_before_month(date.0, date.1) + date.2 - 1
}

proof fn month_offsets(year: int)
    ensures
        days_before_month(year, 1) == 0,
        days_before_month(year, 2) == 31,
        days_before_month(year, 3) == 59 + (if is_leap(year) {
            1int
        } else {
            0int
        }),
        forall|m: int|
            3 <= m <= 12 ==> #[trigger] days_before_month(year, m) == days_before_month(year, 3)
                + (153 * (m - 3) + 2) / 5,
{
    reveal_with_fuel(days_before_month, 13);
    assert forall|m: int| 3 <= m <= 12 implies #[trigger] days_before_month(year, m)
        == days_before_month(year, 3) + (153 * (m - 3) + 2) / 5 by {
        if m == 3 {
        } else if m == 4 {
        } else if m == 5 {
        } else if m == 6 {
        } else if m == 7 {
        } else if m == 8 {
        } else if m == 9 {
        } else if m == 10 {
        } else if m == 11 {
        } else {
            assert(m == 12);
        }
    }
}

/// A year counts one leap day more than the year before it exactly where that
/// one is a leap year.
proof fn leap_days_step(year: int)
    ensures
        leap_days_before(year + 1) == leap_days_before(year) + (if is_leap(year) {
            1int
        } else {
            0int
        }),
{
}

/// The day of a four-hundred-year cycle that begins on the first of March falls
/// in this year of the cycle.
proof fn year_of_era(doe: u32)
    by (bit_vector)
    requires
        doe < 146097,
    ensures
        ({
            let yoe = (doe - doe / 1460 + doe / 36524 - doe / 146096) / 365;
            let start = 365 * yoe + yoe / 4 - yoe / 100;
            0 <= yoe <= 399 && start <= doe && doe - start <= 365 && (doe - start == 365 ==> ((yoe
                + 1) % 4 == 0 && ((yoe + 1) % 100 != 0 || yoe == 399)))
        }),
{
}

/// The month and day of a day of the year that begins on the first of March.
proof fn month_of_doy(doy: int)
    requires
        0 <= doy <= 365,
    ensures
        ({
            let mp = (5 * doy + 2) / 153;
            let first = (153 * mp + 2) / 5;
            &&& 0 <= mp <= 11
            &&& first <= doy
            &&& mp < 11 ==> doy < (153 * (mp + 1) + 2) / 5
        }),
{
}

#[verifier::spinoff_prover]
proof fn era_leaves_rests(y: int, era: int)
    requires
        1 <= y <= 400,
    ensures
        (y + 400 * era) % 4 == y % 4,
        (y + 400 * era) % 100 == y % 100,
        (y + 400 * era) % 400 == 0 <==> y == 400,
{
}

#[verifier::spinoff_prover]
proof fn era_divides(yoe: int, era: int)
    requires
        0 <= yoe <= 399,
    ensures
        (yoe + 400 * era) / 4 == yoe / 4 + 100 * era,
        (yoe + 400 * era) / 100 == yoe / 100 + 4 * era,
        (yoe + 400 * era) / 400 == era,
{
}

#[verifier::spinoff_prover]
proof fn era_shifts(yoe: int, era: int)
    requires
        0 <= yoe <= 399,
    ensures
        (yoe + 400 * era) / 4 == yoe / 4 + 100 * era,
        (yoe + 400 * era) / 100 == yoe / 100 + 4 * era,
        (yoe + 400 * era) / 400 == era,
        is_leap(yoe + 1 + 400 * era) <==> (yoe + 1) % 4 == 0 && ((yoe + 1) % 100 != 0 || yoe
            == 399),
{
    era_divides(yoe, era);
    era_leaves_rests(yoe + 1, era);
}

/// The date that a year of the cycle and a day of that year come to.
pub open spec fn date_in_era(era: int, yoe: int, doy: int) -> (int, int, int) {
    let mp = (5 * doy + 2) / 153;
    let day = doy - (153 * mp + 2) / 5 + 1;
    if mp < 10 {
        (yoe + 400 * era, mp + 3, day)
    } else {
        (yoe + 400 * era + 1, mp - 9, day)
    }
}

proof fn date_in_era_is_right(days: int, era: int, yoe: int, doy: int)
    requires
        0 <= yoe <= 399,
        0 <= doy <= 365,
        doy == 365 ==> (yoe + 1) % 4 == 0 && ((yoe + 1) % 100 != 0 || yoe == 399),
        days + 719_468 == 146_097 * era + (365 * yoe + yoe / 4 - yoe / 100) + doy,
    ensures
        is_date(date_in_era(era, yoe, doy)),
        day_number(date_in_era(era, yoe, doy)) == days,
{
    let mp = (5 * doy + 2) / 153;
    let day = doy - (153 * mp + 2) / 5 + 1;
    let y = yoe + 400 * era;
    month_of_doy(doy);
    era_shifts(yoe, era);
    assert(leap_days_before(1970) == 477);
    assert(leap_days_before(y + 1) == yoe / 4 - yoe / 100 + 97 * era);
    leap_days_step(y);
    if mp < 10 {
        month_offsets(y);
        assert(days_before_month(y, mp + 3) == days_before_month(y, 3) + (153 * mp + 2) / 5);
        assert(1 <= day <= month_length(y, mp + 3)) by {
            if mp == 0 {
            } else if mp == 1 {
            } else if mp == 2 {
            } else if mp == 3 {
            } else if mp == 4 {
            } else if mp == 5 {
            } else if mp == 6 {
            } else if mp == 7 {
            } else if mp == 8 {
            } else {
                assert(mp == 9);
            }
        }
    } else {
        month_offsets(y + 1);
        if mp == 10 {
            assert(1 <= day <= 31);
        } else {
            assert(mp == 11);
            assert(day == doy - 336);
        }
    }
}

/// The date of a day, given its number. The date exists, and no other has that
/// number.
pub fn civil_from_days(days: i64) -> (r: (i64, i64, i64))
    requires
        days <= i64::MAX - 719_468,
    ensures
        is_date((r.0 as int, r.1 as int, r.2 as int)),
        day_number((r.0 as int, r.1 as int, r.2 as int)) == days,
        r.0 > i64::MIN,
{
    let z: i64 = days + 719_468;
    let (era, doe): (i64, i64) = era_of(z);
    let (yoe, doy): (i64, i64) = year_in_era(doe);
    let mp: i64 = (5 * doy + 2) / 153;
    proof {
        month_of_doy(doy as int);
        date_in_era_is_right(days as int, era as int, yoe as int, doy as int);
    }
    let day: i64 = doy - (153 * mp + 2) / 5 + 1;
    let month: i64 = if mp < 10 {
        mp + 3
    } else {
        mp - 9
    };
    let late: i64 = if month <= 2 {
        1
    } else {
        0
    };
    let year: i64 = yoe + era * 400 + late;
    assert((year as int, month as int, day as int) == date_in_era(
        era as int,
        yoe as int,
        doy as int,
    ));
    (year, month, day)
}

fn era_of(z: i64) -> (r: (i64, i64))
    ensures
        z == 146_097 * r.0 + r.1,
        0 <= r.1 < 146_097,
        -100_000_000_000_000 <= r.0 <= 100_000_000_000_000,
{
    let era: i64 = match z.checked_div_euclid(146_097) {
        Some(q) => q,
        None => 0,
    };
    let doe: i64 = match z.checked_rem_euclid(146_097) {
        Some(r) => r,
        None => 0,
    };
    (era, doe)
}

fn year_in_era(doe: i64) -> (r: (i64, i64))
    requires
        0 <= doe < 146_097,
    ensures
        0 <= r.0 <= 399,
        0 <= r.1 <= 365,
        doe == 365 * r.0 + r.0 as int / 4 - r.0 as int / 100 + r.1,
        r.1 == 365 ==> (r.0 + 1) % 4 == 0 && ((r.0 + 1) % 100 != 0 || r.0 == 399),
{
    let d: u32 = doe as u32;
    let yoe: u32 = (d - d / 1460 + d / 36_524 - d / 146_096) / 365;
    proof {
        year_of_era(d);
    }
    let doy: u32 = d - (365 * yoe + yoe / 4 - yoe / 100);
    (yoe as i64, doy as i64)
}

/// The first day of a year.
pub open spec fn year_start(year: int) -> int {
    day_number((year, 1, 1))
}

proof fn years_follow(a: int, b: int)
    requires
        a <= b,
    ensures
        year_start(a) <= year_start(b),
    decreases b - a,
{
    if a < b {
        years_follow(a, b - 1);
        leap_days_step(b - 1);
        month_offsets(b - 1);
        month_offsets(b);
    }
}

proof fn months_follow(year: int, a: int, b: int)
    requires
        1 <= a <= b,
    ensures
        days_before_month(year, a) <= days_before_month(year, b),
    decreases b - a,
{
    if a < b {
        months_follow(year, a, b - 1);
    }
}

proof fn date_falls_in_its_year(date: (int, int, int))
    requires
        is_date(date),
    ensures
        year_start(date.0) <= day_number(date) < year_start(date.0 + 1),
{
    months_follow(date.0, 1, date.1);
    months_follow(date.0, date.1 + 1, 13);
    month_offsets(date.0);
    month_offsets(date.0 + 1);
    leap_days_step(date.0);
    reveal_with_fuel(days_before_month, 2);
    assert(days_before_month(date.0, 13) == days_before_month(date.0, 12) + 31);
    assert(days_before_month(date.0, 12) == days_before_month(date.0, 3) + 275);
    assert(days_before_month(date.0, date.1 + 1) == days_before_month(date.0, date.1)
        + month_length(date.0, date.1));
}

/// Days are numbered in the order of their dates.
proof fn numbers_follow_dates(a: (int, int, int), b: (int, int, int))
    requires
        is_date(a),
        is_date(b),
        day_number(a) <= day_number(b),
    ensures
        a.0 <= b.0,
        a.0 == b.0 ==> a.1 <= b.1,
        a.0 == b.0 && a.1 == b.1 ==> a.2 <= b.2,
        day_number(a) < day_number(b) ==> a != b,
{
    date_falls_in_its_year(a);
    date_falls_in_its_year(b);
    if b.0 < a.0 {
        years_follow(b.0 + 1, a.0);
    }
    if a.0 == b.0 && b.1 < a.1 {
        months_follow(a.0, b.1 + 1, a.1);
        reveal_with_fuel(days_before_month, 2);
    }
}

/// No two dates have the same number.
pub proof fn day_numbers_are_unique(a: (int, int, int), b: (int, int, int))
    requires
        is_date(a),
        is_date(b),
        day_number(a) == day_number(b),
    ensures
        a == b,
{
    numbers_follow_dates(a, b);
    numbers_follow_dates(b, a);
}

// ── Timestamps ───────────────────────────────────────────────────────────────

/// `n` zeros, none where `n` is negative.
pub open spec fn zeros(n: int) -> Seq<char>
    decreases n,
{
    if n <= 0 {
        Seq::empty()
    } else {
        zeros(n - 1).push('0')
    }
}

/// `n` in decimal, with zeros put in front until it is `width` characters wide;
/// a minus sign counts, and stands before them.
pub open spec fn padded(n: int, width: int) -> Seq<char> {
    if n < 0 {
        "-"@ + zeros(width - 1 - text::decimal((-n) as nat).len()) + text::decimal((-n) as nat)
    } else {
        zeros(width - text::decimal(n as nat).len()) + text::decimal(n as nat)
    }
}

fn pad(n: i64, width: usize) -> (r: String)
    requires
        n > i64::MIN,
        width < 100,
    ensures
        r@ == padded(n as int, width as int),
{
    let size: u128 = if n < 0 {
        (-n) as u128
    } else {
        n as u128
    };
    let digits: String = text::to_decimal(size);
    let mut out = String::new();
    let mut room: usize = width;
    if n < 0 {
        out.append("-");
        if room > 0 {
            room = room - 1;
        }
    }
    let used: usize = text::chars_of(digits.as_str()).len();
    let want: usize = if used < room {
        room - used
    } else {
        0
    };
    let ghost sign = out@;
    let mut i: usize = 0;
    assert(out@ =~= sign + zeros(0));
    while i < want
        invariant
            i <= want,
            out@ == sign + zeros(i as int),
        decreases want - i,
    {
        out.push('0');
        assert(out@ =~= sign + zeros(i + 1));
        i = i + 1;
    }
    out.append(digits.as_str());
    assert(out@ =~= padded(n as int, width as int));
    out
}

/// The date and time that a timestamp shows: `2026-07-14T16:19:48.412+02:00`.
pub open spec fn stamp(date: (int, int, int), ms_of_day: int, offset: int) -> Seq<char> {
    let secs = ms_of_day / 1000;
    let east = if offset < 0 {
        -offset
    } else {
        offset
    };
    padded(date.0, 4) + "-"@ + padded(date.1, 2) + "-"@ + padded(date.2, 2) + "T"@ + padded(
        secs / 3600,
        2,
    ) + ":"@ + padded((secs % 3600) / 60, 2) + ":"@ + padded(secs % 60, 2) + "."@ + padded(
        ms_of_day % 1000,
        3,
    ) + (if offset < 0 {
        "-"@
    } else {
        "+"@
    }) + padded(east / 3600, 2) + ":"@ + padded((east % 3600) / 60, 2)
}

proof fn zeros_are_counted(n: int)
    requires
        n >= 0,
    ensures
        zeros(n).len() == n,
    decreases n,
{
    if n > 0 {
        zeros_are_counted(n - 1);
    }
}

/// The first number of more than `width` digits.
pub open spec fn limit(width: int) -> int
    decreases width,
{
    if width <= 0 {
        1
    } else {
        10 * limit(width - 1)
    }
}

proof fn padded_ends_with_its_digit(n: int, width: int)
    requires
        0 <= n,
        2 <= width,
    ensures
        padded(n, width) == padded(n / 10, width - 1).push(text::digit((n % 10) as nat)),
{
    let last = text::digit((n % 10) as nat);
    if n < 10 {
        assert(text::digit(0) == '0');
        assert(padded(n / 10, width - 1) =~= zeros(width - 1));
        assert(padded(n, width) =~= zeros(width - 1).push(last));
    } else {
        let rest = text::decimal((n / 10) as nat);
        assert(text::decimal(n as nat) == rest.push(last));
        assert(zeros(width - text::decimal(n as nat).len()) == zeros(width - 1 - rest.len()));
        assert(padded(n, width) =~= padded(n / 10, width - 1).push(last));
    }
}

proof fn padded_to_width(n: int, width: int)
    requires
        1 <= width,
        0 <= n < limit(width),
    ensures
        padded(n, width).len() == width,
    decreases width,
{
    if width == 1 {
        assert(limit(1) == 10) by {
            reveal_with_fuel(limit, 2);
        }
    } else {
        padded_ends_with_its_digit(n, width);
        padded_to_width(n / 10, width - 1);
    }
}

proof fn limits()
    ensures
        limit(2) == 100,
        limit(3) == 1000,
        limit(4) == 10_000,
{
    reveal_with_fuel(limit, 5);
}

/// Timestamps line up: in every year of four digits they are of one width.
pub proof fn timestamps_are_of_one_width(date: (int, int, int), ms_of_day: int, offset: int)
    requires
        is_date(date),
        0 <= date.0 <= 9999,
        0 <= ms_of_day < 86_400_000,
        -360_000 < offset < 360_000,
    ensures
        stamp(date, ms_of_day, offset).len() == 29,
{
    limits();
    let secs = ms_of_day / 1000;
    let east = if offset < 0 {
        -offset
    } else {
        offset
    };
    padded_to_width(date.0, 4);
    padded_to_width(date.1, 2);
    padded_to_width(date.2, 2);
    padded_to_width(secs / 3600, 2);
    padded_to_width((secs % 3600) / 60, 2);
    padded_to_width(secs % 60, 2);
    padded_to_width(ms_of_day % 1000, 3);
    padded_to_width(east / 3600, 2);
    padded_to_width((east % 3600) / 60, 2);
    reveal_strlit("-");
    reveal_strlit("+");
    reveal_strlit("T");
    reveal_strlit(":");
    reveal_strlit(".");
}

/// Whether a text shows an instant in local time: the date and time of day that are
/// `offset` seconds east of Greenwich.
pub open spec fn shows(epoch_millis: int, offset: int, text: Seq<char>) -> bool {
    let local = epoch_millis + offset * 1000;
    exists|date: (int, int, int)|
        is_date(date) && #[trigger] day_number(date) == local / 86_400_000 && text == stamp(
            date,
            local % 86_400_000,
            offset,
        )
}

// ── Timestamps in order ──────────────────────────────────────────────────────

proof fn padded_in_order(n: int, m: int, width: int)
    requires
        1 <= width,
        0 <= n < m < limit(width),
    ensures
        text::less(padded(n, width), padded(m, width)),
    decreases width,
{
    let (p, q) = (text::digit((n % 10) as nat), text::digit((m % 10) as nat));
    if width == 1 {
        assert(limit(1) == 10) by {
            reveal_with_fuel(limit, 2);
        }
        assert(padded(n, 1) =~= seq![p]);
        assert(padded(m, 1) =~= seq![q]);
    } else {
        let (x, y) = (padded(n / 10, width - 1), padded(m / 10, width - 1));
        padded_ends_with_its_digit(n, width);
        padded_ends_with_its_digit(m, width);
        assert(x.push(p) =~= x + seq![p]);
        assert(y.push(q) =~= y + seq![q]);
        if n / 10 < m / 10 {
            padded_in_order(n / 10, m / 10, width - 1);
            padded_to_width(n / 10, width - 1);
            padded_to_width(m / 10, width - 1);
            text::less_extends(x, y, seq![p], seq![q]);
        } else {
            assert(n % 10 < m % 10);
            text::less_behind_prefix(x, seq![p], seq![q]);
        }
    }
}

/// Whether two texts of one length are the same so far, or the first is the
/// lesser already.
spec fn so_far(x: Seq<char>, y: Seq<char>, decided: bool) -> bool {
    x.len() == y.len() && (if decided {
        text::less(x, y)
    } else {
        x == y
    })
}

proof fn same_follows(x: Seq<char>, y: Seq<char>, decided: bool, s: Seq<char>)
    requires
        so_far(x, y, decided),
    ensures
        so_far(x + s, y + s, decided),
{
    if decided {
        text::less_extends(x, y, s, s);
    }
}

proof fn number_follows(
    x: Seq<char>,
    y: Seq<char>,
    decided: bool,
    n: int,
    m: int,
    width: int,
)
    requires
        so_far(x, y, decided),
        1 <= width,
        0 <= n < limit(width),
        0 <= m < limit(width),
        !decided ==> n <= m,
    ensures
        so_far(x + padded(n, width), y + padded(m, width), decided || n < m),
{
    padded_to_width(n, width);
    padded_to_width(m, width);
    if decided {
        text::less_extends(x, y, padded(n, width), padded(m, width));
    } else if n < m {
        padded_in_order(n, m, width);
        text::less_behind_prefix(x, padded(n, width), padded(m, width));
    }
}

/// The date in a timestamp.
spec fn date_text(date: (int, int, int)) -> Seq<char> {
    padded(date.0, 4) + "-"@ + padded(date.1, 2) + "-"@ + padded(date.2, 2)
}

proof fn dates_in_order(a: (int, int, int), b: (int, int, int))
    requires
        is_date(a),
        is_date(b),
        0 <= a.0 <= b.0 <= 9999,
        a.0 == b.0 ==> a.1 <= b.1,
        a.0 == b.0 && a.1 == b.1 ==> a.2 <= b.2,
    ensures
        so_far(date_text(a), date_text(b), a != b),
{
    limits();
    let d0 = a.0 < b.0;
    let (x0, y0) = (padded(a.0, 4), padded(b.0, 4));
    number_follows(Seq::empty(), Seq::empty(), false, a.0, b.0, 4);
    assert(Seq::empty() + x0 =~= x0);
    assert(Seq::empty() + y0 =~= y0);
    let (x1, y1) = (x0 + "-"@, y0 + "-"@);
    same_follows(x0, y0, d0, "-"@);
    let d1 = d0 || a.1 < b.1;
    let (x2, y2) = (x1 + padded(a.1, 2), y1 + padded(b.1, 2));
    number_follows(x1, y1, d0, a.1, b.1, 2);
    let (x3, y3) = (x2 + "-"@, y2 + "-"@);
    same_follows(x2, y2, d1, "-"@);
    number_follows(x3, y3, d1, a.2, b.2, 2);
}

/// A text with the time of day that a timestamp shows behind it.
spec fn with_time(x: Seq<char>, ms_of_day: int) -> Seq<char> {
    let secs = ms_of_day / 1000;
    x + "T"@ + padded(secs / 3600, 2) + ":"@ + padded((secs % 3600) / 60, 2) + ":"@ + padded(
        secs % 60,
        2,
    ) + "."@ + padded(ms_of_day % 1000, 3)
}

/// The fields of a time of day are in its range, and the first that differs tells
/// which of two times is the earlier.
proof fn fields_of_times(u: int, v: int)
    requires
        0 <= u < 86_400_000,
        0 <= v < 86_400_000,
    ensures
        ({
            let (s, t) = (u / 1000, v / 1000);
            &&& 0 <= s / 3600 < 24
            &&& 0 <= (s % 3600) / 60 < 60
            &&& 0 <= s % 60 < 60
            &&& 0 <= u % 1000 < 1000
            &&& u <= v ==> {
                &&& s / 3600 <= t / 3600
                &&& s / 3600 == t / 3600 ==> {
                    &&& (s % 3600) / 60 <= (t % 3600) / 60
                    &&& (s % 3600) / 60 == (t % 3600) / 60 ==> {
                        &&& s % 60 <= t % 60
                        &&& s % 60 == t % 60 ==> {
                            &&& s == t
                            &&& u % 1000 <= v % 1000
                            &&& u % 1000 == v % 1000 ==> u == v
                        }
                    }
                }
            }
        }),
{
    let (s, t) = (u / 1000, v / 1000);
    let (p, q) = (s % 3600, t % 3600);
    assert(s == 3600 * (s / 3600) + p);
    assert(t == 3600 * (t / 3600) + q);
    assert(p == 60 * (p / 60) + p % 60);
    assert(q == 60 * (q / 60) + q % 60);
    assert(p % 60 == s % 60);
    assert(q % 60 == t % 60);
}

proof fn times_in_order(x: Seq<char>, y: Seq<char>, decided: bool, u: int, v: int)
    requires
        so_far(x, y, decided),
        0 <= u < 86_400_000,
        0 <= v < 86_400_000,
        !decided ==> u < v,
    ensures
        so_far(with_time(x, u), with_time(y, v), true),
{
    limits();
    fields_of_times(u, v);
    fields_of_times(v, u);
    let (s, t) = (u / 1000, v / 1000);
    let (x0, y0) = (x + "T"@, y + "T"@);
    same_follows(x, y, decided, "T"@);
    let d1 = decided || s / 3600 < t / 3600;
    let (x1, y1) = (x0 + padded(s / 3600, 2), y0 + padded(t / 3600, 2));
    number_follows(x0, y0, decided, s / 3600, t / 3600, 2);
    let (x2, y2) = (x1 + ":"@, y1 + ":"@);
    same_follows(x1, y1, d1, ":"@);
    let d2 = d1 || (s % 3600) / 60 < (t % 3600) / 60;
    let (x3, y3) = (x2 + padded((s % 3600) / 60, 2), y2 + padded((t % 3600) / 60, 2));
    number_follows(x2, y2, d1, (s % 3600) / 60, (t % 3600) / 60, 2);
    let (x4, y4) = (x3 + ":"@, y3 + ":"@);
    same_follows(x3, y3, d2, ":"@);
    let d3 = d2 || s % 60 < t % 60;
    let (x5, y5) = (x4 + padded(s % 60, 2), y4 + padded(t % 60, 2));
    number_follows(x4, y4, d2, s % 60, t % 60, 2);
    let (x6, y6) = (x5 + "."@, y5 + "."@);
    same_follows(x5, y5, d3, "."@);
    number_follows(x6, y6, d3, u % 1000, v % 1000, 3);
}

/// Timestamps sort: of two instants shown at one offset, in years of four digits,
/// the earlier one has the lesser text.
pub proof fn timestamps_sort_by_time(
    earlier: int,
    later: int,
    offset: int,
    x: Seq<char>,
    y: Seq<char>,
)
    requires
        earlier < later,
        year_start(0) <= (earlier + offset * 1000) / 86_400_000,
        (later + offset * 1000) / 86_400_000 < year_start(10_000),
        shows(earlier, offset, x),
        shows(later, offset, y),
    ensures
        text::less(x, y),
{
    let (p, q) = (earlier + offset * 1000, later + offset * 1000);
    let a = choose|date: (int, int, int)|
        is_date(date) && #[trigger] day_number(date) == p / 86_400_000 && x == stamp(
            date,
            p % 86_400_000,
            offset,
        );
    let b = choose|date: (int, int, int)|
        is_date(date) && #[trigger] day_number(date) == q / 86_400_000 && y == stamp(
            date,
            q % 86_400_000,
            offset,
        );
    numbers_follow_dates(a, b);
    date_falls_in_its_year(a);
    date_falls_in_its_year(b);
    if a.0 < 0 {
        years_follow(a.0 + 1, 0);
    }
    if b.0 > 9999 {
        years_follow(10_000, b.0);
    }
    dates_in_order(a, b);
    let (u, v) = (p % 86_400_000, q % 86_400_000);
    times_in_order(date_text(a), date_text(b), a != b, u, v);
    let east = if offset < 0 {
        -offset
    } else {
        offset
    };
    let sign = if offset < 0 {
        "-"@
    } else {
        "+"@
    };
    let (x0, y0) = (with_time(date_text(a), u), with_time(date_text(b), v));
    same_follows(x0, y0, true, sign);
    let (x1, y1) = (x0 + sign, y0 + sign);
    same_follows(x1, y1, true, padded(east / 3600, 2));
    let (x2, y2) = (x1 + padded(east / 3600, 2), y1 + padded(east / 3600, 2));
    same_follows(x2, y2, true, ":"@);
    same_follows(x2 + ":"@, y2 + ":"@, true, padded((east % 3600) / 60, 2));
}

/// The timestamp of an instant in RFC 3339: milliseconds since the epoch, shown
/// in local time, `offset` seconds east of Greenwich.
pub fn rfc3339(epoch_millis: i64, offset_secs: i32) -> (r: String)
    requires
        i64::MIN <= epoch_millis + offset_secs * 1000 <= i64::MAX,
    ensures
        shows(epoch_millis as int, offset_secs as int, r@),
{
    let local: i64 = epoch_millis + offset_secs as i64 * 1000;
    let days: i64 = match local.checked_div_euclid(86_400_000) {
        Some(q) => q,
        None => 0,
    };
    let ms_of_day: i64 = match local.checked_rem_euclid(86_400_000) {
        Some(q) => q,
        None => 0,
    };
    let (year, month, day): (i64, i64, i64) = civil_from_days(days);
    let ghost date = (year as int, month as int, day as int);
    let ms: i64 = ms_of_day % 1000;
    let secs: i64 = ms_of_day / 1000;
    let offset: i64 = offset_secs as i64;
    let east: i64 = if offset < 0 {
        -offset
    } else {
        offset
    };
    let mut out = pad(year, 4);
    out.append("-");
    out.append(pad(month, 2).as_str());
    out.append("-");
    out.append(pad(day, 2).as_str());
    out.append("T");
    out.append(pad(secs / 3600, 2).as_str());
    out.append(":");
    out.append(pad((secs % 3600) / 60, 2).as_str());
    out.append(":");
    out.append(pad(secs % 60, 2).as_str());
    out.append(".");
    out.append(pad(ms, 3).as_str());
    out.append(
        if offset < 0 {
            "-"
        } else {
            "+"
        },
    );
    out.append(pad(east / 3600, 2).as_str());
    out.append(":");
    out.append(pad((east % 3600) / 60, 2).as_str());
    assert(day_number(date) == local as int / 86_400_000);
    assert(out@ == stamp(date, local as int % 86_400_000, offset_secs as int));
    out
}

/// The days follow each other: a day's number is one more than that of the day before it,
/// within a month, over the end of a month and over the end of a year, and the first day
/// of 1970 has the number zero.
pub proof fn a_day_is_one_more_than_the_day_before(year: int, month: int, day: int)
    requires
        is_date((year, month, day)),
    ensures
        day_number((1970, 1, 1)) == 0,
        day < month_length(year, month) ==> is_date((year, month, day + 1)) && day_number(
            (year, month, day + 1),
        ) == day_number((year, month, day)) + 1,
        day == month_length(year, month) && month < 12 ==> is_date((year, month + 1, 1))
            && day_number((year, month + 1, 1)) == day_number((year, month, day)) + 1,
        day == month_length(year, month) && month == 12 ==> is_date((year + 1, 1, 1))
            && day_number((year + 1, 1, 1)) == day_number((year, month, day)) + 1,
{
    month_offsets(1970);
    month_offsets(year);
    month_offsets(year + 1);
    leap_days_step(year);
    assert(days_before_month(year, month + 1) == days_before_month(year, month) + month_length(
        year,
        month,
    ));
    assert(days_before_month(year, 12) == days_before_month(year, 3) + (153 * 9 + 2) / 5);
}

/// How long the months are: February has a day more in every fourth year, but not in a
/// year that ends a century, unless that is a fourth one.
pub proof fn months_have_their_days(year: int, century: int)
    ensures
        month_length(year, 1) == 31,
        month_length(year, 3) == 31,
        month_length(year, 4) == 30,
        month_length(year, 5) == 31,
        month_length(year, 6) == 30,
        month_length(year, 7) == 31,
        month_length(year, 8) == 31,
        month_length(year, 9) == 30,
        month_length(year, 10) == 31,
        month_length(year, 11) == 30,
        month_length(year, 12) == 31,
        year % 4 != 0 ==> month_length(year, 2) == 28,
        year % 4 == 0 && year % 100 != 0 ==> month_length(year, 2) == 29,
        month_length(400 * century, 2) == 29,
        month_length(400 * century + 100, 2) == 28,
        month_length(400 * century + 200, 2) == 28,
        month_length(400 * century + 300, 2) == 28,
{
}

/// A number that is filled up to a width has that many digits, and they spell it.
pub proof fn a_filled_number_reads_back(n: int, width: int)
    requires
        1 <= width,
        0 <= n < limit(width),
    ensures
        padded(n, width).len() == width,
        text::digits_value(padded(n, width)) == n,
        limit(2) == 100,
        limit(3) == 1000,
        limit(4) == 10_000,
    decreases width,
{
    limits();
    padded_to_width(n, width);
    if width == 1 {
        assert(limit(1) == 10) by {
            reveal_with_fuel(limit, 2);
        }
        text::digits_are_read_back(n as nat);
        assert(text::decimal(n as nat).len() == 1);
        assert(padded(n, 1) =~= text::decimal(n as nat));
    } else {
        padded_ends_with_its_digit(n, width);
        assert(limit(width) == 10 * limit(width - 1));
        a_filled_number_reads_back(n / 10, width - 1);
        let s = padded(n, width);
        assert(s.drop_last() =~= padded(n / 10, width - 1));
        assert(s.last() == text::digit((n % 10) as nat));
        text::digits_are_read_back((n % 10) as nat);
        assert(text::decimal((n % 10) as nat) =~= seq![text::digit((n % 10) as nat)]);
        let one = seq![text::digit((n % 10) as nat)];
        assert(one.drop_last() =~= Seq::<char>::empty());
        reveal_with_fuel(text::digits_value, 2);
        assert(text::digits_value(one) == (n % 10) as nat);
    }
}

/// A timestamp shows the date, the hour, the minute, the second and the millisecond, and
/// how far the clock is ahead of the one in Greenwich, or behind it.
pub proof fn a_timestamp_shows_its_fields(
    date: (int, int, int),
    hour: int,
    minute: int,
    second: int,
    ms: int,
    ahead_hours: int,
    ahead_minutes: int,
)
    requires
        0 <= hour < 24,
        0 <= minute < 60,
        0 <= second < 60,
        0 <= ms < 1000,
        0 <= ahead_hours,
        0 <= ahead_minutes < 60,
    ensures
        ({
            let of_day = ((hour * 60 + minute) * 60 + second) * 1000 + ms;
            let ahead = ahead_hours * 3600 + ahead_minutes * 60;
            let local = padded(date.0, 4) + seq!['-'] + padded(date.1, 2) + seq!['-'] + padded(
                date.2,
                2,
            ) + seq!['T'] + padded(hour, 2) + seq![':'] + padded(minute, 2) + seq![':'] + padded(
                second,
                2,
            ) + seq!['.'] + padded(ms, 3);
            let zone = padded(ahead_hours, 2) + seq![':'] + padded(ahead_minutes, 2);
            &&& stamp(date, of_day, ahead) == local + seq!['+'] + zone
            &&& ahead > 0 ==> stamp(date, of_day, -ahead) == local + seq!['-'] + zone
        }),
{
    reveal_strlit("-");
    reveal_strlit("+");
    reveal_strlit(":");
    reveal_strlit("T");
    reveal_strlit(".");
    assert("-"@ =~= seq!['-']);
    assert("+"@ =~= seq!['+']);
    assert(":"@ =~= seq![':']);
    assert("T"@ =~= seq!['T']);
    assert("."@ =~= seq!['.']);
    let of_day = ((hour * 60 + minute) * 60 + second) * 1000 + ms;
    let ahead = ahead_hours * 3600 + ahead_minutes * 60;
    let secs = of_day / 1000;
    assert(secs == (hour * 60 + minute) * 60 + second);
    assert(of_day % 1000 == ms);
    assert(secs / 3600 == hour);
    assert((secs % 3600) / 60 == minute);
    assert(secs % 60 == second);
    assert(ahead / 3600 == ahead_hours);
    assert((ahead % 3600) / 60 == ahead_minutes);
    let local = padded(date.0, 4) + seq!['-'] + padded(date.1, 2) + seq!['-'] + padded(date.2, 2)
        + seq!['T'] + padded(hour, 2) + seq![':'] + padded(minute, 2) + seq![':'] + padded(
        second,
        2,
    ) + seq!['.'] + padded(ms, 3);
    let zone = padded(ahead_hours, 2) + seq![':'] + padded(ahead_minutes, 2);
    assert(stamp(date, of_day, ahead) == local + seq!['+'] + padded(ahead_hours, 2) + seq![':']
        + padded(ahead_minutes, 2));
    assert(stamp(date, of_day, ahead) =~= local + seq!['+'] + zone);
    if ahead > 0 {
        assert(stamp(date, of_day, -ahead) == local + seq!['-'] + padded(ahead_hours, 2) + seq![
            ':',
        ] + padded(ahead_minutes, 2));
        assert(stamp(date, of_day, -ahead) =~= local + seq!['-'] + zone);
    }
}

} // verus!
