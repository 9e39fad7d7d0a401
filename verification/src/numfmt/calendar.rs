//! Day numbers and the proleptic Gregorian calendar.

use vstd::prelude::*;

verus! {

/// 1899-12-30, as a day number: what serial 0 of the 1900 date system looks like
/// from every serial past the phantom leap day.
pub const EPOCH_1900: i64 = -25569;

/// 1904-01-01, as a day number: serial 0 of the 1904 date system.
pub const EPOCH_1904: i64 = -24107;

/// The serial of 1900-02-29, a day that the 1900 date system has and the calendar
/// has not.
pub const PHANTOM_LEAP: i64 = 60;

pub open spec fn is_leap(y: int) -> bool {
    y % 4 == 0 && (y % 100 != 0 || y % 400 == 0)
}

pub open spec fn month_len(y: int, m: int) -> int {
    if m == 2 {
        if is_leap(y) {
            29
        } else {
            28
        }
    } else if m == 4 || m == 6 || m == 9 || m == 11 {
        30
    } else {
        31
    }
}

/// A date that the calendar has.
pub open spec fn valid_date(y: int, m: int, d: int) -> bool {
    1 <= m <= 12 && 1 <= d <= month_len(y, m)
}

/// Days from 0001-01-01 to the first day of year `y`.
pub open spec fn days_before_year(y: int) -> int {
    365 * (y - 1) + (y - 1) / 4 - (y - 1) / 100 + (y - 1) / 400
}

/// Days from the first of the year to the first of month `m`.
pub open spec fn days_before_month(y: int, m: int) -> int
    decreases m,
{
    if m <= 1 {
        0
    } else {
        days_before_month(y, m - 1) + month_len(y, m - 1)
    }
}

/// Days from 1970-01-01 to a date.
pub open spec fn day_number(y: int, m: int, d: int) -> int {
    days_before_year(y) + days_before_month(y, m) + (d - 1) - 719162
}

pub open spec fn leap_day(y: int) -> int {
    if is_leap(y) {
        1
    } else {
        0
    }
}

proof fn lemma_months(y: int)
    ensures
        days_before_month(y, 1) == 0,
        days_before_month(y, 2) == 31,
        days_before_month(y, 3) == 59 + leap_day(y),
        days_before_month(y, 4) == 90 + leap_day(y),
        days_before_month(y, 5) == 120 + leap_day(y),
        days_before_month(y, 6) == 151 + leap_day(y),
        days_before_month(y, 7) == 181 + leap_day(y),
        days_before_month(y, 8) == 212 + leap_day(y),
        days_before_month(y, 9) == 243 + leap_day(y),
        days_before_month(y, 10) == 273 + leap_day(y),
        days_before_month(y, 11) == 304 + leap_day(y),
        days_before_month(y, 12) == 334 + leap_day(y),
{
    reveal_with_fuel(days_before_month, 13);
}

/// A year is 365 days long, a leap year 366.
#[verifier::spinoff_prover]
proof fn lemma_year_step(y: int)
    ensures
        days_before_year(y + 1) == days_before_year(y) + 365 + leap_day(y),
{
    assert(y / 4 == (y - 1) / 4 + (if y % 4 == 0 {
        1int
    } else {
        0
    }));
    assert(y / 100 == (y - 1) / 100 + (if y % 100 == 0 {
        1int
    } else {
        0
    }));
    assert(y / 400 == (y - 1) / 400 + (if y % 400 == 0 {
        1int
    } else {
        0
    }));
    assert(y % 400 == 0 ==> y % 100 == 0);
    assert(y % 100 == 0 ==> y % 4 == 0);
}

proof fn lemma_years_apart(y1: int, y2: int)
    requires
        y1 < y2,
    ensures
        days_before_year(y2) >= days_before_year(y1) + 365 + leap_day(y1),
    decreases y2 - y1,
{
    lemma_year_step(y2 - 1);
    if y1 < y2 - 1 {
        lemma_years_apart(y1, y2 - 1);
    }
}

proof fn lemma_date_in_year(y: int, m: int, d: int)
    requires
        valid_date(y, m, d),
    ensures
        0 <= days_before_month(y, m) + d - 1 < 365 + leap_day(y),
{
    lemma_months(y);
}

/// Two dates that the calendar has and that share a day number are one date.
pub proof fn law_day_number_is_one_to_one(y1: int, m1: int, d1: int, y2: int, m2: int, d2: int)
    requires
        valid_date(y1, m1, d1),
        valid_date(y2, m2, d2),
        day_number(y1, m1, d1) == day_number(y2, m2, d2),
    ensures
        y1 == y2,
        m1 == m2,
        d1 == d2,
{
    lemma_date_in_year(y1, m1, d1);
    lemma_date_in_year(y2, m2, d2);
    if y1 < y2 {
        lemma_years_apart(y1, y2);
    }
    if y2 < y1 {
        lemma_years_apart(y2, y1);
    }
    lemma_months(y1);
}

/// The first day of March of the year `400 * era + yoe`, `doy` days later, is the
/// date that the March-based month `mp` and day-of-month give.
proof fn lemma_march_based(era: int, yoe: int, doy: int, mp: int)
    requires
        0 <= yoe < 400,
        0 <= doy < 365 + leap_day(400 * era + yoe + 1),
        mp == (5 * doy + 2) / 153,
    ensures
        0 <= mp <= 11,
        ({
            let y0 = 400 * era + yoe;
            let m = if mp < 10 {
                mp + 3
            } else {
                mp - 9
            };
            let y = if m <= 2 {
                y0 + 1
            } else {
                y0
            };
            let d = doy - (153 * mp + 2) / 5 + 1;
            &&& valid_date(y, m, d)
            &&& day_number(y, m, d) == 146097 * era + (365 * yoe + yoe / 4 - yoe / 100) + doy
                - 719468
        }),
{
    let y0 = 400 * era + yoe;
    lemma_months(y0);
    lemma_months(y0 + 1);
    lemma_year_step(y0);
    assert(y0 / 4 == 100 * era + yoe / 4);
    assert(y0 / 100 == 4 * era + yoe / 100);
    assert(y0 / 400 == era);
    assert(days_before_year(y0 + 1) == 365 * y0 + y0 / 4 - y0 / 100 + y0 / 400);
    assert(0 <= mp <= 11);
    if mp == 0 {
    } else if mp == 1 {
    } else if mp == 2 {
    } else if mp == 3 {
    } else if mp == 4 {
    } else if mp == 5 {
    } else if mp == 6 {
    } else if mp == 7 {
    } else if mp == 8 {
    } else if mp == 9 {
    } else if mp == 10 {
    } else {
    }
}

/// The year of the era that a day of the era falls in.
proof fn lemma_year_of_era(doe: int, yoe: int)
    requires
        0 <= doe < 146097,
        yoe == (doe - doe / 1460 + doe / 36524 - doe / 146096) / 365,
    ensures
        0 <= yoe < 400,
        0 <= doe - (365 * yoe + yoe / 4 - yoe / 100),
        doe - (365 * yoe + yoe / 4 - yoe / 100) < 365 + (if (yoe + 1) % 4 == 0 && ((yoe + 1) % 100
            != 0 || (yoe + 1) % 400 == 0) {
            1int
        } else {
            0
        }),
{
}

/// The date `z` days after 1970-01-01, exact for every proleptic Gregorian date.
pub fn civil_from_days(z: i64) -> (r: (i64, u32, u32))
    ensures
        valid_date(r.0 as int, r.1 as int, r.2 as int),
        day_number(r.0 as int, r.1 as int, r.2 as int) == z,
{
    // Eras of 400 years, counted from one so far back that none is negative.
    let shifted: u128 = (z as i128 + 719468 + 100_000_000_000_000 * 146097) as u128;
    let era: u64 = (shifted / 146097) as u64;
    let doe: u64 = (shifted % 146097) as u64;
    let yoe: u64 = (doe - doe / 1460 + doe / 36524 - doe / 146096) / 365;
    proof {
        lemma_year_of_era(doe as int, yoe as int);
    }
    let doy: u64 = doe - (365 * yoe + yoe / 4 - yoe / 100);
    let mp: u64 = (5 * doy + 2) / 153;
    proof {
        lemma_march_based(era as int - 100_000_000_000_000, yoe as int, doy as int, mp as int);
    }
    let d: u64 = doy - (153 * mp + 2) / 5 + 1;
    let m: u64 = if mp < 10 {
        mp + 3
    } else {
        mp - 9
    };
    let y: i64 = (yoe + era * 400) as i64 - 40_000_000_000_000_000;
    (
        if m <= 2 {
            y + 1
        } else {
            y
        },
        m as u32,
        d as u32,
    )
}

/// The weekday of a day number, Sunday being 0. 1970-01-01 was a Thursday.
pub open spec fn weekday(z: int) -> int {
    (z + 4) % 7
}

pub fn weekday_from_days(z: i64) -> (r: u32)
    ensures
        r == weekday(z as int),
        r < 7,
{
    let shifted: u128 = (z as i128 + 4 + 7 * 2_000_000_000_000_000_000) as u128;
    (shifted % 7) as u32
}

/// The weekday moves on by one from each day to the next and comes round in seven.
pub proof fn law_weekdays_follow(z: int)
    ensures
        weekday(z + 1) == (weekday(z) + 1) % 7,
        weekday(z + 7) == weekday(z),
{
}

/// A serial's date: the calendar date, or the phantom 29th of February.
pub struct DateOf {
    pub y: int,
    pub m: int,
    pub d: int,
    pub dow: int,
}

/// Whether `r` is the date of a whole serial in one of the two date systems.
pub open spec fn is_date_of(serial: int, date1904: bool, r: DateOf) -> bool {
    if date1904 {
        &&& valid_date(r.y, r.m, r.d)
        &&& day_number(r.y, r.m, r.d) == serial + EPOCH_1904
        &&& r.dow == weekday(serial + EPOCH_1904)
    } else if serial == PHANTOM_LEAP {
        r.y == 1900 && r.m == 2 && r.d == 29 && r.dow == weekday(serial + EPOCH_1900)
    } else {
        let z = if serial < PHANTOM_LEAP {
            serial + EPOCH_1900 + 1
        } else {
            serial + EPOCH_1900
        };
        &&& valid_date(r.y, r.m, r.d)
        &&& day_number(r.y, r.m, r.d) == z
        &&& r.dow == weekday(z)
    }
}

/// The date of a serial, chosen; `law_serial_has_one_date` says there is just one.
pub open spec fn date_of(serial: int, date1904: bool) -> DateOf {
    choose|r: DateOf| is_date_of(serial, date1904, r)
}

/// A serial has no more than one date.
pub proof fn law_serial_has_one_date(serial: int, date1904: bool, a: DateOf, b: DateOf)
    requires
        is_date_of(serial, date1904, a),
        is_date_of(serial, date1904, b),
    ensures
        a == b,
{
    if date1904 || serial != PHANTOM_LEAP {
        law_day_number_is_one_to_one(a.y, a.m, a.d, b.y, b.m, b.d);
    }
}

/// Every day number is that of a date.
proof fn lemma_day_has_date(z: int) -> (r: (int, int, int))
    ensures
        valid_date(r.0, r.1, r.2),
        day_number(r.0, r.1, r.2) == z,
{
    let shifted = z + 719468;
    let era = shifted / 146097;
    let doe = shifted % 146097;
    let yoe = (doe - doe / 1460 + doe / 36524 - doe / 146096) / 365;
    lemma_year_of_era(doe, yoe);
    let doy = doe - (365 * yoe + yoe / 4 - yoe / 100);
    let mp = (5 * doy + 2) / 153;
    lemma_march_based(era, yoe, doy, mp);
    let d = doy - (153 * mp + 2) / 5 + 1;
    let m = if mp < 10 {
        mp + 3
    } else {
        mp - 9
    };
    let y0 = 400 * era + yoe;
    let y = if m <= 2 {
        y0 + 1
    } else {
        y0
    };
    (y, m, d)
}

/// Every serial has a date, in either date system.
pub proof fn law_every_serial_has_a_date(serial: int, date1904: bool)
    ensures
        is_date_of(serial, date1904, date_of(serial, date1904)),
        0 <= serial <= 4_000_000_000_000 ==> 1 <= date_of(serial, date1904).y <= 12_000_000_000,
{
    let z = if date1904 {
        serial + EPOCH_1904
    } else if serial < PHANTOM_LEAP {
        serial + EPOCH_1900 + 1
    } else {
        serial + EPOCH_1900
    };
    let (y, m, d) = lemma_day_has_date(z);
    let r = if !date1904 && serial == PHANTOM_LEAP {
        DateOf { y: 1900, m: 2, d: 29, dow: weekday(serial + EPOCH_1900) }
    } else {
        DateOf { y, m, d, dow: weekday(z) }
    };
    assert(is_date_of(serial, date1904, r));
    let c = date_of(serial, date1904);
    assert(is_date_of(serial, date1904, c));
    if date1904 || serial != PHANTOM_LEAP {
        lemma_date_in_year(c.y, c.m, c.d);
    }
}

/// Where the two date systems begin: serial 0 of the one is Friday, the first of
/// January 1904; serial 1 of the other is the first of January 1900, and its serial
/// 60 is a 29th of February that the calendar has not.
pub proof fn law_where_the_serials_begin()
    ensures
        date_of(0, true) == (DateOf { y: 1904, m: 1, d: 1, dow: 5 }),
        date_of(1, false) == (DateOf { y: 1900, m: 1, d: 1, dow: 1 }),
        date_of(59, false) == (DateOf { y: 1900, m: 2, d: 28, dow: 3 }),
        date_of(60, false) == (DateOf { y: 1900, m: 2, d: 29, dow: 3 }),
        date_of(61, false) == (DateOf { y: 1900, m: 3, d: 1, dow: 4 }),
{
    law_every_serial_has_a_date(0, true);
    law_every_serial_has_a_date(1, false);
    law_every_serial_has_a_date(59, false);
    law_every_serial_has_a_date(60, false);
    law_every_serial_has_a_date(61, false);
    lemma_months(1900);
    lemma_months(1904);
    law_serial_has_one_date(0, true, date_of(0, true), DateOf { y: 1904, m: 1, d: 1, dow: 5 });
    law_serial_has_one_date(1, false, date_of(1, false), DateOf { y: 1900, m: 1, d: 1, dow: 1 });
    law_serial_has_one_date(
        59,
        false,
        date_of(59, false),
        DateOf { y: 1900, m: 2, d: 28, dow: 3 },
    );
    law_serial_has_one_date(61, false, date_of(61, false), DateOf { y: 1900, m: 3, d: 1, dow: 4 });
}

/// The day after a date has the next day number.
proof fn lemma_next_day(y: int, m: int, d: int) -> (r: (int, int, int))
    requires
        valid_date(y, m, d),
    ensures
        valid_date(r.0, r.1, r.2),
        day_number(r.0, r.1, r.2) == day_number(y, m, d) + 1,
        r == (if d < month_len(y, m) {
            (y, m, d + 1)
        } else if m < 12 {
            (y, m + 1, 1int)
        } else {
            (y + 1, 1int, 1int)
        }),
{
    if d < month_len(y, m) {
        (y, m, d + 1)
    } else if m < 12 {
        assert(days_before_month(y, m + 1) == days_before_month(y, m) + month_len(y, m));
        (y, m + 1, 1)
    } else {
        lemma_months(y);
        lemma_months(y + 1);
        lemma_year_step(y);
        (y + 1, 1, 1)
    }
}

/// Two dates whose day numbers follow each other.
proof fn lemma_dates_follow(a: DateOf, b: DateOf)
    requires
        valid_date(a.y, a.m, a.d),
        valid_date(b.y, b.m, b.d),
        day_number(b.y, b.m, b.d) == day_number(a.y, a.m, a.d) + 1,
    ensures
        a.d < month_len(a.y, a.m) ==> b.y == a.y && b.m == a.m && b.d == a.d + 1,
        a.d == month_len(a.y, a.m) && a.m < 12 ==> b.y == a.y && b.m == a.m + 1 && b.d == 1,
        a.d == month_len(a.y, a.m) && a.m == 12 ==> b.y == a.y + 1 && b.m == 1 && b.d == 1,
{
    let (y, m, d) = lemma_next_day(a.y, a.m, a.d);
    law_day_number_is_one_to_one(b.y, b.m, b.d, y, m, d);
}

/// From one serial to the next the date moves on by a day: the next day of the month,
/// or else the first of the next month, or else the first of January. February has 29
/// days in every fourth year but for three centuries out of four. Only around the day
/// that the calendar has not is it otherwise.
#[verifier::spinoff_prover]
#[verifier::rlimit(50)]
pub proof fn law_days_follow(serial: int, date1904: bool)
    requires
        date1904 || serial < 59 || serial > 60,
    ensures
        ({
            let a = date_of(serial, date1904);
            let b = date_of(serial + 1, date1904);
            let long = a.y % 400 == 0 || (a.y % 4 == 0 && a.y % 100 != 0);
            let last = if a.m == 2 {
                if long {
                    29int
                } else {
                    28
                }
            } else if a.m == 4 || a.m == 6 || a.m == 9 || a.m == 11 {
                30
            } else {
                31
            };
            &&& 1 <= a.m <= 12 && 1 <= a.d <= last
            &&& a.d < last ==> b.y == a.y && b.m == a.m && b.d == a.d + 1
            &&& a.d == last && a.m < 12 ==> b.y == a.y && b.m == a.m + 1 && b.d == 1
            &&& a.d == last && a.m == 12 ==> b.y == a.y + 1 && b.m == 1 && b.d == 1
            &&& b.dow == (a.dow + 1) % 7
        }),
{
    law_every_serial_has_a_date(serial, date1904);
    law_every_serial_has_a_date(serial + 1, date1904);
    lemma_dates_follow(date_of(serial, date1904), date_of(serial + 1, date1904));
}

} // verus!
