//! Dates, times of day and durations as a section shows them.

use vstd::prelude::*;
use crate::chars::{chars_of, decimal, push_all, push_text, push_u64, slice_of, string_of};
use crate::numfmt::calendar::{
    civil_from_days, date_of, is_date_of, law_serial_has_one_date, weekday_from_days, DateOf,
    EPOCH_1900, EPOCH_1904, PHANTOM_LEAP,
};
use crate::numfmt::sections::{Section, SectionView};
use crate::numfmt::tokens::{tokens, Tok, TokVec, Token, Unit};

pub mod laws;

verus! {

/// What a section shows for a value it cannot show.
pub const OVERFLOW: &'static str = "########";

/// The largest serial that is shown.
pub const MAX_SERIAL: i64 = 100_000_000;

/// The finest field that a date section shows. A value is rounded to it.
#[derive(Clone, Copy, PartialEq, Eq, Debug, Structural)]
pub enum Finest {
    SubSecond(u8),
    Second,
    Minute,
    Hour,
    /// A date alone: the time of day is cut off, not rounded.
    Day,
}

pub open spec fn shows_unit(t: Token, u: Unit) -> bool {
    match t {
        Tok::Elapsed(e, _) => e == u,
        Tok::Hour(_) => u == Unit::Hour,
        Tok::Minute(_) => u == Unit::Minute,
        Tok::Second(_) => u == Unit::Second,
        _ => false,
    }
}

pub open spec fn any_shows(toks: Seq<Token>, u: Unit) -> bool {
    exists|k: int| 0 <= k < toks.len() && shows_unit(#[trigger] toks[k], u)
}

/// The first fractional-seconds token, or the end.
pub open spec fn first_sub(toks: Seq<Token>, i: int) -> int
    decreases toks.len() - i,
{
    if 0 <= i < toks.len() && !(toks[i] is SubSec) {
        first_sub(toks, i + 1)
    } else {
        i
    }
}

pub open spec fn finest_of(toks: Seq<Token>) -> Finest {
    let f = first_sub(toks, 0);
    if f < toks.len() {
        Finest::SubSecond(toks[f]->SubSec_0)
    } else if any_shows(toks, Unit::Second) {
        Finest::Second
    } else if any_shows(toks, Unit::Minute) {
        Finest::Minute
    } else if any_shows(toks, Unit::Hour) {
        Finest::Hour
    } else {
        Finest::Day
    }
}

fn unit_shown(toks: &Vec<TokVec>, u: Unit) -> (r: bool)
    ensures
        r == any_shows(tokens(toks@), u),
{
    for i in 0..toks.len()
        invariant
            forall|k: int| 0 <= k < i ==> !shows_unit(#[trigger] tokens(toks@)[k], u),
    {
        assert(tokens(toks@)[i as int] == toks@[i as int]@);
        let hit = match &toks[i] {
            Tok::Elapsed(e, _) => *e == u,
            Tok::Hour(_) => u == Unit::Hour,
            Tok::Minute(_) => u == Unit::Minute,
            Tok::Second(_) => u == Unit::Second,
            _ => false,
        };
        if hit {
            return true;
        }
    }
    false
}

/// The field that a value shown by these tokens is rounded to.
pub fn round_unit(toks: &Vec<TokVec>) -> (r: Finest)
    ensures
        r == finest_of(tokens(toks@)),
{
    let ghost ts = tokens(toks@);
    let mut i: usize = 0;
    while i < toks.len()
        invariant
            i <= toks@.len(),
            ts == tokens(toks@),
            first_sub(ts, i as int) == first_sub(ts, 0),
        decreases toks@.len() - i,
    {
        assert(ts[i as int] == toks@[i as int]@);
        if let Tok::SubSec(n) = &toks[i] {
            return Finest::SubSecond(*n);
        }
        i = i + 1;
    }
    if unit_shown(toks, Unit::Second) {
        Finest::Second
    } else if unit_shown(toks, Unit::Minute) {
        Finest::Minute
    } else if unit_shown(toks, Unit::Hour) {
        Finest::Hour
    } else {
        Finest::Day
    }
}

/// A serial's magnitude after rounding, in whole units.
#[derive(Debug)]
pub struct Clock {
    /// Whole days.
    pub days: i64,
    /// Whole seconds of the day, which rounding may have brought to a full day.
    pub secs: i64,
    /// The rest of the second in tenths, hundredths, … down to billionths, each
    /// rounded down.
    pub sub: Vec<u64>,
    /// The whole magnitude in seconds, rounded down.
    pub total: u64,
    /// The serial is less than zero.
    pub negative: bool,
}

impl Clock {
    /// What every serial of at most `MAX_SERIAL` gives.
    pub open spec fn ok(&self) -> bool {
        &&& 0 <= self.days <= MAX_SERIAL + 1
        &&& 0 <= self.secs <= 86400
        &&& self.sub@.len() == 9
    }
}

/// The fields of a date and a time.
#[derive(Clone, Copy, Debug)]
pub struct Parts {
    pub y: i64,
    pub mo: u32,
    pub d: u32,
    pub dow: u32,
    pub h: u32,
    pub mi: u32,
    pub s: u32,
    /// Whole units for an elapsed-time token.
    pub elapsed: u64,
}

/// The fields of a duration counted in `u`: the whole units, and what is left over
/// in the finer fields.
pub open spec fn duration_parts(total: u64, u: Unit) -> Parts {
    let rem = total as int;
    Parts {
        y: 0,
        mo: 1,
        d: 1,
        dow: 0,
        h: 0,
        mi: if u == Unit::Hour {
            ((rem % 3600) / 60) as u32
        } else {
            0
        },
        s: if u == Unit::Second {
            0
        } else {
            (rem % 60) as u32
        },
        elapsed: match u {
            Unit::Hour => (rem / 3600) as u64,
            Unit::Minute => (rem / 60) as u64,
            Unit::Second => total,
        },
    }
}

/// The fields of a moment: the date of its day in one of the two date systems, and
/// the time of day.
pub open spec fn moment_parts(days: int, secs: int, date1904: bool) -> Parts {
    let day = if secs >= 86400 {
        days + 1
    } else {
        days
    };
    let sec = if secs >= 86400 {
        secs - 86400
    } else {
        secs
    };
    let date = date_of(day, date1904);
    Parts {
        y: date.y as i64,
        mo: date.m as u32,
        d: date.d as u32,
        dow: date.dow as u32,
        h: (sec / 3600) as u32,
        mi: ((sec % 3600) / 60) as u32,
        s: (sec % 60) as u32,
        elapsed: 0,
    }
}

/// The fields that a section shows of a serial; `None` where it can show none.
pub open spec fn parts_of(sec: SectionView, clock: Clock, date1904: bool) -> Option<Parts> {
    match sec.elapsed {
        Some(u) => Some(duration_parts(clock.total, u)),
        None => if clock.negative {
            None
        } else {
            Some(moment_parts(clock.days as int, clock.secs as int, date1904))
        },
    }
}

/// Fields that a section can show.
pub open spec fn parts_ok(p: Parts) -> bool {
    1 <= p.mo <= 12 && p.dow < 7 && p.h < 24
}

/// The fields that `sec` shows of a serial. A duration is shown as a magnitude; a
/// date has nothing to show for a serial below zero.
pub fn decompose(sec: &Section, clock: &Clock, date1904: bool) -> (r: Option<Parts>)
    requires
        clock.ok(),
    ensures
        r == parts_of(sec@, *clock, date1904),
        r matches Some(p) ==> parts_ok(p),
{
    if let Some(u) = sec.elapsed {
        let rem: u64 = clock.total;
        let (mi, s, elapsed): (u64, u64, u64) = match u {
            Unit::Hour => ((rem % 3600) / 60, rem % 60, rem / 3600),
            Unit::Minute => (0, rem % 60, rem / 60),
            Unit::Second => (0, 0, rem),
        };
        return Some(
            Parts { y: 0, mo: 1, d: 1, dow: 0, h: 0, mi: mi as u32, s: s as u32, elapsed },
        );
    }
    if clock.negative {
        return None;
    }
    let mut days: i64 = clock.days;
    let mut secs: u64 = clock.secs as u64;
    if secs >= 86400 {
        secs = secs - 86400;
        days = days + 1;
    }
    let h: u32 = (secs / 3600) as u32;
    let mi: u32 = ((secs % 3600) / 60) as u32;
    let s: u32 = (secs % 60) as u32;
    let (date, dow): ((i64, u32, u32), u32) = if date1904 {
        (civil_from_days(days + EPOCH_1904), weekday_from_days(days + EPOCH_1904))
    } else if days == PHANTOM_LEAP {
        // The day that never was: shown as it is counted.
        ((1900, 2, 29), weekday_from_days(days + EPOCH_1900))
    } else if days < PHANTOM_LEAP {
        (civil_from_days(days + EPOCH_1900 + 1), weekday_from_days(days + EPOCH_1900 + 1))
    } else {
        (civil_from_days(days + EPOCH_1900), weekday_from_days(days + EPOCH_1900))
    };
    proof {
        let found = DateOf {
            y: date.0 as int,
            m: date.1 as int,
            d: date.2 as int,
            dow: dow as int,
        };
        assert(is_date_of(days as int, date1904, found));
        law_serial_has_one_date(days as int, date1904, found, date_of(days as int, date1904));
    }
    Some(Parts { y: date.0, mo: date.1, d: date.2, dow, h, mi, s, elapsed: 0 })
}

// ── names ────────────────────────────────────────────────────────────────────

pub open spec fn month_name(m: int) -> Seq<char> {
    if m == 1 {
        "January"@
    } else if m == 2 {
        "February"@
    } else if m == 3 {
        "March"@
    } else if m == 4 {
        "April"@
    } else if m == 5 {
        "May"@
    } else if m == 6 {
        "June"@
    } else if m == 7 {
        "July"@
    } else if m == 8 {
        "August"@
    } else if m == 9 {
        "September"@
    } else if m == 10 {
        "October"@
    } else if m == 11 {
        "November"@
    } else {
        "December"@
    }
}

pub open spec fn day_name(d: int) -> Seq<char> {
    if d == 0 {
        "Sunday"@
    } else if d == 1 {
        "Monday"@
    } else if d == 2 {
        "Tuesday"@
    } else if d == 3 {
        "Wednesday"@
    } else if d == 4 {
        "Thursday"@
    } else if d == 5 {
        "Friday"@
    } else {
        "Saturday"@
    }
}

fn month_text(m: u32) -> (r: Vec<char>)
    requires
        1 <= m <= 12,
    ensures
        r@ == month_name(m as int),
        r@.len() >= 3,
{
    proof {
        reveal_strlit("January");
        reveal_strlit("February");
        reveal_strlit("March");
        reveal_strlit("April");
        reveal_strlit("May");
        reveal_strlit("June");
        reveal_strlit("July");
        reveal_strlit("August");
        reveal_strlit("September");
        reveal_strlit("October");
        reveal_strlit("November");
        reveal_strlit("December");
    }
    let name: &'static str = match m {
        1 => "January",
        2 => "February",
        3 => "March",
        4 => "April",
        5 => "May",
        6 => "June",
        7 => "July",
        8 => "August",
        9 => "September",
        10 => "October",
        11 => "November",
        _ => "December",
    };
    chars_of(name)
}

fn day_text(d: u32) -> (r: Vec<char>)
    requires
        d < 7,
    ensures
        r@ == day_name(d as int),
        r@.len() >= 3,
{
    proof {
        reveal_strlit("Sunday");
        reveal_strlit("Monday");
        reveal_strlit("Tuesday");
        reveal_strlit("Wednesday");
        reveal_strlit("Thursday");
        reveal_strlit("Friday");
        reveal_strlit("Saturday");
    }
    let name: &'static str = match d {
        0 => "Sunday",
        1 => "Monday",
        2 => "Tuesday",
        3 => "Wednesday",
        4 => "Thursday",
        5 => "Friday",
        _ => "Saturday",
    };
    chars_of(name)
}

// ── text ─────────────────────────────────────────────────────────────────────

/// A numeral, with a zero before it where two digits are asked for and it has one.
pub open spec fn two_wide(v: nat, width: u8) -> Seq<char> {
    if width >= 2 && v < 10 {
        seq!['0'] + decimal(v)
    } else {
        decimal(v)
    }
}

pub fn pad2(out: &mut Vec<char>, v: u64, width: u8)
    ensures
        final(out)@ == old(out)@ + two_wide(v as nat, width),
{
    let ghost before = out@;
    if width >= 2 && v < 10 {
        out.push('0');
    }
    push_u64(out, v);
    assert(out@ =~= before + two_wide(v as nat, width));
}

pub open spec fn zeros(n: int) -> Seq<char> {
    Seq::new(
        if n > 0 {
            n as nat
        } else {
            0
        },
        |i: int| '0',
    )
}

/// The hour as a section shows it.
pub open spec fn shown_hour(h: u32, twelve: bool) -> nat {
    if twelve {
        if h % 12 == 0 {
            12
        } else {
            (h % 12) as nat
        }
    } else {
        h as nat
    }
}

/// The places of a fractional-seconds token.
pub open spec fn sub_places(n: u8) -> int {
    if n < 1 {
        1
    } else if n > 9 {
        9
    } else {
        n as int
    }
}

/// What one token shows.
pub open spec fn date_piece(t: Token, p: Parts, sub: Seq<u64>, twelve: bool) -> Seq<char> {
    match t {
        Tok::Lit(l) => l,
        Tok::Skip => seq![' '],
        Tok::Slash => seq!['/'],
        Tok::Year(w) => if w == 4 {
            decimal((p.y as int % 10000) as nat)
        } else {
            two_wide((p.y as int % 100) as nat, 2)
        },
        Tok::Month(w) => if w == 5 {
            month_name(p.mo as int).take(1)
        } else if w == 4 {
            month_name(p.mo as int)
        } else if w == 3 {
            month_name(p.mo as int).take(3)
        } else {
            two_wide(p.mo as nat, w)
        },
        Tok::Day(w) => if w == 4 {
            day_name(p.dow as int)
        } else if w == 3 {
            day_name(p.dow as int).take(3)
        } else {
            two_wide(p.d as nat, w)
        },
        Tok::Hour(w) => two_wide(shown_hour(p.h, twelve), w),
        Tok::Minute(w) => two_wide(p.mi as nat, w),
        Tok::Second(w) => two_wide(p.s as nat, w),
        Tok::Elapsed(_, w) => two_wide(p.elapsed as nat, w),
        Tok::Ampm(long) => if long {
            if p.h >= 12 {
                "PM"@
            } else {
                "AM"@
            }
        } else {
            if p.h >= 12 {
                "P"@
            } else {
                "A"@
            }
        },
        Tok::SubSec(n) => {
            let digits = decimal(sub[sub_places(n) - 1] as nat);
            seq!['.'] + zeros(sub_places(n) - digits.len()) + digits
        },
        Tok::Dot => seq!['.'],
        Tok::Comma => seq![','],
        Tok::Percent => seq!['%'],
        Tok::Fill | Tok::Digit(_) | Tok::Exp(_) | Tok::At => Seq::empty(),
    }
}

/// What the tokens show, one after the other.
pub open spec fn date_text(toks: Seq<Token>, p: Parts, sub: Seq<u64>, twelve: bool) -> Seq<char>
    decreases toks.len(),
{
    if toks.len() == 0 {
        Seq::empty()
    } else {
        date_text(toks.drop_last(), p, sub, twelve) + date_piece(toks.last(), p, sub, twelve)
    }
}

/// What a date section shows of a serial; an overflow mark for one that is no
/// number, too large, or below zero where a date is asked for.
pub open spec fn shown_date(sec: SectionView, clock: Option<Clock>, date1904: bool) -> Seq<char> {
    match clock {
        None => OVERFLOW@,
        Some(c) => match parts_of(sec, c, date1904) {
            None => OVERFLOW@,
            Some(p) => date_text(sec.toks, p, c.sub@, sec.twelve_hour),
        },
    }
}

fn push_zeros(out: &mut Vec<char>, n: usize)
    ensures
        final(out)@ == old(out)@ + zeros(n as int),
{
    let ghost before = out@;
    assert(before + zeros(0) =~= before);
    for i in 0..n
        invariant
            out@ == before + zeros(i as int),
    {
        out.push('0');
        assert(before + zeros(i + 1) =~= (before + zeros(i as int)).push('0'));
    }
}

fn push_piece(out: &mut Vec<char>, t: &TokVec, p: &Parts, sub: &Vec<u64>, twelve: bool)
    requires
        parts_ok(*p),
        sub@.len() == 9,
    ensures
        final(out)@ == old(out)@ + date_piece(t@, *p, sub@, twelve),
{
    let ghost before = out@;
    match t {
        Tok::Lit(l) => push_all(out, l),
        Tok::Skip => out.push(' '),
        Tok::Slash => out.push('/'),
        Tok::Year(w) => {
            if *w == 4 {
                push_u64(out, rem(p.y, 10000));
            } else {
                pad2(out, rem(p.y, 100), 2);
            }
        },
        Tok::Month(w) => {
            if *w == 5 {
                let name: Vec<char> = month_text(p.mo);
                out.push(name[0]);
                assert(name@.take(1) =~= seq![name@[0]]);
            } else if *w == 4 {
                push_all(out, &month_text(p.mo));
            } else if *w == 3 {
                let name: Vec<char> = month_text(p.mo);
                push_all(out, &slice_of(&name, 0, 3));
                assert(name@.take(3) =~= name@.subrange(0, 3));
            } else {
                pad2(out, p.mo as u64, *w);
            }
        },
        Tok::Day(w) => {
            if *w == 4 {
                push_all(out, &day_text(p.dow));
            } else if *w == 3 {
                let name: Vec<char> = day_text(p.dow);
                push_all(out, &slice_of(&name, 0, 3));
                assert(name@.take(3) =~= name@.subrange(0, 3));
            } else {
                pad2(out, p.d as u64, *w);
            }
        },
        Tok::Hour(w) => {
            let h: u32 = if twelve {
                if p.h % 12 == 0 {
                    12
                } else {
                    p.h % 12
                }
            } else {
                p.h
            };
            pad2(out, h as u64, *w);
        },
        Tok::Minute(w) => pad2(out, p.mi as u64, *w),
        Tok::Second(w) => pad2(out, p.s as u64, *w),
        Tok::Elapsed(_, w) => pad2(out, p.elapsed, *w),
        Tok::Ampm(long) => {
            let pm = p.h >= 12;
            if *long {
                push_text(out, if pm { "PM" } else { "AM" });
            } else {
                push_text(out, if pm { "P" } else { "A" });
            }
        },
        Tok::SubSec(n) => {
            let places: usize = if *n < 1 {
                1
            } else if *n > 9 {
                9
            } else {
                *n as usize
            };
            let mut digits: Vec<char> = Vec::new();
            push_u64(&mut digits, sub[places - 1]);
            assert(digits@ =~= decimal(sub@[places - 1] as nat));
            out.push('.');
            if digits.len() < places {
                push_zeros(out, places - digits.len());
            }
            push_all(out, &digits);
            assert(out@ =~= before + (seq!['.'] + zeros(places - digits@.len()) + digits@));
        },
        Tok::Dot => out.push('.'),
        Tok::Comma => out.push(','),
        Tok::Percent => out.push('%'),
        Tok::Fill | Tok::Digit(_) | Tok::Exp(_) | Tok::At => {},
    }
    assert(out@ =~= before + date_piece(t@, *p, sub@, twelve));
}

/// The remainder of `y`, never negative.
fn rem(y: i64, m: u32) -> (r: u64)
    requires
        m > 0,
    ensures
        r == y as int % m as int,
{
    match (y as i128).checked_rem_euclid(m as i128) {
        Some(v) => v as u64,
        None => 0,
    }
}

/// What a date section shows of a serial that `clock` holds the units of.
pub fn render_date(sec: &Section, clock: &Option<Clock>, date1904: bool) -> (r: String)
    requires
        clock matches Some(c) ==> c.ok(),
    ensures
        r@ == shown_date(sec@, *clock, date1904),
{
    let c: &Clock = match clock {
        Some(c) => c,
        None => {
            return String::from_str(OVERFLOW);
        },
    };
    let p: Parts = match decompose(sec, c, date1904) {
        Some(p) => p,
        None => {
            return String::from_str(OVERFLOW);
        },
    };
    let ghost ts = tokens(sec.toks@);
    let mut out: Vec<char> = Vec::new();
    assert(ts.take(0) =~= Seq::<Token>::empty());
    for i in 0..sec.toks.len()
        invariant
            parts_ok(p),
            c.sub@.len() == 9,
            ts == tokens(sec.toks@),
            out@ == date_text(ts.take(i as int), p, c.sub@, sec.twelve_hour),
    {
        assert(ts.take(i + 1).drop_last() =~= ts.take(i as int));
        assert(ts.take(i + 1).last() == sec.toks@[i as int]@);
        push_piece(&mut out, &sec.toks[i], &p, &c.sub, sec.twelve_hour);
    }
    assert(ts.take(ts.len() as int) =~= ts);
    string_of(&out)
}

} // verus!
