//! What holds of shown dates, times and durations as a whole.

use vstd::prelude::*;
use crate::chars::{all_digits, decimal, decimal_value, is_digit, law_decimal_reads_back};
use crate::numfmt::calendar::{date_of, is_date_of, law_every_serial_has_a_date, DateOf};
use crate::numfmt::dates::{
    date_piece, date_text, finest_of, first_sub, parts_of, shown_date, shows_unit, zeros, Clock,
    Finest, Parts,
};
use crate::numfmt::sections::SectionView;
use crate::numfmt::tokens::{Tok, Token, Unit};

verus! {

// ── the fields ───────────────────────────────────────────────────────────────

/// The fields of a duration add up to it: the whole hours, the minutes and the
/// seconds of a duration counted in hours are all of its seconds, and no field holds
/// what would make one more of the next. A duration counted in minutes has no hours
/// apart, and one counted in seconds nothing but its seconds.
pub proof fn law_a_duration_adds_up(sec: SectionView, clock: Clock, date1904: bool)
    requires
        sec.elapsed is Some,
    ensures
        parts_of(sec, clock, date1904) is Some,
        ({
            let p = parts_of(sec, clock, date1904)->0;
            &&& sec.elapsed == Some(Unit::Hour) ==> p.elapsed * 3600 + p.mi * 60 + p.s
                == clock.total && p.mi < 60 && p.s < 60
            &&& sec.elapsed == Some(Unit::Minute) ==> p.elapsed * 60 + p.s == clock.total && p.mi
                == 0 && p.s < 60
            &&& sec.elapsed == Some(Unit::Second) ==> p.elapsed == clock.total && p.mi == 0 && p.s
                == 0
            &&& p.h == 0
        }),
{
}

/// A duration longer by an hour, a minute or a second counts one more of each and
/// leaves the finer fields alone.
pub proof fn law_an_hour_more(sec: SectionView, a: Clock, b: Clock, date1904: bool)
    requires
        sec.elapsed is Some,
    ensures
        ({
            let p = parts_of(sec, a, date1904)->0;
            let q = parts_of(sec, b, date1904)->0;
            &&& sec.elapsed == Some(Unit::Hour) && b.total == a.total + 3600 ==> q.elapsed
                == p.elapsed + 1 && q.mi == p.mi && q.s == p.s
            &&& sec.elapsed == Some(Unit::Hour) && b.total == a.total + 60 && p.mi < 59
                ==> q.elapsed == p.elapsed && q.mi == p.mi + 1 && q.s == p.s
            &&& sec.elapsed == Some(Unit::Minute) && b.total == a.total + 60 ==> q.elapsed
                == p.elapsed + 1 && q.s == p.s
            &&& sec.elapsed == Some(Unit::Second) && b.total == a.total + 1 ==> q.elapsed
                == p.elapsed + 1
        }),
{
}

/// The fields of a moment: its hours, minutes and seconds are all the seconds of its
/// day, and the date is that of its day. A time that rounding brought to a full day is
/// midnight of the next.
pub proof fn law_a_moment_adds_up(sec: SectionView, clock: Clock, date1904: bool)
    requires
        sec.elapsed is None,
        clock.ok(),
    ensures
        clock.negative <==> parts_of(sec, clock, date1904) is None,
        !clock.negative ==> ({
            let p = parts_of(sec, clock, date1904)->0;
            let day = if clock.secs == 86400 {
                clock.days + 1
            } else {
                clock.days as int
            };
            let date = DateOf { y: p.y as int, m: p.mo as int, d: p.d as int, dow: p.dow as int };
            &&& p.h < 24 && p.mi < 60 && p.s < 60
            &&& clock.secs < 86400 ==> p.h * 3600 + p.mi * 60 + p.s == clock.secs
            &&& clock.secs == 86400 ==> p.h == 0 && p.mi == 0 && p.s == 0
            &&& date == date_of(day, date1904)
            &&& is_date_of(day, date1904, date)
        }),
{
    law_every_serial_has_a_date(clock.days as int, date1904);
    law_every_serial_has_a_date(clock.days + 1, date1904);
}

// ── the texts ────────────────────────────────────────────────────────────────

proof fn lemma_padded(v: nat)
    ensures
        decimal_value(seq!['0'] + decimal(v)) == v,
        all_digits(seq!['0'] + decimal(v)),
        v < 10 ==> decimal(v).len() == 1,
        v >= 10 ==> decimal(v).len() >= 2,
        10 <= v < 100 ==> decimal(v).len() == 2,
    decreases v,
{
    law_decimal_reads_back(v);
    let s = seq!['0'] + decimal(v);
    if v >= 10 {
        lemma_padded(v / 10);
        assert(s.drop_last() =~= seq!['0'] + decimal(v / 10));
        law_decimal_reads_back(v / 10);
        assert(decimal(v).drop_last() =~= decimal(v / 10));
    } else {
        assert(s.drop_last() =~= seq!['0']);
        assert(seq!['0'].drop_last() =~= Seq::<char>::empty());
        assert(decimal_value(seq!['0'].drop_last()) == 0);
        assert(decimal_value(seq!['0']) == 0);
        assert(decimal(v).drop_last() =~= Seq::<char>::empty());
        assert(decimal_value(decimal(v).drop_last()) == 0);
        assert(s.last() == decimal(v).last());
    }
}

/// The text of a number in a date: it reads back as the number, and it has two
/// digits where two are asked for and the number has no more.
pub open spec fn spells(text: Seq<char>, v: int, wide: bool) -> bool {
    &&& all_digits(text)
    &&& decimal_value(text) == v
    &&& v < 10 ==> text.len() == (if wide {
        2nat
    } else {
        1
    })
    &&& 10 <= v < 100 ==> text.len() == 2
}

/// A date's fields are shown as their numbers: reading a field's text back gives the
/// field. A doubled letter asks for two digits. Where a format says which half of the
/// day it is, hours are counted from 1 to 12, and noon and midnight are 12.
pub proof fn law_fields_read_back(p: Parts, sub: Seq<u64>, twelve: bool, w: u8, u: Unit)
    requires
        p.h < 24,
    ensures
        spells(date_piece(Tok::Minute(w), p, sub, twelve), p.mi as int, w >= 2),
        spells(date_piece(Tok::Second(w), p, sub, twelve), p.s as int, w >= 2),
        spells(date_piece(Tok::Elapsed(u, w), p, sub, twelve), p.elapsed as int, w >= 2),
        w <= 2 ==> spells(date_piece(Tok::Day(w), p, sub, twelve), p.d as int, w == 2),
        w <= 2 ==> spells(date_piece(Tok::Month(w), p, sub, twelve), p.mo as int, w == 2),
        spells(date_piece(Tok::Hour(w), p, sub, false), p.h as int, w >= 2),
        p.h == 0 || p.h == 12 ==> spells(date_piece(Tok::Hour(w), p, sub, true), 12, true),
        0 < p.h < 12 ==> spells(date_piece(Tok::Hour(w), p, sub, true), p.h as int, w >= 2),
        p.h > 12 ==> spells(date_piece(Tok::Hour(w), p, sub, true), p.h - 12, w >= 2),
        0 <= p.y < 10000 ==> spells(date_piece(Tok::Year(4), p, sub, twelve), p.y as int, false),
        p.y >= 0 ==> ({
            let t = date_piece(Tok::Year(2), p, sub, twelve);
            t.len() == 2 && spells(t, p.y as int % 100, true)
        }),
{
    lemma_padded(p.mi as nat);
    lemma_padded(p.s as nat);
    lemma_padded(p.elapsed as nat);
    lemma_padded(p.d as nat);
    lemma_padded(p.mo as nat);
    lemma_padded(p.h as nat);
    lemma_padded(12);
    lemma_padded((p.h % 12) as nat);
    lemma_padded((p.y as int % 10000) as nat);
    lemma_padded((p.y as int % 100) as nat);
    law_decimal_reads_back(p.mi as nat);
    law_decimal_reads_back(p.s as nat);
    law_decimal_reads_back(p.elapsed as nat);
    law_decimal_reads_back(p.d as nat);
    law_decimal_reads_back(p.mo as nat);
    law_decimal_reads_back(p.h as nat);
    law_decimal_reads_back(12);
    law_decimal_reads_back((p.h % 12) as nat);
    law_decimal_reads_back((p.y as int % 10000) as nat);
    law_decimal_reads_back((p.y as int % 100) as nat);
}

/// Which half of the day it is: the first until noon, the second from noon on. The
/// short mark is the first letter of the long one.
pub proof fn law_halves_of_the_day(p: Parts, sub: Seq<u64>, twelve: bool)
    ensures
        date_piece(Tok::Ampm(true), p, sub, twelve) == "AM"@ <==> p.h < 12,
        date_piece(Tok::Ampm(true), p, sub, twelve) == "PM"@ <==> p.h >= 12,
        date_piece(Tok::Ampm(false), p, sub, twelve) == date_piece(
            Tok::Ampm(true),
            p,
            sub,
            twelve,
        ).take(1),
{
    reveal_strlit("AM");
    reveal_strlit("PM");
    reveal_strlit("A");
    reveal_strlit("P");
    assert("AM"@[0] != "PM"@[0]);
    assert("AM"@.take(1) =~= "A"@);
    assert("PM"@.take(1) =~= "P"@);
}

/// Months and weekdays by their names. Three letters are the beginning of the name,
/// and so is the one letter that a month may have.
pub proof fn law_names(p: Parts, sub: Seq<u64>, twelve: bool)
    ensures
        ({
            let month = date_piece(Tok::Month(4), p, sub, twelve);
            let day = date_piece(Tok::Day(4), p, sub, twelve);
            &&& p.mo == 1 ==> month == "January"@
            &&& p.mo == 2 ==> month == "February"@
            &&& p.mo == 3 ==> month == "March"@
            &&& p.mo == 4 ==> month == "April"@
            &&& p.mo == 5 ==> month == "May"@
            &&& p.mo == 6 ==> month == "June"@
            &&& p.mo == 7 ==> month == "July"@
            &&& p.mo == 8 ==> month == "August"@
            &&& p.mo == 9 ==> month == "September"@
            &&& p.mo == 10 ==> month == "October"@
            &&& p.mo == 11 ==> month == "November"@
            &&& p.mo == 12 ==> month == "December"@
            &&& p.dow == 0 ==> day == "Sunday"@
            &&& p.dow == 1 ==> day == "Monday"@
            &&& p.dow == 2 ==> day == "Tuesday"@
            &&& p.dow == 3 ==> day == "Wednesday"@
            &&& p.dow == 4 ==> day == "Thursday"@
            &&& p.dow == 5 ==> day == "Friday"@
            &&& p.dow == 6 ==> day == "Saturday"@
            &&& date_piece(Tok::Month(3), p, sub, twelve) == month.take(3)
            &&& date_piece(Tok::Month(5), p, sub, twelve) == month.take(1)
            &&& date_piece(Tok::Day(3), p, sub, twelve) == day.take(3)
        }),
{
}

proof fn lemma_zeros_before(n: nat, s: Seq<char>)
    requires
        s.len() > 0,
        all_digits(s),
    ensures
        all_digits(zeros(n as int) + s),
        decimal_value(zeros(n as int) + s) == decimal_value(s),
    decreases n + s.len(),
{
    let t = zeros(n as int) + s;
    if s.len() == 1 {
        assert(t.drop_last() =~= zeros(n as int));
        assert(s.drop_last() =~= Seq::<char>::empty());
        assert(decimal_value(s.drop_last()) == 0);
        lemma_zeros_are_nothing(n);
        assert(t.last() == s.last());
    } else {
        assert(t.drop_last() =~= zeros(n as int) + s.drop_last());
        lemma_zeros_before(n, s.drop_last());
    }
    assert forall|k: int| 0 <= k < t.len() implies is_digit(#[trigger] t[k]) by {
        if k >= n {
            assert(is_digit(s[k - n]));
        }
    }
}

proof fn lemma_zeros_are_nothing(n: nat)
    ensures
        decimal_value(zeros(n as int)) == 0,
    decreases n,
{
    if n > 0 {
        lemma_zeros_are_nothing((n - 1) as nat);
        assert(zeros(n as int).drop_last() =~= zeros(n - 1));
    }
}

/// The rest of a second is a point and as many digits as the format has zeros, one at
/// the least and nine at the most; they read back as the rest in units of the last.
pub proof fn law_rests_of_a_second(p: Parts, sub: Seq<u64>, twelve: bool, n: u8)
    requires
        sub.len() == 9,
    ensures
        ({
            let t = date_piece(Tok::SubSec(n), p, sub, twelve);
            let places = if n == 0 {
                1int
            } else if n < 9 {
                n as int
            } else {
                9
            };
            &&& t.len() > 1 && t[0] == '.'
            &&& all_digits(t.skip(1))
            &&& decimal_value(t.skip(1)) == sub[places - 1]
            &&& decimal(sub[places - 1] as nat).len() <= places ==> t.len() == places + 1
        }),
{
    let t = date_piece(Tok::SubSec(n), p, sub, twelve);
    let places = if n == 0 {
        1int
    } else if n < 9 {
        n as int
    } else {
        9
    };
    let digits = decimal(sub[places - 1] as nat);
    law_decimal_reads_back(sub[places - 1] as nat);
    let k: nat = if places > digits.len() {
        (places - digits.len()) as nat
    } else {
        0
    };
    lemma_zeros_before(k, digits);
    assert(zeros(places - digits.len()) =~= zeros(k as int));
    assert(t.skip(1) =~= zeros(k as int) + digits);
}

/// What stands between the fields is shown as it is: literal text, a slash, a point, a
/// comma and a percent sign as themselves, and a blank for a character's width.
pub proof fn law_what_stands_between(l: Seq<char>, p: Parts, sub: Seq<u64>, twelve: bool)
    ensures
        date_piece(Tok::Lit(l), p, sub, twelve) == l,
        date_piece(Tok::Slash, p, sub, twelve) == seq!['/'],
        date_piece(Tok::Dot, p, sub, twelve) == seq!['.'],
        date_piece(Tok::Comma, p, sub, twelve) == seq![','],
        date_piece(Tok::Percent, p, sub, twelve) == seq!['%'],
        date_piece(Tok::Skip, p, sub, twelve) == seq![' '],
        date_piece(Tok::Fill, p, sub, twelve) == Seq::<char>::empty(),
{
}

/// The tokens are shown in their order, each after the one before it: what two runs
/// of tokens show is what the first shows and then what the second does.
pub proof fn law_tokens_are_shown_in_order(
    a: Seq<Token>,
    b: Seq<Token>,
    p: Parts,
    sub: Seq<u64>,
    twelve: bool,
)
    ensures
        date_text(a + b, p, sub, twelve) == date_text(a, p, sub, twelve) + date_text(
            b,
            p,
            sub,
            twelve,
        ),
        forall|t: Token| #[trigger]
            date_text(seq![t], p, sub, twelve) == date_piece(t, p, sub, twelve),
    decreases b.len(),
{
    assert forall|t: Token| #[trigger]
        date_text(seq![t], p, sub, twelve) == date_piece(t, p, sub, twelve) by {
        assert(seq![t].drop_last() =~= Seq::<Token>::empty());
        assert(date_text(seq![t].drop_last(), p, sub, twelve) =~= Seq::<char>::empty());
        assert(date_text(seq![t], p, sub, twelve) =~= date_piece(t, p, sub, twelve));
    }
    if b.len() == 0 {
        assert(a + b =~= a);
        assert(date_text(a, p, sub, twelve) + date_text(b, p, sub, twelve) =~= date_text(
            a,
            p,
            sub,
            twelve,
        ));
    } else {
        law_tokens_are_shown_in_order(a, b.drop_last(), p, sub, twelve);
        assert((a + b).drop_last() =~= a + b.drop_last());
        assert((a + b).last() == b.last());
    }
}

/// What is shown of a serial: its fields, or the mark of what cannot be shown where it
/// is no number, or where a date is asked for and it is below zero. A duration below
/// zero is shown as the duration that it is.
pub proof fn law_what_is_shown_of_a_serial(sec: SectionView, c: Clock, date1904: bool)
    ensures
        shown_date(sec, None, date1904) == "########"@,
        sec.elapsed is None && c.negative ==> shown_date(sec, Some(c), date1904) == "########"@,
        sec.elapsed is Some || !c.negative ==> parts_of(sec, c, date1904) is Some && shown_date(
            sec,
            Some(c),
            date1904,
        ) == date_text(sec.toks, parts_of(sec, c, date1904)->0, c.sub@, sec.twelve_hour),
{
}

// ── rounding ─────────────────────────────────────────────────────────────────

proof fn lemma_first_sub(toks: Seq<Token>, i: int)
    requires
        0 <= i <= toks.len(),
    ensures
        i <= first_sub(toks, i) <= toks.len(),
        first_sub(toks, i) < toks.len() ==> toks[first_sub(toks, i)] is SubSec,
        forall|k: int| i <= k < first_sub(toks, i) ==> !((#[trigger] toks[k]) is SubSec),
    decreases toks.len() - i,
{
    if i < toks.len() && !(toks[i] is SubSec) {
        lemma_first_sub(toks, i + 1);
    }
}

/// A value is rounded to the finest field that its format shows, and to no finer nor
/// coarser one.
pub proof fn law_the_finest_field_counts(toks: Seq<Token>, k: int)
    requires
        0 <= k < toks.len(),
    ensures
        toks[k] is SubSec && (forall|j: int| 0 <= j < k ==> !((#[trigger] toks[j]) is SubSec))
            ==> finest_of(toks) == Finest::SubSecond(toks[k]->SubSec_0),
        (forall|j: int| 0 <= j < toks.len() ==> !((#[trigger] toks[j]) is SubSec)) ==> {
            let s = exists|j: int| 0 <= j < toks.len()
                && shows_unit(#[trigger] toks[j], Unit::Second);
            let m = exists|j: int| 0 <= j < toks.len()
                && shows_unit(#[trigger] toks[j], Unit::Minute);
            let h = exists|j: int| 0 <= j < toks.len()
                && shows_unit(#[trigger] toks[j], Unit::Hour);
            &&& finest_of(toks) == Finest::Second <==> s
            &&& finest_of(toks) == Finest::Minute <==> m && !s
            &&& finest_of(toks) == Finest::Hour <==> h && !m && !s
            &&& finest_of(toks) == Finest::Day <==> !h && !m && !s
        },
        forall|n: u8| #[trigger] shows_unit(Tok::Hour(n), Unit::Hour) && shows_unit(
            Tok::Elapsed(Unit::Hour, n),
            Unit::Hour,
        ),
        forall|n: u8| #[trigger] shows_unit(Tok::Minute(n), Unit::Minute) && shows_unit(
            Tok::Elapsed(Unit::Minute, n),
            Unit::Minute,
        ),
        forall|n: u8| #[trigger] shows_unit(Tok::Second(n), Unit::Second) && shows_unit(
            Tok::Elapsed(Unit::Second, n),
            Unit::Second,
        ),
        forall|u: Unit, t: Token|
            t is Year || t is Month || t is Day || t is Lit || t is Ampm ==> !#[trigger] shows_unit(
                t,
                u,
            ),
{
    lemma_first_sub(toks, 0);
}

} // verus!
