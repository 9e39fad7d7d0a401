//! The codes that the number styles of a document come to.

use vstd::prelude::*;
use crate::chars::{byte_len, lemma_byte_len_joined, lemma_byte_len_most, trimmed};
use crate::numfmt::digits::repeated;
use crate::odf::numstyle::{
    code_of, coded, cond_of, def_of, fraction_code, kind_named, mapped_section, number_code, part_code,
    parts_code, scientific_code, with_digits, without_space, Cond, DefRows, DefView, Kind,
};
use crate::xml::Tree;

verus! {

proof fn lemma_coded(s: Seq<char>, piece: Seq<char>)
    requires
        byte_len(s) + 4 * piece.len() <= 120,
    ensures
        coded(s, piece) == s + piece,
{
    lemma_byte_len_most(piece);
}

/// Whether an element asks for the long form.
pub open spec fn long(c: Tree) -> bool {
    c.attr("style"@) is Some && trimmed(c.attr("style"@)->0) == "long"@
}

proof fn lemma_part_names(a: Seq<char>)
    ensures
        a == "year"@ || a == "month"@ || a == "day"@ || a == "day-of-week"@ || a == "hours"@ || a
            == "minutes"@ || a == "am-pm"@ || a == "text-content"@ || a == "seconds"@ ==> a
            != "text"@ && a != "currency-symbol"@ && a != "number"@ && a != "scientific-number"@
                && a
            != "fraction"@,
        "month"@ != "year"@ && "day"@ != "year"@ && "day"@ != "month"@ && "day-of-week"@ != "year"@
            && "day-of-week"@ != "month"@ && "day-of-week"@ != "day"@ && "hours"@ != "year"@
            && "hours"@ != "month"@ && "hours"@ != "day"@ && "hours"@ != "day-of-week"@,
        "minutes"@ != "year"@ && "minutes"@ != "month"@ && "minutes"@ != "day"@ && "minutes"@
            != "day-of-week"@ && "minutes"@ != "hours"@,
        "seconds"@ != "year"@ && "seconds"@ != "month"@ && "seconds"@ != "day"@ && "seconds"@
            != "day-of-week"@ && "seconds"@ != "hours"@ && "seconds"@ != "minutes"@,
        "am-pm"@ != "year"@ && "am-pm"@ != "month"@ && "am-pm"@ != "day"@ && "am-pm"@
            != "day-of-week"@ && "am-pm"@ != "hours"@ && "am-pm"@ != "minutes"@ && "am-pm"@
            != "seconds"@,
        "text-content"@ != "year"@ && "text-content"@ != "month"@ && "text-content"@ != "day"@
            && "text-content"@ != "day-of-week"@ && "text-content"@ != "hours"@ && "text-content"@
            != "minutes"@ && "text-content"@ != "seconds"@ && "text-content"@ != "am-pm"@
            && "text-content"@ != "boolean"@,
{
    reveal_strlit("year");
    reveal_strlit("month");
    reveal_strlit("day");
    reveal_strlit("day-of-week");
    reveal_strlit("hours");
    reveal_strlit("minutes");
    reveal_strlit("seconds");
    reveal_strlit("am-pm");
    reveal_strlit("text-content");
    reveal_strlit("text");
    reveal_strlit("currency-symbol");
    reveal_strlit("number");
    reveal_strlit("scientific-number");
    reveal_strlit("fraction");
    reveal_strlit("boolean");
    assert("year"@.len() == 4 && "month"@.len() == 5 && "day"@.len() == 3 && "day-of-week"@.len()
        == 11 && "hours"@.len() == 5 && "minutes"@.len() == 7 && "seconds"@.len() == 7
        && "am-pm"@.len() == 5 && "text-content"@.len() == 12 && "text"@.len() == 4
        && "currency-symbol"@.len() == 15 && "number"@.len() == 6 && "scientific-number"@.len()
        == 17 && "fraction"@.len() == 8 && "boolean"@.len() == 7);
    assert("year"@[0] == 'y' && "month"@[0] == 'm' && "hours"@[0] == 'h' && "minutes"@[0] == 'm'
        && "seconds"@[0] == 's' && "am-pm"@[0] == 'a' && "text"@[0] == 't');
}

/// What each part of a date or a time comes to: the letters of the part, more of them in
/// its long form, and names of months where they are asked for.
pub proof fn law_parts_of_dates(s: Seq<char>, c: Tree, percent: bool, boolean: Seq<char>)
    requires
        byte_len(s) <= 80,
    ensures
        ({
            let t = part_code(s, c, percent, boolean);
            let named = c.attr_bool("textual"@) == Some(true);
            &&& c.name == "year"@ ==> t == s + (if long(c) { "yyyy"@ } else { "yy"@ })
            &&& c.name == "month"@ && named ==> t == s + (if long(c) { "mmmm"@ } else { "mmm"@ })
            &&& c.name == "month"@ && !named ==> t == s + (if long(c) { "mm"@ } else { "m"@ })
            &&& c.name == "day"@ ==> t == s + (if long(c) { "dd"@ } else { "d"@ })
            &&& c.name == "day-of-week"@ ==> t == s + (if long(c) { "dddd"@ } else { "ddd"@ })
            &&& c.name == "hours"@ ==> t == s + (if long(c) { "hh"@ } else { "h"@ })
            &&& c.name == "minutes"@ ==> t == s + (if long(c) { "mm"@ } else { "m"@ })
            &&& c.name == "seconds"@ && c.attr_u32("decimal-places"@) is None ==> t == s + (if long(
                c,
            ) { "ss"@ } else { "s"@ })
            &&& c.name == "am-pm"@ ==> t == s + "AM/PM"@
            &&& c.name == "text-content"@ ==> t == s + "@"@
        }),
{
    lemma_part_names(c.name);
    reveal_strlit("yyyy");
    reveal_strlit("yy");
    reveal_strlit("mmmm");
    reveal_strlit("mmm");
    reveal_strlit("mm");
    reveal_strlit("m");
    reveal_strlit("dddd");
    reveal_strlit("ddd");
    reveal_strlit("dd");
    reveal_strlit("d");
    reveal_strlit("hh");
    reveal_strlit("h");
    reveal_strlit("ss");
    reveal_strlit("s");
    reveal_strlit("AM/PM");
    reveal_strlit("@");
    lemma_coded(s, "yyyy"@);
    lemma_coded(s, "yy"@);
    lemma_coded(s, "mmmm"@);
    lemma_coded(s, "mmm"@);
    lemma_coded(s, "mm"@);
    lemma_coded(s, "m"@);
    lemma_coded(s, "dddd"@);
    lemma_coded(s, "ddd"@);
    lemma_coded(s, "dd"@);
    lemma_coded(s, "d"@);
    lemma_coded(s, "hh"@);
    lemma_coded(s, "h"@);
    lemma_coded(s, "ss"@);
    lemma_coded(s, "s"@);
    lemma_coded(s, "AM/PM"@);
    lemma_coded(s, "@"@);
}

proof fn lemma_digits(s: Seq<char>, ch: char, n: u32)
    requires
        byte_len(s) + n <= 120,
        n <= 20,
    ensures
        with_digits(s, ch, n) == s + repeated(ch, n as int),
{
}

/// What a number comes to: a mark for groups of thousands where they are asked for, a zero
/// for each digit before the point that is always shown, and a point with a zero for each
/// digit behind it.
pub proof fn law_numbers_as_codes(s: Seq<char>, e: Tree)
    requires
        byte_len(s) <= 8,
    ensures
        ({
            let i = e.attr_u32("min-integer-digits"@);
            let d = e.attr_u32("decimal-places"@);
            let ints = if i is Some {
                i->0
            } else {
                1
            };
            let decs = if d is Some {
                d->0
            } else {
                0
            };
            let grouped = e.attr_bool("grouping"@) == Some(true);
            let head = s + (if grouped { "#,##"@ } else { Seq::empty() });
            &&& 1 <= ints <= 8 && decs == 0 ==> number_code(s, e) == head + repeated(
                '0',
                ints as int,
            )
            &&& 1 <= ints <= 8 && 1 <= decs <= 8 ==> number_code(s, e) == head + repeated(
                '0',
                ints as int,
            ) + "."@ + repeated('0', decs as int)
            &&& ints == 0 && decs == 0 && !grouped ==> number_code(s, e) == s + "#"@
        }),
{
    let i = e.attr_u32("min-integer-digits"@);
    let d = e.attr_u32("decimal-places"@);
    let ints = if i is Some {
        i->0
    } else {
        1
    };
    let decs = if d is Some {
        d->0
    } else {
        0
    };
    let grouped = e.attr_bool("grouping"@) == Some(true);
    reveal_strlit("#,##");
    reveal_strlit("#");
    reveal_strlit(".");
    lemma_coded(s, "#,##"@);
    lemma_coded(s, "#"@);
    lemma_byte_len_joined(s, "#,##"@);
    lemma_byte_len_most("#,##"@);
    let head = s + (if grouped { "#,##"@ } else { Seq::empty() });
    assert(s + Seq::<char>::empty() =~= s);
    assert(byte_len(head) <= 24);
    if 1 <= ints <= 8 {
        lemma_digits(head, '0', ints);
        let b = head + repeated('0', ints as int);
        lemma_byte_len_joined(head, repeated('0', ints as int));
        lemma_byte_len_most(repeated('0', ints as int));
        lemma_coded(b, "."@);
        lemma_byte_len_joined(b, "."@);
        lemma_byte_len_most("."@);
        if 1 <= decs <= 8 {
            lemma_digits(b + "."@, '0', decs);
        }
    }
}

/// What a number with an exponent comes to: zeros for the digits before and behind the
/// point, then the exponent with its sign and a zero for each of its digits.
pub proof fn law_exponents_as_codes(s: Seq<char>, e: Tree, ints: u32, decs: u32, exps: u32)
    requires
        byte_len(s) <= 8,
        e.attr_u32("min-integer-digits"@) == Some(ints),
        e.attr_u32("decimal-places"@) == Some(decs),
        e.attr_u32("min-exponent-digits"@) == Some(exps),
        1 <= ints <= 8,
        1 <= decs <= 8,
        1 <= exps <= 8,
    ensures
        scientific_code(s, e) == s + repeated('0', ints as int) + "."@ + repeated('0', decs as int)
            + (if e.attr_bool("forced-exponent-sign"@) == Some(false) {
            "E-"@
        } else {
            "E+"@
        }) + repeated('0', exps as int),
{
    reveal_strlit(".");
    reveal_strlit("E-");
    reveal_strlit("E+");
    let a = s + repeated('0', ints as int);
    lemma_digits(s, '0', ints);
    lemma_byte_len_joined(s, repeated('0', ints as int));
    lemma_byte_len_most(repeated('0', ints as int));
    lemma_coded(a, "."@);
    let b = a + "."@;
    lemma_byte_len_joined(a, "."@);
    lemma_byte_len_most("."@);
    lemma_digits(b, '0', decs);
    let c = b + repeated('0', decs as int);
    lemma_byte_len_joined(b, repeated('0', decs as int));
    lemma_byte_len_most(repeated('0', decs as int));
    let sign = if e.attr_bool("forced-exponent-sign"@) == Some(false) {
        "E-"@
    } else {
        "E+"@
    };
    lemma_coded(c, sign);
    lemma_byte_len_joined(c, sign);
    lemma_byte_len_most(sign);
    lemma_digits(c + sign, '0', exps);
}

/// What a fraction comes to: zeros and a space for the whole part where it is shown, then
/// a place for each digit of the numerator and of the denominator, with a stroke between.
pub proof fn law_fractions_as_codes(s: Seq<char>, e: Tree, ints: u32, nums: u32, dens: u32)
    requires
        byte_len(s) <= 8,
        e.attr_u32("min-integer-digits"@) == Some(ints),
        e.attr_u32("min-numerator-digits"@) == Some(nums),
        e.attr_u32("min-denominator-digits"@) == Some(dens),
        e.attr_u32("denominator-value"@) is None,
        ints <= 8,
        1 <= nums <= 8,
        1 <= dens <= 8,
    ensures
        fraction_code(s, e) == s + (if ints > 0 {
            repeated('0', ints as int) + " "@
        } else {
            Seq::empty()
        }) + repeated('?', nums as int) + "/"@ + repeated('?', dens as int),
{
    reveal_strlit(" ");
    reveal_strlit("/");
    let z = repeated('0', ints as int);
    let n = repeated('?', nums as int);
    lemma_digits(s, '0', ints);
    lemma_byte_len_joined(s, z);
    lemma_byte_len_most(z);
    lemma_coded(s + z, " "@);
    lemma_byte_len_joined(s + z, " "@);
    lemma_byte_len_most(" "@);
    let whole = if ints > 0 {
        z + " "@
    } else {
        Seq::empty()
    };
    let a = s + whole;
    assert(s + Seq::<char>::empty() =~= s);
    assert(s + (z + " "@) =~= s + z + " "@);
    lemma_digits(a, '?', nums);
    lemma_byte_len_joined(a, n);
    lemma_byte_len_most(n);
    lemma_coded(a + n, "/"@);
    lemma_byte_len_joined(a + n, "/"@);
    lemma_byte_len_most("/"@);
    lemma_digits(a + n + "/"@, '?', dens);
}

/// The parts of a style come one behind the other.
pub proof fn law_parts_come_in_order(
    s: Seq<char>,
    v: Seq<Tree>,
    e: Tree,
    percent: bool,
    boolean: Seq<char>,
)
    ensures
        parts_code(s, v.push(e), percent, boolean) == part_code(
            parts_code(s, v, percent, boolean),
            e,
            percent,
            boolean,
        ),
        parts_code(s, Seq::empty(), percent, boolean) == s,
{
    assert(v.push(e).drop_last() =~= v);
}

/// What a style's condition is on: values that are not below zero, values below it, or
/// zero. Any other condition counts for nothing.
pub proof fn law_conditions(v: Seq<char>)
    ensures
        ({
            let s = without_space(v);
            &&& cond_of(v) == Some(Cond::Positive) <==> s == "value()>=0"@ || s == "value()>0"@
            &&& cond_of(v) == Some(Cond::Negative) <==> s == "value()<0"@ || s == "value()<=0"@
            &&& cond_of(v) == Some(Cond::Zero) <==> s == "value()=0"@ || s == "value()==0"@
        }),
{
    reveal_strlit("value()>=0");
    reveal_strlit("value()>0");
    reveal_strlit("value()<0");
    reveal_strlit("value()<=0");
    reveal_strlit("value()=0");
    reveal_strlit("value()==0");
    assert("value()>=0"@[7] == '>' && "value()>0"@[7] == '>' && "value()<0"@[7] == '<'
        && "value()<=0"@[7] == '<' && "value()=0"@[7] == '=' && "value()==0"@[7] == '=');
}

/// The kinds of styles by the names of their elements.
pub proof fn law_kinds_by_name(v: Seq<char>)
    ensures
        kind_named(v) == Some(Kind::Number) <==> v == "number-style"@,
        kind_named(v) == Some(Kind::Percentage) <==> v == "percentage-style"@,
        kind_named(v) == Some(Kind::Currency) <==> v == "currency-style"@,
        kind_named(v) == Some(Kind::Date) <==> v == "date-style"@,
        kind_named(v) == Some(Kind::Time) <==> v == "time-style"@,
        kind_named(v) == Some(Kind::Boolean) <==> v == "boolean-style"@,
        kind_named(v) == Some(Kind::Text) <==> v == "text-style"@,
{
    reveal_strlit("number-style");
    reveal_strlit("percentage-style");
    reveal_strlit("currency-style");
    reveal_strlit("date-style");
    reveal_strlit("time-style");
    reveal_strlit("boolean-style");
    reveal_strlit("text-style");
    assert("number-style"@[0] == 'n' && "percentage-style"@[0] == 'p' && "currency-style"@[0] == 'c'
        && "date-style"@[0] == 'd' && "time-style"@[0] == 't' && "boolean-style"@[0] == 'b'
        && "text-style"@[0] == 't' && "time-style"@[1] == 'i' && "text-style"@[1] == 'e');
}

/// A style without conditions has one section. Where a condition hands the values that are
/// not below zero to another style, that style's section comes first and its own is for
/// those below; where one hands over the values below zero, the other's comes second; and
/// the section for zero is the third.
pub proof fn law_sections_of_a_style(defs: DefRows, d: DefView)
    requires
        !d.text,
    ensures
        ({
            let p = mapped_section(defs, d, Cond::Positive);
            let n = mapped_section(defs, d, Cond::Negative);
            let z = mapped_section(defs, d, Cond::Zero);
            let c = code_of(defs, d);
            &&& p is None && n is None && z is None && d.neg is None && d.zero is None ==> c
                == d.section
            &&& p is Some && n is None && z is None && d.zero is None ==> c == p->0 + seq![';']
                + d.section
            &&& p is None && n is Some && z is None && d.zero is None ==> c == d.section + seq![
                ';',
            ] + n->0
            &&& p is Some && n is Some && z is None && d.zero is None ==> c == p->0 + seq![';']
                + n->0
            &&& p is Some && n is Some && z is Some ==> c == p->0 + seq![';'] + n->0 + seq![';']
                + z->0
            &&& p is None && n is Some && z is Some ==> c == d.section + seq![';'] + n->0 + seq![
                ';',
            ] + z->0
            &&& p is Some && n is None && z is Some ==> c == p->0 + seq![';'] + d.section + seq![
                ';',
            ] + z->0
        }),
{
}

/// A truth value is written as its word: any value but zero is true, and zero is false.
pub proof fn law_truth_values(e: Tree)
    ensures
        def_of(e, Kind::Boolean).neg == Some(def_of(e, Kind::Boolean).section),
        def_of(e, Kind::Boolean).zero is Some,
        def_of(e, Kind::Number).neg is None && def_of(e, Kind::Number).zero is None,
        def_of(e, Kind::Text).text && !def_of(e, Kind::Number).text && !def_of(e, Kind::Date).text,
        e.child("text-properties"@) is None && e.elems().len() == 1 && e.elems()[0].name
            == "boolean"@ ==> def_of(e, Kind::Boolean).section == "\"TRUE\""@ && def_of(
            e,
            Kind::Boolean,
        ).zero == Some("\"FALSE\""@),
{
    if e.child("text-properties"@) is None && e.elems().len() == 1 && e.elems()[0].name
        == "boolean"@ {
        let none = Seq::<char>::empty();
        let v = e.elems();
        assert(v.drop_last() =~= Seq::<Tree>::empty());
        assert(parts_code(none, v.drop_last(), false, "TRUE"@) == none);
        assert(parts_code(none, v.drop_last(), false, "FALSE"@) == none);
        lemma_boolean_name();
        lemma_word("TRUE"@);
        lemma_word("FALSE"@);
        reveal_strlit("TRUE");
        reveal_strlit("FALSE");
        reveal_strlit("\"TRUE\"");
        reveal_strlit("\"FALSE\"");
        assert(crate::odf::numstyle::quoted("TRUE"@) =~= "\"TRUE\""@);
        assert(crate::odf::numstyle::quoted("FALSE"@) =~= "\"FALSE\""@);
    }
}

proof fn lemma_boolean_name()
    ensures
        "boolean"@ != "text"@ && "boolean"@ != "currency-symbol"@ && "boolean"@ != "number"@
            && "boolean"@ != "scientific-number"@ && "boolean"@ != "fraction"@ && "boolean"@
            != "year"@ && "boolean"@ != "month"@ && "boolean"@ != "day"@ && "boolean"@
            != "day-of-week"@ && "boolean"@ != "hours"@ && "boolean"@ != "minutes"@ && "boolean"@
            != "seconds"@ && "boolean"@ != "am-pm"@,
{
    reveal_strlit("boolean");
    reveal_strlit("text");
    reveal_strlit("currency-symbol");
    reveal_strlit("number");
    reveal_strlit("scientific-number");
    reveal_strlit("fraction");
    reveal_strlit("year");
    reveal_strlit("month");
    reveal_strlit("day");
    reveal_strlit("day-of-week");
    reveal_strlit("hours");
    reveal_strlit("minutes");
    reveal_strlit("seconds");
    reveal_strlit("am-pm");
    assert("boolean"@[0] == 'b');
    assert("text"@[0] == 't' && "currency-symbol"@[0] == 'c' && "number"@[0] == 'n'
        && "scientific-number"@[0] == 's' && "fraction"@[0] == 'f' && "year"@[0] == 'y'
            && "month"@[0]
        == 'm' && "day"@[0] == 'd' && "day-of-week"@[0] == 'd' && "hours"@[0] == 'h'
            && "minutes"@[0]
        == 'm' && "seconds"@[0] == 's' && "am-pm"@[0] == 'a');
}

proof fn lemma_word(w: Seq<char>)
    requires
        w == "TRUE"@ || w == "FALSE"@,
    ensures
        crate::odf::numstyle::texted(Seq::empty(), w, false, false)
            == crate::odf::numstyle::quoted(w),
{
    reveal_strlit("TRUE");
    reveal_strlit("FALSE");
    let none = Seq::<char>::empty();
    lemma_byte_len_most(none);
    lemma_fits(w, 118);
    assert(w.take(w.len() as int) =~= w);
    assert(w.skip(w.len() as int) =~= none);
    assert(none + crate::odf::numstyle::quoted(w) =~= crate::odf::numstyle::quoted(w));
    assert(crate::odf::numstyle::texted(
        none + crate::odf::numstyle::quoted(w),
        none,
        false,
        true,
    ) == none + crate::odf::numstyle::quoted(w));
}

proof fn lemma_fits(w: Seq<char>, left: int)
    requires
        left >= 4 * w.len(),
        forall|k: int| 0 <= k < w.len() ==> #[trigger] w[k] != '"',
    ensures
        crate::odf::numstyle::fitting(w, false, left) == w.len(),
        crate::odf::numstyle::plain_run(w, false) == w.len(),
    decreases w.len(),
{
    if w.len() > 0 {
        assert(w[0] != '"');
        assert forall|k: int| 0 <= k < w.skip(1).len() implies #[trigger] w.skip(1)[k] != '"' by {
            assert(w.skip(1)[k] == w[k + 1]);
        }
        lemma_fits(w.skip(1), left - crate::chars::char_bytes(w[0]));
    }
}

} // verus!
