//! Numerals: letters and Roman numbers.

use vstd::prelude::*;
use crate::chars::push_text;

verus! {

pub open spec fn letter(d: int, upper: bool) -> char {
    if upper {
        (d + 65) as u8 as char
    } else {
        (d + 97) as u8 as char
    }
}

/// `a` to `z`, then `aa`, `ab` and so on.
pub open spec fn alpha_text(n: nat, upper: bool) -> Seq<char>
    decreases n,
{
    if n == 0 {
        Seq::empty()
    } else {
        alpha_text(((n - 1) / 26) as nat, upper).push(letter((n - 1) % 26, upper))
    }
}

/// The number that letters spell.
pub open spec fn alpha_value(s: Seq<char>, upper: bool) -> nat
    decreases s.len(),
{
    if s.len() == 0 {
        0
    } else {
        alpha_value(s.drop_last(), upper) * 26 + (s.last() as nat - (if upper {
            64nat
        } else {
            96nat
        })) as nat
    }
}

/// Letters spell the number they were made from.
pub proof fn law_letters_read_back(n: nat, upper: bool)
    ensures
        alpha_value(alpha_text(n, upper), upper) == n,
    decreases n,
{
    if n > 0 {
        law_letters_read_back(((n - 1) / 26) as nat, upper);
        let s = alpha_text(n, upper);
        assert(s.drop_last() =~= alpha_text(((n - 1) / 26) as nat, upper));
    }
}

pub fn alpha(n: u32, upper: bool) -> (r: Vec<char>)
    ensures
        r@ == alpha_text(n as nat, upper),
    decreases n,
{
    if n == 0 {
        return Vec::new();
    }
    let mut v: Vec<char> = alpha((n - 1) / 26, upper);
    let d: u8 = ((n - 1) % 26) as u8;
    if upper {
        v.push((d + 65) as char);
    } else {
        v.push((d + 97) as char);
    }
    v
}

/// One decimal place of a Roman number.
pub open spec fn roman_place(d: int, one: Seq<char>, five: Seq<char>, ten: Seq<char>) -> Seq<char> {
    if d == 1 {
        one
    } else if d == 2 {
        one + one
    } else if d == 3 {
        one + one + one
    } else if d == 4 {
        one + five
    } else if d == 5 {
        five
    } else if d == 6 {
        five + one
    } else if d == 7 {
        five + one + one
    } else if d == 8 {
        five + one + one + one
    } else if d == 9 {
        one + ten
    } else {
        Seq::empty()
    }
}

/// The largest number that Roman numerals write.
pub const MAX_ROMAN: u32 = 3999;

/// A Roman number. Past `MAX_ROMAN` it stays there.
pub open spec fn roman_text(n: nat, upper: bool) -> Seq<char> {
    let v = if n > MAX_ROMAN {
        MAX_ROMAN as int
    } else {
        n as int
    };
    if upper {
        roman_place(v / 1000, "M"@, "M"@, "M"@) + roman_place((v / 100) % 10, "C"@, "D"@, "M"@)
            + roman_place((v / 10) % 10, "X"@, "L"@, "C"@) + roman_place(v % 10, "I"@, "V"@, "X"@)
    } else {
        roman_place(v / 1000, "m"@, "m"@, "m"@) + roman_place((v / 100) % 10, "c"@, "d"@, "m"@)
            + roman_place((v / 10) % 10, "x"@, "l"@, "c"@) + roman_place(v % 10, "i"@, "v"@, "x"@)
    }
}

fn push_place(out: &mut Vec<char>, d: u32, one: &str, five: &str, ten: &str)
    ensures
        final(out)@ == old(out)@ + roman_place(d as int, one@, five@, ten@),
{
    let ghost before = out@;
    if d == 9 {
        push_text(out, one);
        push_text(out, ten);
    } else if d == 4 {
        push_text(out, one);
        push_text(out, five);
    } else if d >= 5 && d <= 8 {
        push_text(out, five);
        if d >= 6 {
            push_text(out, one);
        }
        if d >= 7 {
            push_text(out, one);
        }
        if d == 8 {
            push_text(out, one);
        }
    } else if d >= 1 && d <= 3 {
        push_text(out, one);
        if d >= 2 {
            push_text(out, one);
        }
        if d == 3 {
            push_text(out, one);
        }
    }
    assert(out@ =~= before + roman_place(d as int, one@, five@, ten@));
}

pub fn roman(n: u32, upper: bool) -> (r: Vec<char>)
    ensures
        r@ == roman_text(n as nat, upper),
{
    let v: u32 = if n > MAX_ROMAN {
        MAX_ROMAN
    } else {
        n
    };
    let mut out: Vec<char> = Vec::new();
    if upper {
        push_place(&mut out, v / 1000, "M", "M", "M");
        push_place(&mut out, v / 100 % 10, "C", "D", "M");
        push_place(&mut out, v / 10 % 10, "X", "L", "C");
        push_place(&mut out, v % 10, "I", "V", "X");
    } else {
        push_place(&mut out, v / 1000, "m", "m", "m");
        push_place(&mut out, v / 100 % 10, "c", "d", "m");
        push_place(&mut out, v / 10 % 10, "x", "l", "c");
        push_place(&mut out, v % 10, "i", "v", "x");
    }
    assert(out@ =~= roman_text(n as nat, upper));
    out
}

// ── laws ─────────────────────────────────────────────────────────────────────

/// The Roman numbers of a single place, from which all others are put together.
pub proof fn law_roman_numbers_of_one_place()
    ensures
        roman_text(1, true) == "I"@,
        roman_text(2, true) == "II"@,
        roman_text(3, true) == "III"@,
        roman_text(4, true) == "IV"@,
        roman_text(5, true) == "V"@,
        roman_text(6, true) == "VI"@,
        roman_text(7, true) == "VII"@,
        roman_text(8, true) == "VIII"@,
        roman_text(9, true) == "IX"@,
        roman_text(10, true) == "X"@,
        roman_text(20, true) == "XX"@,
        roman_text(30, true) == "XXX"@,
        roman_text(40, true) == "XL"@,
        roman_text(50, true) == "L"@,
        roman_text(60, true) == "LX"@,
        roman_text(70, true) == "LXX"@,
        roman_text(80, true) == "LXXX"@,
        roman_text(90, true) == "XC"@,
        roman_text(100, true) == "C"@,
        roman_text(200, true) == "CC"@,
        roman_text(300, true) == "CCC"@,
        roman_text(400, true) == "CD"@,
        roman_text(500, true) == "D"@,
        roman_text(600, true) == "DC"@,
        roman_text(700, true) == "DCC"@,
        roman_text(800, true) == "DCCC"@,
        roman_text(900, true) == "CM"@,
        roman_text(1000, true) == "M"@,
        roman_text(2000, true) == "MM"@,
        roman_text(3000, true) == "MMM"@,
        roman_text(1, false) == "i"@,
        roman_text(2, false) == "ii"@,
        roman_text(3, false) == "iii"@,
        roman_text(4, false) == "iv"@,
        roman_text(5, false) == "v"@,
        roman_text(6, false) == "vi"@,
        roman_text(7, false) == "vii"@,
        roman_text(8, false) == "viii"@,
        roman_text(9, false) == "ix"@,
        roman_text(10, false) == "x"@,
        roman_text(20, false) == "xx"@,
        roman_text(30, false) == "xxx"@,
        roman_text(40, false) == "xl"@,
        roman_text(50, false) == "l"@,
        roman_text(60, false) == "lx"@,
        roman_text(70, false) == "lxx"@,
        roman_text(80, false) == "lxxx"@,
        roman_text(90, false) == "xc"@,
        roman_text(100, false) == "c"@,
        roman_text(200, false) == "cc"@,
        roman_text(300, false) == "ccc"@,
        roman_text(400, false) == "cd"@,
        roman_text(500, false) == "d"@,
        roman_text(600, false) == "dc"@,
        roman_text(700, false) == "dcc"@,
        roman_text(800, false) == "dccc"@,
        roman_text(900, false) == "cm"@,
        roman_text(1000, false) == "m"@,
        roman_text(2000, false) == "mm"@,
        roman_text(3000, false) == "mmm"@,
        roman_text(0, true).len() == 0,
        roman_text(0, false).len() == 0,
{
    reveal_strlit("C");
    reveal_strlit("c");
    reveal_strlit("CC");
    reveal_strlit("cc");
    reveal_strlit("CCC");
    reveal_strlit("ccc");
    reveal_strlit("CD");
    reveal_strlit("cd");
    reveal_strlit("CM");
    reveal_strlit("cm");
    reveal_strlit("D");
    reveal_strlit("d");
    reveal_strlit("DC");
    reveal_strlit("dc");
    reveal_strlit("DCC");
    reveal_strlit("dcc");
    reveal_strlit("DCCC");
    reveal_strlit("dccc");
    reveal_strlit("I");
    reveal_strlit("i");
    reveal_strlit("II");
    reveal_strlit("ii");
    reveal_strlit("III");
    reveal_strlit("iii");
    reveal_strlit("IV");
    reveal_strlit("iv");
    reveal_strlit("IX");
    reveal_strlit("ix");
    reveal_strlit("L");
    reveal_strlit("l");
    reveal_strlit("LX");
    reveal_strlit("lx");
    reveal_strlit("LXX");
    reveal_strlit("lxx");
    reveal_strlit("LXXX");
    reveal_strlit("lxxx");
    reveal_strlit("M");
    reveal_strlit("m");
    reveal_strlit("MM");
    reveal_strlit("mm");
    reveal_strlit("MMM");
    reveal_strlit("mmm");
    reveal_strlit("V");
    reveal_strlit("v");
    reveal_strlit("VI");
    reveal_strlit("vi");
    reveal_strlit("VII");
    reveal_strlit("vii");
    reveal_strlit("VIII");
    reveal_strlit("viii");
    reveal_strlit("X");
    reveal_strlit("x");
    reveal_strlit("XC");
    reveal_strlit("xc");
    reveal_strlit("XL");
    reveal_strlit("xl");
    reveal_strlit("XX");
    reveal_strlit("xx");
    reveal_strlit("XXX");
    reveal_strlit("xxx");
    assert(roman_text(1, true) =~= "I"@);
    assert(roman_text(1, false) =~= "i"@);
    assert(roman_text(2, true) =~= "II"@);
    assert(roman_text(2, false) =~= "ii"@);
    assert(roman_text(3, true) =~= "III"@);
    assert(roman_text(3, false) =~= "iii"@);
    assert(roman_text(4, true) =~= "IV"@);
    assert(roman_text(4, false) =~= "iv"@);
    assert(roman_text(5, true) =~= "V"@);
    assert(roman_text(5, false) =~= "v"@);
    assert(roman_text(6, true) =~= "VI"@);
    assert(roman_text(6, false) =~= "vi"@);
    assert(roman_text(7, true) =~= "VII"@);
    assert(roman_text(7, false) =~= "vii"@);
    assert(roman_text(8, true) =~= "VIII"@);
    assert(roman_text(8, false) =~= "viii"@);
    assert(roman_text(9, true) =~= "IX"@);
    assert(roman_text(9, false) =~= "ix"@);
    assert(roman_text(10, true) =~= "X"@);
    assert(roman_text(10, false) =~= "x"@);
    assert(roman_text(20, true) =~= "XX"@);
    assert(roman_text(20, false) =~= "xx"@);
    assert(roman_text(30, true) =~= "XXX"@);
    assert(roman_text(30, false) =~= "xxx"@);
    assert(roman_text(40, true) =~= "XL"@);
    assert(roman_text(40, false) =~= "xl"@);
    assert(roman_text(50, true) =~= "L"@);
    assert(roman_text(50, false) =~= "l"@);
    assert(roman_text(60, true) =~= "LX"@);
    assert(roman_text(60, false) =~= "lx"@);
    assert(roman_text(70, true) =~= "LXX"@);
    assert(roman_text(70, false) =~= "lxx"@);
    assert(roman_text(80, true) =~= "LXXX"@);
    assert(roman_text(80, false) =~= "lxxx"@);
    assert(roman_text(90, true) =~= "XC"@);
    assert(roman_text(90, false) =~= "xc"@);
    assert(roman_text(100, true) =~= "C"@);
    assert(roman_text(100, false) =~= "c"@);
    assert(roman_text(200, true) =~= "CC"@);
    assert(roman_text(200, false) =~= "cc"@);
    assert(roman_text(300, true) =~= "CCC"@);
    assert(roman_text(300, false) =~= "ccc"@);
    assert(roman_text(400, true) =~= "CD"@);
    assert(roman_text(400, false) =~= "cd"@);
    assert(roman_text(500, true) =~= "D"@);
    assert(roman_text(500, false) =~= "d"@);
    assert(roman_text(600, true) =~= "DC"@);
    assert(roman_text(600, false) =~= "dc"@);
    assert(roman_text(700, true) =~= "DCC"@);
    assert(roman_text(700, false) =~= "dcc"@);
    assert(roman_text(800, true) =~= "DCCC"@);
    assert(roman_text(800, false) =~= "dccc"@);
    assert(roman_text(900, true) =~= "CM"@);
    assert(roman_text(900, false) =~= "cm"@);
    assert(roman_text(1000, true) =~= "M"@);
    assert(roman_text(1000, false) =~= "m"@);
    assert(roman_text(2000, true) =~= "MM"@);
    assert(roman_text(2000, false) =~= "mm"@);
    assert(roman_text(3000, true) =~= "MMM"@);
    assert(roman_text(3000, false) =~= "mmm"@);
}

/// A Roman number is that of its thousands, then that of its hundreds, of its tens and of
/// its ones. There is none past the largest.
pub proof fn law_roman_numbers_are_put_together(n: nat, upper: bool)
    ensures
        n <= 3999 ==> roman_text(n, upper) == roman_text(1000 * (n / 1000), upper) + roman_text(
            100 * ((n / 100) % 10),
            upper,
        ) + roman_text(10 * ((n / 10) % 10), upper) + roman_text(n % 10, upper),
        n > 3999 ==> roman_text(n, upper) == roman_text(3999, upper),
{
    if n <= 3999 {
        let a: nat = 1000 * (n / 1000);
        let b: nat = 100 * ((n / 100) % 10);
        let c: nat = 10 * ((n / 10) % 10);
        let d: nat = n % 10;
        assert(a / 1000 == n / 1000 && (a / 100) % 10 == 0 && (a / 10) % 10 == 0 && a % 10 == 0);
        assert(b / 1000 == 0 && (b / 100) % 10 == (n / 100) % 10 && (b / 10) % 10 == 0 && b % 10
            == 0);
        assert(c / 1000 == 0 && (c / 100) % 10 == 0 && (c / 10) % 10 == (n / 10) % 10 && c % 10
            == 0);
        assert(d / 1000 == 0 && (d / 100) % 10 == 0 && (d / 10) % 10 == 0 && d % 10 == n % 10);
        assert(roman_text(n, upper) =~= roman_text(a, upper) + roman_text(b, upper) + roman_text(
            c,
            upper,
        ) + roman_text(d, upper));
    }
}

} // verus!
