//! Font families: the CSS stack that a family becomes, and symbol fonts.

use vstd::prelude::*;
use crate::chars::{ascii_lower_all, chars_of, push_text, string_of, text_is, to_lower_all};

verus! {

/// A character that a quoted family name in a style may hold.
pub open spec fn is_plain(c: char) -> bool {
    c as u32 >= 0x20 && c as u32 != 0x7f && c != '"' && c != '\'' && c != '\\' && c != ';' && c
        != '{' && c != '}' && c != '<' && c != '>'
}

/// The characters of a family name that may stand in a style.
pub open spec fn plain(s: Seq<char>) -> Seq<char>
    decreases s.len(),
{
    if s.len() == 0 {
        Seq::empty()
    } else if is_plain(s.last()) {
        plain(s.drop_last()).push(s.last())
    } else {
        plain(s.drop_last())
    }
}

/// The CSS font stack of a family: free fonts of the same metrics for three of the most
/// common, and the family itself for any other.
pub open spec fn font_stack(raw: Seq<char>) -> Seq<char> {
    if raw == "Times New Roman"@ {
        "\"Liberation Serif\", Tinos, Times, serif"@
    } else if raw == "Arial"@ {
        "\"Liberation Sans\", Arimo, Helvetica, sans-serif"@
    } else if raw == "Courier New"@ {
        "\"Liberation Mono\", Cousine, Courier, monospace"@
    } else {
        seq!['"'] + plain(raw) + "\", sans-serif"@
    }
}

pub fn css_font_stack(raw: &str) -> (r: String)
    ensures
        r@ == font_stack(raw@),
{
    if *raw == *"Times New Roman" {
        return String::from_str("\"Liberation Serif\", Tinos, Times, serif");
    }
    if *raw == *"Arial" {
        return String::from_str("\"Liberation Sans\", Arimo, Helvetica, sans-serif");
    }
    if *raw == *"Courier New" {
        return String::from_str("\"Liberation Mono\", Cousine, Courier, monospace");
    }
    let v: Vec<char> = chars_of(raw);
    let mut out: Vec<char> = Vec::new();
    out.push('"');
    assert(v@.take(0) =~= Seq::<char>::empty());
    assert(out@ =~= seq!['"'] + plain(v@.take(0)));
    for i in 0..v.len()
        invariant
            out@ == seq!['"'] + plain(v@.take(i as int)),
    {
        let c: char = v[i];
        assert(v@.take(i + 1).drop_last() =~= v@.take(i as int));
        assert(v@.take(i + 1).last() == c);
        let ghost before = out@;
        if c as u32 >= 0x20 && c as u32 != 0x7f && c != '"' && c != '\'' && c != '\\' && c != ';'
            && c != '{' && c != '}' && c != '<' && c != '>' {
            out.push(c);
        }
        assert(out@ =~= seq!['"'] + plain(v@.take(i + 1)));
    }
    assert(v@.take(v@.len() as int) =~= v@);
    push_text(&mut out, "\", sans-serif");
    string_of(&out)
}

/// Fonts whose characters are pictures at code points of their own.
pub open spec fn is_symbol(raw: Seq<char>) -> bool {
    let l = ascii_lower_all(raw);
    l == "symbol"@ || l == "wingdings"@ || l == "wingdings 2"@ || l == "wingdings 3"@ || l
        == "webdings"@
}

pub fn is_symbol_font(raw: &str) -> (r: bool)
    ensures
        r == is_symbol(raw@),
{
    let l: Vec<char> = to_lower_all(&chars_of(raw));
    text_is(&l, "symbol") || text_is(&l, "wingdings") || text_is(&l, "wingdings 2") || text_is(
        &l,
        "wingdings 3",
    ) || text_is(&l, "webdings")
}

/// The bullets of symbol fonts, as any font has them.
pub open spec fn symbol_of(c: char) -> char {
    if c == '\u{f0b7}' {
        '\u{2022}'
    } else if c == '\u{f0a7}' {
        '\u{25aa}'
    } else {
        c
    }
}

pub fn remap(c: char) -> (r: char)
    ensures
        r == symbol_of(c),
{
    if c == '\u{f0b7}' {
        '\u{2022}'
    } else if c == '\u{f0a7}' {
        '\u{25aa}'
    } else {
        c
    }
}

/// A font stack cannot leave the declaration it stands in.
pub proof fn law_font_stack_is_contained(raw: Seq<char>)
    ensures
        !font_stack(raw).contains(';'),
        !font_stack(raw).contains('<'),
        !font_stack(raw).contains('>'),
{
    reveal_strlit("\"Liberation Serif\", Tinos, Times, serif");
    reveal_strlit("\"Liberation Sans\", Arimo, Helvetica, sans-serif");
    reveal_strlit("\"Liberation Mono\", Cousine, Courier, monospace");
    reveal_strlit("\", sans-serif");
    lemma_plain(raw);
    let tail = "\", sans-serif"@;
    let s = seq!['"'] + plain(raw) + tail;
    assert forall|k: int| 0 <= k < s.len() implies #[trigger] s[k] != ';' && s[k] != '<'
        && s[k] != '>' by {
        if 1 <= k < 1 + plain(raw).len() {
            assert(s[k] == plain(raw)[k - 1]);
        } else if k >= 1 + plain(raw).len() {
            assert(s[k] == tail[k - 1 - plain(raw).len()]);
        }
    }
}

proof fn lemma_plain(s: Seq<char>)
    ensures
        forall|k: int| 0 <= k < plain(s).len() ==> is_plain(#[trigger] plain(s)[k]),
    decreases s.len(),
{
    if s.len() > 0 {
        lemma_plain(s.drop_last());
        let p = plain(s);
        assert forall|k: int| 0 <= k < p.len() implies is_plain(#[trigger] p[k]) by {
            if k < plain(s.drop_last()).len() {
                assert(p[k] == plain(s.drop_last())[k]);
            }
        }
    }
}

} // verus!
