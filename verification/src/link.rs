//! Where a link may lead, and the ids that links can lead to.

use vstd::prelude::*;
use crate::chars::{
    ascii_lower_all, chars_of, is_ascii_alpha, is_digit, is_space, lemma_trimmed_already, push_text,
    slice_of, starts_with, string_of, to_lower_all, trim, trimmed,
};
use crate::html::opt_view;

verus! {

/// The longest destination that is kept, in characters.
pub const MAX_LINK: usize = 2048;

/// The longest bookmark name that is kept, in characters.
pub const MAX_BOOKMARK: usize = 128;

/// A character that an id may hold.
pub open spec fn is_id_char(c: char) -> bool {
    is_ascii_alpha(c) || is_digit(c) || c == '-' || c == '_'
}

pub open spec fn folded(s: Seq<char>) -> Seq<char> {
    s.map_values(
        |c: char|
            if is_id_char(c) {
                c
            } else {
                '-'
            },
    )
}

/// The id of a bookmark: what an id may not hold is folded, and a prefix keeps it apart
/// from the ids that a renderer makes up.
pub open spec fn bookmark_of(name: Seq<char>) -> Option<Seq<char>> {
    let t = trimmed(name);
    if t.len() == 0 {
        None
    } else {
        Some(
            "of-bm-"@ + folded(
                t.take(
                    if t.len() < MAX_BOOKMARK {
                        t.len() as int
                    } else {
                        MAX_BOOKMARK as int
                    },
                ),
            ),
        )
    }
}

pub fn bookmark_id(name: &str) -> (r: Option<String>)
    ensures
        opt_view(r) == bookmark_of(name@),
{
    let t: Vec<char> = trim(&chars_of(name));
    if t.len() == 0 {
        return None;
    }
    let n: usize = if t.len() < MAX_BOOKMARK {
        t.len()
    } else {
        MAX_BOOKMARK
    };
    let mut out: Vec<char> = Vec::new();
    push_text(&mut out, "of-bm-");
    let ghost prefix = out@;
    let ghost cut = t@.take(n as int);
    assert(prefix + folded(cut.take(0)) =~= prefix);
    for i in 0..n
        invariant
            n <= t@.len(),
            cut == t@.take(n as int),
            out@ == prefix + folded(cut.take(i as int)),
    {
        let c: char = t[i];
        assert(c == cut[i as int]);
        let ghost before = out@;
        if ('A' <= c && c <= 'Z') || ('a' <= c && c <= 'z') || ('0' <= c && c <= '9') || c == '-'
            || c == '_' {
            out.push(c);
        } else {
            out.push('-');
        }
        assert(out@ =~= prefix + folded(cut.take(i + 1)));
    }
    assert(cut.take(n as int) =~= cut);
    assert(out@ =~= "of-bm-"@ + folded(cut));
    Some(string_of(&out))
}

/// Whether a destination leads to the web or to a mail program.
pub open spec fn is_web(t: Seq<char>) -> bool {
    let l = ascii_lower_all(t);
    "http://"@.is_prefix_of(l) || "https://"@.is_prefix_of(l) || "mailto:"@.is_prefix_of(l)
}

/// What a link may lead to: a page of the web, an address, or a bookmark of the document.
pub open spec fn destination_of(href: Seq<char>) -> Option<Seq<char>> {
    let t = trimmed(href);
    if t.len() == 0 || t.len() > MAX_LINK {
        None
    } else if t[0] == '#' {
        match bookmark_of(t.skip(1)) {
            Some(id) => Some(seq!['#'] + id),
            None => None,
        }
    } else if is_web(t) {
        Some(t)
    } else {
        None
    }
}

pub fn sanitize_href(href: &str) -> (r: Option<String>)
    ensures
        opt_view(r) == destination_of(href@),
{
    let t: Vec<char> = trim(&chars_of(href));
    if t.len() == 0 || t.len() > MAX_LINK {
        return None;
    }
    if t[0] == '#' {
        let rest: Vec<char> = slice_of(&t, 1, t.len());
        assert(rest@ =~= t@.skip(1));
        return match bookmark_id(string_of(&rest).as_str()) {
            Some(id) => {
                let mut v: Vec<char> = Vec::new();
                v.push('#');
                push_text(&mut v, id.as_str());
                assert(v@ =~= seq!['#'] + id@);
                Some(string_of(&v))
            },
            None => None,
        };
    }
    let l: Vec<char> = to_lower_all(&t);
    if starts_with(&l, "http://") || starts_with(&l, "https://") || starts_with(&l, "mailto:") {
        Some(string_of(&t))
    } else {
        None
    }
}

/// A link leads nowhere but to the web, to an address or into the document.
pub proof fn law_links_are_harmless(href: Seq<char>)
    ensures
        destination_of(href) matches Some(d) ==> is_web(d) || (d.len() > 0 && d[0] == '#'),
{
}

/// A link to the web or to an address leads where it says; one to anything else leads
/// nowhere.
pub proof fn law_links_lead_where_they_say(t: Seq<char>, rest: Seq<char>)
    requires
        0 < t.len() <= MAX_LINK,
        !is_space(t[0]),
        !is_space(t.last()),
        t[0] != '#',
    ensures
        ascii_lower_all(t) == "http://"@ + rest ==> destination_of(t) == Some(t),
        ascii_lower_all(t) == "https://"@ + rest ==> destination_of(t) == Some(t),
        ascii_lower_all(t) == "mailto:"@ + rest ==> destination_of(t) == Some(t),
        !"http://"@.is_prefix_of(ascii_lower_all(t)) && !"https://"@.is_prefix_of(
            ascii_lower_all(t),
        ) && !"mailto:"@.is_prefix_of(ascii_lower_all(t)) ==> destination_of(t) is None,
{
    lemma_trimmed_already(t);
    assert(("http://"@ + rest).take("http://"@.len() as int) =~= "http://"@);
    assert(("https://"@ + rest).take("https://"@.len() as int) =~= "https://"@);
    assert(("mailto:"@ + rest).take("mailto:"@.len() as int) =~= "mailto:"@);
}

/// A link to a bookmark leads to the id that the bookmark of that name has.
pub proof fn law_links_find_their_bookmarks(name: Seq<char>)
    requires
        0 < name.len() < MAX_LINK,
        !is_space(name.last()),
    ensures
        destination_of(seq!['#'] + name) is Some <==> bookmark_of(name) is Some,
        bookmark_of(name) is Some ==> destination_of(seq!['#'] + name) == Some(
            seq!['#'] + bookmark_of(name)->0,
        ),
{
    let t = seq!['#'] + name;
    assert(t.last() == name.last());
    lemma_trimmed_already(t);
    assert(t.skip(1) =~= name);
}

/// The id of a bookmark is its name, character for character where an id may hold it.
pub proof fn law_ids_of_bookmarks(name: Seq<char>, k: int)
    requires
        0 <= k < name.len() <= MAX_BOOKMARK,
        !is_space(name[0]),
        !is_space(name.last()),
    ensures
        bookmark_of(name) is Some,
        bookmark_of(name)->0.len() == name.len() + 6,
        bookmark_of(name)->0.take(6) == "of-bm-"@,
        is_ascii_alpha(name[k]) || is_digit(name[k]) || name[k] == '-' || name[k] == '_'
            ==> bookmark_of(name)->0[k + 6] == name[k],
        !(is_ascii_alpha(name[k]) || is_digit(name[k]) || name[k] == '-' || name[k] == '_')
            ==> bookmark_of(name)->0[k + 6] == '-',
{
    lemma_trimmed_already(name);
    reveal_strlit("of-bm-");
    assert(name.take(name.len() as int) =~= name);
    assert(bookmark_of(name)->0.take(6) =~= "of-bm-"@);
}

} // verus!
