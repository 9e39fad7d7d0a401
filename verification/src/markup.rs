//! Well-nested HTML: what a text opens, it closes, innermost first.

use vstd::prelude::*;

verus! {

/// A text without angle brackets can neither open nor end a tag.
#[verifier::opaque]
pub open spec fn plain(s: Seq<char>) -> bool {
    !s.contains('<') && !s.contains('>')
}

pub proof fn lemma_plain_joined(a: Seq<char>, b: Seq<char>)
    requires
        plain(a),
        plain(b),
    ensures
        plain(a + b),
{
    reveal(plain);
    reveal(is_name);
    reveal(are_attrs);
    reveal(balanced);
    assert forall|k: int| 0 <= k < (a + b).len() implies (a + b)[k] != '<' && (a + b)[k]
        != '>' by {
        if k < a.len() {
            assert(a.contains(a[k]));
        } else {
            assert(b.contains(b[k - a.len()]));
        }
    }
}

// ── tags ─────────────────────────────────────────────────────────────────────

/// The elements without content, which no tag closes.
pub open spec fn is_void(name: Seq<char>) -> bool {
    name == "br"@ || name == "img"@ || name == "col"@
}

pub open spec fn open_text(tag: Seq<char>, attrs: Seq<char>) -> Seq<char> {
    seq!['<'] + tag + attrs + seq!['>']
}

pub open spec fn close_text(tag: Seq<char>) -> Seq<char> {
    "</"@ + tag + seq!['>']
}

/// A name that a tag can have.
#[verifier::opaque]
pub open spec fn is_name(tag: Seq<char>) -> bool {
    &&& tag.len() > 0
    &&& tag[0] != '/'
    &&& plain(tag)
    &&& !tag.contains(' ')
}

/// Attributes as they stand in a tag: none, or parted from its name by a space.
#[verifier::opaque]
pub open spec fn are_attrs(s: Seq<char>) -> bool {
    plain(s) && (s.len() == 0 || s[0] == ' ')
}

pub proof fn lemma_no_attrs()
    ensures
        are_attrs(Seq::<char>::empty()),
{
    reveal(plain);
    reveal(are_attrs);
}

pub proof fn lemma_attrs_joined(a: Seq<char>, b: Seq<char>)
    requires
        are_attrs(a),
        are_attrs(b),
    ensures
        are_attrs(a + b),
{
    reveal(plain);
    reveal(is_name);
    reveal(are_attrs);
    reveal(balanced);
    lemma_plain_joined(a, b);
    if a.len() == 0 {
        assert(a + b =~= b);
    }
}

pub open spec fn name_end(t: Seq<char>, i: int) -> int
    decreases t.len() - i,
{
    if 0 <= i < t.len() && t[i] != ' ' {
        name_end(t, i + 1)
    } else {
        i
    }
}

/// The name in the text of a tag.
pub open spec fn tag_name(t: Seq<char>) -> Seq<char> {
    t.take(name_end(t, 0))
}

proof fn lemma_name_end(tag: Seq<char>, attrs: Seq<char>, i: int)
    requires
        is_name(tag),
        are_attrs(attrs),
        0 <= i <= tag.len(),
    ensures
        name_end(tag + attrs, i) == tag.len(),
    decreases tag.len() - i,
{
    reveal(plain);
    reveal(is_name);
    reveal(are_attrs);
    reveal(balanced);
    if i < tag.len() {
        assert(tag.contains(tag[i]));
        lemma_name_end(tag, attrs, i + 1);
    }
}

// ── reading ──────────────────────────────────────────────────────────────────

/// Where a reader of HTML stands: the tags that are open, outermost first, and as much of
/// a tag as has been read, inside one.
pub struct Reading {
    pub open: Seq<Seq<char>>,
    pub tag: Option<Seq<char>>,
}

/// Between two tags.
pub open spec fn between(open: Seq<Seq<char>>) -> Option<Reading> {
    Some(Reading { open, tag: None })
}

/// The open tags after one that was read; `None` where it closes what is not the
/// innermost open one.
pub open spec fn ended(open: Seq<Seq<char>>, t: Seq<char>) -> Option<Reading> {
    if t.len() > 0 && t[0] == '/' {
        if open.len() > 0 && open.last() == t.skip(1) {
            between(open.drop_last())
        } else {
            None
        }
    } else if is_void(tag_name(t)) {
        between(open)
    } else {
        between(open.push(tag_name(t)))
    }
}

pub open spec fn read_char(r: Option<Reading>, c: char) -> Option<Reading> {
    match r {
        None => None,
        Some(r) => match r.tag {
            None => if c == '<' {
                Some(Reading { open: r.open, tag: Some(Seq::empty()) })
            } else if c == '>' {
                None
            } else {
                Some(r)
            },
            Some(t) => if c == '<' {
                None
            } else if c == '>' {
                ended(r.open, t)
            } else {
                Some(Reading { open: r.open, tag: Some(t.push(c)) })
            },
        },
    }
}

pub open spec fn read(r: Option<Reading>, s: Seq<char>) -> Option<Reading>
    decreases s.len(),
{
    if s.len() == 0 {
        r
    } else {
        read_char(read(r, s.drop_last()), s.last())
    }
}

/// Reading `s` where the tags `a` are open leaves the tags `b` open.
pub open spec fn leads(a: Seq<Seq<char>>, s: Seq<char>, b: Seq<Seq<char>>) -> bool {
    read(between(a), s) == between(b)
}

/// Every tag in the text is closed in it, innermost first, and no tag is left unfinished.
#[verifier::opaque]
pub open spec fn balanced(s: Seq<char>) -> bool {
    leads(Seq::empty(), s, Seq::empty())
}

proof fn lemma_read_joined(r: Option<Reading>, a: Seq<char>, b: Seq<char>)
    ensures
        read(r, a + b) == read(read(r, a), b),
    decreases b.len(),
{
    reveal(plain);
    reveal(is_name);
    reveal(are_attrs);
    reveal(balanced);
    if b.len() == 0 {
        assert(a + b =~= a);
    } else {
        lemma_read_joined(r, a, b.drop_last());
        assert((a + b).drop_last() =~= a + b.drop_last());
    }
}

pub proof fn lemma_leads_joined(
    a: Seq<Seq<char>>,
    s: Seq<char>,
    b: Seq<Seq<char>>,
    t: Seq<char>,
    c: Seq<Seq<char>>,
)
    requires
        leads(a, s, b),
        leads(b, t, c),
    ensures
        leads(a, s + t, c),
{
    reveal(plain);
    reveal(is_name);
    reveal(are_attrs);
    reveal(balanced);
    lemma_read_joined(between(a), s, t);
}

pub open spec fn under(o: Seq<Seq<char>>, r: Option<Reading>) -> Option<Reading> {
    match r {
        Some(r) => Some(Reading { open: o + r.open, tag: r.tag }),
        None => None,
    }
}

proof fn lemma_read_under(o: Seq<Seq<char>>, r: Option<Reading>, s: Seq<char>)
    requires
        read(r, s) is Some,
    ensures
        read(under(o, r), s) == under(o, read(r, s)),
    decreases s.len(),
{
    reveal(plain);
    reveal(is_name);
    reveal(are_attrs);
    reveal(balanced);
    if s.len() > 0 {
        let before = read(r, s.drop_last());
        lemma_read_under(o, r, s.drop_last());
        let at = before->0;
        if at.tag is Some && s.last() == '>' {
            let t = at.tag->0;
            if t.len() > 0 && t[0] == '/' {
                assert((o + at.open).drop_last() =~= o + at.open.drop_last());
                assert((o + at.open).last() == at.open.last());
            } else {
                assert((o + at.open).push(tag_name(t)) =~= o + at.open.push(tag_name(t)));
            }
        }
    }
}

/// A balanced text leaves open what was open before it.
pub proof fn lemma_balanced_leads(o: Seq<Seq<char>>, s: Seq<char>)
    requires
        balanced(s),
    ensures
        leads(o, s, o),
{
    reveal(plain);
    reveal(is_name);
    reveal(are_attrs);
    reveal(balanced);
    lemma_read_under(o, between(Seq::empty()), s);
    assert(o + Seq::<Seq<char>>::empty() =~= o);
}

/// Balanced texts one after the other are balanced.
pub proof fn law_balanced_joined(a: Seq<char>, b: Seq<char>)
    requires
        balanced(a),
        balanced(b),
    ensures
        balanced(a + b),
{
    reveal(plain);
    reveal(is_name);
    reveal(are_attrs);
    reveal(balanced);
    lemma_leads_joined(Seq::empty(), a, Seq::empty(), b, Seq::empty());
}

proof fn lemma_read_plain(r: Reading, s: Seq<char>)
    requires
        plain(s),
    ensures
        read(Some(r), s) == Some(
            Reading {
                open: r.open,
                tag: match r.tag {
                    Some(t) => Some(t + s),
                    None => None,
                },
            },
        ),
    decreases s.len(),
{
    reveal(plain);
    reveal(is_name);
    reveal(are_attrs);
    reveal(balanced);
    if s.len() == 0 {
        if r.tag is Some {
            assert(r.tag->0 + s =~= r.tag->0);
        }
    } else {
        assert(s.contains(s.last()));
        assert forall|c: char| s.drop_last().contains(c) implies s.contains(c) by {
            let k = s.drop_last().index_of(c);
            assert(s[k] == c);
        }
        lemma_read_plain(r, s.drop_last());
        if r.tag is Some {
            assert((r.tag->0 + s.drop_last()).push(s.last()) =~= r.tag->0 + s);
        }
    }
}

/// A text without angle brackets is balanced.
pub proof fn lemma_plain_is_balanced(s: Seq<char>)
    requires
        plain(s),
    ensures
        balanced(s),
{
    reveal(plain);
    reveal(is_name);
    reveal(are_attrs);
    reveal(balanced);
    lemma_read_plain(Reading { open: Seq::empty(), tag: None }, s);
}

/// A tag, read from its bracket to its bracket.
pub proof fn lemma_tag(open: Seq<Seq<char>>, t: Seq<char>)
    requires
        plain(t),
    ensures
        read(between(open), seq!['<'] + t + seq!['>']) == ended(open, t),
{
    reveal(plain);
    reveal(is_name);
    reveal(are_attrs);
    reveal(balanced);
    let lt = seq!['<'];
    let gt = seq!['>'];
    assert(lt.drop_last() =~= Seq::<char>::empty());
    assert(gt.drop_last() =~= Seq::<char>::empty());
    let inside = Reading { open, tag: Some(Seq::<char>::empty()) };
    assert(read(between(open), lt.drop_last()) == between(open));
    assert(read(between(open), lt) == Some(inside));
    lemma_read_plain(inside, t);
    assert(Seq::<char>::empty() + t =~= t);
    lemma_read_joined(between(open), lt, t);
    lemma_read_joined(between(open), lt + t, gt);
    let all = Some(Reading { open, tag: Some(t) });
    assert(read(all, gt.drop_last()) == all);
    assert(read(all, gt) == ended(open, t));
}

pub proof fn lemma_open(open: Seq<Seq<char>>, tag: Seq<char>, attrs: Seq<char>)
    requires
        is_name(tag),
        are_attrs(attrs),
    ensures
        !is_void(tag) ==> leads(open, open_text(tag, attrs), open.push(tag)),
        is_void(tag) ==> leads(open, open_text(tag, attrs), open),
{
    reveal(plain);
    reveal(is_name);
    reveal(are_attrs);
    reveal(balanced);
    let t = tag + attrs;
    lemma_plain_joined(tag, attrs);
    lemma_tag(open, t);
    assert(seq!['<'] + t + seq!['>'] =~= open_text(tag, attrs));
    lemma_name_end(tag, attrs, 0);
    assert(tag_name(t) =~= tag);
}

/// A tag that takes no closing one is balanced.
pub proof fn lemma_void(tag: Seq<char>, attrs: Seq<char>)
    requires
        is_name(tag),
        is_void(tag),
        are_attrs(attrs),
    ensures
        balanced(open_text(tag, attrs)),
{
    reveal(balanced);
    lemma_open(Seq::empty(), tag, attrs);
}

pub proof fn lemma_close(open: Seq<Seq<char>>, tag: Seq<char>)
    requires
        is_name(tag),
        open.len() > 0,
        open.last() == tag,
    ensures
        leads(open, close_text(tag), open.drop_last()),
{
    reveal(plain);
    reveal(is_name);
    reveal(are_attrs);
    reveal(balanced);
    reveal_strlit("</");
    let t = seq!['/'] + tag;
    assert(plain(seq!['/']));
    lemma_plain_joined(seq!['/'], tag);
    lemma_tag(open, t);
    assert(seq!['<'] + t + seq!['>'] =~= close_text(tag));
    assert(t.skip(1) =~= tag);
}

/// An element is balanced where its content is.
pub proof fn law_element_is_balanced(tag: Seq<char>, attrs: Seq<char>, content: Seq<char>)
    requires
        is_name(tag),
        !is_void(tag),
        are_attrs(attrs),
        balanced(content),
    ensures
        balanced(open_text(tag, attrs) + content + close_text(tag)),
{
    reveal(plain);
    reveal(is_name);
    reveal(are_attrs);
    reveal(balanced);
    let none = Seq::<Seq<char>>::empty();
    let one = none.push(tag);
    lemma_open(none, tag, attrs);
    lemma_balanced_leads(one, content);
    lemma_leads_joined(none, open_text(tag, attrs), one, content, one);
    lemma_close(one, tag);
    assert(one.drop_last() =~= none);
    lemma_leads_joined(none, open_text(tag, attrs) + content, one, close_text(tag), none);
}

/// The names that are used here are names.
pub proof fn lemma_tags()
    ensures
        is_name("a"@) && !is_void("a"@),
        is_name("br"@) && is_void("br"@),
        is_name("col"@) && is_void("col"@),
        is_name("img"@) && is_void("img"@),
        is_name("colgroup"@) && !is_void("colgroup"@),
        is_name("div"@) && !is_void("div"@),
        is_name("mark"@) && !is_void("mark"@),
        is_name("p"@) && !is_void("p"@),
        is_name("span"@) && !is_void("span"@),
        is_name("table"@) && !is_void("table"@),
        is_name("tbody"@) && !is_void("tbody"@),
        is_name("td"@) && !is_void("td"@),
        is_name("th"@) && !is_void("th"@),
        is_name("thead"@) && !is_void("thead"@),
        is_name("tr"@) && !is_void("tr"@),
{
    reveal(plain);
    reveal(is_name);
    reveal(are_attrs);
    reveal(balanced);
    reveal_strlit("a");
    reveal_strlit("br");
    reveal_strlit("col");
    reveal_strlit("img");
    reveal_strlit("colgroup");
    reveal_strlit("div");
    reveal_strlit("mark");
    reveal_strlit("p");
    reveal_strlit("span");
    reveal_strlit("table");
    reveal_strlit("tbody");
    reveal_strlit("td");
    reveal_strlit("th");
    reveal_strlit("thead");
    reveal_strlit("tr");
    assert("a"@.len() == 1 && "p"@.len() == 1);
    assert("br"@.len() == 2 && "td"@.len() == 2 && "th"@.len() == 2 && "tr"@.len() == 2);
    assert("br"@[0] == 'b' && "td"@[0] == 't' && "th"@[0] == 't' && "tr"@[0] == 't');
    assert("col"@.len() == 3 && "img"@.len() == 3 && "div"@.len() == 3);
    assert("col"@[0] == 'c' && "img"@[0] == 'i' && "div"@[0] == 'd');
    assert("colgroup"@.len() == 8);
}

/// The attributes that are used here have plain names.
pub proof fn lemma_attr_names()
    ensures
        plain("alt"@),
        plain("class"@),
        plain("colspan"@),
        plain("href"@),
        plain("id"@),
        plain("rowspan"@),
        plain("src"@),
        plain("style"@),
        plain("title"@),
{
    reveal(plain);
    reveal(is_name);
    reveal(are_attrs);
    reveal(balanced);
    reveal_strlit("alt");
    reveal_strlit("class");
    reveal_strlit("colspan");
    reveal_strlit("href");
    reveal_strlit("id");
    reveal_strlit("rowspan");
    reveal_strlit("src");
    reveal_strlit("style");
    reveal_strlit("title");
}

} // verus!
