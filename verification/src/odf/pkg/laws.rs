//! What a package is, and which of its entries a reference names.

use vstd::prelude::*;
use crate::chars::{byte_len, is_space, lemma_trimmed_already, trimmed};
use crate::numfmt::tokens::until;
use crate::odf::pkg::{
    class_named, climbs, encrypts_body, first_class, is_control, is_picture, joined,
    manifest_encrypts, mime_class, path_end, pictures_in, real_segments, sanitized, segments,
    without_root, Class, MAX_HREF_BYTES,
};
use crate::xml::{document, Tree};

verus! {

// ── what a document is ───────────────────────────────────────────────────────

/// A document is what its body holds, by name: text, a spreadsheet or a presentation.
pub proof fn law_classes_by_name(v: Seq<char>)
    ensures
        class_named(v) == Some(Class::Text) <==> v == "text"@,
        class_named(v) == Some(Class::Spreadsheet) <==> v == "spreadsheet"@,
        class_named(v) == Some(Class::Presentation) <==> v == "presentation"@,
{
    reveal_strlit("text");
    reveal_strlit("spreadsheet");
    reveal_strlit("presentation");
    assert("text"@[0] == 't' && "spreadsheet"@[0] == 's' && "presentation"@[0] == 'p');
}

/// The first element of a body that is of a known kind decides.
pub proof fn law_the_first_known_body_decides(v: Seq<Tree>, k: int)
    requires
        0 <= k < v.len(),
        class_named(v[k].name) is Some,
        forall|j: int| 0 <= j < k ==> class_named((#[trigger] v[j]).name) is None,
    ensures
        first_class(v) == class_named(v[k].name),
    decreases k,
{
    if k > 0 {
        assert(class_named(v[0].name) is None);
        assert forall|j: int| 0 <= j < k - 1 implies class_named(
            (#[trigger] v.skip(1)[j]).name,
        ) is None by {
            assert(v.skip(1)[j] == v[j + 1]);
        }
        assert(v.skip(1)[k - 1] == v[k]);
        law_the_first_known_body_decides(v.skip(1), k - 1);
    }
}

/// The media types of documents and of their templates.
pub proof fn law_classes_by_media_type(mime: Seq<char>)
    ensures
        trimmed(mime) == "application/vnd.oasis.opendocument.text"@ || trimmed(mime)
            == "application/vnd.oasis.opendocument.text-template"@ ==> mime_class(mime) == Some(
            Class::Text,
        ),
        trimmed(mime) == "application/vnd.oasis.opendocument.spreadsheet"@ || trimmed(mime)
            == "application/vnd.oasis.opendocument.spreadsheet-template"@ ==> mime_class(mime)
            == Some(Class::Spreadsheet),
        trimmed(mime) == "application/vnd.oasis.opendocument.presentation"@ || trimmed(mime)
            == "application/vnd.oasis.opendocument.presentation-template"@ ==> mime_class(mime)
            == Some(Class::Presentation),
{
    reveal_strlit("application/vnd.oasis.opendocument.text");
    reveal_strlit("application/vnd.oasis.opendocument.text-template");
    reveal_strlit("application/vnd.oasis.opendocument.spreadsheet");
    reveal_strlit("application/vnd.oasis.opendocument.spreadsheet-template");
    reveal_strlit("application/vnd.oasis.opendocument.presentation");
    reveal_strlit("application/vnd.oasis.opendocument.presentation-template");
    reveal_strlit("-template");
    let a = "application/vnd.oasis.opendocument.text"@;
    let b = "application/vnd.oasis.opendocument.spreadsheet"@;
    let c = "application/vnd.oasis.opendocument.presentation"@;
    assert(a.last() == 't' && b.last() == 't' && c.last() == 'n' && "-template"@.last() == 'e');
    assert(a.len() == 39 && b.len() == 46 && c.len() == 47 && "-template"@.len() == 9);
    assert(!"-template"@.is_suffix_of(a) && !"-template"@.is_suffix_of(b)
        && !"-template"@.is_suffix_of(c));
    let d = "application/vnd.oasis.opendocument.text-template"@;
    let e = "application/vnd.oasis.opendocument.spreadsheet-template"@;
    let f = "application/vnd.oasis.opendocument.presentation-template"@;
    assert("-template"@.is_suffix_of(d) && d.take(39) =~= a);
    assert("-template"@.is_suffix_of(e) && e.take(46) =~= b);
    assert("-template"@.is_suffix_of(f) && f.take(47) =~= c);
}

/// A package is encrypted where its manifest says so of the body.
pub proof fn law_what_says_that_a_body_is_encrypted(root: Tree, k: int)
    requires
        0 <= k < root.elems().len(),
    ensures
        ({
            let e = root.elems()[k];
            e.name == "file-entry"@ && (e.attr("full-path"@) == Some("content.xml"@) || e.attr(
                "full-path"@,
            ) == Some("/content.xml"@)) && e.child("encryption-data"@) is Some
                ==> manifest_encrypts(root)
        }),
{
    let e = root.elems()[k];
    reveal_strlit("content.xml");
    reveal_strlit("/content.xml");
    assert("content.xml"@[0] == 'c');
    assert(without_root("content.xml"@) == "content.xml"@);
    assert("/content.xml"@.skip(1) =~= "content.xml"@);
    if e.name == "file-entry"@ && (e.attr("full-path"@) == Some("content.xml"@) || e.attr(
        "full-path"@,
    ) == Some("/content.xml"@)) && e.child("encryption-data"@) is Some {
        assert(encrypts_body(e));
    }
}

/// The pictures of a package are the entries in its directory of pictures, in their order.
pub proof fn law_which_entries_are_pictures(v: Seq<Seq<char>>, e: Seq<char>)
    ensures
        is_picture(e) ==> pictures_in(v.push(e)) == pictures_in(v).push(e),
        !is_picture(e) ==> pictures_in(v.push(e)) == pictures_in(v),
        "Pictures/"@.is_prefix_of(e) && e.len() > 0 && e.last() != '/' ==> is_picture(e),
        !"Pictures/"@.is_prefix_of(e) ==> !is_picture(e),
{
    assert(v.push(e).drop_last() =~= v);
}

// ── names of entries ─────────────────────────────────────────────────────────

/// A name that states a path inside the package and nothing else.
pub open spec fn is_plain_path(s: Seq<char>) -> bool {
    &&& s.len() > 0
    &&& s[0] != '/' && s.last() != '/'
    &&& !is_space(s[0]) && !is_space(s.last())
    &&& forall|k: int|
        0 <= k < s.len() ==> (#[trigger] s[k]) != '%' && s[k] != '#' && s[k] != '?' && s[k] != '\\'
            && s[k] != ':' && !is_control(s[k])
    &&& forall|j: int|
        0 <= j < segments(s).len() ==> (#[trigger] segments(s)[j]).len() > 0 && segments(s)[j]
            != "."@ && segments(s)[j] != ".."@
}

proof fn lemma_joined_front(a: Seq<char>, v: Seq<Seq<char>>)
    requires
        v.len() > 0,
    ensures
        joined(seq![a] + v) == a + seq!['/'] + joined(v),
    decreases v.len(),
{
    let w = seq![a] + v;
    assert(w.last() == v.last());
    if v.len() == 1 {
        assert(w.drop_last() =~= seq![a]);
        assert(joined(w.drop_last()) == a);
        assert(joined(w) =~= a + seq!['/'] + joined(v));
    } else {
        assert(w.drop_last() =~= seq![a] + v.drop_last());
        lemma_joined_front(a, v.drop_last());
        assert(joined(w) =~= a + seq!['/'] + joined(v));
    }
}

proof fn lemma_segments_join(s: Seq<char>)
    ensures
        joined(segments(s)) == s,
        segments(s).len() > 0,
    decreases s.len(),
{
    let p = until(s, 0, '/');
    crate::numfmt::tokens::lemma_until(s, 0, '/');
    if p < s.len() {
        let rest = s.skip(p + 1);
        lemma_segments_join(rest);
        lemma_joined_front(s.take(p), segments(rest));
        lemma_until_found(s, 0, '/');
        assert(s =~= s.take(p) + seq!['/'] + rest);
    }
}

proof fn lemma_until_found(s: Seq<char>, i: int, c: char)
    requires
        0 <= i <= s.len(),
    ensures
        until(s, i, c) < s.len() ==> s[until(s, i, c)] == c,
    decreases s.len() - i,
{
    if i < s.len() && s[i] != c {
        lemma_until_found(s, i + 1, c);
    }
}

proof fn lemma_all_real(v: Seq<Seq<char>>)
    requires
        forall|j: int| 0 <= j < v.len() ==> (#[trigger] v[j]).len() > 0 && v[j] != "."@,
    ensures
        real_segments(v) == v,
    decreases v.len(),
{
    if v.len() > 0 {
        assert(v[v.len() - 1].len() > 0);
        lemma_all_real(v.drop_last());
        assert(v.drop_last().push(v.last()) =~= v);
    }
}

proof fn lemma_no_end(s: Seq<char>, i: int)
    requires
        0 <= i <= s.len(),
        forall|k: int| 0 <= k < s.len() ==> (#[trigger] s[k]) != '#' && s[k] != '?',
    ensures
        path_end(s, i) == s.len(),
    decreases s.len() - i,
{
    if i < s.len() {
        assert(s[i] != '#');
        lemma_no_end(s, i + 1);
    }
}

/// A plain path names the entry of that name.
pub proof fn law_a_plain_path_names_its_entry(s: Seq<char>)
    requires
        is_plain_path(s),
        byte_len(s) <= MAX_HREF_BYTES,
    ensures
        sanitized(s) == Some(s),
{
    lemma_trimmed_already(s);
    lemma_no_end(s, 0);
    assert(s.take(s.len() as int) =~= s);
    assert(!s.contains('%') && !s.contains('\\')) by {
        if s.contains('%') {
            let k = choose|k: int| 0 <= k < s.len() && s[k] == '%';
            assert(s[k] != '%');
        }
        if s.contains('\\') {
            let k = choose|k: int| 0 <= k < s.len() && s[k] == '\\';
            assert(s[k] != '\\');
        }
    }
    let v = segments(s);
    lemma_segments_join(s);
    lemma_all_real(v);
    assert(!v[0].contains(':')) by {
        crate::numfmt::tokens::lemma_until(s, 0, '/');
        let p = until(s, 0, '/');
        if v[0].contains(':') {
            let k = choose|k: int| 0 <= k < v[0].len() && v[0][k] == ':';
            assert(s[k] == ':');
        }
    }
    assert(!climbs(v));
}

} // verus!
