//! The package: its fixed parts, whether its body is encrypted, which class of
//! document it holds, and which of its entries a reference names.

use vstd::prelude::*;
use vstd::utf8::{decode_utf8, encode_utf8, encode_utf8_decode_utf8, valid_utf8};
use crate::xml;
use crate::chars::{
    byte_len, bytes_in, chars_of, push_all, slice_of, starts_with, string_of, text_is, trim,
    trimmed,
};
use crate::notes::{noted, Notes};
use crate::numfmt::tokens::{lemma_until, until};
use crate::xml::{document, trees, Element, Tree};

pub mod laws;

verus! {

pub const CONTENT: &'static str = "content.xml";

pub const STYLES: &'static str = "styles.xml";

pub const META: &'static str = "meta.xml";

pub const SETTINGS: &'static str = "settings.xml";

pub const MANIFEST: &'static str = "META-INF/manifest.xml";

pub const MIMETYPE: &'static str = "mimetype";

/// Where producers put embedded media.
pub const PICTURES_DIR: &'static str = "Pictures/";

/// The longest reference that is looked at, in bytes.
pub const MAX_HREF_BYTES: usize = 2048;

/// The error for a package whose body is encrypted.
pub const ENCRYPTED: &'static str = "office: document is password-protected";

/// The error for a part that is not read because too many bytes have been read already.
pub const BUDGET_EXCEEDED: &'static str = "office: package exceeds the read budget";

pub const MISSING: &'static str = "office: content.xml is missing from the package";

pub const MALFORMED: &'static str = "office: content.xml is malformed";

pub const UNRECOGNIZED: &'static str = "office: unrecognized OpenDocument body";

pub const NOTE_STYLES: &'static str = "Stylesheet unreadable — text styles missing";

/// Which kind of document a package holds.
#[derive(Clone, Copy, PartialEq, Eq, Debug, Structural)]
pub enum Class {
    Text,
    Spreadsheet,
    Presentation,
}

// ── document class ───────────────────────────────────────────────────────────

pub open spec fn class_named(name: Seq<char>) -> Option<Class> {
    if name == "text"@ {
        Some(Class::Text)
    } else if name == "spreadsheet"@ {
        Some(Class::Spreadsheet)
    } else if name == "presentation"@ {
        Some(Class::Presentation)
    } else {
        None
    }
}

/// The class of the first element that names one.
pub open spec fn first_class(v: Seq<Tree>) -> Option<Class>
    decreases v.len(),
{
    if v.len() == 0 {
        None
    } else if class_named(v[0].name) is Some {
        class_named(v[0].name)
    } else {
        first_class(v.skip(1))
    }
}

/// What a document is by its body. Bodies of other kinds are passed over.
pub open spec fn body_class(root: Tree) -> Option<Class> {
    match root.child("body"@) {
        Some(body) => first_class(body.elems()),
        None => None,
    }
}

pub fn class_from_body(root: &Element) -> (r: Option<Class>)
    ensures
        r == body_class(root@),
{
    let body: &Element = match root.child("body") {
        Some(b) => b,
        None => {
            return None;
        },
    };
    let v: Vec<&Element> = body.elems();
    let ghost ts = trees(v@);
    assert(ts.skip(0) =~= ts);
    for i in 0..v.len()
        invariant
            ts == trees(v@),
            ts == body@.elems(),
            root@.child("body"@) == Some(body@),
            first_class(ts) == first_class(ts.skip(i as int)),
    {
        assert(ts.skip(i as int)[0] == v@[i as int]@);
        assert(ts.skip(i as int).skip(1) =~= ts.skip(i + 1));
        let e: &Element = v[i];
        if e.is("text") {
            return Some(Class::Text);
        }
        if e.is("spreadsheet") {
            return Some(Class::Spreadsheet);
        }
        if e.is("presentation") {
            return Some(Class::Presentation);
        }
    }
    None
}

/// The text without `-template` at its end.
pub open spec fn without_template(s: Seq<char>) -> Seq<char> {
    if "-template"@.is_suffix_of(s) {
        s.take(s.len() - "-template"@.len())
    } else {
        s
    }
}

/// What a document is by its media type; a template is what it is a template of.
pub open spec fn mime_class(mime: Seq<char>) -> Option<Class> {
    let base = without_template(trimmed(mime));
    if base == "application/vnd.oasis.opendocument.text"@ {
        Some(Class::Text)
    } else if base == "application/vnd.oasis.opendocument.spreadsheet"@ {
        Some(Class::Spreadsheet)
    } else if base == "application/vnd.oasis.opendocument.presentation"@ {
        Some(Class::Presentation)
    } else {
        None
    }
}

pub fn class_from_mimetype(mime: &str) -> (r: Option<Class>)
    ensures
        r == mime_class(mime@),
{
    let m: Vec<char> = trim(&chars_of(mime));
    proof {
        reveal_strlit("-template");
    }
    let base: Vec<char> = if m.len() >= 9 && text_is(&slice_of(&m, m.len() - 9, m.len()), "-template") {
        assert(m@.subrange(m@.len() - 9, m@.len() as int) == "-template"@);
        let b: Vec<char> = slice_of(&m, 0, m.len() - 9);
        assert(b@ =~= m@.take(m@.len() - 9));
        b
    } else {
        slice_of(&m, 0, m.len())
    };
    assert(base@ =~= without_template(m@));
    if text_is(&base, "application/vnd.oasis.opendocument.text") {
        Some(Class::Text)
    } else if text_is(&base, "application/vnd.oasis.opendocument.spreadsheet") {
        Some(Class::Spreadsheet)
    } else if text_is(&base, "application/vnd.oasis.opendocument.presentation") {
        Some(Class::Presentation)
    } else {
        None
    }
}

// ── encryption ───────────────────────────────────────────────────────────────

/// The text without the slashes it starts with.
pub open spec fn without_root(s: Seq<char>) -> Seq<char>
    decreases s.len(),
{
    if s.len() > 0 && s[0] == '/' {
        without_root(s.skip(1))
    } else {
        s
    }
}

/// Whether a manifest entry says that the body is encrypted.
pub open spec fn encrypts_body(e: Tree) -> bool {
    &&& e.name == "file-entry"@
    &&& e.attr("full-path"@) matches Some(p) && without_root(p) == CONTENT@
    &&& e.child("encryption-data"@) is Some
}

pub open spec fn manifest_encrypts(root: Tree) -> bool {
    exists|k: int| 0 <= k < root.elems().len() && encrypts_body(#[trigger] root.elems()[k])
}

fn entry_encrypts(e: &Element) -> (r: bool)
    ensures
        r == encrypts_body(e@),
{
    if !e.is("file-entry") || e.child("encryption-data").is_none() {
        return false;
    }
    match e.attr_local("full-path") {
        Some(p) => {
            let v: Vec<char> = chars_of(p);
            let mut i: usize = 0;
            assert(v@.skip(0) =~= v@);
            while i < v.len() && v[i] == '/'
                invariant
                    i <= v@.len(),
                    without_root(v@) == without_root(v@.skip(i as int)),
                decreases v@.len() - i,
            {
                assert(v@.skip(i as int).skip(1) =~= v@.skip(i + 1));
                i = i + 1;
            }
            let rest: Vec<char> = slice_of(&v, i, v.len());
            assert(rest@ =~= v@.skip(i as int));
            text_is(&rest, CONTENT)
        },
        None => false,
    }
}

/// Whether a parsed manifest says that the body is encrypted.
pub fn tree_encrypts_content(root: &Element) -> (r: bool)
    ensures
        r == manifest_encrypts(root@),
{
    let v: Vec<&Element> = root.elems();
    for i in 0..v.len()
        invariant
            trees(v@) == root@.elems(),
            forall|k: int| 0 <= k < i ==> !encrypts_body(#[trigger] root@.elems()[k]),
    {
        assert(root@.elems()[i as int] == v@[i as int]@);
        if entry_encrypts(v[i]) {
            return true;
        }
    }
    false
}

/// Whether a manifest says that the body is encrypted. One that cannot be read says
/// nothing.
pub fn manifest_encrypts_content(manifest_xml: &str) -> (r: bool)
    ensures
        r == (document(manifest_xml@) matches Some(root) && manifest_encrypts(root)),
{
    match xml::parse(manifest_xml) {
        Some(root) => tree_encrypts_content(&root),
        None => false,
    }
}

// ── references ───────────────────────────────────────────────────────────────

/// `String::from_utf8`: the text that the bytes encode; `None` where they are no UTF-8.
#[verifier::external_body]
fn text_from_utf8(bytes: Vec<u8>) -> (r: Option<String>)
    ensures
        r is Some == valid_utf8(bytes@),
        r matches Some(s) ==> encode_utf8(s@) == bytes@,
{
    String::from_utf8(bytes).ok()
}

pub open spec fn hex_nibble(b: u8) -> Option<u8> {
    if 48 <= b <= 57 {
        Some((b - 48) as u8)
    } else if 97 <= b <= 102 {
        Some((b - 87) as u8)
    } else if 65 <= b <= 70 {
        Some((b - 55) as u8)
    } else {
        None
    }
}

fn hex_val(b: u8) -> (r: Option<u8>)
    ensures
        r == hex_nibble(b),
{
    if 48 <= b && b <= 57 {
        Some(b - 48)
    } else if 97 <= b && b <= 102 {
        Some(b - 87)
    } else if 65 <= b && b <= 70 {
        Some(b - 55)
    } else {
        None
    }
}

/// The bytes with every percent escape turned into the byte it stands for; `None` for a
/// broken escape.
pub open spec fn unescaped(b: Seq<u8>) -> Option<Seq<u8>>
    decreases b.len(),
{
    if b.len() == 0 {
        Some(Seq::empty())
    } else if b[0] == 37 {
        if b.len() >= 3 && hex_nibble(b[1]) is Some && hex_nibble(b[2]) is Some {
            after_byte((hex_nibble(b[1])->0 * 16 + hex_nibble(b[2])->0) as u8, unescaped(b.skip(3)))
        } else {
            None
        }
    } else {
        after_byte(b[0], unescaped(b.skip(1)))
    }
}

pub open spec fn after_byte(b: u8, rest: Option<Seq<u8>>) -> Option<Seq<u8>> {
    match rest {
        Some(r) => Some(seq![b] + r),
        None => None,
    }
}

pub open spec fn after_bytes(a: Seq<u8>, rest: Option<Seq<u8>>) -> Option<Seq<u8>> {
    match rest {
        Some(r) => Some(a + r),
        None => None,
    }
}

/// The text with its percent escapes decoded, once.
pub open spec fn percent_decoded(s: Seq<char>) -> Option<Seq<char>> {
    if !s.contains('%') {
        Some(s)
    } else {
        match unescaped(encode_utf8(s)) {
            Some(b) => if valid_utf8(b) {
                Some(decode_utf8(b))
            } else {
                None
            },
            None => None,
        }
    }
}

fn percent_decode(s: &Vec<char>) -> (r: Option<Vec<char>>)
    ensures
        r is Some == percent_decoded(s@) is Some,
        r matches Some(t) ==> t@ == percent_decoded(s@)->0,
{
    let mut escaped: bool = false;
    for i in 0..s.len()
        invariant
            escaped == exists|k: int| 0 <= k < i && #[trigger] s@[k] == '%',
    {
        if s[i] == '%' {
            escaped = true;
        }
    }
    if !escaped {
        assert(!s@.contains('%'));
        let r: Vec<char> = slice_of(s, 0, s.len());
        assert(r@ =~= s@);
        return Some(r);
    }
    assert(s@.contains('%'));
    let text: String = string_of(s);
    let b: &[u8] = text.as_str().as_bytes();
    let ghost all = encode_utf8(s@);
    assert(b@ == all);
    let total: usize = b.len();
    let mut out: Vec<u8> = Vec::new();
    let mut i: usize = 0;
    assert(all.skip(0) =~= all);
    assert(after_bytes(out@, unescaped(all)) == unescaped(all)) by {
        if let Some(r) = unescaped(all) {
            assert(out@ + r =~= r);
        }
    }
    while i < total
        invariant
            i <= total,
            total == all.len(),
            b@ == all,
            all == encode_utf8(s@),
            s@.contains('%'),
            after_bytes(out@, unescaped(all.skip(i as int))) == unescaped(all),
        decreases total - i,
    {
        let ghost rest = all.skip(i as int);
        let ghost before = out@;
        if b[i] == 37 {
            if total - i < 3 {
                return None;
            }
            let hi: u8 = match hex_val(b[i + 1]) {
                Some(v) => v,
                None => {
                    return None;
                },
            };
            let lo: u8 = match hex_val(b[i + 2]) {
                Some(v) => v,
                None => {
                    return None;
                },
            };
            let byte: u8 = hi * 16 + lo;
            out.push(byte);
            assert(rest.skip(3) =~= all.skip(i + 3));
            proof {
                lemma_after_byte(before, byte, unescaped(rest.skip(3)));
            }
            i = i + 3;
        } else {
            out.push(b[i]);
            assert(rest.skip(1) =~= all.skip(i + 1));
            proof {
                lemma_after_byte(before, rest[0], unescaped(rest.skip(1)));
            }
            i = i + 1;
        }
    }
    assert(unescaped(all) == Some(out@)) by {
        assert(all.skip(total as int) =~= Seq::<u8>::empty());
        assert(out@ + Seq::<u8>::empty() =~= out@);
    }
    match text_from_utf8(out) {
        Some(t) => {
            let r: Vec<char> = chars_of(t.as_str());
            proof {
                encode_utf8_decode_utf8(t@);
            }
            Some(r)
        },
        None => None,
    }
}

proof fn lemma_after_byte(a: Seq<u8>, b: u8, rest: Option<Seq<u8>>)
    ensures
        after_bytes(a.push(b), rest) == after_bytes(a, after_byte(b, rest)),
{
    if let Some(r) = rest {
        assert(a.push(b) + r =~= a + (seq![b] + r));
    }
}

/// The segments that slashes part.
pub open spec fn segments(s: Seq<char>) -> Seq<Seq<char>>
    decreases s.len(),
{
    let p = until(s, 0, '/');
    proof {
        lemma_until(s, 0, '/');
    }
    if p < s.len() {
        seq![s.take(p)] + segments(s.skip(p + 1))
    } else {
        seq![s]
    }
}

/// Segments with slashes between.
pub open spec fn joined(v: Seq<Seq<char>>) -> Seq<char>
    decreases v.len(),
{
    if v.len() == 0 {
        Seq::empty()
    } else if v.len() == 1 {
        v[0]
    } else {
        joined(v.drop_last()) + seq!['/'] + v.last()
    }
}

/// The segments that name something.
pub open spec fn real_segments(v: Seq<Seq<char>>) -> Seq<Seq<char>>
    decreases v.len(),
{
    if v.len() == 0 {
        Seq::empty()
    } else if v.last().len() == 0 || v.last() == "."@ {
        real_segments(v.drop_last())
    } else {
        real_segments(v.drop_last()).push(v.last())
    }
}

pub open spec fn climbs(v: Seq<Seq<char>>) -> bool {
    exists|k: int| 0 <= k < v.len() && #[trigger] v[k] == ".."@
}

pub open spec fn is_control(c: char) -> bool {
    (c as u32) < 0x20 || c as u32 == 0x7f
}

/// Where a fragment or a query begins, or the end.
pub open spec fn path_end(s: Seq<char>, i: int) -> int
    decreases s.len() - i,
{
    if 0 <= i < s.len() && s[i] != '#' && s[i] != '?' {
        path_end(s, i + 1)
    } else {
        i
    }
}

/// The entry that a decoded path names: a path inside the package, with no way up or
/// out of it. A path that ends in a slash names a directory, and no entry.
pub open spec fn entry_named(s: Seq<char>) -> Option<Seq<char>> {
    let segs = segments(s);
    let named = real_segments(segs);
    if segs[0].contains(':') || s.contains('\\') || (s.len() > 0 && (s[0] == '/' || s.last() == '/'))
        || (exists|k: int| 0 <= k < s.len() && is_control(#[trigger] s[k])) || climbs(segs)
        || named.len() == 0 {
        None
    } else {
        Some(joined(named))
    }
}

/// The entry that a reference names, whether or not the package holds it.
pub open spec fn sanitized(href: Seq<char>) -> Option<Seq<char>> {
    let t = trimmed(href);
    if t.len() == 0 || byte_len(t) > MAX_HREF_BYTES {
        None
    } else {
        match percent_decoded(t.take(path_end(t, 0))) {
            Some(s) => entry_named(s),
            None => None,
        }
    }
}

fn has_char(v: &Vec<char>, c: char) -> (r: bool)
    ensures
        r == v@.contains(c),
{
    for i in 0..v.len()
        invariant
            forall|k: int| 0 <= k < i ==> #[trigger] v@[k] != c,
    {
        if v[i] == c {
            return true;
        }
    }
    false
}

fn has_control(v: &Vec<char>) -> (r: bool)
    ensures
        r == exists|k: int| 0 <= k < v@.len() && is_control(#[trigger] v@[k]),
{
    for i in 0..v.len()
        invariant
            forall|k: int| 0 <= k < i ==> !is_control(#[trigger] v@[k]),
    {
        let u: u32 = v[i] as u32;
        if u < 0x20 || u == 0x7f {
            return true;
        }
    }
    false
}

pub open spec fn seg_views(v: Seq<Vec<char>>) -> Seq<Seq<char>> {
    v.map_values(|s: Vec<char>| s@)
}

/// The segments that slashes part.
fn split_slashes(v: &Vec<char>) -> (r: Vec<Vec<char>>)
    ensures
        seg_views(r@) == segments(v@),
{
    let total: usize = v.len();
    let mut r: Vec<Vec<char>> = Vec::new();
    let mut start: usize = 0;
    let mut i: usize = 0;
    assert(v@.skip(0) =~= v@);
    assert(seg_views(r@) + segments(v@) =~= segments(v@));
    while i < total
        invariant
            start <= i <= total,
            total == v@.len(),
            until(v@.skip(start as int), i - start, '/') == until(v@.skip(start as int), 0, '/'),
            seg_views(r@) + segments(v@.skip(start as int)) == segments(v@),
        decreases total - i,
    {
        let ghost rest = v@.skip(start as int);
        assert(rest[i - start] == v@[i as int]);
        if v[i] == '/' {
            let seg: Vec<char> = slice_of(v, start, i);
            assert(seg@ =~= rest.take(i - start));
            assert(rest.skip(i - start + 1) =~= v@.skip(i + 1));
            let ghost before = seg_views(r@);
            r.push(seg);
            assert(seg_views(r@) =~= before.push(seg@));
            assert(before + segments(rest) =~= seg_views(r@) + segments(v@.skip(i + 1)));
            start = i + 1;
        }
        i = i + 1;
    }
    let ghost rest = v@.skip(start as int);
    let last: Vec<char> = slice_of(v, start, total);
    assert(last@ =~= rest);
    let ghost before = seg_views(r@);
    r.push(last);
    assert(seg_views(r@) =~= before + segments(rest));
    r
}

fn entry_of(s: &Vec<char>) -> (r: Option<Vec<char>>)
    ensures
        r is Some == entry_named(s@) is Some,
        r matches Some(t) ==> t@ == entry_named(s@)->0,
{
    let segs: Vec<Vec<char>> = split_slashes(s);
    let ghost sv = segments(s@);
    assert(sv.len() > 0);
    assert(seg_views(segs@)[0] == segs@[0]@);
    if has_char(&segs[0], ':') || has_char(s, '\\') || has_control(s) {
        return None;
    }
    if s.len() > 0 && (s[0] == '/' || s[s.len() - 1] == '/') {
        return None;
    }
    let mut out: Vec<char> = Vec::new();
    let mut kept: usize = 0;
    assert(sv.take(0) =~= Seq::<Seq<char>>::empty());
    for i in 0..segs.len()
        invariant
            seg_views(segs@) == sv,
            sv == segments(s@),
            forall|k: int| 0 <= k < i ==> #[trigger] sv[k] != ".."@,
            kept == real_segments(sv.take(i as int)).len(),
            kept <= i,
            out@ == joined(real_segments(sv.take(i as int))),
    {
        let seg: &Vec<char> = &segs[i];
        assert(sv[i as int] == seg@);
        assert(sv.take(i + 1).drop_last() =~= sv.take(i as int));
        assert(sv.take(i + 1).last() == seg@);
        if text_is(seg, "..") {
            return None;
        }
        if seg.len() > 0 && !text_is(seg, ".") {
            let ghost before = real_segments(sv.take(i as int));
            let ghost so_far = out@;
            if kept > 0 {
                out.push('/');
            }
            push_all(&mut out, seg);
            assert(before.push(seg@).drop_last() =~= before);
            assert(out@ =~= joined(before.push(seg@)));
            kept = kept + 1;
        }
    }
    assert(sv.take(sv.len() as int) =~= sv);
    assert(!climbs(sv));
    if kept == 0 {
        return None;
    }
    Some(out)
}

fn sanitize_href(href: &str) -> (r: Option<Vec<char>>)
    ensures
        r is Some == sanitized(href@) is Some,
        r matches Some(t) ==> t@ == sanitized(href@)->0,
{
    let t: Vec<char> = trim(&chars_of(href));
    if t.len() == 0 || bytes_in(string_of(&t).as_str()) > MAX_HREF_BYTES {
        return None;
    }
    let mut end: usize = 0;
    while end < t.len() && t[end] != '#' && t[end] != '?'
        invariant
            end <= t@.len(),
            path_end(t@, end as int) == path_end(t@, 0),
        decreases t@.len() - end,
    {
        end = end + 1;
    }
    let path: Vec<char> = slice_of(&t, 0, end);
    assert(path@ =~= t@.take(end as int));
    match percent_decode(&path) {
        Some(s) => entry_of(&s),
        None => None,
    }
}

// ── what a resolved reference cannot be ──────────────────────────────────────

proof fn lemma_no_slash_is_one_segment(s: Seq<char>)
    requires
        !s.contains('/'),
    ensures
        segments(s) == seq![s],
{
    lemma_until(s, 0, '/');
    if until(s, 0, '/') < s.len() {
        assert(s.contains('/'));
    }
}

proof fn lemma_segments_append(a: Seq<char>, b: Seq<char>)
    requires
        !b.contains('/'),
    ensures
        segments(a + seq!['/'] + b) == segments(a).push(b),
    decreases a.len(),
{
    let w = a + seq!['/'] + b;
    lemma_until(a, 0, '/');
    lemma_until(w, 0, '/');
    let p = until(a, 0, '/');
    if p < a.len() {
        assert(w[p] == '/');
        assert(until(w, 0, '/') == p) by {
            let q = until(w, 0, '/');
            if q < p {
                assert(w[q] == a[q]);
            } else if q > p {
                assert(w[p] != '/');
            }
        }
        assert(w.skip(p + 1) =~= a.skip(p + 1) + seq!['/'] + b);
        lemma_segments_append(a.skip(p + 1), b);
        assert(w.take(p) =~= a.take(p));
        assert(segments(w) =~= segments(a).push(b));
    } else {
        assert(w[a.len() as int] == '/');
        assert(until(w, 0, '/') == a.len()) by {
            let q = until(w, 0, '/');
            if q < a.len() {
                assert(w[q] == a[q]);
            } else if q > a.len() {
                assert(w[a.len() as int] != '/');
            }
        }
        assert(w.take(a.len() as int) =~= a);
        assert(w.skip(a.len() as int + 1) =~= b);
        lemma_no_slash_is_one_segment(b);
        assert(segments(w) =~= seq![a].push(b));
    }
}

proof fn lemma_segments_of_joined(v: Seq<Seq<char>>)
    requires
        v.len() > 0,
        forall|k: int| 0 <= k < v.len() ==> !(#[trigger] v[k]).contains('/'),
    ensures
        segments(joined(v)) == v,
    decreases v.len(),
{
    if v.len() == 1 {
        lemma_no_slash_is_one_segment(v[0]);
        assert(seq![v[0]] =~= v);
    } else {
        let d = v.drop_last();
        assert forall|k: int| 0 <= k < d.len() implies !(#[trigger] d[k]).contains('/') by {
            assert(d[k] == v[k]);
        }
        lemma_segments_of_joined(d);
        assert(!v[v.len() - 1].contains('/'));
        lemma_segments_append(joined(d), v.last());
        assert(d.push(v.last()) =~= v);
    }
}

proof fn lemma_segments_have_no_slash(s: Seq<char>)
    ensures
        forall|k: int| 0 <= k < segments(s).len() ==> !(#[trigger] segments(s)[k]).contains('/'),
        segments(s).len() > 0,
    decreases s.len(),
{
    lemma_until(s, 0, '/');
    let p = until(s, 0, '/');
    if p < s.len() {
        lemma_segments_have_no_slash(s.skip(p + 1));
        assert forall|k: int| 0 <= k < segments(s).len() implies !(#[trigger] segments(
            s,
        )[k]).contains('/') by {
            if k > 0 {
                assert(segments(s)[k] == segments(s.skip(p + 1))[k - 1]);
            }
        }
    }
}

proof fn lemma_real_segments(v: Seq<Seq<char>>)
    requires
        !climbs(v),
        forall|k: int| 0 <= k < v.len() ==> !(#[trigger] v[k]).contains('/'),
    ensures
        forall|k: int|
            0 <= k < real_segments(v).len() ==> {
                let g = #[trigger] real_segments(v)[k];
                g.len() > 0 && g != "."@ && g != ".."@ && !g.contains('/')
            },
    decreases v.len(),
{
    if v.len() > 0 {
        let d = v.drop_last();
        assert forall|k: int| 0 <= k < d.len() implies !(#[trigger] d[k]).contains('/') by {
            assert(d[k] == v[k]);
        }
        assert(!climbs(d)) by {
            if climbs(d) {
                let k = choose|k: int| 0 <= k < d.len() && #[trigger] d[k] == ".."@;
                assert(v[k] == ".."@);
            }
        }
        lemma_real_segments(d);
        assert(v[v.len() - 1] != ".."@);
        let r = real_segments(v);
        assert forall|k: int| 0 <= k < r.len() implies {
            let g = #[trigger] r[k];
            g.len() > 0 && g != "."@ && g != ".."@ && !g.contains('/')
        } by {
            if k < real_segments(d).len() {
                assert(r[k] == real_segments(d)[k]);
            } else {
                assert(r[k] == v[v.len() - 1]);
            }
        }
    }
}

/// A resolved reference stays inside the package: none of its segments is empty, `.` or
/// `..`, so it is neither absolute nor a directory, and nothing in it leads up.
pub proof fn law_resolved_name_stays_inside(href: Seq<char>)
    ensures
        sanitized(href) matches Some(name) ==> name.len() > 0 && forall|k: int|
            0 <= k < segments(name).len() ==> {
                let g = #[trigger] segments(name)[k];
                g.len() > 0 && g != "."@ && g != ".."@
            },
{
    if let Some(name) = sanitized(href) {
        let t = trimmed(href);
        let s = percent_decoded(t.take(path_end(t, 0)))->0;
        let segs = segments(s);
        lemma_segments_have_no_slash(s);
        lemma_real_segments(segs);
        let named = real_segments(segs);
        lemma_segments_of_joined(named);
        assert(segments(name) == named);
        assert(named[0].len() > 0);
        if name.len() == 0 {
            assert(segments(name) =~= seq![name]);
            assert(segments(name)[0].len() == 0);
        }
    }
}

// ── the listing ──────────────────────────────────────────────────────────────

/// The names of a package's entries, in archive order.
#[derive(Debug)]
pub struct Entries(pub Vec<String>);

pub open spec fn entry_views(v: Seq<String>) -> Seq<Seq<char>> {
    v.map_values(|s: String| s@)
}

impl View for Entries {
    type V = Seq<Seq<char>>;

    open spec fn view(&self) -> Seq<Seq<char>> {
        entry_views(self.0@)
    }
}

pub open spec fn is_picture(name: Seq<char>) -> bool {
    PICTURES_DIR@.is_prefix_of(name) && !(name.len() > 0 && name.last() == '/')
}

/// The pictures among some entries, in order.
pub open spec fn pictures_in(v: Seq<Seq<char>>) -> Seq<Seq<char>>
    decreases v.len(),
{
    if v.len() == 0 {
        Seq::empty()
    } else if is_picture(v.last()) {
        pictures_in(v.drop_last()).push(v.last())
    } else {
        pictures_in(v.drop_last())
    }
}

pub open spec fn str_views(v: Seq<&str>) -> Seq<Seq<char>> {
    v.map_values(|s: &str| s@)
}

impl Entries {
    /// The entry that a reference out of a document names, and only where the package
    /// holds that very entry. The one gate that references pass.
    pub fn resolve_href(&self, href: &str) -> (r: Option<&str>)
        ensures
            r is Some == (sanitized(href@) matches Some(name) && self@.contains(name)),
            r matches Some(s) ==> s@ == sanitized(href@)->0 && self@.contains(s@),
    {
        let name: String = match sanitize_href(href) {
            Some(v) => string_of(&v),
            None => {
                return None;
            },
        };
        for i in 0..self.0.len()
            invariant
                sanitized(href@) == Some(name@),
                forall|k: int| 0 <= k < i ==> #[trigger] self@[k] != name@,
        {
            if self.0[i] == name {
                assert(self@[i as int] == name@);
                return Some(self.0[i].as_str());
            }
        }
        None
    }

    /// The embedded media, in archive order.
    pub fn pictures(&self) -> (r: Vec<&str>)
        ensures
            str_views(r@) == pictures_in(self@),
    {
        let mut r: Vec<&str> = Vec::new();
        assert(self@.take(0) =~= Seq::<Seq<char>>::empty());
        assert(str_views(r@) =~= Seq::<Seq<char>>::empty());
        for i in 0..self.0.len()
            invariant
                str_views(r@) == pictures_in(self@.take(i as int)),
        {
            let s: &str = self.0[i].as_str();
            assert(self@.take(i + 1).drop_last() =~= self@.take(i as int));
            assert(self@.take(i + 1).last() == s@);
            let v: Vec<char> = chars_of(s);
            let ghost before = r@;
            if starts_with(&v, PICTURES_DIR) && !(v.len() > 0 && v[v.len() - 1] == '/') {
                r.push(s);
                assert(str_views(r@) =~= str_views(before).push(s@));
            }
        }
        assert(self@.take(self@.len() as int) =~= self@);
        r
    }
}

// ── opening ──────────────────────────────────────────────────────────────────

/// What reading a part gave: its text, nothing where there is no such part, or an
/// error.
pub type Part = Result<Option<String>, String>;

/// A package's listing and its fixed parts, as they were read.
#[derive(Debug)]
pub struct Parts {
    pub entries: Entries,
    pub manifest: Part,
    pub mimetype: Part,
    pub content: Part,
    pub styles: Part,
    pub meta: Part,
    pub settings: Part,
}

/// An opened package.
#[derive(Debug)]
pub struct Package {
    pub entries: Entries,
    /// What the body says, not what the file is called.
    pub class: Class,
    pub content: String,
    /// The stylesheet.
    pub styles: Option<String>,
    pub meta: Option<String>,
    pub settings: Option<String>,
}

/// The text of a part that was there and could be read.
pub open spec fn readable(p: Part) -> Option<String> {
    match p {
        Ok(Some(s)) => Some(s),
        _ => None,
    }
}

/// The class of a package: its body's, or else its media type's.
pub open spec fn class_of(root: Tree, mimetype: Part) -> Option<Class> {
    match body_class(root) {
        Some(c) => Some(c),
        None => match readable(mimetype) {
            Some(m) => mime_class(m@),
            None => None,
        },
    }
}

pub open spec fn is_encrypted(manifest: Part) -> bool {
    readable(manifest) matches Some(m) && document(m@) matches Some(root) && manifest_encrypts(root)
}

/// Why a package cannot be opened; `None` where it can. Encryption comes first: an
/// encrypted body is never parsed.
pub open spec fn open_error(p: Parts) -> Option<Seq<char>> {
    if is_encrypted(p.manifest) {
        Some(ENCRYPTED@)
    } else {
        match p.content {
            Err(e) => Some(e@),
            Ok(None) => Some(MISSING@),
            Ok(Some(content)) => match document(content@) {
                None => Some(MALFORMED@),
                Some(root) => if class_of(root, p.mimetype) is None {
                    Some(UNRECOGNIZED@)
                } else {
                    None
                },
            },
        }
    }
}

/// A part that the package can do without. `note` says what its absence costs the
/// reader; where it costs nothing that is drawn, nothing is said.
fn optional_part(part: Part, note: Option<&str>, notes: &mut Notes) -> (r: Option<String>)
    ensures
        r == readable(part),
        final(notes)@ == (if readable(part) is None && note is Some {
            noted(old(notes)@, note->0@)
        } else {
            old(notes)@
        }),
{
    match part {
        Ok(Some(s)) => Some(s),
        _ => {
            if let Some(n) = note {
                notes.add(n);
            }
            None
        },
    }
}

/// Opens a package. A missing or malformed body is fatal; a missing stylesheet is
/// noted; missing properties and settings are not.
pub fn open(parts: Parts, notes: &mut Notes) -> (r: Result<Package, String>)
    ensures
        r is Err == open_error(parts) is Some,
        r matches Err(e) ==> e@ == open_error(parts)->0 && final(notes)@ == old(notes)@,
        r matches Ok(p) ==> {
            &&& p.entries == parts.entries
            &&& parts.content == Ok::<Option<String>, String>(Some(p.content))
            &&& Some(p.class) == class_of(document(p.content@)->0, parts.mimetype)
            &&& p.styles == readable(parts.styles)
            &&& p.meta == readable(parts.meta)
            &&& p.settings == readable(parts.settings)
            &&& final(notes)@ == (if p.styles is None {
                noted(old(notes)@, NOTE_STYLES@)
            } else {
                old(notes)@
            })
        },
{
    if let Ok(Some(m)) = &parts.manifest {
        if manifest_encrypts_content(m.as_str()) {
            return Err(String::from_str(ENCRYPTED));
        }
    }
    let mime: Option<Class> = match &parts.mimetype {
        Ok(Some(m)) => class_from_mimetype(m.as_str()),
        _ => None,
    };
    let content: String = match parts.content {
        Ok(Some(c)) => c,
        Ok(None) => {
            return Err(String::from_str(MISSING));
        },
        Err(e) => {
            return Err(e);
        },
    };
    let root: Element = match xml::parse(content.as_str()) {
        Some(root) => root,
        None => {
            return Err(String::from_str(MALFORMED));
        },
    };
    let class: Class = match class_from_body(&root) {
        Some(c) => c,
        None => match mime {
            Some(c) => c,
            None => {
                return Err(String::from_str(UNRECOGNIZED));
            },
        },
    };
    let styles: Option<String> = optional_part(parts.styles, Some(NOTE_STYLES), notes);
    let meta: Option<String> = optional_part(parts.meta, None, notes);
    let settings: Option<String> = optional_part(parts.settings, None, notes);
    Ok(Package { entries: parts.entries, class, content, styles, meta, settings })
}

/// A body that says what it is decides the class, whatever the media type says.
pub proof fn law_the_body_decides(root: Tree, a: Part, b: Part)
    requires
        body_class(root) is Some,
    ensures
        class_of(root, a) == class_of(root, b),
        class_of(root, a) == body_class(root),
{
}

} // verus!
