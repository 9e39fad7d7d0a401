//! HTML: escaping, inline styles, and a writer that closes what it opens.

use vstd::prelude::*;
use crate::chars::{
    byte_len, chars_of, lemma_byte_len_joined, lemma_byte_len_push, push_all, push_text, string_of,
    width_of,
};
use crate::color::{fixed_text, push_fixed, Color};
use crate::markup::{
    are_attrs, balanced, close_text, is_name, is_void, leads, lemma_attr_names, lemma_attrs_joined,
    lemma_balanced_leads, lemma_close, lemma_leads_joined, lemma_no_attrs, lemma_open,
    lemma_plain_is_balanced, lemma_plain_joined, lemma_void, open_text, plain,
};
use crate::odf::length::{push_px, px_text, Px};

verus! {

// ── escaping ─────────────────────────────────────────────────────────────────

/// A character as text, or as an attribute's value, shows it.
pub open spec fn escaped_char(c: char, attr: bool) -> Seq<char> {
    if c == '&' {
        "&amp;"@
    } else if c == '<' {
        "&lt;"@
    } else if c == '>' {
        "&gt;"@
    } else if c == '"' && attr {
        "&quot;"@
    } else {
        seq![c]
    }
}

pub open spec fn escaped(s: Seq<char>, attr: bool) -> Seq<char>
    decreases s.len(),
{
    if s.len() == 0 {
        Seq::empty()
    } else {
        escaped(s.drop_last(), attr) + escaped_char(s.last(), attr)
    }
}

/// Adds a text, escaped.
pub fn push_escaped(out: &mut Vec<char>, s: &Vec<char>, attr: bool)
    ensures
        final(out)@ == old(out)@ + escaped(s@, attr),
{
    let ghost before = out@;
    assert(s@.take(0) =~= Seq::<char>::empty());
    assert(before + escaped(s@.take(0), attr) =~= before);
    for i in 0..s.len()
        invariant
            out@ == before + escaped(s@.take(i as int), attr),
    {
        let c: char = s[i];
        assert(s@.take(i + 1).drop_last() =~= s@.take(i as int));
        assert(s@.take(i + 1).last() == c);
        let ghost so_far = out@;
        if c == '&' {
            push_text(out, "&amp;");
        } else if c == '<' {
            push_text(out, "&lt;");
        } else if c == '>' {
            push_text(out, "&gt;");
        } else if c == '"' && attr {
            push_text(out, "&quot;");
        } else {
            out.push(c);
        }
        assert(out@ =~= so_far + escaped_char(c, attr));
        assert(out@ =~= before + escaped(s@.take(i + 1), attr));
    }
    assert(s@.take(s@.len() as int) =~= s@);
}

/// No character that could end a text or an attribute's value is left in an escaped one.
pub proof fn law_escaped_text_is_inert(s: Seq<char>)
    ensures
        !escaped(s, true).contains('<'),
        !escaped(s, true).contains('>'),
        !escaped(s, true).contains('"'),
        !escaped(s, false).contains('<'),
        !escaped(s, false).contains('>'),
    decreases s.len(),
{
    if s.len() > 0 {
        law_escaped_text_is_inert(s.drop_last());
        reveal_strlit("&amp;");
        reveal_strlit("&lt;");
        reveal_strlit("&gt;");
        reveal_strlit("&quot;");
        lemma_joined_lacks(escaped(s.drop_last(), true), escaped_char(s.last(), true), '<');
        lemma_joined_lacks(escaped(s.drop_last(), true), escaped_char(s.last(), true), '>');
        lemma_joined_lacks(escaped(s.drop_last(), true), escaped_char(s.last(), true), '"');
        lemma_joined_lacks(escaped(s.drop_last(), false), escaped_char(s.last(), false), '<');
        lemma_joined_lacks(escaped(s.drop_last(), false), escaped_char(s.last(), false), '>');
    }
}

proof fn lemma_joined_lacks(a: Seq<char>, b: Seq<char>, c: char)
    requires
        !a.contains(c),
        !b.contains(c),
    ensures
        !(a + b).contains(c),
{
    if (a + b).contains(c) {
        let k = choose|k: int| 0 <= k < (a + b).len() && (a + b)[k] == c;
        if k < a.len() {
            assert(a[k] == c);
        } else {
            assert(b[k - a.len()] == c);
        }
    }
}

// ── attributes ───────────────────────────────────────────────────────────────

/// An attribute, with the space that parts it from what stands before.
pub open spec fn attr_text(name: Seq<char>, value: Seq<char>) -> Seq<char> {
    seq![' '] + name + "=\""@ + escaped(value, true) + "\""@
}

pub proof fn lemma_attr_text(name: Seq<char>, value: Seq<char>)
    requires
        plain(name),
    ensures
        are_attrs(attr_text(name, value)),
{
    reveal_strlit("=\"");
    reveal_strlit("\"");
    reveal(plain);
    reveal(are_attrs);
    law_escaped_text_is_inert(value);
    assert(plain(seq![' ']));
    lemma_plain_joined(seq![' '], name);
    lemma_plain_joined(seq![' '] + name, "=\""@);
    lemma_plain_joined(seq![' '] + name + "=\""@, escaped(value, true));
    lemma_plain_joined(seq![' '] + name + "=\""@ + escaped(value, true), "\""@);
}

/// Adds an attribute.
pub fn push_attr(out: &mut Vec<char>, name: &str, value: &Vec<char>)
    ensures
        final(out)@ == old(out)@ + attr_text(name@, value@),
        are_attrs(old(out)@) && plain(name@) ==> are_attrs(final(out)@),
{
    let ghost before = out@;
    proof {
        if plain(name@) {
            lemma_attr_text(name@, value@);
            if are_attrs(out@) {
                lemma_attrs_joined(out@, attr_text(name@, value@));
            }
        }
    }
    out.push(' ');
    push_text(out, name);
    push_text(out, "=\"");
    push_escaped(out, value, true);
    push_text(out, "\"");
    assert(out@ =~= before + attr_text(name@, value@));
}

/// No attributes.
pub fn no_attrs() -> (r: Vec<char>)
    ensures
        r@ == Seq::<char>::empty(),
        are_attrs(r@),
{
    proof {
        lemma_no_attrs();
    }
    let r: Vec<char> = Vec::new();
    assert(r@ =~= Seq::<char>::empty());
    r
}

/// A `class` attribute; nothing for an empty class.
pub open spec fn class_text(class: Seq<char>) -> Seq<char> {
    if class.len() == 0 {
        Seq::empty()
    } else {
        attr_text("class"@, class)
    }
}

pub fn push_class(out: &mut Vec<char>, class: &str)
    ensures
        final(out)@ == old(out)@ + class_text(class@),
        are_attrs(old(out)@) ==> are_attrs(final(out)@),
{
    proof {
        lemma_attr_names();
    }
    let mut v: Vec<char> = Vec::new();
    push_text(&mut v, class);
    assert(v@ =~= class@);
    if v.len() > 0 {
        push_attr(out, "class", &v);
    } else {
        assert(out@ + class_text(class@) =~= out@);
    }
}

// ── inline styles ────────────────────────────────────────────────────────────

/// A declaration; nothing for an empty value.
pub open spec fn decl(name: Seq<char>, value: Seq<char>) -> Seq<char> {
    if value.len() == 0 {
        Seq::empty()
    } else {
        name + seq![':'] + value + seq![';']
    }
}

/// The declarations of one element, in the order in which they were pushed.
#[derive(Debug)]
pub struct Style {
    pub css: Vec<char>,
}

/// A `style` attribute; nothing for no declarations.
pub open spec fn style_text(css: Seq<char>) -> Seq<char> {
    if css.len() == 0 {
        Seq::empty()
    } else {
        attr_text("style"@, css)
    }
}

impl Style {
    pub fn new() -> (s: Style)
        ensures
            s.css@ == Seq::<char>::empty(),
    {
        Style { css: Vec::new() }
    }

    pub fn push(&mut self, name: &str, value: &str)
        ensures
            final(self).css@ == old(self).css@ + decl(name@, value@),
    {
        let mut v: Vec<char> = Vec::new();
        push_text(&mut v, value);
        assert(v@ =~= value@);
        self.push_chars(name, &v);
    }

    pub fn push_chars(&mut self, name: &str, value: &Vec<char>)
        ensures
            final(self).css@ == old(self).css@ + decl(name@, value@),
    {
        let ghost before = self.css@;
        if value.len() > 0 {
            push_text(&mut self.css, name);
            self.css.push(':');
            push_all(&mut self.css, value);
            self.css.push(';');
        }
        assert(self.css@ =~= before + decl(name@, value@));
    }

    pub fn push_px(&mut self, name: &str, v: Px)
        ensures
            final(self).css@ == old(self).css@ + decl(name@, px_text(v)),
    {
        let mut t: Vec<char> = Vec::new();
        push_px(&mut t, v);
        assert(t@ =~= px_text(v));
        self.push_chars(name, &t);
    }

    pub fn push_color(&mut self, name: &str, c: Color)
        ensures
            final(self).css@ == old(self).css@ + decl(name@, c.css_text()),
    {
        self.push(name, c.css().as_str());
    }

    /// Adds a declaration, where it applies.
    pub fn push_if(&mut self, on: bool, name: &str, value: &str)
        ensures
            final(self).css@ == old(self).css@ + decl_if(on, name@, value@),
    {
        if on {
            self.push(name, value);
        } else {
            assert(self.css@ + decl_if(on, name@, value@) =~= self.css@);
        }
    }

    /// Adds a length, where it applies.
    pub fn push_px_if(&mut self, on: bool, name: &str, v: Px)
        ensures
            final(self).css@ == old(self).css@ + decl_if(on, name@, px_text(v)),
    {
        if on {
            self.push_px(name, v);
        } else {
            assert(self.css@ + decl_if(on, name@, px_text(v)) =~= self.css@);
        }
    }

    /// Adds a length, where there is one.
    pub fn push_opt_px(&mut self, name: &str, v: Option<Px>)
        ensures
            final(self).css@ == old(self).css@ + opt_px(name@, v),
    {
        match v {
            Some(v) => self.push_px(name, v),
            None => {
                assert(self.css@ + opt_px(name@, v) =~= self.css@);
            },
        }
    }

    /// Adds a colour, where there is one.
    pub fn push_opt_color(&mut self, name: &str, c: Option<Color>)
        ensures
            final(self).css@ == old(self).css@ + opt_color(name@, c),
    {
        match c {
            Some(c) => self.push_color(name, c),
            None => {
                assert(self.css@ + opt_color(name@, c) =~= self.css@);
            },
        }
    }

    /// Adds a text, where there is one.
    pub fn push_opt_text(&mut self, name: &str, v: &Option<String>)
        ensures
            final(self).css@ == old(self).css@ + opt_decl(name@, opt_view(*v)),
    {
        match v {
            Some(t) => self.push(name, t.as_str()),
            None => {
                assert(self.css@ + opt_decl(name@, opt_view(*v)) =~= self.css@);
            },
        }
    }

    /// Adds the `style` attribute.
    pub fn push_to(&self, out: &mut Vec<char>)
        ensures
            final(out)@ == old(out)@ + style_text(self.css@),
            are_attrs(old(out)@) ==> are_attrs(final(out)@),
    {
        proof {
            lemma_attr_names();
        }
        if self.css.len() > 0 {
            push_attr(out, "style", &self.css);
        } else {
            assert(out@ + style_text(self.css@) =~= out@);
        }
    }
}

/// The text in an optional string.
pub open spec fn opt_view(v: Option<String>) -> Option<Seq<char>> {
    match v {
        Some(s) => Some(s@),
        None => None,
    }
}

/// A copy of an optional string.
pub fn copy_opt(v: &Option<String>) -> (r: Option<String>)
    ensures
        opt_view(r) == opt_view(*v),
{
    match v {
        Some(s) => Some(String::from_str(s.as_str())),
        None => None,
    }
}

pub open spec fn decl_if(on: bool, name: Seq<char>, value: Seq<char>) -> Seq<char> {
    if on {
        decl(name, value)
    } else {
        Seq::empty()
    }
}

pub open spec fn opt_decl(name: Seq<char>, v: Option<Seq<char>>) -> Seq<char> {
    match v {
        Some(t) => decl(name, t),
        None => Seq::empty(),
    }
}

pub open spec fn opt_px(name: Seq<char>, v: Option<Px>) -> Seq<char> {
    match v {
        Some(v) => decl(name, px_text(v)),
        None => Seq::empty(),
    }
}

pub open spec fn opt_color(name: Seq<char>, c: Option<Color>) -> Seq<char> {
    match c {
        Some(c) => decl(name, c.css_text()),
        None => Seq::empty(),
    }
}

/// A percentage with at most two decimal places.
pub open spec fn pct_text(v: i64) -> Seq<char> {
    fixed_text(v as int, 1_000_000) + "%"@
}

pub fn push_pct(out: &mut Vec<char>, v: i64)
    ensures
        final(out)@ == old(out)@ + pct_text(v),
{
    let ghost before = out@;
    push_fixed(out, v, 1_000_000);
    push_text(out, "%");
    assert(out@ =~= before + pct_text(v));
}

// ── the writer ───────────────────────────────────────────────────────────────

/// A writer as contracts see it.
#[verifier::ext_equal]
pub struct Written {
    /// The HTML so far.
    pub text: Seq<char>,
    /// The tags that stand open, outermost first.
    pub open: Seq<Seq<char>>,
    /// Tags that were opened after the writer was full, and left out.
    pub muted: nat,
    /// The bytes written, closing tags aside.
    pub used: nat,
    pub cap: nat,
    /// Something did not fit. Nothing but closing tags is written from then on.
    pub full: bool,
}

impl Written {
    pub open spec fn fresh(cap: nat) -> Written {
        Written {
            text: Seq::empty(),
            open: Seq::empty(),
            muted: 0,
            used: 0,
            cap,
            full: false,
        }
    }

    pub open spec fn fits(self, s: Seq<char>) -> bool {
        !self.full && self.used + byte_len(s) <= self.cap
    }

    /// After a text that is written as it is.
    pub open spec fn raw(self, s: Seq<char>) -> Written {
        if self.fits(s) {
            Written { text: self.text + s, used: self.used + byte_len(s), ..self }
        } else {
            Written { full: true, ..self }
        }
    }

    pub open spec fn text(self, s: Seq<char>) -> Written {
        self.raw(escaped(s, false))
    }

    /// After an element that has no content.
    pub open spec fn void(self, tag: Seq<char>, attrs: Seq<char>) -> Written {
        self.raw(open_text(tag, attrs))
    }

    /// After a tag that opens.
    pub open spec fn opened(self, tag: Seq<char>, attrs: Seq<char>) -> Written {
        let s = open_text(tag, attrs);
        if self.fits(s) {
            Written {
                text: self.text + s,
                open: self.open.push(tag),
                used: self.used + byte_len(s),
                ..self
            }
        } else {
            Written {
                full: true,
                muted: if self.muted < usize::MAX {
                    self.muted + 1
                } else {
                    self.muted
                },
                ..self
            }
        }
    }

    /// After the innermost open tag is closed, whether or not tags were left out.
    pub open spec fn ended(self) -> Written {
        Written {
            text: self.text + close_text(self.open.last()),
            open: self.open.drop_last(),
            ..self
        }
    }

    /// After the innermost open tag is closed.
    pub open spec fn closed(self) -> Written {
        if self.muted > 0 {
            Written { muted: (self.muted - 1) as nat, ..self }
        } else if self.open.len() > 0 {
            self.ended()
        } else {
            self
        }
    }

    /// The HTML with every open tag closed.
    pub open spec fn finished(self) -> Seq<char>
        decreases self.open.len(),
    {
        if self.open.len() == 0 {
            self.text
        } else {
            self.ended().finished()
        }
    }

    /// The tags in the text are those that the writer has open, and the text is within
    /// bounds.
    pub open spec fn sound(self) -> bool {
        &&& leads(Seq::empty(), self.text, self.open)
        &&& forall|k: int| 0 <= k < self.open.len() ==> is_name(#[trigger] self.open[k])
        &&& self.used <= self.cap
    }
}

/// What a writer writes stays well-nested and within bounds, in whichever order it is
/// written; and once the open tags are closed, the HTML is balanced.
pub proof fn law_writing_stays_sound(w: Written, s: Seq<char>, tag: Seq<char>, attrs: Seq<char>)
    requires
        w.sound(),
        is_name(tag),
        are_attrs(attrs),
    ensures
        balanced(s) ==> w.raw(s).sound(),
        w.text(s).sound(),
        is_void(tag) ==> w.void(tag, attrs).sound(),
        !is_void(tag) ==> w.opened(tag, attrs).sound(),
        w.closed().sound(),
        balanced(w.finished()),
{
    lemma_raw_is_sound(w, s);
    lemma_escaped_is_balanced(s);
    lemma_raw_is_sound(w, escaped(s, false));
    if is_void(tag) {
        lemma_void(tag, attrs);
    }
    lemma_raw_is_sound(w, open_text(tag, attrs));
    lemma_opened_is_sound(w, tag, attrs);
    if w.open.len() > 0 {
        lemma_ended_is_sound(w);
    }
    lemma_finished_is_balanced(w);
}

/// An escaped text has no tags in it.
pub proof fn lemma_escaped_is_balanced(s: Seq<char>)
    ensures
        balanced(escaped(s, false)),
{
    law_escaped_text_is_inert(s);
    reveal(plain);
    lemma_plain_is_balanced(escaped(s, false));
}

proof fn lemma_raw_is_sound(w: Written, s: Seq<char>)
    requires
        w.sound(),
    ensures
        balanced(s) ==> w.raw(s).sound(),
{
    if balanced(s) {
        lemma_balanced_leads(w.open, s);
        lemma_leads_joined(Seq::empty(), w.text, w.open, s, w.open);
    }
}

proof fn lemma_opened_is_sound(w: Written, tag: Seq<char>, attrs: Seq<char>)
    requires
        w.sound(),
        is_name(tag),
        are_attrs(attrs),
    ensures
        !is_void(tag) ==> w.opened(tag, attrs).sound(),
{
    if !is_void(tag) {
        let s = open_text(tag, attrs);
        lemma_open(w.open, tag, attrs);
        lemma_leads_joined(Seq::empty(), w.text, w.open, s, w.open.push(tag));
    }
}

proof fn lemma_ended_is_sound(w: Written)
    requires
        w.sound(),
        w.open.len() > 0,
    ensures
        w.ended().sound(),
{
    let tag = w.open.last();
    assert(is_name(w.open[w.open.len() - 1]));
    lemma_close(w.open, tag);
    lemma_leads_joined(Seq::empty(), w.text, w.open, close_text(tag), w.open.drop_last());
    assert forall|k: int| 0 <= k < w.open.drop_last().len() implies is_name(
        #[trigger] w.open.drop_last()[k],
    ) by {
        assert(is_name(w.open[k]));
    }
}

proof fn lemma_finished_is_balanced(w: Written)
    requires
        w.sound(),
    ensures
        balanced(w.finished()),
    decreases w.open.len(),
{
    if w.open.len() > 0 {
        lemma_ended_is_sound(w);
        lemma_finished_is_balanced(w.ended());
    } else {
        assert(w.open =~= Seq::<Seq<char>>::empty());
        reveal(balanced);
    }
}

/// One sequence begins another.
pub open spec fn begins<T>(a: Seq<T>, b: Seq<T>) -> bool {
    a.len() <= b.len() && forall|k: int| 0 <= k < a.len() ==> #[trigger] b[k] == a[k]
}

/// A writer that has written more: what was written stays, the bound stays, and a full
/// writer stays full.
#[verifier::opaque]
pub open spec fn goes_on(a: Written, b: Written) -> bool {
    &&& begins(a.text, b.text)
    &&& b.cap == a.cap
    &&& a.used <= b.used
    &&& a.used <= a.cap ==> b.used <= b.cap
    &&& a.full ==> b.full
}

pub broadcast proof fn lemma_raw_goes_on(w: Written, s: Seq<char>)
    ensures
        goes_on(w, #[trigger] w.raw(s)),
{
    reveal(goes_on);
}

pub broadcast proof fn lemma_opened_goes_on(w: Written, tag: Seq<char>, attrs: Seq<char>)
    ensures
        goes_on(w, #[trigger] w.opened(tag, attrs)),
{
    reveal(goes_on);
}

pub broadcast proof fn lemma_closed_goes_on(w: Written)
    ensures
        goes_on(w, #[trigger] w.closed()),
{
    reveal(goes_on);
}

pub broadcast proof fn lemma_goes_on_and_on(a: Written, b: Written, c: Written)
    requires
        #[trigger] goes_on(a, b),
        #[trigger] goes_on(b, c),
    ensures
        goes_on(a, c),
{
    reveal(goes_on);
    assert forall|k: int| 0 <= k < a.text.len() implies #[trigger] c.text[k] == a.text[k] by {
        assert(b.text[k] == a.text[k]);
    }
}

pub proof fn lemma_stays(w: Written)
    ensures
        goes_on(w, w),
{
    reveal(goes_on);
}

pub broadcast group group_goes_on {
    lemma_raw_goes_on,
    lemma_opened_goes_on,
    lemma_closed_goes_on,
    lemma_goes_on_and_on,
}

/// What is written, with the bookkeeping that goes with it.
struct Buffer {
    out: Vec<char>,
    tags: Vec<&'static str>,
    muted: usize,
    used: usize,
    cap: usize,
    full: bool,
}

pub open spec fn tag_views(v: Seq<&'static str>) -> Seq<Seq<char>> {
    v.map_values(|t: &'static str| t@)
}

impl Buffer {
    spec fn wf(&self) -> bool {
        self.written().sound()
    }

    spec fn written(&self) -> Written {
        Written {
            text: self.out@,
            open: tag_views(self.tags@),
            muted: self.muted as nat,
            used: self.used as nat,
            cap: self.cap as nat,
            full: self.full,
        }
    }

    fn new(cap: usize) -> (b: Buffer)
        ensures
            b.wf(),
            b.written() == Written::fresh(cap as nat),
    {
        let b = Buffer {
            out: Vec::new(),
            tags: Vec::new(),
            muted: 0,
            used: 0,
            cap,
            full: false,
        };
        assert(tag_views(b.tags@) =~= Seq::<Seq<char>>::empty());
        assert(b.out@ =~= Seq::<char>::empty());
        b
    }

    /// The bytes that a text takes, where it fits.
    fn room_for(&self, s: &Vec<char>) -> (r: Option<usize>)
        requires
            self.wf(),
        ensures
            r is Some == self.written().fits(s@),
            r matches Some(n) ==> n == byte_len(s@),
    {
        if self.full {
            return None;
        }
        let room: usize = self.cap - self.used;
        let mut n: usize = 0;
        assert(s@.take(0) =~= Seq::<char>::empty());
        assert(byte_len(Seq::<char>::empty()) == 0);
        for i in 0..s.len()
            invariant
                self.wf(),
                !self.full,
                room == self.cap - self.used,
                n <= room,
                n == byte_len(s@.take(i as int)),
        {
            let w: usize = width_of(s[i]);
            proof {
                lemma_byte_len_push(s@.take(i as int), s@[i as int]);
                assert(s@.take(i as int).push(s@[i as int]) =~= s@.take(i + 1));
            }
            if w > room - n {
                proof {
                    lemma_byte_len_joined(s@.take(i + 1), s@.skip(i + 1));
                    assert(s@.take(i + 1) + s@.skip(i + 1) =~= s@);
                }
                return None;
            }
            n = n + w;
        }
        assert(s@.take(s@.len() as int) =~= s@);
        Some(n)
    }

    fn raw(self, s: &Vec<char>) -> (b: Buffer)
        requires
            self.wf(),
            balanced(s@),
        ensures
            b.wf(),
            b.written() == self.written().raw(s@),
    {
        let mut b = self;
        match b.room_for(s) {
            Some(n) => {
                push_all(&mut b.out, s);
                b.used = b.used + n;
            },
            None => {
                b.full = true;
            },
        }
        assert(b.written() =~= self.written().raw(s@));
        proof {
            lemma_raw_is_sound(self.written(), s@);
        }
        b
    }

    fn open(self, tag: &'static str, attrs: &Vec<char>) -> (b: Buffer)
        requires
            self.wf(),
            is_name(tag@),
            !is_void(tag@),
            are_attrs(attrs@),
        ensures
            b.wf(),
            b.written() == self.written().opened(tag@, attrs@),
    {
        let mut b = self;
        let s: Vec<char> = open_tag(tag, attrs);
        match b.room_for(&s) {
            Some(n) => {
                push_all(&mut b.out, &s);
                b.used = b.used + n;
                b.tags.push(tag);
                assert(tag_views(b.tags@) =~= tag_views(self.tags@).push(tag@));
            },
            None => {
                b.full = true;
                if b.muted < usize::MAX {
                    b.muted = b.muted + 1;
                }
            },
        }
        assert(b.written() =~= self.written().opened(tag@, attrs@));
        proof {
            lemma_opened_is_sound(self.written(), tag@, attrs@);
        }
        b
    }

    fn close(self) -> (b: Buffer)
        requires
            self.wf(),
        ensures
            b.wf(),
            b.written() == self.written().closed(),
    {
        let mut b = self;
        if b.muted > 0 {
            b.muted = b.muted - 1;
        } else if b.tags.len() > 0 {
            b = b.close_tag();
        }
        assert(b.written() =~= self.written().closed());
        b
    }

    fn close_tag(self) -> (b: Buffer)
        requires
            self.wf(),
            self.tags@.len() > 0,
        ensures
            b.wf(),
            b.written() == self.written().ended(),
    {
        let mut b = self;
        let tag: &'static str = b.tags[b.tags.len() - 1];
        let ghost before = b.out@;
        push_text(&mut b.out, "</");
        push_text(&mut b.out, tag);
        b.out.push('>');
        assert(b.out@ =~= before + close_text(tag@));
        let _ = b.tags.pop();
        assert(tag_views(b.tags@) =~= tag_views(self.tags@).drop_last());
        assert(b.written() =~= self.written().ended());
        proof {
            lemma_ended_is_sound(self.written());
        }
        b
    }
}

fn open_tag(tag: &str, attrs: &Vec<char>) -> (r: Vec<char>)
    ensures
        r@ == open_text(tag@, attrs@),
{
    let mut s: Vec<char> = Vec::new();
    s.push('<');
    push_text(&mut s, tag);
    push_all(&mut s, attrs);
    s.push('>');
    assert(s@ =~= open_text(tag@, attrs@));
    s
}

/// Writes HTML up to a number of bytes. Whatever the bound cuts off, every tag that was
/// opened is closed, in order.
pub struct Writer {
    buf: Buffer,
}

impl View for Writer {
    type V = Written;

    closed spec fn view(&self) -> Written {
        self.buf.written()
    }
}

impl Writer {
    #[verifier::type_invariant]
    spec fn inv(self) -> bool {
        self.buf.wf()
    }

    pub fn new(cap: usize) -> (w: Writer)
        ensures
            w@ == Written::fresh(cap as nat),
    {
        Writer { buf: Buffer::new(cap) }
    }

    fn take(&mut self) -> (b: Buffer)
        ensures
            b.wf(),
            b.written() == old(self)@,
            final(self)@ == Written::fresh(0),
    {
        proof {
            use_type_invariant(&*self);
        }
        let mut b: Buffer = Buffer::new(0);
        std::mem::swap(&mut b, &mut self.buf);
        b
    }

    /// Writes a text as it is.
    pub fn raw(&mut self, s: &Vec<char>)
        requires
            balanced(s@),
        ensures
            final(self)@ == old(self)@.raw(s@),
    {
        let b: Buffer = self.take();
        self.buf = b.raw(s);
    }

    /// Writes a text, escaped.
    pub fn text(&mut self, s: &str)
        ensures
            final(self)@ == old(self)@.text(s@),
    {
        let mut v: Vec<char> = Vec::new();
        push_text(&mut v, s);
        let mut e: Vec<char> = Vec::new();
        push_escaped(&mut e, &v, false);
        assert(v@ =~= s@);
        assert(e@ =~= escaped(s@, false));
        proof {
            lemma_escaped_is_balanced(s@);
        }
        self.raw(&e);
    }

    /// Writes an element that has no content.
    pub fn void(&mut self, tag: &str, attrs: &Vec<char>)
        requires
            is_name(tag@),
            is_void(tag@),
            are_attrs(attrs@),
        ensures
            final(self)@ == old(self)@.void(tag@, attrs@),
    {
        let s: Vec<char> = open_tag(tag, attrs);
        proof {
            lemma_void(tag@, attrs@);
        }
        self.raw(&s);
    }

    /// Opens a tag. Each takes one `close`.
    pub fn open(&mut self, tag: &'static str, attrs: &Vec<char>)
        requires
            is_name(tag@),
            !is_void(tag@),
            are_attrs(attrs@),
        ensures
            final(self)@ == old(self)@.opened(tag@, attrs@),
    {
        let b: Buffer = self.take();
        self.buf = b.open(tag, attrs);
    }

    /// Closes the innermost open tag.
    pub fn close(&mut self)
        ensures
            final(self)@ == old(self)@.closed(),
    {
        let b: Buffer = self.take();
        self.buf = b.close();
    }

    /// Something did not fit.
    pub fn is_full(&self) -> (r: bool)
        ensures
            r == self@.full,
    {
        self.buf.full
    }

    /// The bytes written, closing tags aside.
    pub fn len(&self) -> (n: usize)
        ensures
            n == self@.used,
            n <= self@.cap,
    {
        proof {
            use_type_invariant(self);
        }
        self.buf.used
    }

    /// The HTML, with every open tag closed.
    pub fn finish(self) -> (r: String)
        ensures
            r@ == self@.finished(),
            balanced(r@),
            self@.used <= self@.cap,
    {
        proof {
            use_type_invariant(&self);
            lemma_finished_is_balanced(self@);
        }
        let mut b: Buffer = self.buf;
        while b.tags.len() > 0
            invariant
                b.wf(),
                b.written().finished() == self@.finished(),
            decreases b.tags@.len(),
        {
            b = b.close_tag();
        }
        string_of(&b.out)
    }
}

/// HTML that is complete in itself.
#[derive(Debug)]
pub struct Markup {
    text: String,
}

impl View for Markup {
    type V = Seq<char>;

    closed spec fn view(&self) -> Seq<char> {
        self.text@
    }
}

impl Markup {
    #[verifier::type_invariant]
    spec fn inv(self) -> bool {
        balanced(self.text@)
    }

    pub fn new(text: String) -> (m: Markup)
        requires
            balanced(text@),
        ensures
            m@ == text@,
    {
        Markup { text }
    }

    /// Writes it.
    pub fn write(&self, w: &mut Writer)
        ensures
            final(w)@ == old(w)@.raw(self@),
    {
        proof {
            use_type_invariant(self);
        }
        w.raw(&chars_of(self.text.as_str()));
    }
}

} // verus!
