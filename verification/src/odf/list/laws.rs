//! What numbered and bulleted lists show, whatever their levels state.

use vstd::prelude::*;
use crate::chars::{decimal, trimmed};
use crate::fonts::font_stack;
use crate::listnum::alpha_text;
use crate::model::Align;
use crate::odf::length::Px;
use crate::odf::list::{
    followed_by_of, indent_of, kind_of, label_family, label_props, level_align, level_of,
    num_fmt_of, numeral, px_or_zero, times, with_level, FollowedBy, LevelKind, LevelView,
    LevelsView, NumFmt, Numbering, StartView,
};
use crate::odf::style::props::{bounded_attr, trimmed_attr};
use crate::odf::style::store::Store;
use crate::odf::style::{size_in, MAX_INDENT_PX};
use crate::xml::Tree;

verus! {

// ── numerals ─────────────────────────────────────────────────────────────────

/// A format is named by its first numeral; an empty name is no numeral at all, and any
/// other is decimal.
pub proof fn law_formats_by_name(v: Seq<char>)
    ensures
        num_fmt_of(v) == NumFmt::LowerLetter <==> trimmed(v) == "a"@,
        num_fmt_of(v) == NumFmt::UpperLetter <==> trimmed(v) == "A"@,
        num_fmt_of(v) == NumFmt::LowerRoman <==> trimmed(v) == "i"@,
        num_fmt_of(v) == NumFmt::UpperRoman <==> trimmed(v) == "I"@,
        num_fmt_of(v) == NumFmt::Blank <==> trimmed(v).len() == 0,
        num_fmt_of(v) == NumFmt::Decimal <==> trimmed(v).len() > 0 && trimmed(v) != "a"@ && trimmed(
            v,
        ) != "A"@ && trimmed(v) != "i"@ && trimmed(v) != "I"@,
{
    reveal_strlit("a");
    reveal_strlit("A");
    reveal_strlit("i");
    reveal_strlit("I");
    assert("a"@[0] == 'a' && "A"@[0] == 'A' && "i"@[0] == 'i' && "I"@[0] == 'I');
}

/// The numerals of each format.
pub proof fn law_numerals_by_format(n: u32, sync: bool)
    ensures
        numeral(NumFmt::Decimal, sync, n) == decimal(n as nat),
        numeral(NumFmt::LowerLetter, false, n) == alpha_text(n as nat, false),
        numeral(NumFmt::UpperLetter, false, n) == alpha_text(n as nat, true),
        numeral(NumFmt::LowerRoman, sync, n) == crate::listnum::roman_text(n as nat, false),
        numeral(NumFmt::UpperRoman, sync, n) == crate::listnum::roman_text(n as nat, true),
        numeral(NumFmt::Blank, sync, n).len() == 0,
{
}

proof fn lemma_times(c: char, n: nat)
    ensures
        times(seq![c], n).len() == n,
        forall|k: int| 0 <= k < n ==> #[trigger] times(seq![c], n)[k] == c,
    decreases n,
{
    if n > 0 {
        lemma_times(c, (n - 1) as nat);
    }
}

/// Letters that stay in step: past `z` comes `aa`, then `bb`, each letter as often as the
/// alphabet has been gone through.
pub proof fn law_letters_in_step(n: u32, upper: bool)
    requires
        1 <= n <= 260,
    ensures
        ({
            let t = numeral(
                if upper {
                    NumFmt::UpperLetter
                } else {
                    NumFmt::LowerLetter
                },
                true,
                n,
            );
            let d = (n - 1) % 26;
            let letter = if upper {
                (d + 65) as u8 as char
            } else {
                (d + 97) as u8 as char
            };
            t.len() == (n - 1) / 26 + 1 && forall|k: int| 0 <= k < t.len() ==> #[trigger] t[k]
                == letter
        }),
{
    let d = (n - 1) % 26;
    let letter = if upper {
        (d + 65) as u8 as char
    } else {
        (d + 97) as u8 as char
    };
    reveal_with_fuel(alpha_text, 2);
    assert(alpha_text((d + 1) as nat, upper) =~= seq![letter]);
    lemma_times(letter, ((n - 1) / 26 + 1) as nat);
}

// ── labels ───────────────────────────────────────────────────────────────────

/// The label of a numbered item is its numeral between what the level puts before and
/// behind it. Where the level shows more levels than its own, the numerals of the lists
/// around it stand before it, outermost first, with a dot behind each.
pub proof fn law_labels_of_numbered_items(s: Numbering, l: LevelView, m: LevelView, idx: int)
    requires
        0 <= idx < s.stack.len(),
    ensures
        ({
            let own = s.numeral_at(idx);
            &&& l.display_levels <= 1 && own is Some ==> s.numbered(l, idx) == l.prefix + own->0
                + l.suffix
            &&& idx >= 1 && l.display_levels == 2 && own is Some && own->0.len() > 0
                && s.numeral_at(idx - 1) is Some && s.numeral_at(idx - 1)->0.len() > 0
                ==> s.numbered(l, idx) == l.prefix + s.numeral_at(idx - 1)->0 + seq!['.'] + own->0
                + l.suffix
            &&& idx >= 2 && l.display_levels == 3 && own is Some && own->0.len() > 0
                && s.numeral_at(idx - 1) is Some && s.numeral_at(idx - 1)->0.len() > 0
                && s.numeral_at(idx - 2) is Some && s.numeral_at(idx - 2)->0.len() > 0
                ==> s.numbered(l, idx) == l.prefix + s.numeral_at(idx - 2)->0 + seq!['.']
                + s.numeral_at(idx - 1)->0 + seq!['.'] + own->0 + l.suffix
            &&& l.display_levels > idx + 1 && m.display_levels == idx + 1 && m.prefix == l.prefix
                && m.suffix == l.suffix ==> s.numbered(l, idx) == s.numbered(m, idx)
        }),
{
    lemma_last_numeral(s, idx, true);
    lemma_last_numeral(s, idx, false);
    if l.display_levels <= 1 && s.numeral_at(idx) is Some {
        assert(s.numbered(l, idx) =~= l.prefix + s.numeral_at(idx)->0 + l.suffix);
    }
    if idx >= 1 && l.display_levels == 2 && s.numeral_at(idx) is Some && s.numeral_at(idx)->0.len()
        > 0 && s.numeral_at(idx - 1) is Some && s.numeral_at(idx - 1)->0.len() > 0 {
        assert(s.numerals(idx - 1, idx, true) =~= s.numeral_at(idx - 1)->0 + s.numerals(
            idx,
            idx,
            false,
        ));
        assert(s.numbered(l, idx) =~= l.prefix + s.numeral_at(idx - 1)->0 + seq!['.']
            + s.numeral_at(idx)->0 + l.suffix);
    }
    if idx >= 2 && l.display_levels == 3 && s.numeral_at(idx) is Some && s.numeral_at(idx)->0.len()
        > 0 && s.numeral_at(idx - 1) is Some && s.numeral_at(idx - 1)->0.len() > 0 && s.numeral_at(
        idx - 2,
    ) is Some && s.numeral_at(idx - 2)->0.len() > 0 {
        assert(s.numerals(idx - 1, idx, false) =~= seq!['.'] + s.numeral_at(idx - 1)->0
            + s.numerals(idx, idx, false));
        assert(s.numerals(idx - 2, idx, true) =~= s.numeral_at(idx - 2)->0 + s.numerals(
            idx - 1,
            idx,
            false,
        ));
        assert(s.numbered(l, idx) =~= l.prefix + s.numeral_at(idx - 2)->0 + seq!['.']
            + s.numeral_at(idx - 1)->0 + seq!['.'] + s.numeral_at(idx)->0 + l.suffix);
    }
}

proof fn lemma_last_numeral(s: Numbering, idx: int, first: bool)
    ensures
        s.numeral_at(idx) is Some ==> s.numerals(idx, idx, first) == (if s.numeral_at(idx)->0.len()
            == 0 || first {
            s.numeral_at(idx)->0
        } else {
            seq!['.'] + s.numeral_at(idx)->0
        }),
{
    reveal_with_fuel(Numbering::numerals, 2);
    if s.numeral_at(idx) is Some {
        assert(s.numerals(idx + 1, idx, false) =~= Seq::<char>::empty());
        assert(s.numerals(idx + 1, idx, first) =~= Seq::<char>::empty());
        let n = s.numeral_at(idx)->0;
        if n.len() == 0 {
            assert(s.numerals(idx, idx, first) =~= n);
        } else if first {
            assert(s.numerals(idx, idx, first) =~= n);
        } else {
            assert(s.numerals(idx, idx, first) =~= seq!['.'] + n);
        }
    }
}

/// What an item of a list is labelled with: its number, its bullet, or a plain bullet in
/// the place of a picture; in the colour, the font and the size of the label. A label of
/// no text is none.
pub proof fn law_what_a_label_shows(s: Numbering, l: LevelView, store: Store, base_pt: Px)
    ensures
        ({
            let m = s.marker(l, store, base_pt);
            let t = label_props(l, store);
            let family = label_family(t, store);
            &&& m.indent == l.indent
            &&& m.bullet <==> !(l.kind is Number)
            &&& l.kind is Image <==> m.image is Some
            &&& l.kind is Image ==> m.image == Some(l.kind->Image_0) && m.label is Some
                && m.label->0.label == "\u{2022}"@
            &&& l.kind is Bullet && (family is None || !crate::fonts::is_symbol(family->0))
                && 0 < l.kind->Bullet_0.len() <= 64 ==> m.label is Some && m.label->0.label
                == l.kind->Bullet_0
            &&& l.kind is Bullet && l.kind->Bullet_0.len() == 0 ==> m.label is None
            &&& l.kind is Number && 0 < s.numbered(l, s.stack.len() - 1).len() <= 64
                ==> m.label is Some && m.label->0.label == s.numbered(l, s.stack.len() - 1)
            &&& m.label is Some ==> {
                let k = m.label->0;
                &&& family is Some ==> k.font == Some(font_stack(family->0))
                &&& family is None ==> k.font is None
                &&& t.size is None ==> k.size_pt is None
                &&& t.size is Some ==> k.size_pt == Some(size_in(t.size, base_pt))
                &&& t.color is None ==> k.color is None
                &&& t.color is Some ==> k.color == t.color->0.value()
            }
        }),
{
    reveal_strlit("\u{2022}");
}

/// Items count: the first has the number that its level starts with, or the number that
/// it states; each that follows has one more; and an item that states a number has it.
pub proof fn law_numbers_of_items(s: Numbering, l: LevelView, v: u32)
    requires
        s.stack.len() > 0,
        s.marker_level() == Some(l),
        1 <= v <= 1_000_000,
    ensures
        ({
            let f = s.stack.last();
            let n = s.counted().stack.last().counter;
            &&& f.pending is None && f.counter is None ==> n == Some(l.start)
            &&& f.pending is None && f.counter is Some && f.counter->0 < 1_000_000 ==> n == Some(
                (f.counter->0 + 1) as u32,
            )
            &&& s.restarted(v).counted().stack.last().counter == Some(v)
            &&& s.counted().stack.last().pending is None
            &&& s.counted().stack.drop_last() == s.stack.drop_last()
        }),
{
    let r = s.restarted(v);
    assert(r.level_at(r.stack.len() - 1) == s.level_at(s.stack.len() - 1));
    assert(r.marker_level() == Some(l));
    assert(s.counted().stack.drop_last() =~= s.stack.drop_last());
}

/// A list begins anew where it does not continue another: its first item has its level's
/// first number. It has its own style where that is a list style, and else that of the
/// list around it.
pub proof fn law_a_list_begins_anew(s: Numbering, start: StartView)
    requires
        s.stack.len() < 10,
    ensures
        ({
            let t = s.entered(start);
            &&& t.stack.len() == s.stack.len() + 1
            &&& t.stack.drop_last() == s.stack
            &&& start.continue_list is None && !start.continue_numbering
                ==> t.stack.last().counter is None
            &&& start.style is Some && crate::names::lookup(s.defs, start.style->0) is Some
                ==> t.stack.last().style == start.style
            &&& (start.style is None || crate::names::lookup(s.defs, start.style->0) is None)
                && s.stack.len() > 0 ==> t.stack.last().style == s.stack.last().style
            &&& (start.style is None || crate::names::lookup(s.defs, start.style->0) is None)
                && s.stack.len() == 0 ==> t.stack.last().style is None
        }),
{
    assert(s.entered(start).stack.drop_last() =~= s.stack);
}

// ── levels ───────────────────────────────────────────────────────────────────

/// What an element states of a level: where its numbers start, how they are written, what
/// stands around them, and how many levels they show.
pub proof fn law_what_a_level_states(e: Tree, kind: LevelKind<Seq<char>>)
    ensures
        ({
            let l = level_of(e, kind);
            let start = e.attr_u32("start-value"@);
            let shown = e.attr_u32("display-levels"@);
            &&& l.kind == kind
            &&& start is None || start == Some(0u32) ==> l.start == 1
            &&& start is Some && 1 <= start->0 <= 1_000_000 ==> l.start == start->0
            &&& shown is None || shown == Some(0u32) ==> l.display_levels == 1
            &&& shown is Some && 1 <= shown->0 <= 10 ==> l.display_levels == shown->0
            &&& e.attr("num-format"@) is None ==> l.fmt == NumFmt::Decimal
            &&& e.attr("num-format"@) is Some ==> l.fmt == num_fmt_of(e.attr("num-format"@)->0)
            &&& kind is Number && e.text_attr("num-prefix"@).len() <= 64 ==> l.prefix
                == e.text_attr("num-prefix"@)
            &&& kind is Number && e.text_attr("num-suffix"@).len() <= 64 ==> l.suffix
                == e.text_attr("num-suffix"@)
            &&& !(kind is Number) ==> l.prefix.len() == 0 && l.suffix.len() == 0
            &&& e.child("list-level-properties"@) is Some ==> l.indent == indent_of(
                e.child("list-level-properties"@)->0,
            )
            &&& e.child("list-level-properties"@) is None ==> l.indent.indent_px == 0
                && l.indent.first_line_px == 0 && l.indent.followed_by == FollowedBy::ListTab
        }),
{
}

/// The kinds of levels by the names of their elements.
pub proof fn law_kinds_of_levels(e: Tree)
    ensures
        kind_of(e) == Some(LevelKind::<Seq<char>>::Number) <==> e.name
            == "list-level-style-number"@,
        kind_of(e) is Some && kind_of(e)->0 is Bullet <==> e.name == "list-level-style-bullet"@,
        kind_of(e) is Some && kind_of(e)->0 is Image <==> e.name == "list-level-style-image"@,
        e.name == "list-level-style-bullet"@ && e.text_attr("bullet-char"@).len() <= 4
            ==> kind_of(e)
            == Some(LevelKind::Bullet(e.text_attr("bullet-char"@))),
{
    reveal_strlit("list-level-style-number");
    reveal_strlit("list-level-style-bullet");
    reveal_strlit("list-level-style-image");
    assert("list-level-style-number"@[17] == 'n' && "list-level-style-bullet"@[17] == 'b'
        && "list-level-style-image"@[17] == 'i');
}

/// A level stands at the place that it states, and the others stay.
pub proof fn law_levels_stand_at_their_places(levels: LevelsView, e: Tree, k: int)
    requires
        levels.len() == 10,
    ensures
        ({
            let t = with_level(levels, e);
            let n = e.attr_u32("level"@);
            &&& t.len() == 10
            &&& kind_of(e) is Some && n is Some && 1 <= n->0 <= 10 ==> t[n->0 - 1] == Some(
                level_of(e, kind_of(e)->0),
            )
            &&& 0 <= k < 10 && (n is None || k != n->0 - 1 || kind_of(e) is None) ==> t[k]
                == levels[k]
        }),
{
}

/// How far a level stands in. The newer way states where the text and where the first line
/// begin; the older way states the space before the label and the label's width, and its
/// text begins behind both.
pub proof fn law_how_far_a_level_stands_in(p: Tree)
    ensures
        ({
            let i = indent_of(p);
            let label = p.child("list-level-label-alignment"@);
            let older = p.attr("space-before"@) is Some || p.attr("min-label-width"@) is Some;
            let switched = trimmed_attr(
                p,
                "list-level-position-and-space-mode"@,
            ) == Some("label-alignment"@);
            let before = px_or_zero(bounded_attr(p, "space-before"@));
            let width = px_or_zero(bounded_attr(p, "min-label-width"@));
            &&& label is Some && (switched || !older) ==> i.indent_px
                == px_or_zero(
                bounded_attr(label->0, "margin-left"@),
            ) && i.first_line_px == px_or_zero(
                bounded_attr(label->0, "text-indent"@),
            ) && i.followed_by == followed_by_of(label->0)
            &&& label is None || (older && !switched) ==> i.followed_by == FollowedBy::ListTab
                && i.first_line_px == -width && (-MAX_INDENT_PX <= before + width <= MAX_INDENT_PX
                ==> i.indent_px == before + width)
        }),
{
}

/// What stands behind a label, and where it stands, by name.
pub proof fn law_words_of_levels(e: Tree, v: Option<Seq<char>>)
    ensures
        followed_by_of(e) == FollowedBy::Space <==> trimmed_attr(
            e,
            "label-followed-by"@,
        ) == Some("space"@),
        followed_by_of(e) == FollowedBy::Nothing <==> trimmed_attr(
            e,
            "label-followed-by"@,
        ) == Some("nothing"@),
        level_align(v) == Some(Align::Left) <==> v == Some("start"@) || v == Some("left"@),
        level_align(v) == Some(Align::Center) <==> v == Some("center"@),
        level_align(v) == Some(Align::Right) <==> v == Some("end"@) || v == Some("right"@),
{
    reveal_strlit("space");
    reveal_strlit("nothing");
    reveal_strlit("start");
    reveal_strlit("left");
    reveal_strlit("center");
    reveal_strlit("end");
    reveal_strlit("right");
    assert("space"@[0] == 's' && "nothing"@[0] == 'n');
    assert("start"@[0] == 's' && "left"@[0] == 'l' && "center"@[0] == 'c' && "end"@[0] == 'e'
        && "right"@[0] == 'r');
}

} // verus!
