//! The fonts that a document names, and what else its text properties state.

use vstd::prelude::*;
use crate::chars::{ascii_lower_all, is_space, lemma_trimmed_already, trimmed};
use crate::fonts::{font_stack, is_plain, is_symbol, plain, symbol_of};
use crate::names::lookup;
use crate::numfmt::tokens::until;
use crate::odf::length::{len_of, measure_of};
use crate::odf::number::number_of;
use crate::odf::numstyle::name_from;
use crate::odf::style::props::{
    bounded_attr, color_attr, color_val_of, face_of, first_family, is_quote, language_of,
    line_spec_of, positive_attr, rotation_of, size_attr, spacing_of, stops_of, text_props_of, Faces,
    MAX_SPACING_PT, MAX_TAB_STOPS,
};
use crate::odf::style::store::with_face;
use crate::odf::style::{clamped_pt, ColorVal, FontSize, LineSpec, MAX_INDENT_PX, MAX_SIZE_PCT};
use crate::xml::Tree;

verus! {

/// A font is the one that a declaration of that name gives; or the name itself where there
/// is no such declaration; or, where no name is stated, the first family of a list.
pub proof fn law_which_font_is_named(e: Tree, faces: Faces)
    ensures
        ({
            let name = name_from(e.attr("font-name"@), 128);
            let list = e.attr("font-family"@);
            let f = face_of(e, faces);
            &&& name is Some && lookup(faces, name->0) is Some ==> f == lookup(faces, name->0)
            &&& name is Some && lookup(faces, name->0) is None ==> f == name
            &&& name is None && list is Some ==> f == first_family(list->0)
            &&& name is None && list is None ==> f is None
            &&& text_props_of(e, faces).font_raw == f
            &&& f is Some ==> text_props_of(e, faces).font == Some(font_stack(f->0))
            &&& f is None ==> text_props_of(e, faces).font is None
        }),
{
}

proof fn lemma_until(s: Seq<char>, i: int, c: char, j: int)
    requires
        0 <= i <= j <= s.len(),
        forall|k: int| i <= k < j ==> #[trigger] s[k] != c,
        j < s.len() ==> s[j] == c,
    ensures
        until(s, i, c) == j,
    decreases j - i,
{
    if i < j {
        assert(s[i] != c);
        lemma_until(s, i + 1, c, j);
    }
}

/// The first family of a list is what stands before its first comma.
pub proof fn law_the_first_family_counts(v: Seq<char>, j: int)
    requires
        0 < j <= v.len() && j <= 128,
        forall|k: int| 0 <= k < j ==> #[trigger] v[k] != ',' && !is_quote(v[k]),
        j < v.len() ==> v[j] == ',',
        !is_space(v[0]),
        !is_space(v[j - 1]),
    ensures
        first_family(v) == Some(v.take(j)),
{
    lemma_until(v, 0, ',', j);
    let t = v.take(j);
    assert(t.last() == v[j - 1] && t[0] == v[0]);
    lemma_trimmed_already(t);
    assert(t.take(t.len() as int) =~= t);
}

proof fn lemma_all_plain(s: Seq<char>)
    requires
        forall|k: int| 0 <= k < s.len() ==> is_plain(#[trigger] s[k]),
    ensures
        plain(s) == s,
    decreases s.len(),
{
    if s.len() > 0 {
        assert(is_plain(s[s.len() - 1]));
        lemma_all_plain(s.drop_last());
        assert(s.drop_last().push(s.last()) =~= s);
    }
}

/// A family stands in the page in quotes, with a font of its kind behind it where it is
/// missing; three common ones have free fonts of their measure in their place.
pub proof fn law_fonts_in_the_page(raw: Seq<char>)
    ensures
        raw == "Times New Roman"@ ==> font_stack(raw)
            == "\"Liberation Serif\", Tinos, Times, serif"@,
        raw == "Arial"@ ==> font_stack(raw)
            == "\"Liberation Sans\", Arimo, Helvetica, sans-serif"@,
        raw == "Courier New"@ ==> font_stack(raw)
            == "\"Liberation Mono\", Cousine, Courier, monospace"@,
        raw != "Times New Roman"@ && raw != "Arial"@ && raw != "Courier New"@ && (forall|k: int|
            0 <= k < raw.len() ==> (#[trigger] raw[k]) != '"' && raw[k] != '\'' && raw[k] != '\\'
                && raw[k] != ';' && raw[k] != '{' && raw[k] != '}' && raw[k] != '<' && raw[k] != '>'
                && raw[k] as u32 >= 0x20 && raw[k] as u32 != 0x7f) ==> font_stack(raw) == seq!['"']
            + raw + "\", sans-serif"@,
{
    reveal_strlit("Times New Roman");
    reveal_strlit("Arial");
    reveal_strlit("Courier New");
    assert("Times New Roman"@.len() == 15 && "Arial"@.len() == 5 && "Courier New"@.len() == 11);
    if forall|k: int|
        0 <= k < raw.len() ==> (#[trigger] raw[k]) != '"' && raw[k] != '\'' && raw[k] != '\\'
            && raw[k] != ';' && raw[k] != '{' && raw[k] != '}' && raw[k] != '<' && raw[k] != '>'
            && raw[k] as u32 >= 0x20 && raw[k] as u32 != 0x7f {
        lemma_all_plain(raw);
    }
}

/// The bullets of symbol fonts are turned into characters that any font has, and nothing
/// else of them.
pub proof fn law_bullets_of_symbol_fonts(c: char, raw: Seq<char>)
    ensures
        symbol_of('\u{f0b7}') == '\u{2022}',
        symbol_of('\u{f0a7}') == '\u{25aa}',
        c != '\u{f0b7}' && c != '\u{f0a7}' ==> symbol_of(c) == c,
        is_symbol(raw) <==> ascii_lower_all(raw) == "symbol"@ || ascii_lower_all(raw)
            == "wingdings"@ || ascii_lower_all(raw) == "wingdings 2"@ || ascii_lower_all(raw)
            == "wingdings 3"@ || ascii_lower_all(raw) == "webdings"@,
{
}

/// A font declaration gives its family, or its own name where it states none.
pub proof fn law_font_declarations(faces: Faces, e: Tree, name: Seq<char>)
    requires
        e.name == "font-face"@,
        name_from(e.attr("name"@), 128) == Some(name),
        faces.len() < crate::odf::style::store::MAX_STYLES,
    ensures
        ({
            let f = e.attr("font-family"@);
            &&& f is Some && first_family(f->0) is Some ==> lookup(with_face(faces, e), name)
                == first_family(f->0)
            &&& f is None ==> lookup(with_face(faces, e), name) == Some(name)
        }),
{
    let f = e.attr("font-family"@);
    let family = match f {
        Some(v) => match first_family(v) {
            Some(x) => x,
            None => name,
        },
        None => name,
    };
    crate::names::law_stored_is_found(faces, name, family, name);
}

/// A size is a length, or a share of the size around it.
pub proof fn law_sizes_that_are_stated(e: Tree)
    ensures
        ({
            let m = measure_of(e.attr("font-size"@)->0);
            let s = size_attr(e);
            &&& e.attr("font-size"@) is None ==> s is None
            &&& e.attr("font-size"@) is Some && m is None ==> s is None
            &&& e.attr("font-size"@) is Some && m is Some && m->0 is Px ==> s == Some(
                FontSize::Pt(clamped_pt(m->0->Px_0 as int)),
            )
            &&& e.attr("font-size"@) is Some && m is Some && m->0 is Percent && 0
                <= m->0->Percent_0 <= MAX_SIZE_PCT ==> s == Some(
                FontSize::Percent(m->0->Percent_0),
            )
        }),
{
}

/// The language of a text is that which is stated, with the country behind it where one
/// is; and letters stand as far apart as is stated, or not at all.
pub proof fn law_languages_and_spacing(e: Tree, v: Seq<char>)
    ensures
        ({
            let l = name_from(e.attr("language"@), 128);
            let c = name_from(e.attr("country"@), 128);
            &&& l is None ==> language_of(e) is None
            &&& l is Some && c is None ==> language_of(e) == l
            &&& l is Some && c is Some ==> language_of(e) == Some(l->0 + seq!['-'] + c->0)
        }),
        trimmed(v) == "normal"@ ==> spacing_of(v) == Some(0i64),
        trimmed(v) != "normal"@ && len_of(v) is Some && -MAX_SPACING_PT <= len_of(v)->0
            <= MAX_SPACING_PT ==> spacing_of(v) == len_of(v),
{
}

/// Tab stops come in the order in which they are stated.
pub proof fn law_tab_stops_in_order(v: Seq<Tree>, e: Tree)
    ensures
        e.name == "tab-stop"@ && positive_attr(e, "position"@) is Some && stops_of(v).len()
            < MAX_TAB_STOPS ==> stops_of(v.push(e)) == stops_of(v).push(
            positive_attr(e, "position"@)->0,
        ),
        e.name != "tab-stop"@ ==> stops_of(v.push(e)) == stops_of(v),
{
    assert(v.push(e).drop_last() =~= v);
}

/// How far lines stand apart: a share of their height, a fixed height, a height that they
/// have at least, or a gap between them, in that order of the attributes.
pub proof fn law_how_far_lines_stand_apart(e: Tree)
    ensures
        ({
            let v = e.attr("line-height"@);
            let m = measure_of(v->0);
            let l = line_spec_of(e);
            let least = positive_attr(e, "line-height-at-least"@);
            let gap = bounded_attr(e, "line-spacing"@);
            &&& v is Some && trimmed(v->0) == "normal"@ ==> l == Some(
                LineSpec::Proportional(100_000_000),
            )
            &&& v is Some && trimmed(v->0) != "normal"@ && m is Some && m->0 is Percent
                && 10_000_000 <= m->0->Percent_0 <= 2_000_000_000 ==> l == Some(
                LineSpec::Proportional(m->0->Percent_0),
            )
            &&& v is Some && trimmed(v->0) != "normal"@ && m is Some && m->0 is Px && 0
                <= m->0->Px_0 <= MAX_INDENT_PX ==> l == Some(LineSpec::Fixed(m->0->Px_0))
            &&& v is None && least is Some ==> l == Some(LineSpec::AtLeast(least->0))
            &&& v is None && least is None && gap is Some ==> l == Some(LineSpec::Leading(gap->0))
            &&& v is None && least is None && gap is None ==> l is None
        }),
{
}

/// A colour that is stated is the colour; without one, text may ask for whatever stands
/// out from what is behind it.
pub proof fn law_colours_of_text(e: Tree)
    ensures
        ({
            let c = color_attr(e, "color"@);
            &&& c is Some ==> color_val_of(e) == Some(ColorVal::Of(c->0))
            &&& c is None && e.attr_bool("use-window-font-color"@) == Some(true)
                ==> color_val_of(e) == Some(ColorVal::Auto)
            &&& c is None && e.attr_bool("use-window-font-color"@) != Some(true)
                ==> color_val_of(e) is None
        }),
{
}

/// Text is turned by the angle that is stated, less whole turns.
pub proof fn law_turned_text(e: Tree, v: Seq<char>)
    requires
        e.attr("rotation-angle"@) == Some(v),
        number_of(trimmed(v)) is Some,
        number_of(trimmed(v))->0 is Finite,
    ensures
        rotation_of(e) is Some && rotation_of(e)->0 is Ccw,
        0 <= rotation_of(e)->0->Ccw_0 < 360_000_000,
        (number_of(trimmed(v))->0.value() - rotation_of(e)->0->Ccw_0) % 360_000_000 == 0,
{
}

} // verus!
