//! The declarations that paragraphs, runs, labels and pictures come with: each quality
//! that is stated has its own, and what is not stated has none.

use vstd::prelude::*;
use crate::html::decl;
use crate::model::words::{holds, holds_at};
use crate::model::{
    as_px, decoration, edge_text, graphic_css, line_text, marker_css, para_css, run_css,
    scaled_text, Align, Border, Caps, GraphicView, LineHeight, MarkerView, ParaView, Script, Side,
    TextView,
};
use crate::odf::length::{px_text, Px, PX};

verus! {

/// What stands in a part of a text stands in the text.
pub broadcast proof fn lemma_part(a: Seq<char>, b: Seq<char>, p: Seq<char>)
    ensures
        holds(a, p) || holds(b, p) ==> #[trigger] holds(a + b, p),
{
    if holds(a, p) {
        let i = choose|i: int| holds_at(a, p, i);
        assert((a + b).subrange(i, i + p.len()) =~= a.subrange(i, i + p.len()));
        assert(holds_at(a + b, p, i));
    }
    if holds(b, p) {
        let i = choose|i: int| holds_at(b, p, i);
        let j = i + a.len();
        assert((a + b).subrange(j, j + p.len()) =~= b.subrange(i, i + p.len()));
        assert(holds_at(a + b, p, j));
    }
}

/// A text stands in itself.
pub broadcast proof fn lemma_itself(p: Seq<char>)
    ensures
        #[trigger] holds(p, p),
{
    assert(p.subrange(0, p.len() as int) =~= p);
    assert(holds_at(p, p, 0));
}

/// The declarations that are the same wherever they stand.
proof fn lemma_words()
    ensures
        decl("font-weight"@, "700"@) == "font-weight:700;"@ && "font-weight:700;"@.len() == 16,
        decl("font-style"@, "italic"@) == "font-style:italic;"@
            && "font-style:italic;"@.len() == 18,
        decl("text-decoration"@, "underline"@) == "text-decoration:underline;"@
            && "text-decoration:underline;"@.len() == 26,
        decl("text-decoration"@, "line-through"@) == "text-decoration:line-through;"@
            && "text-decoration:line-through;"@.len() == 29,
        decl("text-decoration"@, "underline line-through"@)
            == "text-decoration:underline line-through;"@
            && "text-decoration:underline line-through;"@.len() == 39,
        decl("text-transform"@, "uppercase"@) == "text-transform:uppercase;"@
            && "text-transform:uppercase;"@.len() == 25,
        decl("font-variant"@, "small-caps"@) == "font-variant:small-caps;"@
            && "font-variant:small-caps;"@.len() == 24,
        decl("vertical-align"@, "super"@) == "vertical-align:super;"@
            && "vertical-align:super;"@.len() == 21,
        decl("vertical-align"@, "sub"@) == "vertical-align:sub;"@
            && "vertical-align:sub;"@.len() == 19,
        decl("font-size"@, "0.65em"@) == "font-size:0.65em;"@ && "font-size:0.65em;"@.len() == 17,
        decl("float"@, "left"@) == "float:left;"@ && "float:left;"@.len() == 11,
        decl("float"@, "right"@) == "float:right;"@ && "float:right;"@.len() == 12,
        decl("margin"@, "0 8px 4px 0"@) == "margin:0 8px 4px 0;"@
            && "margin:0 8px 4px 0;"@.len() == 19,
        decl("margin"@, "0 0 4px 8px"@) == "margin:0 0 4px 8px;"@
            && "margin:0 0 4px 8px;"@.len() == 19,
        decl("padding-right"@, "0.3em"@) == "padding-right:0.3em;"@
            && "padding-right:0.3em;"@.len() == 20,
        decl("direction"@, "rtl"@) == "direction:rtl;"@ && "direction:rtl;"@.len() == 14,
        decl("text-align"@, "left"@) == "text-align:left;"@ && "text-align:left;"@.len() == 16,
        decl("text-align"@, "center"@) == "text-align:center;"@
            && "text-align:center;"@.len() == 18,
        decl("text-align"@, "right"@) == "text-align:right;"@ && "text-align:right;"@.len() == 17,
        decl("text-align"@, "justify"@) == "text-align:justify;"@
            && "text-align:justify;"@.len() == 19,
{
    reveal_strlit("direction");
    reveal_strlit("float");
    reveal_strlit("font-size");
    reveal_strlit("font-style");
    reveal_strlit("font-variant");
    reveal_strlit("font-weight");
    reveal_strlit("margin");
    reveal_strlit("padding-right");
    reveal_strlit("text-align");
    reveal_strlit("text-decoration");
    reveal_strlit("text-transform");
    reveal_strlit("vertical-align");
    reveal_strlit("0 0 4px 8px");
    reveal_strlit("0 8px 4px 0");
    reveal_strlit("0.3em");
    reveal_strlit("0.65em");
    reveal_strlit("700");
    reveal_strlit("center");
    reveal_strlit("italic");
    reveal_strlit("justify");
    reveal_strlit("left");
    reveal_strlit("line-through");
    reveal_strlit("right");
    reveal_strlit("rtl");
    reveal_strlit("small-caps");
    reveal_strlit("sub");
    reveal_strlit("super");
    reveal_strlit("underline");
    reveal_strlit("underline line-through");
    reveal_strlit("uppercase");
    reveal_strlit("font-weight:700;");
    reveal_strlit("font-style:italic;");
    reveal_strlit("text-decoration:underline;");
    reveal_strlit("text-decoration:line-through;");
    reveal_strlit("text-decoration:underline line-through;");
    reveal_strlit("text-transform:uppercase;");
    reveal_strlit("font-variant:small-caps;");
    reveal_strlit("vertical-align:super;");
    reveal_strlit("vertical-align:sub;");
    reveal_strlit("font-size:0.65em;");
    reveal_strlit("float:left;");
    reveal_strlit("float:right;");
    reveal_strlit("margin:0 8px 4px 0;");
    reveal_strlit("margin:0 0 4px 8px;");
    reveal_strlit("padding-right:0.3em;");
    reveal_strlit("direction:rtl;");
    reveal_strlit("text-align:left;");
    reveal_strlit("text-align:center;");
    reveal_strlit("text-align:right;");
    reveal_strlit("text-align:justify;");
    assert(decl("font-weight"@, "700"@) =~= "font-weight:700;"@);
    assert(decl("font-style"@, "italic"@) =~= "font-style:italic;"@);
    assert(decl("text-decoration"@, "underline"@) =~= "text-decoration:underline;"@);
    assert(decl("text-decoration"@, "line-through"@) =~= "text-decoration:line-through;"@);
    assert(decl("text-decoration"@, "underline line-through"@)
        =~= "text-decoration:underline line-through;"@);
    assert(decl("text-transform"@, "uppercase"@) =~= "text-transform:uppercase;"@);
    assert(decl("font-variant"@, "small-caps"@) =~= "font-variant:small-caps;"@);
    assert(decl("vertical-align"@, "super"@) =~= "vertical-align:super;"@);
    assert(decl("vertical-align"@, "sub"@) =~= "vertical-align:sub;"@);
    assert(decl("font-size"@, "0.65em"@) =~= "font-size:0.65em;"@);
    assert(decl("float"@, "left"@) =~= "float:left;"@);
    assert(decl("float"@, "right"@) =~= "float:right;"@);
    assert(decl("margin"@, "0 8px 4px 0"@) =~= "margin:0 8px 4px 0;"@);
    assert(decl("margin"@, "0 0 4px 8px"@) =~= "margin:0 0 4px 8px;"@);
    assert(decl("padding-right"@, "0.3em"@) =~= "padding-right:0.3em;"@);
    assert(decl("direction"@, "rtl"@) =~= "direction:rtl;"@);
    assert(decl("text-align"@, "left"@) =~= "text-align:left;"@);
    assert(decl("text-align"@, "center"@) =~= "text-align:center;"@);
    assert(decl("text-align"@, "right"@) =~= "text-align:right;"@);
    assert(decl("text-align"@, "justify"@) =~= "text-align:justify;"@);
}

// ── runs ─────────────────────────────────────────────────────────────────────

/// Each quality of a run is declared: weight, slant, lines under and through the text,
/// colours, font, capitals, the space between letters, and whether it is raised or
/// lowered.
pub proof fn law_qualities_of_a_run(t: TextView, base_pt: Px, scalable: bool)
    ensures
        ({
            let css = run_css(t, base_pt, scalable);
            &&& t.bold ==> holds(css, "font-weight:700;"@)
            &&& t.italic ==> holds(css, "font-style:italic;"@)
            &&& t.underline && !t.strike ==> holds(css, "text-decoration:underline;"@)
            &&& t.strike && !t.underline ==> holds(css, "text-decoration:line-through;"@)
            &&& t.strike && t.underline ==> holds(
                css,
                "text-decoration:underline line-through;"@,
            )
            &&& t.caps == Some(Caps::All) ==> holds(css, "text-transform:uppercase;"@)
            &&& t.caps == Some(Caps::Small) ==> holds(css, "font-variant:small-caps;"@)
            &&& t.script == Some(Script::Super) ==> holds(css, "vertical-align:super;"@)
            &&& t.script == Some(Script::Sub) ==> holds(css, "vertical-align:sub;"@)
            &&& t.script is Some ==> holds(css, "font-size:0.65em;"@)
            &&& t.color is Some ==> holds(css, decl("color"@, t.color->0.css_text()))
            &&& t.highlight is Some ==> holds(
                css,
                decl("background-color"@, t.highlight->0.css_text()),
            )
            &&& t.font is Some ==> holds(css, decl("font-family"@, t.font->0))
            &&& t.letter_spacing_pt != 0 ==> holds(
                css,
                decl("letter-spacing"@, px_text(t.letter_spacing_pt)),
            )
            &&& t.size_pt - base_pt > 5_080_000 || base_pt - t.size_pt > 5_080_000 ==> holds(
                css,
                decl("font-size"@, scaled_text(t.size_pt, scalable)),
            )
        }),
{
    broadcast use {lemma_part, lemma_itself};

    lemma_words();
}

/// A run that states nothing of its own declares nothing.
pub proof fn law_a_plain_run_declares_nothing(t: TextView, base_pt: Px, scalable: bool)
    requires
        t.size_pt == base_pt,
        !t.bold && !t.italic && !t.underline && !t.strike,
        t.color is None && t.highlight is None && t.font is None,
        t.caps is None && t.script is None,
        t.letter_spacing_pt == 0,
    ensures
        run_css(t, base_pt, scalable).len() == 0,
{
}

// ── paragraphs ───────────────────────────────────────────────────────────────

/// Each quality of a paragraph is declared: how its lines stand, what it keeps clear on
/// each side, how tall its lines are, the direction of its text, its shade and its
/// borders.
pub proof fn law_qualities_of_a_paragraph(p: ParaView, scalable: bool)
    ensures
        ({
            let css = para_css(p, scalable);
            &&& p.align == Some(Align::Left) ==> holds(css, "text-align:left;"@)
            &&& p.align == Some(Align::Center) ==> holds(css, "text-align:center;"@)
            &&& p.align == Some(Align::Right) ==> holds(css, "text-align:right;"@)
            &&& p.align == Some(Align::Justify) ==> holds(css, "text-align:justify;"@)
            &&& p.rtl ==> holds(css, "direction:rtl;"@)
            &&& p.marker is None && p.indent_px != 0 ==> holds(
                css,
                decl("margin-left"@, px_text(p.indent_px)),
            )
            &&& p.marker is Some && 0 < p.indent_px + p.first_line_px <= i64::MAX ==> holds(
                css,
                decl("margin-left"@, px_text((p.indent_px + p.first_line_px) as i64)),
            )
            &&& p.marker is None && p.first_line_px != 0 ==> holds(
                css,
                decl("text-indent"@, px_text(p.first_line_px)),
            )
            &&& p.indent_end_px != 0 ==> holds(
                css,
                decl("margin-right"@, px_text(p.indent_end_px)),
            )
            &&& p.space_before_px > 0 ==> holds(
                css,
                decl("margin-top"@, px_text(p.space_before_px)),
            )
            &&& p.space_after_px > 0 ==> holds(
                css,
                decl("margin-bottom"@, px_text(p.space_after_px)),
            )
            &&& holds(css, decl("font-size"@, scaled_text(p.size_pt, scalable)))
            &&& p.shade is Some ==> holds(
                css,
                decl("background-color"@, p.shade->0.css_text()),
            )
        }),
{
    broadcast use {lemma_part, lemma_itself};

    lemma_words();
}

/// How tall the lines of a paragraph are: an exact height as it is, a least height as one
/// that grows with the text, and a share of the text's size as that share, where it is not
/// that of a single line.
pub proof fn law_heights_of_lines(p: ParaView, px: Px, scalable: bool)
    ensures
        p.line == LineHeight::Exact(px) ==> holds(
            para_css(p, scalable),
            decl("line-height"@, scaled_text(px, scalable)),
        ),
        p.line == LineHeight::AtLeast(px) ==> holds(
            para_css(p, scalable),
            decl("line-height"@, "max("@ + scaled_text(px, scalable) + ", 1.2em)"@),
        ),
        p.line == LineHeight::Multiple(120_000_000) ==> line_text(p.line, scalable).len() == 0,
        p.line == LineHeight::Multiple(px) && (px > 120_100_000 || px < 119_900_000) ==> holds(
            para_css(p, scalable),
            decl("line-height"@, crate::color::fixed_text(px as int, 100_000_000)),
        ),
        scaled_text(px, false) == px_text(px),
        scaled_text(px, true) == "calc("@ + px_text(px) + " * var(--af, 1))"@,
{
    broadcast use {lemma_part, lemma_itself};

}

/// Each edge of a paragraph has its own declaration, with its width, its style and its
/// colour, and the gap that it asks for. An edge of no width has none.
pub proof fn law_edges_of_a_paragraph(p: ParaView, e: Border, scalable: bool)
    requires
        e.width_px > 0,
    ensures
        ({
            let css = para_css(p, scalable);
            &&& p.borders.top == Some(e) ==> holds(css, decl("border-top"@, edge_text(e)))
            &&& p.borders.right == Some(e) ==> holds(css, decl("border-right"@, edge_text(e)))
            &&& p.borders.bottom == Some(e) ==> holds(css, decl("border-bottom"@, edge_text(e)))
            &&& p.borders.left == Some(e) ==> holds(css, decl("border-left"@, edge_text(e)))
            &&& p.borders.top == Some(e) && e.space_px > 0 ==> holds(
                css,
                decl("padding-top"@, px_text(e.space_px)),
            )
            &&& p.borders.right == Some(e) && e.space_px > 0 ==> holds(
                css,
                decl("padding-right"@, px_text(e.space_px)),
            )
            &&& p.borders.bottom == Some(e) && e.space_px > 0 ==> holds(
                css,
                decl("padding-bottom"@, px_text(e.space_px)),
            )
            &&& p.borders.left == Some(e) && e.space_px > 0 ==> holds(
                css,
                decl("padding-left"@, px_text(e.space_px)),
            )
            &&& e.style is None ==> holds(edge_text(e), " solid"@)
            &&& e.style is Some ==> holds(edge_text(e), seq![' '] + e.style->0.word())
            &&& e.color is Some ==> holds(edge_text(e), seq![' '] + e.color->0.css_text())
            &&& holds(edge_text(e), px_text(e.width_px))
        }),
{
    broadcast use {lemma_part, lemma_itself};

    reveal_strlit(" solid");
    reveal_strlit("solid");
    let word = match e.style {
        Some(k) => k.word(),
        None => "solid"@,
    };
    let tail = match e.color {
        Some(c) => seq![' '] + c.css_text(),
        None => Seq::empty(),
    };
    assert(seq![' '] + "solid"@ =~= " solid"@);
    assert(edge_text(e) =~= px_text(e.width_px) + (seq![' '] + word) + tail);
}

/// A paragraph with nothing stated declares its size and nothing else.
pub proof fn law_a_bare_paragraph(p: ParaView, scalable: bool)
    requires
        p.align is None,
        p.indent_px == 0,
        p.indent_end_px == 0,
        p.first_line_px == 0,
        p.space_before_px <= 0,
        p.space_after_px <= 0,
        p.line == LineHeight::Multiple(120_000_000),
        !p.rtl,
        p.shade is None,
        p.borders.top is None,
        p.borders.right is None,
        p.borders.bottom is None,
        p.borders.left is None,
    ensures
        para_css(p, scalable) == decl("font-size"@, scaled_text(p.size_pt, scalable)),
{
    assert(para_css(p, scalable) =~= decl("font-size"@, scaled_text(p.size_pt, scalable)));
}

// ── labels and pictures ──────────────────────────────────────────────────────

/// A label is as wide as the first line hangs; one that does not hang keeps a gap behind
/// it. Its colour, font and size are its own.
pub proof fn law_qualities_of_a_label(m: MarkerView, hang: Px, scalable: bool)
    ensures
        ({
            let css = marker_css(m, hang, scalable);
            &&& hang <= -PX ==> holds(css, decl("width"@, px_text(as_px(-hang))))
            &&& hang >= 0 ==> holds(css, "padding-right:0.3em;"@)
            &&& m.color is Some ==> holds(css, decl("color"@, m.color->0.css_text()))
            &&& m.font is Some ==> holds(css, decl("font-family"@, m.font->0))
            &&& m.size_pt is Some ==> holds(
                css,
                decl("font-size"@, scaled_text(m.size_pt->0, scalable)),
            )
        }),
{
    broadcast use {lemma_part, lemma_itself};

    lemma_words();
}

/// A picture is as wide and as tall as it says. One that floats keeps clear of the text on
/// the side where the text is.
pub proof fn law_qualities_of_a_picture(g: GraphicView)
    ensures
        ({
            let css = graphic_css(g);
            &&& holds(css, decl("width"@, px_text(g.w_px)))
            &&& holds(css, decl("height"@, px_text(g.h_px)))
            &&& g.float == Some(Side::Left) ==> holds(css, "float:left;"@) && holds(
                css,
                "margin:0 8px 4px 0;"@,
            )
            &&& g.float == Some(Side::Right) ==> holds(css, "float:right;"@) && holds(
                css,
                "margin:0 0 4px 8px;"@,
            )
            &&& g.float is None ==> css == decl("width"@, px_text(g.w_px)) + decl(
                "height"@,
                px_text(g.h_px),
            )
        }),
{
    broadcast use {lemma_part, lemma_itself};

    lemma_words();
    if g.float is None {
        assert(graphic_css(g) =~= decl("width"@, px_text(g.w_px)) + decl(
            "height"@,
            px_text(g.h_px),
        ));
    }
}

} // verus!
