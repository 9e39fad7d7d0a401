//! The rules that a document adds to a stylesheet: whatever the document states, they
//! stay inside it.

use vstd::prelude::*;
use crate::cellstyle::align_cell_css;
use crate::chars::{decimal, digit_char, is_digit, law_decimal_reads_back};
use crate::color::{fixed_text, hex6, hundredths, hundredths_text, Color};
use crate::docshape::{page_rule, Page};
use crate::fonts::law_font_stack_is_contained;
use crate::html::{attr_text, decl, opt_decl, style_text, Written};
use crate::markup::{lemma_plain_joined, plain};
use crate::names::{lemma_place_of, lookup, place_of};
use crate::odf::length::{px_text, Border, Px, PX};
use crate::odf::sheet::{book_of, sheet_walked, SheetInput};
use crate::odf::sheet::grid::{
    faced, head_written, merge_at, place_written, places_written, row_written, rows_written,
    BookView, GridView,
};
use crate::odf::sheet::rows::{cell_at, cell_style_name};
use crate::odf::sheet::styles::{cell_align, cell_css, lines_of, rules_text, RulesView};
use crate::odf::style::{
    size_in, unstated, CellProps, Family, ResolvedView, TextPropsView, DEFAULT_SIZE_PT,
};
use crate::odf::style::props::{face_of, props_of, Faces};
use crate::odf::style::store::{
    cascaded, chain_names, chain_of, family_attr, letter, opt_name, raws_of, style_key, RawView,
    Store, MAX_PARENT,
};
use crate::odf::text::{setup_of, tab_of, Input, BASE_STYLE};
use crate::xml::Tree;

verus! {

// ── plain texts ──────────────────────────────────────────────────────────────

broadcast proof fn lemma_joined(a: Seq<char>, b: Seq<char>)
    requires
        plain(a),
        plain(b),
    ensures
        #[trigger] plain(a + b),
{
    lemma_plain_joined(a, b);
}

proof fn lemma_empty()
    ensures
        plain(Seq::<char>::empty()),
{
    reveal(plain);
}

broadcast proof fn lemma_decl(name: Seq<char>, value: Seq<char>)
    requires
        plain(name),
        plain(value),
    ensures
        #[trigger] plain(decl(name, value)),
{
    reveal(plain);
    lemma_empty();
    assert(plain(seq![':']));
    assert(plain(seq![';']));
    lemma_plain_joined(name, seq![':']);
    lemma_plain_joined(name + seq![':'], value);
    lemma_plain_joined(name + seq![':'] + value, seq![';']);
}

broadcast proof fn lemma_decimal(n: nat)
    ensures
        #[trigger] plain(decimal(n)),
{
    reveal(plain);
    law_decimal_reads_back(n);
    assert forall|k: int| 0 <= k < decimal(n).len() implies decimal(n)[k] != '<' && decimal(n)[k]
        != '>' by {
        assert(is_digit(decimal(n)[k]));
    }
}

broadcast proof fn lemma_fixed(v: int, unit: int)
    ensures
        #[trigger] plain(fixed_text(v, unit)),
{
    let n = hundredths(v, unit) as nat;
    let rest = n % 100;
    lemma_decimal(n / 100);
    lemma_empty();
    let a = seq!['.', digit_char((rest / 10) as int)];
    let b = seq![
        '.',
        digit_char((rest / 10) as int),
        digit_char((rest % 10) as int),
    ];
    assert(plain(a) && plain(b) && plain(seq!['-'])) by {
        reveal(plain);
    }
    lemma_plain_joined(decimal(n / 100), Seq::empty());
    lemma_plain_joined(decimal(n / 100), a);
    lemma_plain_joined(decimal(n / 100), b);
    lemma_plain_joined(seq!['-'], hundredths_text(n));
    lemma_plain_joined(Seq::empty(), hundredths_text(n));
}

broadcast proof fn lemma_px(v: Px)
    ensures
        #[trigger] plain(px_text(v)),
{
    reveal_strlit("px");
    lemma_fixed(v as int, PX as int);
    assert(plain("px"@)) by {
        reveal(plain);
    }
    lemma_plain_joined(fixed_text(v as int, PX as int), "px"@);
}

broadcast proof fn lemma_color(c: Color)
    ensures
        #[trigger] plain(c.css_text()),
{
    broadcast use {lemma_joined, lemma_decimal, lemma_fixed};

    reveal_strlit("rgba(");
    reveal_strlit(", ");
    reveal_strlit(")");
    assert(plain("rgba("@) && plain(", "@) && plain(")"@)) by {
        reveal(plain);
    }
    let h = seq!['#'] + hex6(c.rgb as int);
    assert(plain(h)) by {
        reveal(plain);
    }
}

broadcast proof fn lemma_border(b: Border)
    ensures
        #[trigger] plain(b.css_text()),
{
    broadcast use {lemma_joined, lemma_px, lemma_color};

    lemma_words();
    lemma_empty();
    assert(plain(seq![' '])) by {
        reveal(plain);
    }
}

/// The words that rules are made of.
proof fn lemma_words()
    ensures
        plain("solid"@) && plain("double"@) && plain("dotted"@) && plain("dashed"@),
        plain("groove"@) && plain("ridge"@) && plain("inset"@) && plain("outset"@),
        plain("border-top"@) && plain("border-right"@),
        plain("border-bottom"@) && plain("border-left"@),
        plain("padding-top"@) && plain("padding-right"@),
        plain("padding-bottom"@) && plain("padding-left"@),
        plain("background-color"@) && plain("color"@),
        plain("font-family"@) && plain("font-size"@),
        plain("font-weight"@) && plain("700"@) && plain("font-style"@) && plain("italic"@),
        plain("text-decoration"@) && plain("underline line-through"@),
        plain("underline"@) && plain("line-through"@),
        plain("vertical-align"@) && plain("top"@) && plain("middle"@) && plain("bottom"@),
        plain("white-space"@) && plain("pre-wrap"@),
        plain("width"@) && plain("min-height"@) && plain("tab-size"@),
        plain(".of-page{"@) && plain("}"@) && plain("td.xf"@) && plain("{"@) && plain("}\n"@),
{
    reveal(plain);
    reveal_strlit("solid");
    reveal_strlit("double");
    reveal_strlit("dotted");
    reveal_strlit("dashed");
    reveal_strlit("groove");
    reveal_strlit("ridge");
    reveal_strlit("inset");
    reveal_strlit("outset");
    reveal_strlit("border-top");
    reveal_strlit("border-right");
    reveal_strlit("border-bottom");
    reveal_strlit("border-left");
    reveal_strlit("padding-top");
    reveal_strlit("padding-right");
    reveal_strlit("padding-bottom");
    reveal_strlit("padding-left");
    reveal_strlit("background-color");
    reveal_strlit("color");
    reveal_strlit("font-family");
    reveal_strlit("font-size");
    reveal_strlit("font-weight");
    reveal_strlit("700");
    reveal_strlit("font-style");
    reveal_strlit("italic");
    reveal_strlit("text-decoration");
    reveal_strlit("underline line-through");
    reveal_strlit("underline");
    reveal_strlit("line-through");
    reveal_strlit("vertical-align");
    reveal_strlit("top");
    reveal_strlit("middle");
    reveal_strlit("bottom");
    reveal_strlit("white-space");
    reveal_strlit("pre-wrap");
    reveal_strlit("width");
    reveal_strlit("min-height");
    reveal_strlit("tab-size");
    reveal_strlit(".of-page{");
    reveal_strlit("}");
    reveal_strlit("td.xf");
    reveal_strlit("{");
    reveal_strlit("}\n");
}

// ── fonts ────────────────────────────────────────────────────────────────────

/// A style whose font, if it names one, has no angle bracket in it.
pub open spec fn tame(r: ResolvedView) -> bool {
    r.text.font matches Some(f) ==> plain(f)
}

proof fn lemma_props(v: Seq<Tree>, faces: Faces)
    ensures
        tame(props_of(v, faces)),
    decreases v.len(),
{
    if v.len() > 0 {
        lemma_props(v.drop_last(), faces);
        if let Some(raw) = face_of(v.last(), faces) {
            law_font_stack_is_contained(raw);
            reveal(plain);
        }
    }
}

pub open spec fn tame_styles(rows: Seq<(Seq<char>, RawView)>) -> bool {
    forall|k: int| 0 <= k < rows.len() ==> tame((#[trigger] rows[k]).1.props)
}

pub open spec fn tame_defaults(rows: Seq<(Seq<char>, ResolvedView)>) -> bool {
    forall|k: int| 0 <= k < rows.len() ==> tame((#[trigger] rows[k]).1)
}

pub open spec fn tame_store(s: Store) -> bool {
    tame_styles(s.styles) && tame_defaults(s.defaults)
}

proof fn lemma_entry(s: Store, e: Tree)
    requires
        tame_store(s),
    ensures
        tame_store(s.with_entry(e)),
{
    lemma_props(e.elems(), s.faces);
    if let Some(f) = family_attr(e) {
        lemma_place_of(s.defaults, seq![letter(f)], 0);
        if let Some(name) = opt_name(e, "name"@) {
            lemma_place_of(s.styles, style_key(f, name), 0);
        }
    }
}

proof fn lemma_entries(s: Store, v: Seq<Tree>)
    requires
        tame_store(s),
    ensures
        tame_store(s.with_entries(v)),
    decreases v.len(),
{
    if v.len() > 0 {
        lemma_entries(s, v.drop_last());
        lemma_entry(s.with_entries(v.drop_last()), v.last());
    }
}

proof fn lemma_masters(s: Store, v: Seq<Tree>)
    requires
        tame_store(s),
    ensures
        tame_store(s.with_masters(v)),
    decreases v.len(),
{
    if v.len() > 0 {
        lemma_masters(s, v.drop_last());
    }
}

proof fn lemma_containers(s: Store, v: Seq<Tree>)
    requires
        tame_store(s),
    ensures
        tame_store(s.with_containers(v)),
    decreases v.len(),
{
    if v.len() > 0 {
        lemma_containers(s, v.drop_last());
        lemma_entries(s.with_containers(v.drop_last()), v.last().elems());
        lemma_masters(s.with_containers(v.drop_last()), v.last().elems());
    }
}

proof fn lemma_store(styles: Option<Tree>, content: Option<Tree>)
    ensures
        tame_store(Store::of(styles, content)),
{
    let a = Store::empty().with_part_faces(styles).with_part_faces(content);
    assert(tame_store(a));
    if let Some(root) = styles {
        lemma_containers(a, root.elems());
    }
    let b = a.with_part(styles);
    if let Some(root) = content {
        lemma_containers(b, root.elems());
    }
}

proof fn lemma_found<T>(rows: Seq<(Seq<char>, T)>, name: Seq<char>)
    ensures
        lookup(rows, name) matches Some(v) ==> exists|k: int|
            0 <= k < rows.len() && (#[trigger] rows[k]).1 == v,
{
    lemma_place_of(rows, name, 0);
    let i = place_of(rows, name, 0);
    if i < rows.len() {
        assert(rows[i].1 == rows[i].1);
    }
}

proof fn lemma_chain(
    rows: Seq<(Seq<char>, RawView)>,
    f: Family,
    name: Seq<char>,
    seen: Seq<Seq<char>>,
)
    requires
        tame_styles(rows),
    ensures
        forall|k: int|
            0 <= k < chain_names(rows, f, name, seen).len() ==> tame(
                (#[trigger] raws_of(rows, f, chain_names(rows, f, name, seen))[k]).props,
            ),
    decreases MAX_PARENT - seen.len(),
{
    let names = chain_names(rows, f, name, seen);
    if names.len() > 0 {
        let raw = lookup(rows, style_key(f, name))->0;
        lemma_found(rows, style_key(f, name));
        let parent = match raw.parent {
            Some(p) => p,
            None => Seq::empty(),
        };
        lemma_chain(rows, f, parent, seen.push(name));
        let rest = chain_names(rows, f, parent, seen.push(name));
        assert(names =~= seq![name] + rest);
        assert forall|k: int| 0 <= k < names.len() implies tame(
            (#[trigger] raws_of(rows, f, names)[k]).props,
        ) by {
            if k > 0 {
                assert(raws_of(rows, f, names)[k] == raws_of(rows, f, rest)[k - 1]);
            }
        }
    }
}

proof fn lemma_cascade(base: ResolvedView, chain: Seq<RawView>)
    requires
        tame(base),
        forall|k: int| 0 <= k < chain.len() ==> tame((#[trigger] chain[k]).props),
    ensures
        tame(cascaded(base, chain)),
    decreases chain.len(),
{
    if chain.len() > 0 {
        lemma_cascade(base, chain.skip(1));
    }
}

/// The font that a style comes to has no angle bracket in it, whatever the document calls
/// its fonts.
pub proof fn law_fonts_are_plain(
    styles: Option<Tree>,
    content: Option<Tree>,
    f: Family,
    name: Seq<char>,
)
    ensures
        tame(Store::of(styles, content).resolved(f, name)),
{
    reveal(Store::resolved);
    let s = Store::of(styles, content);
    lemma_store(styles, content);
    lemma_chain(s.styles, f, name, Seq::empty());
    lemma_found(s.defaults, seq![letter(f)]);
    let base = match lookup(s.defaults, seq![letter(f)]) {
        Some(d) => d,
        None => unstated(),
    };
    lemma_cascade(base, chain_of(s.styles, f, name));
}

// ── a page's rule ────────────────────────────────────────────────────────────

/// The rule of a page has no angle bracket in it: it cannot end the stylesheet.
pub proof fn law_page_rule_is_plain(p: Page, font: Option<Seq<char>>, size_pt: Px, tab_px: Px)
    requires
        font matches Some(f) ==> plain(f),
    ensures
        plain(page_rule(p, font, size_pt, tab_px)),
{
    broadcast use {lemma_joined, lemma_decl, lemma_px};

    lemma_words();
    lemma_empty();
    assert(plain(opt_decl("font-family"@, font)));
}

/// What a text document adds to the stylesheet stays inside it.
pub proof fn law_a_text_documents_rule_is_plain(i: Input)
    ensures
        ({
            let base = Store::of(i.styles, Some(i.root)).resolved(Family::Paragraph, BASE_STYLE@);
            plain(
                page_rule(
                    setup_of(i).page,
                    base.text.font,
                    size_in(base.text.size, DEFAULT_SIZE_PT),
                    tab_of(base.para.tab_stop_distance_px),
                ),
            )
        }),
{
    let base = Store::of(i.styles, Some(i.root)).resolved(Family::Paragraph, BASE_STYLE@);
    law_fonts_are_plain(i.styles, Some(i.root), Family::Paragraph, BASE_STYLE@);
    law_page_rule_is_plain(
        setup_of(i).page,
        base.text.font,
        size_in(base.text.size, DEFAULT_SIZE_PT),
        tab_of(base.para.tab_stop_distance_px),
    );
}

// ── the rules of cells ───────────────────────────────────────────────────────

proof fn lemma_cell_css(cp: CellProps, t: TextPropsView)
    requires
        t.font matches Some(f) ==> plain(f),
    ensures
        plain(cell_css(cp, t)),
{
    broadcast use {lemma_joined, lemma_decl, lemma_px, lemma_color, lemma_border};

    lemma_words();
    lemma_empty();
    assert(plain(opt_decl("font-family"@, t.font)));
    assert(plain(lines_of(t)));
    let a = cell_align(cp);
    assert(plain(align_cell_css(a)));
}

pub open spec fn plain_rules(css: Seq<Seq<char>>) -> bool {
    forall|k: int| 0 <= k < css.len() ==> plain(#[trigger] css[k])
}

proof fn lemma_rules_text(css: Seq<Seq<char>>)
    requires
        plain_rules(css),
    ensures
        plain(rules_text(css)),
    decreases css.len(),
{
    broadcast use {lemma_joined, lemma_decimal};

    lemma_words();
    lemma_empty();
    if css.len() > 0 {
        assert(plain(css[css.len() - 1]));
        assert(plain_rules(css.drop_last())) by {
            assert forall|k: int| 0 <= k < css.drop_last().len() implies plain(
                #[trigger] css.drop_last()[k],
            ) by {
                assert(plain(css[k]));
            }
        }
        lemma_rules_text(css.drop_last());
    }
}

/// The styles of a book are those of a document.
pub open spec fn from_document(b: BookView) -> bool {
    exists|styles: Option<Tree>, content: Option<Tree>| b.store == #[trigger] Store::of(
        styles,
        content,
    )
}

proof fn lemma_faced(b: BookView, g: GridView, n: Option<Tree>, c: int)
    requires
        from_document(b),
        plain_rules(g.styles.css),
    ensures
        plain_rules(faced(b, g, n, c).0.styles.css),
{
    if let Some(n) = n {
        let name = cell_style_name(b.columns, n, c);
        let (styles, content) = choose|styles: Option<Tree>, content: Option<Tree>|
            b.store == #[trigger] Store::of(styles, content);
        let r = b.store.resolved(Family::TableCell, name);
        law_fonts_are_plain(styles, content, Family::TableCell, name);
        lemma_cell_css(r.cell, r.text);
    }
}

proof fn lemma_place(b: BookView, g: GridView, r: int, c: int)
    requires
        from_document(b),
        plain_rules(g.styles.css),
    ensures
        plain_rules(place_written(b, g, r, c).styles.css),
{
    if let Some(m) = merge_at(b.merges, r, c) {
        lemma_faced(b, g, cell_at(b.rows, m.r0, m.c0 as nat), m.c0 as int);
    }
    lemma_faced(b, g, cell_at(b.rows, r as u32, c as nat), c);
}

proof fn lemma_places(b: BookView, g: GridView, r: int, c: int)
    requires
        from_document(b),
        plain_rules(g.styles.css),
    ensures
        plain_rules(places_written(b, g, r, c).styles.css),
    decreases b.ncols - c,
{
    if !(c >= b.ncols || g.w.full) {
        lemma_place(b, g, r, c);
        lemma_places(b, place_written(b, g, r, c), r, c + 1);
    }
}

proof fn lemma_rows(b: BookView, g: GridView, r: int)
    requires
        from_document(b),
        plain_rules(g.styles.css),
    ensures
        plain_rules(rows_written(b, g, r).styles.css),
    decreases b.nrows - r + 1,
{
    if !(r > b.nrows || g.w.full) {
        let w = g.w.opened(
            "tr"@,
            style_text(decl("height"@, px_text(b.tracks[r].px))),
        ).opened("th"@, attr_text("class"@, "xl-rn"@)).text(
            decimal(r as nat),
        ).closed();
        lemma_places(b, GridView { w, ..g }, r, 0);
        lemma_rows(b, row_written(b, g, r), r + 1);
    }
}

/// What a sheet adds to the stylesheet stays inside it.
pub proof fn law_a_sheets_rules_are_plain(i: SheetInput, table: Tree, cap: nat)
    ensures
        plain(rules_text(sheet_walked(i, table, cap).styles.css)),
{
    let b = book_of(i, table);
    assert(b.store == Store::of(i.styles, Some(i.root)));
    let start = GridView {
        w: head_written(Written::fresh(cap), b.cols),
        marks: 0,
        styles: RulesView::none(),
        missing: false,
        asked: Seq::empty(),
    };
    lemma_rows(b, start, 1);
    lemma_rules_text(sheet_walked(i, table, cap).styles.css);
}

} // verus!
