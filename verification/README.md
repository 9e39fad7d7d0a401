# odf_preview

Previews of OpenDocument files (text documents, spreadsheets, presentations) as HTML, and
the number formats that spreadsheets use.

The library under `src/` is verified with Verus. It takes the parts of a package as plain
values and gives back the HTML of one section, the names of all sections, and notes on what
could not be shown. It reads no files. Pictures and cell values that it needs from outside
are named in the result of a first pass and handed in for a second.

## Layout

- `src/odf/` – packages, lengths and numbers, styles, lists, number styles, and the three
  renderers (`text`, `sheet`, `slide`) with what they share (`draw`, `table`).
- `src/numfmt/` – number formats: tokens, sections, dates, fractions, digits.
- `src/model.rs`, `src/html.rs`, `src/markup.rs` – paragraphs, a writer with a byte bound,
  and what it means for HTML to be well nested.
- `src/xml.rs` – XML trees, on top of `roxmltree`.
- `app/` – the surroundings: it asks an archive for its parts and an encoder for pictures,
  both given by whoever uses it, and takes decimal digits, fractions and clock times from
  floating-point numbers.
- `tests/` – examples, one file per module, `laws.rs` for what holds across modules, and
  `bounds.rs` for limits and spellings of numbers.

Lengths are integers: 381 000 000 units make a pixel, so that inches, centimetres,
points and picas are all exact.

## What is proved

Each function's contract states its result over spec functions of the document tree.
Beyond that, among others:

- every tag of a preview is closed in it, innermost first, however early the byte bound cuts
  it off (`odf::render`, `html::law_writing_stays_sound`);
- no text of a document can open or end a tag, nor end the stylesheet
  (`html::law_escaped_text_is_inert`, `odf::rules`);
- previews stay within their byte bound and within every count of paragraphs, frames,
  cells, pictures, bookmarks and notes, and every list that is entered is left
  (`odf::text::laws`, `odf::slide::laws`, `odf::sheet::laws`);
- a reference never leads out of the package (`odf::pkg`), an encrypted package is refused
  before its body is parsed (`odf`), a chain of styles ends (`odf::style::store`).

What is taken on trust are `roxmltree::Document::parse` and three functions of the standard
library; the doc comment above each says what is claimed.
