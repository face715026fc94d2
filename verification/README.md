# font_inspect

A font inspector: it reads the tables of an OpenType/TrueType font and
describes every field it shows by its type, its value and the byte range it
occupies, so that a viewer can highlight the bytes behind each value.

- `src/` is the library, written in Verus. Each table parser states in its
  contract the exact tree it produces for any input bytes, and the laws of
  the library (batches of glyphs tile, fields lie within their tables, DICT
  entries and tuple records follow one another, and so on) are proof
  functions beside the parsers they speak of. The glyph search (which
  column a query looks in, exact index queries, and the window of glyphs
  one search call scans in either direction) is in `src/search.rs`. The
  CFF and CFF2 tables (`src/cff.rs`, `src/cff2.rs`, `src/cff_common.rs`)
  are described from their bytes: INDEXes, DICT entries with their operands
  as they stand in the data (integers, and real numbers by their decimal
  text), Private DICTs, CharStrings, charsets, FDArrays and FDSelects.
- `tests/` exercises the library on small hand-built fonts.
- `app/` is a command-line front end: it reads font files, calls the
  library, converts the described trees to JSON and prints them; it also
  decides whether one glyph's JSON text holds a search query.

The font data itself is located and some of its texts are decoded with
`read-fonts` and `encoding_rs`; those calls sit behind small trusted
functions whose contracts say what the library relies on.
