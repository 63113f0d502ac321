# canvas_pdf

The verified core of a small canvas editor (circles and text boxes) that
exports its drawing as a JSON template and renders that template as a one-page
PDF.

- `src/` is the library, checked with Verus: resize handles (`handles`), the
  shared object buffer and its reordering (`buffer`), paper sizes (`page`),
  the JSON template (`template`), the PDF content stream (`content`), decimal
  text of integers (`decimal`), the parse of the template with `serde_json`
  (`reader`), and the document assembly with `pdf-writer` (`pdf`).
- `app/` holds the WebAssembly-facing functions. Coordinates are `f64`, so
  the arithmetic and comparisons on them, the reading of the template's
  numbers, and the writing of numbers as text live there, as does the wording
  of the two error messages. The library makes the other decisions and
  writes the template, the content stream and the document.
- `tests/` exercises the library on concrete values.
