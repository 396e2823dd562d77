# html2pdf

A library that turns HTML documents into PDF files, written in Verus: the
logic carries `requires`/`ensures` contracts that Verus proves.

Layout of `src/`:

- `strings`, `types`, `binary32`: character helpers, geometry and lengths,
  and single-precision arithmetic on bit patterns (sums, products and
  quotients rounded as IEEE 754 rounds them).
- `css`, `html`: CSS values and selectors; the element tree and its queries.
- `layout`: box model, flexbox axes, block and inline flow, text breaking,
  style value parsers (`style`), the cascade (`cascade`: computed styles,
  user-agent rules, specificity ordering, inheritance), tables, forms, grids.
- `pdf`: objects, streams (zlib through `miniz_oxide`), images (PNG, JPEG,
  and GIF/BMP through `image`), fonts, page content, paged-media CSS and the
  writer with its cross-reference table.
- `script`: script extraction and the order in which scripts run, a DOM API
  and a small engine that applies `document.title` and element assignments.
- `progress`: conversion stages, statistics and their text.

`app/main.rs` is the command-line program around the library; `tests/` holds
the tests.
