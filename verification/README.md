# recipe_grabber

Turns the schema.org recipe that a web page embeds in its
`<script type="application/ld+json">` blocks into a markdown document.

Layout:

- `src/` — the verified library (Verus):
  - `lib.rs` — finding the recipe among a page's ld+json blocks, the error
    page, line-end normalization, the page's document.
  - `text.rs` — trimming, splitting, joining, replacing and decimal numerals,
    each against its specification.
  - `json.rs` — the JSON values the search reads, read and printed by
    `serde_json`.
  - `duration.rs` — the ISO 8601 duration grammar.
  - `ld_md.rs` — the `LdJson` trait and the markdown builder.
  - `sites.rs`, `sites/` — the schema.org recipe shapes of the supported sites.
  - `ld_types.rs` — a recipe with nutrition facts rendered as one page.
- `tests/` — tests of the library.
- `app/` — the command line program: reads an HTML file, decodes the found
  recipe into the library's recipe type with serde, prints the markdown (or
  the error page). The `f32` display of durations lives there too.
