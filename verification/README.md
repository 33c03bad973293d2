# paneflow

The decisions of the PaneFlow terminal multiplexer, verified with Verus: text
editing, terminal input and events, themes, and self-update.

## Layout

- `src/` is the verified library.
  - `text/`, `text_sanitize.rs`, `path.rs`: offsets, clusters, lines, words,
    UTF-16 positions, prompt text and paths.
  - `widgets/`: the multi-line and the single-line text field, what the keys do in
    them, and what the pointer does to a scrollbar.
  - `terminal/`: grid types, shells and their integration, key input, engine
    events, search and hover state.
  - `theme/`, `window_chrome/`: colours, the theme cache, the title bar.
  - `update/`: release checks, redirects, signatures, downloads, the swap of an
    application bundle, and migrations. Work that touches the disk or the
    network is a state machine: it says what to do next and takes what came of
    it.
- `app/` performs those actions and computes what takes floating point.
- `tests/` runs the library on concrete values.

What the library takes from outside crates stands behind small functions marked
`external_body`: grapheme clusters (`unicode-segmentation`), versions
(`semver`), digests (`sha2`) and signatures (`minisign-verify`).
