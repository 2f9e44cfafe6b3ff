# hangul_syllable

A bitmap font library for Hangul: glyphs are drawn once per jamo and per group of
jamo, and each of the 11,172 modern syllables is composed from them by a rule system
(selectors pick a template, templates give each position a group, variant rules
override groups for some jamo combinations). The library is written in Verus. Every
function in `src/` carries a contract; Verus checks each body against its contract, except
for the few small wrappers marked `#[verifier::external_body]` around calls into the `image`
crate and std (`String::push`, `char::from_u32`, `str::to_uppercase`). Their contracts
are trusted, and each wrapper's doc comment says what it claims of the outside function.

Layout of `src/`:

- `types`, `hangul`, `text`, `seqs`, `charset`, `order` — jamo positions, syllable
  decomposition and the jamo tables, text and sorted-character-set helpers.
- `glyph` — glyph keys, pixel glyphs and the glyph store (one entry per key).
- `groups`, `rules`, `rule_system`, `idlist` — component groups, conditions, variant
  rules, templates, selectors and the rule system with its id counters.
- `engine` — the layout engine: which template and which groups draw a syllable.
- `render` — composing a syllable's pixels from its layout.
- `generator` — the rule presets, each stated in full as a spec value (groups, templates,
  selectors, base groups, id counters) together with the glyphs it adds.
- `file_format`, `project`, `compact` — the project's file form (glyph keys as text,
  pixel rows as hexadecimal), consistency checks on load and save, id renumbering.
- `export` — file names, character lists and PNG sheets and cells.
- `analysis`, `archaic` — which syllables and old-Hangul combinations a template, a
  rule, a selector or a group affects; the syllable browser's filters.
- `stability` — what checking on load and save leaves unchanged: checking twice changes
  nothing, renumbering keeps a checked project checked, and a saved project reads back
  as it was saved.
- `list_edit`, `group_panel`, `template_panel`, `selector_panel` — the editor's list
  commands: moving, stable sorting by name, copying and deleting groups, templates,
  variant rules and selectors, with the selection following the selected item.
- `history`, `editor_state` — pixel-edit undo and redo, pen strokes, editor state.
- `typing`, `cli` — the type test's text handling and the command-line options.

`app/` is a command-line exporter: it reads a project file (YAML), and writes a sprite
sheet or one PNG file per syllable.

Character sets: exporting the KS X 1001 (2,350 syllables) and Adobe-KR-9 character sets
needs those sets' character tables, which are not available to this project. These two
export targets are therefore left out of the library (`CharScope`, `ExportTarget`) and of
the command line; all 11,172 syllables, or the syllables of a given text, can be exported.
