# nte_dps_core

The verified core of a damage meter for NTE: the JSON-RPC protocol layer of
its headless sidecar, the abyss monster dataset and its builders, the rules
that label hits, skills and damage numbers, and the text handling of its
editors and image lookups. Every function in `src/` carries a contract that
Verus proves, apart from the trusted wrappers of `String::push` and of
`serde_json::from_str`, whose parsed document the library names and reads
from there on.

Layout:

- `src/text.rs`: the character-level model of strings (trim, split, join,
  decimal numbers) and the helpers built on it.
- `src/json.rs`: the JSON tree the protocol and the data builders read, and
  the parse of a text into it.
- `src/api/`: JSON-RPC envelopes (`jsonrpc`), request validation
  (`request`), results (`response`) and their transfer objects (`dto`).
- `src/abyss_keys.rs`, `src/abyss_data.rs`, `src/abyss_build.rs`: abyss
  identifiers, the dataset and its lookups, and building it from the
  compact file, the floor summary, the pack table and the static table,
  each read from its file's text; the choice between these sources; and the
  waves of a line.
- `src/monster_images.rs`: the file stems a monster portrait is searched under.
- `src/combat.rs`, `src/labels.rs`, `src/colors.rs`: hit classification,
  display texts and colours chosen by data.
- `src/search.rs`, `src/selection.rs`, `src/settings.rs`, `src/ranking.rs`:
  search navigation over UTF-8 text, selection repair, debounced settings
  writes, and the stable sort used by the dataset.
- `app/`: the program around the library: reading files, printing JSON
  with `serde_json`, and the floating-point stats and predictions.
- `tests/`: the tests, run against the compiled library.
