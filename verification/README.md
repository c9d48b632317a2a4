# cosmox-plugin-anime

Anime support for the cosmox media host, as a verified library.

- `src/anime/action/matcher`: name parsing: season, episode and extra
  markers, release-tag cleanup, and the rule tables that combine them
  into a `ParsedInfo`.
- `src/anime/action/rebuild`: the rebuild of a raw metadata tree. The raw
  tree is handed in as `RawNode` values; `rebuild_plan` parses every
  directory root into a series, merges series of the same title, and
  returns the host operations (`Action`) that rewrite the tree into
  series / `Season N` / `extras` / `unknown` nodes. `laws.rs` holds the
  proved properties of that plan.
- `src/anime/define.rs`: the shared anime data shapes and the text forms
  of their enumerations.
- `src/rx.rs`, `src/text.rs`: the regular-expression and string
  primitives the parsers are built on.
- `app/`: the host side: the plugin entry points, the reading of the tree
  and the execution of the plan through the host handles, and the serde
  forms of the data shapes.

Interface notes:

- A `MatchRule` names its match function through the closed `Matcher`
  enum (the built-in season, episode and extra matchers), not through a
  function pointer: rule lists can be reordered and recombined, but a
  caller cannot plug in a matcher of its own.
- `normalize_fullwidth` returns an owned `String`.
- The host runs the plan in order, asking `perform_at` where each action
  is performed; an action under a node whose creation failed is skipped.
