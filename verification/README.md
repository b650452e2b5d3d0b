# reukocyte

A checker for the layout of Ruby sources in the style of RuboCop, with its rules, its
configuration and its autocorrection written in Verus and proved against their contracts.

## Layout

- `src/` is the verified library.
  - `syntax.rs` and `semantic.rs`: the syntax tree that the rules read, and the indexer
    that builds it, node by node, while a walk of the parse meets the nodes.
  - `locator.rs`: the lines of a source and the line and column of an offset.
  - `rules/`: the layout rules (`Layout/...`) and the lint rule `Lint/Debugger`; `checker.rs`
    runs them over a tree and a source, and `lib.rs` gives `check` and `check_with_config`.
  - `diagnostic.rs`, `corrector.rs`, `conflict.rs`, `fix.rs`: what a rule reports, how the
    edits of fixes are merged and applied, and the autocorrection loop with its detection of
    loops that do not settle.
  - `config/`: the configuration of each rule, read from a `.rubocop.yml` once it is parsed,
    and the resolution of inherited configurations.
  - `paths.rs`: which cops check which file, by their `Include` and `Exclude` patterns.
  - `bounds.rs`: every fix that a check reports edits the source within its bounds.
  - `layout/` and `lint/`: the standalone checks of trailing whitespace and of debugger calls.
- `tests/` runs the library on concrete sources and configurations.
- `app/` parses Ruby with `ruby_prism`, reads YAML files with `serde_yaml`, and hands the
  library plain values.
