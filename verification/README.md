# shaka

Shaka generates shell aliases (Bash, Zsh, Fish) and PowerShell functions from
one configuration document (YAML, or JSON with comments allowed). This crate is
the verified library behind the `shaka` command; `app/main.rs` is the command
itself (arguments, files, environment, output).

## Layout

- `src/config/` — the configuration model (`Value`, `Conditional`,
  `OneOrMany`, `Platform`), decoding of a parsed document into configured pairs
  (`decode.rs`), filtering for one shell and platform, and merging into the
  ordered alias map.
- `src/document.rs` — the calls into `serde_json` and `serde_yaml`, one level
  of a document at a time.
- `src/alias_map.rs` — the `indexmap::IndexMap` used as the alias map, its
  model as a sequence of pairs, and the merge laws.
- `src/render/` — the Bash/Zsh, Fish and PowerShell renderers, and the
  quoting law for POSIX shells.
- `src/utils/` — `$NAME` expansion for PowerShell, JSON comment removal,
  character helpers.
- `tests/` — tests run against the compiled library.

Every function under `src/` carries a contract checked by Verus; the calls
into outside crates are wrapped in a few trusted functions whose contracts are
stated in their doc comments.
