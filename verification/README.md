# codex-core

The decision logic behind an agent's `list_dir`, `shell` and `shell_command`
tools, its shell runtime and its installed plugin marketplaces, written in Rust
and proved with Verus.

- `src/` is the library. Every function states what it returns, and Verus proves
  it. Laws that relate several functions are public proof functions whose names
  begin with `law_`.
- `tests/` runs the library on concrete values.
- `app/` is the plumbing around it: reading arguments, asking the session, and
  doing what the library decides.

What the library takes from `serde_json` and `toml` is stated, and trusted, in
`src/json.rs` and `src/toml_config.rs`; `src/text.rs` states the one function of
the standard library that it relies on beyond those that vstd specifies.
