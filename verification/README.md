# Transplanter

Converters from Rust and from a Scheme-like Lisp into the Python dialect of the game
*The Farmer Was Replaced*, with the helpers around them, verified with Verus.

## Layout

- `src/` — the library. Every function is verified except six small trusted wrappers
  around std (`chars_of`, `string_of`, `push_char`, `str_eq`, `escape_debug_chars` in
  `text.rs`, `string_from_utf8` in `updater.rs`), whose contracts state what std does:
  - `rust_py/` — the Rust converter: lexer, grammar (`syntax.rs`, spec functions over
    tokens), parser (proved to follow the grammar exactly), the check of Python
    spellings in expressions, code generation and the game API names.
  - `lisp/` — the Lisp converter: lexer, parser and code generation.
  - `transplanter.rs` — the common `Converter` interface and the entry points.
  - `cli.rs` — the command line and the run it asks for.
  - `project.rs`, `paths.rs`, `watch.rs`, `workspace.rs`, `workspace_setup.rs` — where
    outputs go, editor manifests, the decisions of the watch loop, the settings file and
    what a workspace is prepared with.
  - `lisp_check.rs` — the verdicts on the external Scheme checkers.
  - `updater.rs` — release versions and the update script.
  - `gui_layout.rs`, `gui_text.rs` — the window's geometry and texts.
- `tests/` — tests of the library.
- `app/` — the `transplanter` command: file and process work around the library.
