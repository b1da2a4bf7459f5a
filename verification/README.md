# vksl

Front end of a compiler for a small shader language, written in Verus.

* `src/token` — the tokenizer. `lexicon.rs` states the lexical grammar as
  spec functions over the source characters; `tokenizer.rs` reads tokens one
  at a time with look-ahead and is proved to follow that grammar; `stream.rs`
  models the token stream as a state.
* `src/parser` — a recursive-descent parser. `grammar.rs` states the grammar
  as spec functions over the token stream, `syntax.rs` gives the syntax tree
  its mathematical values, and every parsing function is proved to return
  what the grammar says. `mods.rs` holds the rules that decide which
  modifiers a declaration accepts; `report.rs` the texts of error reports.
* `src/scope` — a tree of scopes with name lookup and "did you mean" hints.
  `struct_res.rs` is the first pass over a program, which gives blocks,
  loops, functions and structures their scopes and refuses a name declared
  twice in one scope; `name_res.rs` the second, which resolves every name to
  the symbol it refers to and records each declaration with its resolved
  parts; `ast.rs` holds the resolved tree and the symbol records.
* `app/main.rs` — the command-line driver: reads a file, runs the passes,
  prints the result or a coloured error report.
* `tests/` — tests of the library on concrete programs.
