# nex

The front end of the Nex programming language, verified with Verus: the
lexer, source spans, the syntax-tree plumbing (node ids, node info, spanned
values), the diagnostics renderer and the decisions of the `nex` command line
tool.

- `src/` — the library. `lexspec.rs` states what the lexer produces as a
  function on the source characters; `lexer.rs` and `tokenize` are proved to
  produce exactly that. `laws.rs` proves what holds of every token stream
  (a single final `Eof`, ordered in-bounds spans, error spans that point into
  the source, tokens that spell their source text).
- `app/` — the `nex` binary: argument parsing, reading files, printing, and
  the formatting of floating-point values.
- `tests/` — the test suite.
