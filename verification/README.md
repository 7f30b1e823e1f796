# pysuals

A compiler for a small component language with signals, with the pieces
around it: a CSS processor, a bundler, an incremental build cache and a
language server. The library in `src/` is written in Verus, and Verus proves
its code against the contracts stated on it; the calls into outside crates
and `std` that it rests on are the trusted items, each with its contract in
its doc comment.

## Layout

- `src/text.rs` — strings as character sequences: trimming, splitting,
  lines, number formatting, and the calls into `char` and `String` that the
  rest builds on.
- `src/ast` — the syntax tree, node spans, a debug printer and a counting
  visitor.
- `src/parser` — the lexer, the recursive-descent parser (its grammar is
  stated in `rules.rs`, and each parsing function is proved to follow it;
  how a number literal prints is supplied by the caller),
  parse errors, and the grammar and indentation checks.
- `src/analyzer` — scope, type and borrow checks.
- `src/optimizer` — constant folding (number arithmetic is supplied by the
  caller), dead code elimination, inlining of small functions, tree shaking,
  and the pipeline that runs them.
- `src/codegen` — JavaScript, CSS, HTML, source maps, and the page.
- `src/incremental` — SHA-256 hashing, the cache index, rebuild decisions.
- `src/css` — a stylesheet parser, minifier, scoping and vendor prefixes.
- `src/bundler` — the module graph (built one file read at a time), the
  dependency order, chunks and plugins.
- `src/lsp` — the answers of the language server: diagnostics,
  completion, hover, definitions, renaming, formatting, the workspace and the
  open documents.
- `app/` — what talks to the outside world: files, the clock, standard
  input and output, the browser bindings, and floating-point arithmetic
  and printing.
- `tests/` — tests of the library on concrete values.
