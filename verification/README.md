# toy_compiler

A compiler front end for a small systems language, with its behaviour proved
in Verus.

- `token`, `lexer`: the lexer, which classifies each lexeme with the regular
  expressions of `fancy-regex` and records its line and column.
- `parser`: a recursive-descent parser; `parser/expr_grammar.rs` and
  `parser/stmt_grammar.rs` state the grammar as spec functions, and every
  parsing method is proved to follow them.
- `types`, `typed_ast`, `semantics`: value types and their sizes, the typed
  tree, the scope stack, and the analysis that declares the custom types,
  lays out struct fields and types every statement.
- `literals`: folding a unary minus into the number literal under it.
- `cgen`: pieces of a code generator for an 8-bit target.

`app/main.rs` reads `program.txt`, runs the stages in turn and prints what
each produces.
