# kon

Verified parsers for the two grammars of the Kon language.

- `kon_parser`: the kon grammar (`let`, `enum`, `struct`, `fn` with a receiver,
  `interface`).
- `konc_parser`: the konc grammar of the compiler (reserved words, `pub`,
  imports, types with pointers and type parameters, `return`, `extern` blocks).

Both share the expression, string, block and statement grammar in `syntax`,
stated as spec functions over the characters of the text, and the syntax tree in
`ast`. Every executable parsing function is proved to return exactly what its
grammar rule gives; `program` returns the items of a text, or the position where
the items stop short of its end. `shape` proves what the grammars can build.

`app/` holds the `konc <path>` command, which parses a file and prints its tree.
