# qbe_lsp

Semantic checks and editor queries for QBE intermediate language programs, written in
Verus and proved against their contracts.

- `src/syntax.rs`: the syntax tree the checks read (groups, lexemes, skipped lexemes and
  parser error nodes), with spans, lookups by kind and the lexemes in walk order.
- `src/semantic_analyze.rs`: the value types of QBE and when one may stand for another.
- `src/ast/`: typed views of declarations, blocks, statements, instructions, calls and
  operands; the check state with its diagnostics; the node at an offset, its definition
  and its references; and which trees the checks and queries can read.
- `src/semantic_token.rs`: the highlighting of a program's lexemes.
- `src/ast/tables.rs`: the `im_rc` hash maps of the check state, behind trusted wrappers.
- `app/lib.rs`: conversions from the `gibberish_core` parser trees and to the
  `tower_lsp` protocol types.
