# jslex

A JavaScript front end's lexer, with its behaviour proved in Verus.

- `src/lex/scanner.rs`: the byte scanner (reading past the end yields 0) and lexing errors.
- `src/lex/hand.rs`: the hand-written sub-lexers (whitespace, comments, numbers,
  identifiers, string and template literals, regular expression literals).
- `src/lex/scan.rs`: tokens, the reserved-word table and the token dispatcher, which takes
  the longest punctuator.
- `src/lex/text.rs`: conversions that std performs (code points, UTF-8 decoding).
- `src/bind.rs`: the names that statements declare with `var` (VarDeclaredNames), `let`
  and `const`; the names that a block's, a module's and a function's scope declares (and
  which of them must keep their name); the extern globals; and the resolution of
  references against nested scopes, innermost first. A scope here is a list of names, in
  the order they are declared; a name declared twice is listed twice.
- `src/run.rs`: the driver's timing records, the stages of one run and the step from one
  stage to the next.
- `app/lib.rs`: timing with the clock, float values of number literals, error messages.

Not here: the syntax tree, parser, traversal and the later passes (evaluation, renaming,
deblocking, writing) that the binder and the driver work with. So the binder's walk
over a whole module (`bind`), the parsing of the extern declarations (their names are in
`extern_names`), and the driver's `run` are not part of this crate; what they decide
stands in `src/bind.rs` and `src/run.rs` over plain names and stages.
