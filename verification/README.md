# secsp

A parser for the CSP policy language (a C-style language for SELinux
policy that targets CIL), written in Verus with its behaviour stated in
contracts and proved.

Layout:

- `src/` — the verified library.
  - `ast`: statement and expression trees and their mathematical models;
    type specifier keywords.
  - `scan`, `name`, `expr`, `security_attributes`, `type_enforcement`,
    `parser`: the grammar, as functions from a byte input and an offset to
    an `Outcome`, each following a spec function of the same name.
  - `parse_from_slice` (crate root): parses a whole source into statements;
    `parse_text` first checks the condition under which it has a result.
  - `input_text`: the proof that on well-formed UTF-8 input in which no
    identifier ends inside a character, every parser has a result.
  - `syntax`: the newer front-end — spans and line maps (`codemap`),
    keywords, a character lexer (`char_lexer`), a byte-position reader and
    a tokenizer that groups tokens into delimited trees (`lex`), a cursor
    that reads trees back as tokens, a white space preserving lexer
    (`lexer`, `token`), and an event-emitting parser (`parser`) with the
    grammar of macro parameter lists written against it (`grammar`).
- `tests/` — tests of the library.
- `app/` — reading sources, code maps of source files and showing reports
  on the console.

What is not here, and why:

- The statement parser over token trees (`parse_statement`,
  `parse_expr`, `parse_symbol_decl`, `parse_macro` and the functions
  around them) and the older parser over the character lexer build AST
  types (`StatementKind`, `ExpressionKind`, `Ident`, `Module`, ...) that
  are defined nowhere in the sources, and match token kinds (`Colon`,
  `Hyphen`, `DotDot`, `Equals`) that their lexer does not have.
- The rest of the event grammar (blocks, containers, statements,
  conditionals, expressions, variables) and `parse_file` use the modules
  `grammar::atom`, `grammar::items`, `grammar::error_recovery`,
  `parser::event` and `parser::input`, the token kinds `IfKw` and
  `ElseKw`, and a rowan syntax tree, none of which are in the sources;
  only the macro parameter list grammar can be built.
- Interning of names in the parse session used the `string_interner`
  crate, which is not available here, and nothing else used it.
- The web editor front-end depends on an analysis crate that is not in
  the sources.
