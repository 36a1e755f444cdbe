# Wikitext parser state, verified

The state a wikitext parser carries while rules run over a token list: the
cursor, the rule and nesting depth, flags, and the page-wide collections
(table of contents, footnotes, internal links, cached rule results).

The collections live in `vstd` cells behind `Rc` handles, so every copy of a
parser shares them: what one copy adds, all of them see. The contracts speak of
which cells a parser holds, not of what is in them, since the contents of a
cell shared between copies are not tracked.

The functions are verified with Verus against contracts over an abstract view
of the parser. Two functions in `src/parser.rs` are trusted rather than
proved: `share`, which calls `Rc::clone` and whose contract says that the new
handle points at the same value, and `same_list`, which calls `std::ptr::eq`
on two slices and whose contract says that slices it calls equal hold the same
tokens.

- `src/token.rs`: tokens, the tokenizer, framing of token lists.
- `src/tree.rs`: syntax-tree elements, their views, plain-text rendering.
- `src/data.rs`: page information, callbacks, parse settings.
- `src/warning.rs`: rules, warnings, rule results.
- `src/parser.rs`: the parser and the specifications of its operations.
- `src/laws.rs`: properties that relate the operations.
