# oxc_core

Parts of a JavaScript toolchain, verified with Verus.

- `src/class`: the grammar of JavaScript and TypeScript classes. Expressions, types, statements
  and modifiers belong to a host parser, which is asked for them one at a time.
- `src/linter`: the React lint rule `no-string-refs`.
- `src/lint_macro`: the macro `declare_oxc_lint!`, which turns the declaration of a lint rule
  into the code that registers it.
- `src/text`, `src/span`: strings as sequences of characters, and places in a source text.
- `app`: a lint run over a file, the loop between the class parser and its host, and the
  procedural macro.

Each function states in its contract what it returns, over a model of its data. The public proof
functions named `law_...` state what holds across functions.
