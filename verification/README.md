# snow

The pieces of the Snow language's tool chain, written in Verus with their
behaviour stated in contracts and proved.

- `src/legacy`: the first lexer (indentation-driven blocks); a
  recursive-descent expression parser over its tokens and the evaluator of
  its expressions; the function grammar (`funcs`: expressions, `let`, `if`,
  calls, lists, prints, function definitions) and the evaluator of its
  programs (`eval`), which records what `print` and `println` write and
  limits how deep calls nest.
- `src/expr.rs`: the second language's grammar of expressions (constants,
  applications, `let`, `do`, conditionals) and functions, over the second
  scanner's tokens.
- `src/interpreter.rs`: the tree-walking interpreter of the second
  language's applications of built-ins (`+`, `*`, `-`, `/`, comparisons,
  `if`, `do`, `print`).
- `src/scanner`: the second scanner, with `InDent`/`DeDent` tokens; its
  behaviour is a step function over positioned characters (`scanner::model`),
  and `scanner::laws` proves that the indentation tokens stay balanced.
- `src/parser.rs`, `src/combinators.rs`: single-token parsers and parser
  combinators; every parser states where it may run and what it may give back.
- `src/front_end`: the third lexer and a precedence-climbing parser.
- `src/ir`: the intermediate code and its emitter from syntax trees.
- `src/wasm`: a WebAssembly module, its sections and their byte encoding,
  and the emitter from intermediate code.

Floating-point numbers keep the text of their literals; the evaluators stop
where a floating-point operation would be computed, and say so.

`app/` is the command-line program: given a file, it runs the first
language's program in it (`main`'s value, what it prints, or its errors);
without one, it runs the third tool chain on a sample and writes
`test.wasm`. Where the library stops at a floating-point operation, the
evaluation is done in app/ (`float_eval` for the first language's programs,
`lox_eval` for the recursive-descent parser's expressions).
