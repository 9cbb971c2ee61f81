# consair

Consair is a minimal Lisp. This crate holds its verified core, written in
Verus: every function under `src/` carries a contract that Verus proves.

## Layout

- `src/text.rs`: characters, decimal and hexadecimal digits, UTF-8 widths.
- `src/numeric.rs`: numbers (integers, ratios, floats kept as their text)
  and exact arithmetic on fractions.
- `src/language.rs`: values, their mathematical model, their printed form,
  `car`/`cdr`/`cons`, and equality of values (an equivalence, proved).
- `src/lexer.rs`, `src/parser.rs`, `src/source.rs`: the reader, from text to
  tokens to values, and the splitting of a source file into expressions.
- `src/round_trip.rs`: the printed form of integers, strings, plain
  symbols, lists and vectors reads back as the same value.
- `src/interpreter.rs`: the evaluator. Environments are an arena of
  frames named by position; closures name the frame they were made in.
  Evaluation (special forms, calls with tail calls, macros, quasiquote,
  the depth limit, the native functions) is specified step by step by
  spec functions, and `eval` is proved to compute them. Native functions
  that do input or output stop the run with a request, which the caller
  performs and answers before running again.
- `src/abstractions.rs`: walking, counting, indexing, lookup, `assoc`,
  `conj` and the map and set constructors, with the laws that tie them
  together (what `get` gives back after `assoc`, distinct keys, ...).
- `src/native.rs`, `src/stdlib.rs`: argument checks, conversions and the
  computing part of the built-in functions.
- `src/runtime.rs`, `src/runtime_ir.rs`: tagged runtime values and the
  integer paths of runtime arithmetic; the text of the runtime's IR.
- `src/jit.rs`, `src/analysis.rs`, `src/aot.rs`: errors, purity, the result
  cache, free variables, and the plain-value parts of the compilers.
- `app/`: the command-line front end (REPL and file runner), the input and
  output that native functions request, and the floating-point paths of
  the runtime; Verus does not see it.
- `tests/`: tests run against the compiled library.

Laws are public proof functions whose names begin with `law_`.
