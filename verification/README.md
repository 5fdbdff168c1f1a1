# otter_fusion

The front and middle of a compiler for the `of` language, written in Verus:
the executable code is Rust, and each public function carries a contract
that Verus proves.

## Layout

- `src/tokens.rs`, `src/lexer.rs` — tokens and the lexer. `Lexer::scan_all`
  returns exactly what the spec function `spec_scan_all` describes.
- `src/grammar.rs`, `src/item_grammar.rs` — the grammar of the language as
  spec functions over a token list and a position, and the mathematical
  models of the syntax tree (`TypeM`, `ExprM`, `BlockM`, `ItemM`, ...).
- `src/parser.rs` — the recursive-descent parser. Every parsing function
  ensures that its grammar function, applied to the tokens and the starting
  position, gives the model of what it returned and the position where it
  stopped; `Parser::parse` is exact against `g_program`.
- `src/source_map.rs` — line tables and rendered diagnostics.
- `src/ast.rs`, `src/hir.rs`, `src/mir.rs` — the three program
  representations.
- `src/validator.rs` — validation errors and their messages, the type
  helpers of the validator (compatibility, substitution, signature
  matching), and the first phases of validation: registering modules and
  their imports, registering the names each module declares, resolving
  named imports, looking names up in a module's scope, and resolving type
  expressions (with alias expansion), generic parameters and their bounds,
  `implements` lists, fields and function signatures, the interfaces a
  struct must satisfy and the methods that provide them. Each step is
  exact against a spec function over the models `RegistryM`, `NamesM` and
  `ResEnv`. The driver of the signature phase, `extend` blocks, the
  member-by-member conformance check and body checking are not part of
  the library.
- `src/lower/` — lowering from HIR to MIR, up to the lowering of
  expressions: layouts of structs and unions, substitutions (including the
  one a function body is lowered under, `functions.rs`), symbol mangling,
  struct instances and the interfaces they implement, the MIR function
  builder, a function's entry (parameters, `self`) and its implicit
  return, extern imports, the monomorphization state (`mono.rs`: each
  function instance made once, its lowering queued first in, first out;
  method and entry lookup; which loop a `for` takes and the element type
  of an iterator), the control-flow shapes of index and `while` loops
  (`loops.rs`), the loops over lists, maps and iterators up to their
  bodies (`for_loops.rs`), closures (`closures.rs`: environment values,
  the entry of a closure's own function, the closure value) and `as` /
  `is` on unions, nullable references and other types (`casts.rs`). The
  lowering of expressions and statements themselves, and the interning of
  types, are not part of the library; each piece takes what they produce
  (lowered operands, MIR types and ids) as arguments.
- `src/codegen/` — symbol naming, sizes and offsets, and the choice of
  machine instructions (or runtime helpers, for strings) for operations
  and casts.
- `src/rt/` — the runtime's lists, dispatch table, byte buffers and string
  helpers, as safe code.
- `src/bench/` — the benchmark programs, with their results specified.
- `app/main.rs` — the command-line driver (reading files, printing);
  `app/bench.rs` — timing drivers for the benchmark programs, and the one
  benchmark that computes with floating point.
- `tests/` — tests, run against the compiled library.

Laws that relate several functions are public proof functions whose names
start with `law_`.
