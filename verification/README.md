# hash_compiler

Verified parts of a compiler for the Hash language, written in Verus.

- `src/ir.rs`, `src/smallvecs.rs`: the intermediate representation of
  function bodies, its jump tables and dominators.
- `src/tir/`: the typed intermediate representation as a store of nodes,
  with maps and visits over it (`visitor.rs` for callbacks that cannot
  fail, `fallible.rs` for callbacks that can), substitutions, parameters,
  definitions and the scoped typing context.
- `src/typecheck/`: substitution, parameter validation and reordering, and
  type inference of literals and constructor calls.
- `src/const_fold.rs`: folding of binary operators on integer, boolean and
  character constants.
- `src/codegen.rs`, `src/abi.rs`: how switches and arguments are lowered.
- `src/reporting.rs`, `src/semantic_error.rs`, `src/parser/`: diagnostic
  reports and the reports of parse and semantic errors.
- `src/resolution.rs`, `src/semantics.rs`: patterns made from resolved
  paths, and declarations without a value.
- `app/`: the parts that print, exit, and fold floating point constants.
- `tests/`: tests of the library.
