# rue-air: semantic analysis for Rue, verified

Semantic analysis turns the untyped instructions of a Rue function (`rir`)
into typed ones (`air`), checking the rules of the language on the way. This
crate holds the decisions of that phase, each with a contract that Verus
proves.

## Layout

- `src/` — the library. Every function in it is verified, except the
  trusted wrappers around outside code listed last:
  - data: `types` (types and the type pool), `rir`, `air`, `diag` (errors),
    `context` (the per-function analysis state: scopes, parameters, moves),
    `moves` (what of a variable has been moved), `sema` (the analyzer's tables);
  - expressions: `typing` (literals and operators), `variables`
    (reads, assignments, `let`), `fields`, `projection`, `stores`, `arrays`,
    `control` (branches, loops, `return`, blocks), `matching` (`match` and enum
    variants), `invocation` and `calls` (function calls), `methods`,
    `intrinsics`, `pointers` (the raw-pointer intrinsics and `@syscall`),
    `builtins` (built-in types such as `String`);
  - declarations and modules: `consteval` (compile-time constants), `imports`,
    `anon_structs` (structural identity of anonymous structs), `checks`
    (end-of-scope checks), `lazy` (which functions lazy analysis visits,
    starting at `main`), `output` (merging the analyzed functions);
  - the walk: `dispatch` (lowering one instruction, its operands first, by
    the rule for its kind) and `functions` (laying out parameters, analyzing
    a whole function, and analyzing every function in order); the lazy
    driver, which analyzes only what `main` reaches through the calls found
    while analyzing, is in `lazy`;
  - outside code: `interner` (the `lasso` string interner) and `paths`
    (path functions of the standard library, beside verified text helpers),
    each outside call behind a trusted wrapper whose contract is stated in
    its doc comment.
- `app/` — what touches the machine: finding imported files on disk, the
  standard library's location from the environment, the host architecture.
- `tests/` — tests of the library on concrete values.

Each kind of expression has two halves here: what can be checked before its
operands are analyzed, and how the expression is finished once they are.
Each half is a function with its own exact contract. `Sema::analyze_inst`
walks a function body: it analyzes the operands of an instruction and calls
these halves, and it is proved to only append to the typed instructions
and, when it succeeds, to leave the scopes and loop depth as it found them.
