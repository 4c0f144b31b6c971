//! Semantic analysis for the Rue compiler: the verified core.
//!
//! The modules hold the parts of semantic analysis that decide things:
//! move tracking for affine values, lexical scopes, compile-time constant
//! evaluation, module visibility and import resolution, structural identity
//! of anonymous structs, and the merging of per-function results; and, for
//! each kind of expression, the checks it must pass and the typed
//! instructions it becomes: operators, variables and assignments, fields,
//! struct literals, arrays, control flow, `match`, calls of functions,
//! methods and intrinsics; and which functions lazy analysis visits.
//!
//! For each kind of expression, the functions here check what can be
//! checked before its operands are analyzed, and finish the expression once
//! they are; `dispatch` walks a function body instruction by instruction
//! with them, and `functions` analyzes whole functions.

pub mod types;
pub mod interner;
pub mod moves;
pub mod diag;
pub mod context;
pub mod rir;
pub mod consteval;
pub mod folding;
pub mod paths;
pub mod sema;
pub mod anon_structs;
pub mod checks;
pub mod calls;
pub mod imports;
pub mod air;
pub mod output;
pub mod typing;
pub mod builtins;
pub mod control;
pub mod variables;
pub mod fields;
pub mod arrays;
pub mod intrinsics;
pub mod matching;
pub mod invocation;
pub mod methods;
pub mod stores;
pub mod projection;
pub mod pointers;
pub mod lazy;
pub mod dispatch;
pub mod functions;
