//! Lowering RIR to AIR, instruction by instruction.
//!
//! `Sema::analyze_inst` analyzes one instruction of a function body: it
//! analyzes the operands first (each an earlier instruction), then checks and
//! finishes the instruction with the rule for its kind. AIR only grows, and
//! an instruction leaves the scopes and loop depth of the context as it found
//! them.
use vstd::prelude::*;

use crate::air::{Air, AirArgMode, AirInst, AirInstData};
use crate::calls::root_variable;
use crate::invocation::emit_call;
use crate::arrays::array_known;
use crate::checks::scope_names_interned;
use std::collections::HashMap;

use crate::consteval::{named_type, TypeNames};
use crate::paths::str_eq;
use crate::context::{copy_moves, frames, ConstValue, AnalysisContext, AnalysisResult, ScopeEntry};
use crate::diag::{CompileError, ErrorKind};
use crate::imports::{directives_interned, symbols_interned};
use crate::intrinsics::{
    check_intrinsic_arity, emit_assert, emit_panic, emit_random, finish_cast, finish_dbg, finish_int_cast, IntrinsicKind,
};
use crate::pointers::{
    finish_int_to_ptr, finish_ptr_offset, finish_ptr_read, finish_ptr_to_int, finish_ptr_write, finish_raw, finish_syscall,
    ptr_known,
};
use crate::interner::{interned, try_resolve};
use crate::fields::{emit_struct_init, fields_distinct, init_texts};
use crate::matching::{add_arm, begin_match};
use crate::arrays::{emit_array_init, emit_index_set, variable_arrays_known};
use crate::stores::{emit_field_set, struct_fields_known, variable_structs_known};
use crate::variables::AssignTarget;
use crate::rir::Pattern;
use vstd::std_specs::iter::IteratorSpec;
use crate::rir::{ArgMode, CallArg, InstData, InstRef, Rir};
use crate::sema::Sema;
use crate::variables::finish_alloc;
use crate::typing::{arith_performed, comparison_performed, logic_performed, ArithOp, CompareOp, LogicOp};
use crate::types::{AirRef, Span, Sym, Type, TypePool};

verus! {

/// `after` is `before` with instructions (and argument lists) appended.
pub open spec fn air_grows(before: Air, after: Air) -> bool {
    &&& before.instructions@.len() <= after.instructions@.len()
    &&& forall|i: int| 0 <= i < before.instructions@.len() ==> #[trigger] after.instructions@[i] == before.instructions@[i]
    &&& before.extra@.len() <= after.extra@.len()
    &&& after.return_type == before.return_type
}

/// `a` refers to an instruction of `air` that has `a`'s type, or is a unit
/// result (`let _ = value;` is unit and refers to the value it discards).
pub open spec fn result_in(air: Air, a: AnalysisResult) -> bool {
    &&& a.air_ref < air.instructions@.len()
    &&& (air.instructions@[a.air_ref as int].ty == a.ty || a.ty == Type::Unit)
}


/// The type of an instruction's result, for the kinds that fix it: a
/// boolean for a negation, a comparison or a logical operator; unit for
/// `let`, an assignment, a field or element store, a unit literal and a
/// `while` loop; the never type
/// for a jump and for `loop`; the compile-time type of types for a type
/// used as a value; the function's return type for a call; and the struct
/// for a struct literal.
pub open spec fn kind_type(s: &Sema, d: InstData) -> Option<Type> {
    match d {
        InstData::BoolConst(_) | InstData::Not { .. } | InstData::Eq { .. } | InstData::Ne { .. } | InstData::Lt {
            ..
        } | InstData::Gt { .. } | InstData::Le { .. } | InstData::Ge { .. } | InstData::And { .. } | InstData::Or {
            ..
        } => Some(Type::Bool),
        InstData::UnitConst | InstData::Alloc { .. } | InstData::Assign { .. } | InstData::IndexSet { .. }
        | InstData::FieldSet { .. } | InstData::Loop { .. } => Some(Type::Unit),
        InstData::Break | InstData::Continue | InstData::Ret(_) | InstData::InfiniteLoop { .. } => Some(Type::Never),
        InstData::TypeConst { .. } => Some(Type::ComptimeType),
        InstData::Call { name, .. } => if s.functions@.contains_key(name) {
            Some(s.functions@[name].return_type)
        } else {
            None
        },
        InstData::StructInit { name, .. } => if s.structs@.contains_key(name) {
            Some(Type::Struct(s.structs@[name]))
        } else {
            None
        },
        _ => None,
    }
}

/// The operator an RIR instruction applies, for the arithmetic, bitwise,
/// comparison and logical kinds.
pub open spec fn rir_operator(d: InstData) -> Option<Operator> {
    match d {
        InstData::Add { .. } => Some(Operator::Arith(ArithOp::Add)),
        InstData::Sub { .. } => Some(Operator::Arith(ArithOp::Sub)),
        InstData::Mul { .. } => Some(Operator::Arith(ArithOp::Mul)),
        InstData::Div { .. } => Some(Operator::Arith(ArithOp::Div)),
        InstData::Mod { .. } => Some(Operator::Arith(ArithOp::Mod)),
        InstData::BitAnd { .. } => Some(Operator::Arith(ArithOp::BitAnd)),
        InstData::BitOr { .. } => Some(Operator::Arith(ArithOp::BitOr)),
        InstData::BitXor { .. } => Some(Operator::Arith(ArithOp::BitXor)),
        InstData::Shl { .. } => Some(Operator::Arith(ArithOp::Shl)),
        InstData::Shr { .. } => Some(Operator::Arith(ArithOp::Shr)),
        InstData::Eq { .. } => Some(Operator::Compare(CompareOp::Eq)),
        InstData::Ne { .. } => Some(Operator::Compare(CompareOp::Ne)),
        InstData::Lt { .. } => Some(Operator::Compare(CompareOp::Lt)),
        InstData::Gt { .. } => Some(Operator::Compare(CompareOp::Gt)),
        InstData::Le { .. } => Some(Operator::Compare(CompareOp::Le)),
        InstData::Ge { .. } => Some(Operator::Compare(CompareOp::Ge)),
        InstData::And { .. } => Some(Operator::Logic(LogicOp::And)),
        InstData::Or { .. } => Some(Operator::Logic(LogicOp::Or)),
        _ => None,
    }
}

/// A binary operator of the language.
pub ghost enum Operator {
    Arith(ArithOp),
    Compare(CompareOp),
    Logic(LogicOp),
}

/// The typed instruction `d` performs operator `op`.
pub open spec fn performs(d: AirInstData, op: Operator) -> bool {
    match op {
        Operator::Arith(o) => arith_performed(d) matches Some((p, _, _)) && p == o,
        Operator::Compare(o) => comparison_performed(d) matches Some((p, _, _)) && p == o,
        Operator::Logic(o) => logic_performed(d) matches Some((p, _, _)) && p == o,
    }
}

/// Each operator of the source lowers to the typed instruction of the same
/// operator: `a % b` to a remainder, `a <= b` to a less-or-equal, and so on;
/// and no other instruction kind is lowered as an operator.
pub proof fn law_operators_lower_to_themselves(lhs: InstRef, rhs: InstRef, d: InstData)
    ensures
        rir_operator(InstData::Add { lhs, rhs }) == Some(Operator::Arith(ArithOp::Add)),
        rir_operator(InstData::Sub { lhs, rhs }) == Some(Operator::Arith(ArithOp::Sub)),
        rir_operator(InstData::Mul { lhs, rhs }) == Some(Operator::Arith(ArithOp::Mul)),
        rir_operator(InstData::Div { lhs, rhs }) == Some(Operator::Arith(ArithOp::Div)),
        rir_operator(InstData::Mod { lhs, rhs }) == Some(Operator::Arith(ArithOp::Mod)),
        rir_operator(InstData::BitAnd { lhs, rhs }) == Some(Operator::Arith(ArithOp::BitAnd)),
        rir_operator(InstData::BitOr { lhs, rhs }) == Some(Operator::Arith(ArithOp::BitOr)),
        rir_operator(InstData::BitXor { lhs, rhs }) == Some(Operator::Arith(ArithOp::BitXor)),
        rir_operator(InstData::Shl { lhs, rhs }) == Some(Operator::Arith(ArithOp::Shl)),
        rir_operator(InstData::Shr { lhs, rhs }) == Some(Operator::Arith(ArithOp::Shr)),
        rir_operator(InstData::Eq { lhs, rhs }) == Some(Operator::Compare(CompareOp::Eq)),
        rir_operator(InstData::Ne { lhs, rhs }) == Some(Operator::Compare(CompareOp::Ne)),
        rir_operator(InstData::Lt { lhs, rhs }) == Some(Operator::Compare(CompareOp::Lt)),
        rir_operator(InstData::Gt { lhs, rhs }) == Some(Operator::Compare(CompareOp::Gt)),
        rir_operator(InstData::Le { lhs, rhs }) == Some(Operator::Compare(CompareOp::Le)),
        rir_operator(InstData::Ge { lhs, rhs }) == Some(Operator::Compare(CompareOp::Ge)),
        rir_operator(InstData::And { lhs, rhs }) == Some(Operator::Logic(LogicOp::And)),
        rir_operator(InstData::Or { lhs, rhs }) == Some(Operator::Logic(LogicOp::Or)),
        rir_operator(d) is Some ==> crate::rir::operands(d).len() == 2,
{
}

/// The tables of the analyzer are as they were.
pub open spec fn sema_kept(before: &Sema, after: &Sema) -> bool {
    &&& after.rir == before.rir
    &&& interned(after.interner) == interned(before.interner)
    &&& after.builtin_string_id == before.builtin_string_id
    &&& after.builtin_arch_id == before.builtin_arch_id
    &&& after.builtin_os_id == before.builtin_os_id
    &&& after.type_pool.structs == before.type_pool.structs
    &&& after.type_pool.enums == before.type_pool.enums
    &&& after.type_pool.arrays == before.type_pool.arrays
    &&& after.structs == before.structs
    &&& after.enums == before.enums
    &&& after.functions == before.functions
    &&& after.methods == before.methods
    &&& after.preview_features == before.preview_features
    &&& after.anon_struct_method_sigs == before.anon_struct_method_sigs
    &&& after.host == before.host
    &&& after.file_paths == before.file_paths
    &&& after.abi_slots@ == before.abi_slots@
    &&& after.param_arena == before.param_arena
}

/// The parameters of every function lie in the parameter arena, with
/// interned names.
pub open spec fn params_interned(s: &Sema) -> bool {
    &&& s.param_arena.wf()
    &&& forall|k: Sym| #[trigger] s.functions@.contains_key(k) ==> {
        let p = s.functions@[k].params;
        &&& s.param_arena.holds(p)
        &&& forall|j: int|
            p.start <= j < p.start + p.len ==> interned(s.interner).contains_key(#[trigger] s.param_arena.names@[j])
    }
}

/// What analysis needs of the analyzer to analyze instruction `inst_ref`.
pub open spec fn can_analyze(s: &Sema, inst_ref: InstRef) -> bool {
    &&& s.wf()
    &&& s.rir.wf()
    &&& inst_ref < s.rir.instructions@.len()
    &&& symbols_interned(s.rir, interned(s.interner))
    &&& directives_interned(s.rir, interned(s.interner))
    &&& params_interned(s)
    &&& structs_checked(s)
    &&& s.builtin_string_id is Some
}

/// Every struct's fields have distinct names, and fewer than `u32::MAX` of
/// them, and the structs they hold are in the pool; every enum has at most
/// `u32::MAX` variants.
pub open spec fn structs_checked(s: &Sema) -> bool {
    &&& forall|id: int|
        0 <= id < s.type_pool.structs@.len() ==> fields_distinct(#[trigger] s.type_pool.structs@[id])
            && s.type_pool.structs@[id].fields@.len() < u32::MAX
    &&& forall|id: int| 0 <= id < s.type_pool.enums@.len() ==> (#[trigger] s.type_pool.enums@[id]).variants@.len() <= u32::MAX
    &&& struct_fields_known(&s.type_pool)
}

/// The variable an argument is rooted in is named by an instruction, so it
/// is interned.
proof fn lemma_root_interned(rir: &Rir, names: Map<Sym, Seq<char>>, r: InstRef)
    requires
        symbols_interned(rir, names),
    ensures
        root_variable(rir, r) matches Some(v) ==> names.contains_key(v),
    decreases r,
{
    if r < rir.instructions@.len() {
        let d = rir.instructions@[r as int].data;
        assert(crate::imports::inst_symbol(rir.instructions@[r as int].data) == crate::imports::inst_symbol(d));
        match d {
            InstData::FieldGet { base, .. } => if base < r {
                lemma_root_interned(rir, names, base);
            },
            InstData::IndexGet { base, .. } => if base < r {
                lemma_root_interned(rir, names, base);
            },
            _ => {},
        }
    }
}

/// The error for an operand list that does not fit its table, or names an
/// instruction that is not an earlier one.
fn bad_operands(span: Span) -> (e: CompileError)
    ensures
        e.span == span,
        e.kind is InternalError,
{
    CompileError::new(ErrorKind::InternalError("operand list out of bounds".to_string()), span)
}

/// The frames of a scope stack are the views of its scopes.
proof fn lemma_frames(x: Seq<Vec<ScopeEntry>>)
    ensures
        frames(x).len() == x.len(),
        forall|i: int| 0 <= i < x.len() ==> #[trigger] frames(x)[i] == x[i]@,
{
}

/// Names stay interned in scopes that keep their frames.
proof fn lemma_scope_names_kept(s1: &Sema, c1: &AnalysisContext, s2: &Sema, c2: &AnalysisContext)
    requires
        scope_names_interned(s1, c1),
        interned(s2.interner) == interned(s1.interner),
        frames(c2.scope_stack@) == frames(c1.scope_stack@),
    ensures
        scope_names_interned(s2, c2),
{
    let n = c1.scope_stack@.len();
    assert(frames(c1.scope_stack@).len() == n);
    assert(frames(c2.scope_stack@).len() == c2.scope_stack@.len());
    if n > 0 {
        assert(frames(c1.scope_stack@)[n - 1] == c1.scope_stack@[n - 1]@);
        assert(frames(c2.scope_stack@)[n - 1] == c2.scope_stack@[n - 1]@);
        assert(c2.scope_stack@.last()@ == c1.scope_stack@.last()@);
        assert forall|i: int| 0 <= i < c2.scope_stack@.last()@.len() implies #[trigger] interned(s2.interner).contains_key(
            c2.scope_stack@.last()@[i].0,
        ) by {
            assert(interned(s1.interner).contains_key(c1.scope_stack@.last()@[i].0));
        }
    }
}

/// Room for the instructions, argument lists and strings that finishing one
/// instruction appends.
fn has_room(air: &Air, ctx: &AnalysisContext) -> (r: bool)
    ensures
        r ==> air.instructions@.len() + 4 < u32::MAX && air.extra@.len() + 16 < u32::MAX
            && ctx.local_strings@.len() + 1 < u32::MAX,
{
    air.instructions.len() < 0xFFFF_FFF0 && air.extra.len() < 0xFFFF_FFE0 && ctx.local_strings.len()
        < 0xFFFF_FFF0
}

/// The error when a function's analysis outgrows the 32-bit instruction references.
fn too_large(span: Span) -> (e: CompileError)
    ensures
        e.span == span,
        e.kind is InternalError,
{
    CompileError::new(ErrorKind::InternalError("function too large to analyze".to_string()), span)
}

/// An instruction leaves the function information, the loop depth and the
/// scopes of a context as it found them, but for bindings added to the
/// innermost scope (by `let`), the slots they take and the names bound to
/// types at compile time.
pub open spec fn ctx_kept(before: &AnalysisContext, after: &AnalysisContext) -> bool {
    &&& after.params == before.params
    &&& after.loop_depth == before.loop_depth
    &&& after.return_type == before.return_type
    &&& after.resolved_types == before.resolved_types
    &&& after.scope_stack@.len() == before.scope_stack@.len()
    &&& frames(after.scope_stack@).drop_last() == frames(before.scope_stack@).drop_last()
}

/// A struct or array type is in the pool.
fn type_in_pool(pool: &TypePool, t: Type) -> (r: bool)
    ensures
        r ==> (t matches Type::Struct(id) ==> id < pool.structs@.len() && pool.structs@[id as int].fields@.len()
            <= u32::MAX),
        r ==> array_known(*pool, t),
{
    match t {
        Type::Struct(id) => (id as usize) < pool.structs.len() && pool.structs[id as usize].fields.len()
            <= 0xFFFF_FFFF,
        Type::Array(id) => (id as usize) < pool.arrays.len(),
        _ => true,
    }
}

/// Every struct and array type a variable has is in the pool.
fn variables_in_pool(pool: &TypePool, ctx: &AnalysisContext) -> (r: bool)
    ensures
        r ==> variable_arrays_known(*pool, ctx),
        r ==> variable_structs_known(pool, ctx),
{
    proof {
        vstd::std_specs::hash::axiom_spec_hash_map_iter(&ctx.params);
        vstd::std_specs::hash::axiom_spec_hash_map_iter(&ctx.locals);
    }
    let ghost ps = vstd::std_specs::hash::spec_hash_map_iter(&ctx.params).remaining();
    for (k, p) in it: ctx.params.iter()
        invariant
            it.seq() == ps,
            forall|j: int| 0 <= j < it.index() ==> array_known(*pool, (*ps[j].1).ty),
            forall|j: int| 0 <= j < it.index() ==> ((*#[trigger] ps[j].1).ty matches Type::Struct(id) ==> id < pool.structs@.len()),
    {
        proof {
            assert(*it.seq()[it.index() as int].1 == *p);
        }
        if !type_in_pool(pool, p.ty) {
            return false;
        }
    }
    let ghost ls = vstd::std_specs::hash::spec_hash_map_iter(&ctx.locals).remaining();
    for (k, l) in it2: ctx.locals.iter()
        invariant
            it2.seq() == ls,
            forall|j: int| 0 <= j < it2.index() ==> array_known(*pool, (*ls[j].1).ty),
            forall|j: int| 0 <= j < it2.index() ==> ((*#[trigger] ls[j].1).ty matches Type::Struct(id) ==> id < pool.structs@.len()),
    {
        proof {
            assert(*it2.seq()[it2.index() as int].1 == *l);
        }
        if !type_in_pool(pool, l.ty) {
            return false;
        }
    }
    proof {
        assert forall|k: Sym| #[trigger] ctx.params@.contains_key(k) implies array_known(*pool, ctx.params@[k].ty) by {
            assert(ps.contains((&k, &ctx.params@[k])));
            let j = choose|j: int| 0 <= j < ps.len() && ps[j] == (&k, &ctx.params@[k]);
            assert(array_known(*pool, (*ps[j].1).ty));
        }
        assert forall|k: Sym| #[trigger] ctx.params@.contains_key(k) implies (ctx.params@[k].ty matches Type::Struct(id)
            ==> id < pool.structs@.len()) by {
            assert(ps.contains((&k, &ctx.params@[k])));
            let j = choose|j: int| 0 <= j < ps.len() && ps[j] == (&k, &ctx.params@[k]);
            assert((*ps[j].1).ty == ctx.params@[k].ty);
        }
        assert forall|k: Sym| #[trigger] ctx.locals@.contains_key(k) implies array_known(*pool, ctx.locals@[k].ty) by {
            assert(ls.contains((&k, &ctx.locals@[k])));
            let j = choose|j: int| 0 <= j < ls.len() && ls[j] == (&k, &ctx.locals@[k]);
            assert(array_known(*pool, (*ls[j].1).ty));
        }
        assert forall|k: Sym| #[trigger] ctx.locals@.contains_key(k) implies (ctx.locals@[k].ty matches Type::Struct(id)
            ==> id < pool.structs@.len()) by {
            assert(ls.contains((&k, &ctx.locals@[k])));
            let j = choose|j: int| 0 <= j < ls.len() && ls[j] == (&k, &ctx.locals@[k]);
            assert((*ls[j].1).ty == ctx.locals@[k].ty);
        }
    }
    true
}

/// The error for a value whose struct or array type the pool does not hold.
fn unknown_type(span: Span) -> (e: CompileError)
    ensures
        e.span == span,
        e.kind is InternalError,
{
    CompileError::new(ErrorKind::InternalError("type of an operand is not in the type pool".to_string()), span)
}

impl<'a> Sema<'a> {
    /// Analyze instruction `inst_ref` of a function body, appending its
    /// typed instructions to `air`: its operands first, then the instruction
    /// itself with the rule for its kind.
    #[verifier::rlimit(100)]
    pub fn analyze_inst(&mut self, air: &mut Air, inst_ref: InstRef, ctx: &mut AnalysisContext) -> (r: Result<
        AnalysisResult,
        CompileError,
    >)
        requires
            can_analyze(old(self), inst_ref),
            scope_names_interned(old(self), old(ctx)),
        ensures
            air_grows(*old(air), *final(air)),
            sema_kept(old(self), final(self)),
            final(self).wf(),
            r is Ok ==> ctx_kept(old(ctx), final(ctx)),
            r matches Ok(a) ==> result_in(*final(air), a),
            r matches Ok(a) ==> (kind_type(old(self), old(self).rir.instructions@[inst_ref as int].data) matches Some(
                t,
            ) ==> a.ty == t),
            r matches Ok(a) ==> (rir_operator(old(self).rir.instructions@[inst_ref as int].data) matches Some(op)
                ==> performs(final(air).instructions@[a.air_ref as int].data, op)),
            r is Ok ==> scope_names_interned(final(self), final(ctx)),
        decreases inst_ref, 2nat,
    {
        let inst = *self.rir.get(inst_ref);
        let span = inst.span;
        if !has_room(air, ctx) {
            return Err(too_large(span));
        }
        let ghost ops = crate::rir::operands(inst.data);
        proof {
            assert(forall|j: int| 0 <= j < ops.len() ==> #[trigger] ops[j] < inst_ref);
        }
        match inst.data {
            InstData::IntConst(_) | InstData::BoolConst(_) | InstData::StringConst(_) | InstData::UnitConst => {
                proof {
                    if let InstData::StringConst(sym) = inst.data {
                        assert(crate::imports::inst_symbol(self.rir.instructions@[inst_ref as int].data) == Some(sym));
                    }
                }
                self.analyze_literal(air, inst_ref, ctx)
            },
            InstData::Neg { operand } => {
                assert(ops[0] == operand);
                let ty = match Self::negation_type(ctx, inst_ref, span) {
                    Ok(t) => t,
                    Err(e) => {
                        return Err(e);
                    },
                };
                match self.fold_negated_min_literal(air, operand, ty, span) {
                    Some(res) => {
                        return Ok(res);
                    },
                    None => {},
                }
                let x = match self.analyze_inst(air, operand, ctx) {
                    Ok(x) => x,
                    Err(e) => {
                        return Err(e);
                    },
                };
                if !has_room(air, ctx) {
                    return Err(too_large(span));
                }
                Ok(Self::analyze_neg(air, x, ty, span))
            },
            InstData::Not { operand } => {
                assert(ops[0] == operand);
                let x = match self.analyze_inst(air, operand, ctx) {
                    Ok(x) => x,
                    Err(e) => {
                        return Err(e);
                    },
                };
                if !has_room(air, ctx) {
                    return Err(too_large(span));
                }
                Ok(Self::analyze_not(air, x, span))
            },
            InstData::BitNot { operand } => {
                assert(ops[0] == operand);
                let ty = match Self::bit_not_type(ctx, inst_ref, span) {
                    Ok(t) => t,
                    Err(e) => {
                        return Err(e);
                    },
                };
                let x = match self.analyze_inst(air, operand, ctx) {
                    Ok(x) => x,
                    Err(e) => {
                        return Err(e);
                    },
                };
                if !has_room(air, ctx) {
                    return Err(too_large(span));
                }
                Ok(Self::analyze_bit_not(air, x, ty, span))
            },
            InstData::Add { lhs, rhs } => self.arith(air, ctx, inst_ref, ArithOp::Add, lhs, rhs, span),
            InstData::Sub { lhs, rhs } => self.arith(air, ctx, inst_ref, ArithOp::Sub, lhs, rhs, span),
            InstData::Mul { lhs, rhs } => self.arith(air, ctx, inst_ref, ArithOp::Mul, lhs, rhs, span),
            InstData::Div { lhs, rhs } => self.arith(air, ctx, inst_ref, ArithOp::Div, lhs, rhs, span),
            InstData::Mod { lhs, rhs } => self.arith(air, ctx, inst_ref, ArithOp::Mod, lhs, rhs, span),
            InstData::BitAnd { lhs, rhs } => self.arith(air, ctx, inst_ref, ArithOp::BitAnd, lhs, rhs, span),
            InstData::BitOr { lhs, rhs } => self.arith(air, ctx, inst_ref, ArithOp::BitOr, lhs, rhs, span),
            InstData::BitXor { lhs, rhs } => self.arith(air, ctx, inst_ref, ArithOp::BitXor, lhs, rhs, span),
            InstData::Shl { lhs, rhs } => self.arith(air, ctx, inst_ref, ArithOp::Shl, lhs, rhs, span),
            InstData::Shr { lhs, rhs } => self.arith(air, ctx, inst_ref, ArithOp::Shr, lhs, rhs, span),
            InstData::Eq { lhs, rhs } => self.compare(air, ctx, inst_ref, CompareOp::Eq, lhs, rhs, span),
            InstData::Ne { lhs, rhs } => self.compare(air, ctx, inst_ref, CompareOp::Ne, lhs, rhs, span),
            InstData::Lt { lhs, rhs } => self.compare(air, ctx, inst_ref, CompareOp::Lt, lhs, rhs, span),
            InstData::Gt { lhs, rhs } => self.compare(air, ctx, inst_ref, CompareOp::Gt, lhs, rhs, span),
            InstData::Le { lhs, rhs } => self.compare(air, ctx, inst_ref, CompareOp::Le, lhs, rhs, span),
            InstData::Ge { lhs, rhs } => self.compare(air, ctx, inst_ref, CompareOp::Ge, lhs, rhs, span),
            InstData::And { lhs, rhs } => self.logic(air, ctx, inst_ref, LogicOp::And, lhs, rhs, span),
            InstData::Or { lhs, rhs } => self.logic(air, ctx, inst_ref, LogicOp::Or, lhs, rhs, span),
            InstData::Comptime { expr } => {
                assert(ops[0] == expr);
                self.analyze_comptime_block(air, inst_ref, expr, span, ctx)
            },
            InstData::VarRef { name } => {
                assert(crate::imports::inst_symbol(self.rir.instructions@[inst_ref as int].data) == Some(name));
                self.analyze_var_ref(air, name, span, ctx)
            },
            InstData::ParamRef { name } => {
                assert(crate::imports::inst_symbol(self.rir.instructions@[inst_ref as int].data) == Some(name));
                self.analyze_param_ref(air, name, span, ctx)
            },
            InstData::FieldGet { base, field } => {
                assert(ops[0] == base);
                assert(crate::imports::inst_symbol(self.rir.instructions@[inst_ref as int].data) == Some(field));
                let b = match self.analyze_inst_for_projection(air, base, ctx) {
                    Ok(x) => x,
                    Err(e) => {
                        return Err(e);
                    },
                };
                if !has_room(air, ctx) {
                    return Err(too_large(span));
                }
                if !type_in_pool(&self.type_pool, b.ty) {
                    return Err(unknown_type(span));
                }
                self.finish_field_get(air, ctx, inst_ref, b, field, span)
            },
            InstData::IndexGet { base, index } => {
                assert(ops[0] == base && ops[1] == index);
                let b = match self.analyze_inst_for_projection(air, base, ctx) {
                    Ok(x) => x,
                    Err(e) => {
                        return Err(e);
                    },
                };
                let i = match self.analyze_inst(air, index, ctx) {
                    Ok(x) => x,
                    Err(e) => {
                        return Err(e);
                    },
                };
                if !has_room(air, ctx) {
                    return Err(too_large(span));
                }
                if !type_in_pool(&self.type_pool, b.ty) {
                    return Err(unknown_type(span));
                }
                self.finish_index_get(air, b, index, i, span)
            },
            InstData::Block { extra_start, len } => self.block(air, ctx, inst_ref, extra_start, len, span),
            InstData::Branch { cond, then_block, else_block } => {
                assert(ops[0] == cond && ops[1] == then_block);
                assert(else_block matches Some(e) ==> ops[2] == e);
                self.branch(air, ctx, inst_ref, cond, then_block, else_block, span)
            },
            InstData::Loop { cond, body } => {
                assert(ops[0] == cond && ops[1] == body);
                let c = match self.analyze_inst(air, cond, ctx) {
                    Ok(x) => x,
                    Err(e) => {
                        return Err(e);
                    },
                };
                let b = match self.scoped(air, ctx, inst_ref, body, true, span) {
                    Ok(x) => x,
                    Err(e) => {
                        return Err(e);
                    },
                };
                if !has_room(air, ctx) {
                    return Err(too_large(span));
                }
                Ok(Self::emit_while_loop(air, c, b, span))
            },
            InstData::InfiniteLoop { body } => {
                assert(ops[0] == body);
                let b = match self.scoped(air, ctx, inst_ref, body, true, span) {
                    Ok(x) => x,
                    Err(e) => {
                        return Err(e);
                    },
                };
                if !has_room(air, ctx) {
                    return Err(too_large(span));
                }
                Ok(Self::emit_infinite_loop(air, b, span))
            },
            InstData::Break => Self::analyze_break(air, ctx, span),
            InstData::Continue => Self::analyze_continue(air, ctx, span),
            InstData::Ret(value) => {
                let v = match value {
                    Some(v) => {
                        assert(ops[0] == v);
                        match self.analyze_inst(air, v, ctx) {
                            Ok(x) => Some(x),
                            Err(e) => {
                                return Err(e);
                            },
                        }
                    },
                    None => None,
                };
                let value_type = match v {
                    Some(x) => Some(x.ty),
                    None => None,
                };
                match Self::check_return(ctx.return_type, value_type, span) {
                    Ok(()) => {},
                    Err(e) => {
                        return Err(e);
                    },
                }
                if !has_room(air, ctx) {
                    return Err(too_large(span));
                }
                let value_ref = match v {
                    Some(x) => Some(x.air_ref),
                    None => None,
                };
                Ok(Self::emit_return(air, value_ref, span))
            },
            InstData::TypeConst { name } => {
                assert(crate::imports::inst_symbol(self.rir.instructions@[inst_ref as int].data) == Some(name));
                let t = match self.resolve_type_name(name, span) {
                    Ok(t) => t,
                    Err(e) => {
                        return Err(e);
                    },
                };
                let air_ref = air.add_inst(AirInst { data: AirInstData::TypeConst(t), ty: Type::ComptimeType, span });
                Ok(AnalysisResult::new(air_ref, Type::ComptimeType))
            },
            InstData::Alloc { name, is_mut, init, directives_start, directives_len } => self.let_binding(
                air,
                ctx,
                inst_ref,
                name,
                is_mut,
                init,
                directives_start,
                directives_len,
                span,
            ),
            InstData::Assign { name, value } => self.assign(air, ctx, inst_ref, name, value, span),
            InstData::Call { name, args_start, args_len } => self.call(air, ctx, inst_ref, name, args_start, args_len, span),
            InstData::Match { scrutinee, arms_start, arms_len } => {
                assert(ops[0] == scrutinee);
                self.match_expr(air, ctx, inst_ref, scrutinee, arms_start, arms_len, span)
            },
            InstData::EnumVariant { module, enum_sym, variant } => {
                assert(crate::imports::inst_symbol(self.rir.instructions@[inst_ref as int].data) == Some(enum_sym));
                match try_resolve(&self.interner, variant) {
                    Some(_) => {},
                    None => {
                        return Err(bad_operands(span));
                    },
                }
                proof {
                    assert forall|k: Sym| #[trigger] self.enums@.contains_key(k) implies self.type_pool.enums@[
                        self.enums@[k] as int].variants@.len() <= u32::MAX by {
                        assert(self.enums@[k] < self.type_pool.enums@.len());
                    }
                }
                self.analyze_enum_variant(air, module, enum_sym, variant, span)
            },
            InstData::FieldSet { base, field, value } => {
                assert(ops[0] == base && ops[1] == value);
                assert(crate::imports::inst_symbol(self.rir.instructions@[inst_ref as int].data) == Some(field));
                self.field_set(air, ctx, inst_ref, base, field, value, span)
            },
            InstData::IndexSet { base, index, value } => {
                assert(ops[0] == base && ops[1] == index && ops[2] == value);
                self.index_set(air, ctx, inst_ref, base, index, value, span)
            },
            InstData::ArrayInit { elems_start, elems_len } => self.array_init(air, ctx, inst_ref, elems_start, elems_len, span),
            InstData::StructInit { name, fields_start, fields_len } => self.struct_init(
                air,
                ctx,
                inst_ref,
                name,
                fields_start,
                fields_len,
                span,
            ),
            InstData::Intrinsic { name, args_start, args_len } => self.intrinsic(
                air,
                ctx,
                inst_ref,
                name,
                args_start,
                args_len,
                span,
            ),
        }
    }

    /// `let name = init;`: the initializer, then the binding. A name bound
    /// to a type value is a compile-time binding and takes no slot.
    #[verifier::rlimit(40)]
    fn let_binding(
        &mut self,
        air: &mut Air,
        ctx: &mut AnalysisContext,
        inst_ref: InstRef,
        name: Option<Sym>,
        is_mut: bool,
        init: InstRef,
        directives_start: u32,
        directives_len: u32,
        span: Span,
    ) -> (r: Result<AnalysisResult, CompileError>)
        requires
            can_analyze(old(self), inst_ref),
            old(self).rir.instructions@[inst_ref as int].data == (InstData::Alloc {
                name,
                is_mut,
                init,
                directives_start,
                directives_len,
            }),
            scope_names_interned(old(self), old(ctx)),
        ensures
            air_grows(*old(air), *final(air)),
            sema_kept(old(self), final(self)),
            final(self).wf(),
            r is Ok ==> ctx_kept(old(ctx), final(ctx)),
            r matches Ok(a) ==> result_in(*final(air), a),
            r matches Ok(a) ==> a.ty == Type::Unit,
            r is Ok ==> scope_names_interned(final(self), final(ctx)),
        decreases inst_ref, 1nat,
    {
        proof {
            let d = self.rir.instructions@[inst_ref as int].data;
            assert(crate::rir::operands(d)[0] == init);
            assert(name matches Some(n) ==> crate::imports::inst_symbol(d) == Some(n));
        }
        let x = match self.analyze_inst(air, init, ctx) {
            Ok(x) => x,
            Err(e) => {
                return Err(e);
            },
        };
        let n = match name {
            Some(n) => n,
            None => {
                return Ok(AnalysisResult::new(x.air_ref, Type::Unit));
            },
        };
        if !has_room(air, ctx) {
            return Err(too_large(span));
        }
        if x.ty == Type::ComptimeType {
            return match air.get(x.air_ref).data {
                AirInstData::TypeConst(t) => {
                    ctx.comptime_type_vars.insert(n, t);
                    let nop = air.add_inst(AirInst { data: AirInstData::UnitConst, ty: Type::Unit, span });
                    Ok(AnalysisResult::new(nop, Type::Unit))
                },
                _ => {
                    let name_str = self.resolve(n);
                    let reason = String::from_str("cannot store type value in variable '").concat(name_str).concat(
                        "' at runtime; type values only exist at compile time",
                    );
                    Err(CompileError::new(ErrorKind::ComptimeEvaluationFailed { reason }, span))
                },
            };
        }
        if directives_start as usize > self.rir.directives.len() || directives_len as usize
            > self.rir.directives.len() - directives_start as usize {
            return Err(
                CompileError::new(ErrorKind::InternalError("directive range out of bounds".to_string()), span),
            );
        }
        let directives = vstd::slice::slice_subrange(
            self.rir.directives.as_slice(),
            directives_start as usize,
            directives_start as usize + directives_len as usize,
        );
        let allow_unused = self.has_allow_directive(directives, "unused_variable");
        let num_slots = match self.abi_slot_count(x.ty) {
            Some(k) => k,
            None => {
                return Err(
                    CompileError::new(
                        ErrorKind::InternalError("no ABI slot count for the type of a variable".to_string()),
                        span,
                    ),
                );
            },
        };
        if ctx.next_slot > u32::MAX - num_slots {
            return Err(too_large(span));
        }
        let ghost mid = *ctx;
        let r = finish_alloc(air, ctx, name, is_mut, allow_unused, x, num_slots, span);
        proof {
            lemma_frames(mid.scope_stack@);
            lemma_frames(ctx.scope_stack@);
            if mid.scope_stack@.len() > 0 {
                let k = mid.scope_stack@.len() - 1;
                assert(frames(ctx.scope_stack@)[k] == ctx.scope_stack@.last()@);
                assert(ctx.scope_stack@.last()@ == mid.scope_stack@.last()@.push((n, crate::context::binding(mid.locals@, n))));
                assert(frames(ctx.scope_stack@).drop_last() =~= frames(mid.scope_stack@).drop_last());
                assert forall|i: int| 0 <= i < ctx.scope_stack@.last()@.len() implies #[trigger] interned(
                    self.interner,
                ).contains_key(ctx.scope_stack@.last()@[i].0) by {
                    if i < mid.scope_stack@.last()@.len() {
                        assert(ctx.scope_stack@.last()@[i] == mid.scope_stack@.last()@[i]);
                    }
                }
            }
        }
        Ok(r)
    }

    /// A call of a function by name: the call is checked, its arguments
    /// are analyzed in order, and the call has the function's return type.
    #[verifier::rlimit(40)]
    fn call(
        &mut self,
        air: &mut Air,
        ctx: &mut AnalysisContext,
        inst_ref: InstRef,
        name: Sym,
        args_start: u32,
        args_len: u32,
        span: Span,
    ) -> (r: Result<AnalysisResult, CompileError>)
        requires
            can_analyze(old(self), inst_ref),
            old(self).rir.instructions@[inst_ref as int].data == (InstData::Call { name, args_start, args_len }),
            scope_names_interned(old(self), old(ctx)),
        ensures
            air_grows(*old(air), *final(air)),
            sema_kept(old(self), final(self)),
            final(self).wf(),
            r is Ok ==> ctx_kept(old(ctx), final(ctx)),
            r matches Ok(a) ==> result_in(*final(air), a),
            r matches Ok(a) ==> old(self).functions@.contains_key(name) && a.ty == old(self).functions@[name].return_type,
            r is Ok ==> scope_names_interned(final(self), final(ctx)),
        decreases inst_ref, 1nat,
    {
        proof {
            assert(crate::imports::inst_symbol(self.rir.instructions@[inst_ref as int].data) == Some(name));
        }
        if args_start as usize > self.rir.call_args.len() || args_len as usize > self.rir.call_args.len()
            - args_start as usize {
            return Err(bad_operands(span));
        }
        let end: usize = args_start as usize + args_len as usize;
        let mut args: Vec<CallArg> = Vec::new();
        let mut idx: usize = args_start as usize;
        while idx < end
            invariant
                *self == *old(self),
                *air == *old(air),
                *ctx == *old(ctx),
                self.wf(),
                args_start <= idx <= end,
                end <= self.rir.call_args@.len(),
                args@.len() == idx - args_start,
                forall|j: int| 0 <= j < args@.len() ==> #[trigger] args@[j].value < inst_ref,
            decreases end - idx,
        {
            let a = self.rir.call_args[idx];
            if a.value >= inst_ref {
                return Err(bad_operands(span));
            }
            args.push(a);
            idx = idx + 1;
        }
        proof {
            assert forall|j: int| 0 <= j < args@.len() implies (#[trigger] root_variable(self.rir, args@[j].value) matches Some(
                v,
            ) ==> interned(self.interner).contains_key(v)) by {
                lemma_root_interned(self.rir, interned(self.interner), args@[j].value);
            }
        }
        let ghost c0 = *ctx;
        let info = match self.check_call(ctx, name, args.as_slice(), span) {
            Ok(info) => info,
            Err(e) => {
                return Err(e);
            },
        };
        if info.is_generic {
            return Err(
                CompileError::new(
                    ErrorKind::InternalError("a generic function is called through its specialization".to_string()),
                    span,
                ),
            );
        }
        let ghost c1 = *ctx;
        proof {
            lemma_scope_names_kept(self, &c0, self, ctx);
        }
        let mut values: Vec<(AirRef, AirArgMode)> = Vec::new();
        let mut k: usize = 0;
        while k < args.len()
            invariant
                can_analyze(self, inst_ref),
                sema_kept(old(self), self),
                self.wf(),
                forall|j: int| 0 <= j < args@.len() ==> #[trigger] args@[j].value < inst_ref,
                k <= args@.len(),
                values@.len() == k,
                air_grows(*old(air), *air),
                ctx_kept(old(ctx), &c1),
                ctx_kept(&c1, ctx),
                scope_names_interned(self, ctx),
            decreases args@.len() - k,
        {
            let a = args[k];
            let v = match self.analyze_inst(air, a.value, ctx) {
                Ok(v) => v,
                Err(e) => {
                    return Err(e);
                },
            };
            let mode = match a.mode {
                ArgMode::Normal => AirArgMode::Normal,
                ArgMode::Inout => AirArgMode::Inout,
                ArgMode::Borrow => AirArgMode::Borrow,
            };
            values.push((v.air_ref, mode));
            k = k + 1;
        }
        if !has_room(air, ctx) || values.len() >= 0x7FFF_FFF0 || air.extra.len() >= 0xFFFF_FFFF - 2 * values.len() {
            return Err(too_large(span));
        }
        Ok(emit_call(air, name, &values, info.return_type, span))
    }

    /// An assignment `name = value`: where it stores is checked before the
    /// value is analyzed; then the variable holds the new value.
    fn assign(
        &mut self,
        air: &mut Air,
        ctx: &mut AnalysisContext,
        inst_ref: InstRef,
        name: Sym,
        value: InstRef,
        span: Span,
    ) -> (r: Result<AnalysisResult, CompileError>)
        requires
            can_analyze(old(self), inst_ref),
            old(self).rir.instructions@[inst_ref as int].data == (InstData::Assign { name, value }),
            scope_names_interned(old(self), old(ctx)),
        ensures
            air_grows(*old(air), *final(air)),
            sema_kept(old(self), final(self)),
            final(self).wf(),
            r is Ok ==> ctx_kept(old(ctx), final(ctx)),
            r matches Ok(a) ==> result_in(*final(air), a),
            r matches Ok(a) ==> a.ty == Type::Unit,
            r is Ok ==> scope_names_interned(final(self), final(ctx)),
        decreases inst_ref, 1nat,
    {
        proof {
            let d = self.rir.instructions@[inst_ref as int].data;
            assert(crate::rir::operands(d)[0] == value);
            assert(crate::imports::inst_symbol(d) == Some(name));
        }
        let target = match self.assignment_target(ctx, name, span) {
            Ok(t) => t,
            Err(e) => {
                return Err(e);
            },
        };
        let v = match self.analyze_inst(air, value, ctx) {
            Ok(x) => x,
            Err(e) => {
                return Err(e);
            },
        };
        if !has_room(air, ctx) {
            return Err(too_large(span));
        }
        let ghost mid = *ctx;
        let r = Self::finish_assign(air, ctx, name, target, v, span);
        proof {
            lemma_scope_names_kept(self, &mid, self, ctx);
        }
        Ok(r)
    }

    /// A match: the scrutinee, then each arm's pattern and, in a scope of
    /// its own, its value; then the arms must cover every value.
    #[verifier::rlimit(40)]
    fn match_expr(
        &mut self,
        air: &mut Air,
        ctx: &mut AnalysisContext,
        inst_ref: InstRef,
        scrutinee: InstRef,
        arms_start: u32,
        arms_len: u32,
        span: Span,
    ) -> (r: Result<AnalysisResult, CompileError>)
        requires
            can_analyze(old(self), inst_ref),
            scrutinee < inst_ref,
            scope_names_interned(old(self), old(ctx)),
        ensures
            air_grows(*old(air), *final(air)),
            sema_kept(old(self), final(self)),
            final(self).wf(),
            r is Ok ==> ctx_kept(old(ctx), final(ctx)),
            r matches Ok(a) ==> result_in(*final(air), a),
            r is Ok ==> scope_names_interned(final(self), final(ctx)),
        decreases inst_ref, 1nat,
    {
        if arms_start as usize > self.rir.match_arms.len() || arms_len as usize > self.rir.match_arms.len()
            - arms_start as usize {
            return Err(bad_operands(span));
        }
        let s = match self.analyze_inst(air, scrutinee, ctx) {
            Ok(x) => x,
            Err(e) => {
                return Err(e);
            },
        };
        let mut state = match begin_match(s.ty, arms_len as usize, span) {
            Ok(st) => st,
            Err(e) => {
                return Err(e);
            },
        };
        let ghost c1 = *ctx;
        let end: usize = arms_start as usize + arms_len as usize;
        let mut idx: usize = arms_start as usize;
        while idx < end
            invariant
                can_analyze(self, inst_ref),
                sema_kept(old(self), self),
                self.wf(),
                arms_start <= idx <= end,
                end <= self.rir.match_arms@.len(),
                state.wf(),
                air_grows(*old(air), *air),
                ctx_kept(old(ctx), &c1),
                ctx_kept(&c1, ctx),
                scope_names_interned(self, ctx),
                forall|j: int| 0 <= j < state.arms@.len() ==> #[trigger] state.arms@[j].1 < air.instructions@.len(),
            decreases end - idx,
        {
            let (pattern, body) = self.rir.match_arms[idx];
            if body >= inst_ref {
                return Err(bad_operands(span));
            }
            match pattern {
                Pattern::Path { enum_sym, variant, .. } => {
                    if try_resolve(&self.interner, enum_sym).is_none() || try_resolve(&self.interner, variant).is_none() {
                        return Err(bad_operands(span));
                    }
                },
                _ => {},
            }
            proof {
                assert forall|k: Sym| #[trigger] self.enums@.contains_key(k) implies self.enums@[k]
                    < self.type_pool.enums@.len() && self.type_pool.enums@[self.enums@[k] as int].variants@.len()
                    <= u32::MAX by {
                    assert(self.type_pool.enums@[self.enums@[k] as int].variants@.len() <= u32::MAX);
                }
            }
            let ghost c2 = *ctx;
            let air_pattern = match self.match_pattern(&mut state, &mut ctx.warnings, pattern) {
                Ok(p) => p,
                Err(e) => {
                    return Err(e);
                },
            };
            proof {
                lemma_frames(c2.scope_stack@);
                lemma_scope_names_kept(self, &c2, self, ctx);
            }
            let value = match self.scoped(air, ctx, inst_ref, body, false, span) {
                Ok(v) => v,
                Err(e) => {
                    return Err(e);
                },
            };
            let body_span = self.rir.get(body).span;
            match add_arm(&mut state, air_pattern, value, body_span) {
                Ok(()) => {},
                Err(e) => {
                    return Err(e);
                },
            }
            idx = idx + 1;
        }
        match state.pattern_enum {
            Some(id) => {
                if id as usize >= self.type_pool.enums.len() {
                    return Err(bad_operands(span));
                }
            },
            None => {},
        }
        if !has_room(air, ctx) || state.arms.len() >= 0x3FFF_FFF0 || air.extra.len() >= 0xFFFF_FFFF - 4
            * state.arms.len() {
            return Err(too_large(span));
        }
        self.finish_match(air, &state, s.air_ref, span)
    }

    /// A field store `base.field = value`: where it stores is checked
    /// first, then the value; the store goes to the field's slots within
    /// the variable, past the slots of the fields before it on the way.
    fn field_set(
        &mut self,
        air: &mut Air,
        ctx: &mut AnalysisContext,
        inst_ref: InstRef,
        base: InstRef,
        field: Sym,
        value: InstRef,
        span: Span,
    ) -> (r: Result<AnalysisResult, CompileError>)
        requires
            can_analyze(old(self), inst_ref),
            base < inst_ref,
            value < inst_ref,
            interned(old(self).interner).contains_key(field),
            scope_names_interned(old(self), old(ctx)),
        ensures
            air_grows(*old(air), *final(air)),
            sema_kept(old(self), final(self)),
            final(self).wf(),
            r is Ok ==> ctx_kept(old(ctx), final(ctx)),
            r matches Ok(a) ==> result_in(*final(air), a),
            r matches Ok(a) ==> a.ty == Type::Unit,
            r is Ok ==> scope_names_interned(final(self), final(ctx)),
        decreases inst_ref, 1nat,
    {
        if !variables_in_pool(&self.type_pool, ctx) {
            return Err(unknown_type(span));
        }
        let target = match self.field_set_target(ctx, base, field, span) {
            Ok(t) => t,
            Err(e) => {
                return Err(e);
            },
        };
        let n = target.steps.len();
        if n == 0 {
            return Err(unknown_type(span));
        }
        let mut offset: u32 = 0;
        let mut i: usize = 0;
        while i < n
            invariant
                n == target.steps@.len(),
                i <= n,
                *self == *old(self),
                *air == *old(air),
                *ctx == *old(ctx),
                self.wf(),
            decreases n - i,
        {
            let (sid, fi) = target.steps[i];
            if sid as usize >= self.type_pool.structs.len() || fi as usize >= self.type_pool.structs[sid as usize].fields.len() {
                return Err(unknown_type(span));
            }
            if i + 1 < n {
                let o = match self.field_slot_offset(sid, fi) {
                    Some(o) => o,
                    None => {
                        return Err(
                            CompileError::new(
                                ErrorKind::InternalError("no ABI slot count for a field".to_string()),
                                span,
                            ),
                        );
                    },
                };
                if offset > u32::MAX - o {
                    return Err(too_large(span));
                }
                offset = offset + o;
            }
            i = i + 1;
        }
        let (struct_id, field_index) = target.steps[n - 1];
        match target.root {
            AssignTarget::Local { slot } => {
                if slot > u32::MAX - offset {
                    return Err(too_large(span));
                }
            },
            AssignTarget::Param { .. } => {},
        }
        let v = match self.analyze_inst(air, value, ctx) {
            Ok(x) => x,
            Err(e) => {
                return Err(e);
            },
        };
        if !has_room(air, ctx) {
            return Err(too_large(span));
        }
        Ok(emit_field_set(air, target.root, offset, struct_id, field_index, v, span))
    }

    /// An element store `base[index] = value`: where it stores is checked
    /// first, then the index (a constant one against the array's length),
    /// then the value.
    fn index_set(
        &mut self,
        air: &mut Air,
        ctx: &mut AnalysisContext,
        inst_ref: InstRef,
        base: InstRef,
        index: InstRef,
        value: InstRef,
        span: Span,
    ) -> (r: Result<AnalysisResult, CompileError>)
        requires
            can_analyze(old(self), inst_ref),
            base < inst_ref,
            index < inst_ref,
            value < inst_ref,
            scope_names_interned(old(self), old(ctx)),
        ensures
            air_grows(*old(air), *final(air)),
            sema_kept(old(self), final(self)),
            final(self).wf(),
            r is Ok ==> ctx_kept(old(ctx), final(ctx)),
            r matches Ok(a) ==> result_in(*final(air), a),
            r matches Ok(a) ==> a.ty == Type::Unit,
            r is Ok ==> scope_names_interned(final(self), final(ctx)),
        decreases inst_ref, 1nat,
    {
        if !variables_in_pool(&self.type_pool, ctx) {
            return Err(unknown_type(span));
        }
        let (target, array_type, length) = match self.index_set_target(ctx, base, span) {
            Ok(t) => t,
            Err(e) => {
                return Err(e);
            },
        };
        let i = match self.analyze_inst(air, index, ctx) {
            Ok(x) => x,
            Err(e) => {
                return Err(e);
            },
        };
        match self.check_const_index(index, length) {
            Ok(()) => {},
            Err(e) => {
                return Err(e);
            },
        }
        let v = match self.analyze_inst(air, value, ctx) {
            Ok(x) => x,
            Err(e) => {
                return Err(e);
            },
        };
        if !has_room(air, ctx) {
            return Err(too_large(span));
        }
        Ok(emit_index_set(air, target, array_type, i.air_ref, v.air_ref, span))
    }

    /// An array literal: its type (from type inference) must be an array
    /// of as many elements; then the elements, in order.
    fn array_init(
        &mut self,
        air: &mut Air,
        ctx: &mut AnalysisContext,
        inst_ref: InstRef,
        elems_start: u32,
        elems_len: u32,
        span: Span,
    ) -> (r: Result<AnalysisResult, CompileError>)
        requires
            can_analyze(old(self), inst_ref),
            old(self).rir.instructions@[inst_ref as int].data == (InstData::ArrayInit { elems_start, elems_len }),
            scope_names_interned(old(self), old(ctx)),
        ensures
            air_grows(*old(air), *final(air)),
            sema_kept(old(self), final(self)),
            final(self).wf(),
            r is Ok ==> ctx_kept(old(ctx), final(ctx)),
            r matches Ok(a) ==> result_in(*final(air), a),
            r is Ok ==> scope_names_interned(final(self), final(ctx)),
        decreases inst_ref, 1nat,
    {
        proof {
            let (st, ln) = crate::rir::extra_range(self.rir.instructions@[inst_ref as int].data);
            assert(st == elems_start && ln == elems_len);
        }
        let t = match Self::get_resolved_type(ctx, inst_ref, span, "array literal") {
            Ok(t) => t,
            Err(e) => {
                return Err(e);
            },
        };
        if !type_in_pool(&self.type_pool, t) {
            return Err(unknown_type(span));
        }
        match self.check_array_init(t, elems_len as usize, span) {
            Ok(()) => {},
            Err(e) => {
                return Err(e);
            },
        }
        let mut elems: Vec<AirRef> = Vec::new();
        let mut i: u32 = 0;
        while i < elems_len
            invariant
                can_analyze(self, inst_ref),
                sema_kept(old(self), self),
                self.wf(),
                self.rir.instructions@[inst_ref as int].data == (InstData::ArrayInit { elems_start, elems_len }),
                elems_start + elems_len <= self.rir.extra@.len(),
                forall|k: int| elems_start <= k < elems_start + elems_len ==> #[trigger] self.rir.extra@[k] < inst_ref,
                i <= elems_len,
                elems@.len() == i,
                air_grows(*old(air), *air),
                ctx_kept(old(ctx), ctx),
                scope_names_interned(self, ctx),
            decreases elems_len - i,
        {
            let k = match elems_start.checked_add(i) {
                Some(k) => k,
                None => {
                    return Err(too_large(span));
                },
            };
            let e = self.rir.extra_at(k);
            let v = match self.analyze_inst(air, e, ctx) {
                Ok(v) => v,
                Err(e) => {
                    return Err(e);
                },
            };
            elems.push(v.air_ref);
            i = i + 1;
        }
        if !has_room(air, ctx) || air.extra.len() >= 0xFFFF_FFFF - elems.len() {
            return Err(too_large(span));
        }
        Ok(emit_array_init(air, t, &elems, span))
    }

    /// A struct literal: the field names are checked, the values are
    /// analyzed in source order, and the literal lays them out in
    /// declaration order.
    #[verifier::rlimit(40)]
    fn struct_init(
        &mut self,
        air: &mut Air,
        ctx: &mut AnalysisContext,
        inst_ref: InstRef,
        name: Sym,
        fields_start: u32,
        fields_len: u32,
        span: Span,
    ) -> (r: Result<AnalysisResult, CompileError>)
        requires
            can_analyze(old(self), inst_ref),
            old(self).rir.instructions@[inst_ref as int].data == (InstData::StructInit { name, fields_start, fields_len }),
            scope_names_interned(old(self), old(ctx)),
        ensures
            air_grows(*old(air), *final(air)),
            sema_kept(old(self), final(self)),
            final(self).wf(),
            r is Ok ==> ctx_kept(old(ctx), final(ctx)),
            r matches Ok(a) ==> result_in(*final(air), a),
            r matches Ok(a) ==> old(self).structs@.contains_key(name) && a.ty == Type::Struct(old(self).structs@[name]),
            r is Ok ==> scope_names_interned(final(self), final(ctx)),
        decreases inst_ref, 1nat,
    {
        proof {
            assert(crate::imports::inst_symbol(self.rir.instructions@[inst_ref as int].data) == Some(name));
        }
        if fields_start as usize > self.rir.field_inits.len() || fields_len as usize > self.rir.field_inits.len()
            - fields_start as usize {
            return Err(bad_operands(span));
        }
        let end: usize = fields_start as usize + fields_len as usize;
        let mut names: Vec<Sym> = Vec::new();
        let mut inits: Vec<InstRef> = Vec::new();
        let mut idx: usize = fields_start as usize;
        while idx < end
            invariant
                *self == *old(self),
                *air == *old(air),
                *ctx == *old(ctx),
                self.wf(),
                fields_start <= idx <= end,
                end <= self.rir.field_inits@.len(),
                names@.len() == idx - fields_start,
                inits@.len() == names@.len(),
                forall|j: int| 0 <= j < inits@.len() ==> #[trigger] inits@[j] < inst_ref,
                forall|j: int| 0 <= j < names@.len() ==> interned(self.interner).contains_key(#[trigger] names@[j]),
            decreases end - idx,
        {
            let (f, v) = self.rir.field_inits[idx];
            if v >= inst_ref {
                return Err(bad_operands(span));
            }
            match try_resolve(&self.interner, f) {
                Some(_) => {},
                None => {
                    return Err(bad_operands(span));
                },
            }
            names.push(f);
            inits.push(v);
            idx = idx + 1;
        }
        proof {
            if self.structs@.contains_key(name) {
                let id = self.structs@[name];
                assert(id < self.type_pool.structs@.len());
                assert(fields_distinct(self.type_pool.structs@[id as int]));
            }
        }
        let (id, order) = match self.check_struct_init(name, names.as_slice(), span) {
            Ok(x) => x,
            Err(e) => {
                return Err(e);
            },
        };
        proof {
            let def = self.type_pool.structs@[id as int];
            let texts = init_texts(interned(self.interner), names@);
            assert forall|k: int| 0 <= k < order@.len() implies #[trigger] order@[k] < order@.len() by {
                crate::fields::lemma_field_index_of(def.fields@, texts[k]);
            }
        }
        let ghost c1 = *ctx;
        let mut values: Vec<AirRef> = Vec::new();
        let mut k: usize = 0;
        while k < inits.len()
            invariant
                can_analyze(self, inst_ref),
                sema_kept(old(self), self),
                self.wf(),
                forall|j: int| 0 <= j < inits@.len() ==> #[trigger] inits@[j] < inst_ref,
                k <= inits@.len(),
                values@.len() == k,
                air_grows(*old(air), *air),
                ctx_kept(old(ctx), &c1),
                ctx_kept(&c1, ctx),
                scope_names_interned(self, ctx),
            decreases inits@.len() - k,
        {
            let v = match self.analyze_inst(air, inits[k], ctx) {
                Ok(v) => v,
                Err(e) => {
                    return Err(e);
                },
            };
            values.push(v.air_ref);
            k = k + 1;
        }
        if !has_room(air, ctx) || values.len() >= 0x7FFF_FFF0 || air.extra.len() >= 0xFFFF_FFFF - 2 * values.len() {
            return Err(too_large(span));
        }
        Ok(emit_struct_init(air, id, &order, &values, span))
    }

    /// A block: its instructions in a scope of their own, then the block.
    fn block(
        &mut self,
        air: &mut Air,
        ctx: &mut AnalysisContext,
        inst_ref: InstRef,
        extra_start: u32,
        len: u32,
        span: Span,
    ) -> (r: Result<AnalysisResult, CompileError>)
        requires
            can_analyze(old(self), inst_ref),
            old(self).rir.instructions@[inst_ref as int].data == (InstData::Block { extra_start, len }),
            scope_names_interned(old(self), old(ctx)),
        ensures
            air_grows(*old(air), *final(air)),
            sema_kept(old(self), final(self)),
            final(self).wf(),
            r is Ok ==> ctx_kept(old(ctx), final(ctx)),
            r matches Ok(a) ==> result_in(*final(air), a),
            r is Ok ==> scope_names_interned(final(self), final(ctx)),
        decreases inst_ref, 1nat,
    {
        proof {
            let (st, ln) = crate::rir::extra_range(self.rir.instructions@[inst_ref as int].data);
            assert(st == extra_start && ln == len);
        }
        ctx.push_scope();
        let ghost pushed = *ctx;
        proof {
            lemma_frames(ctx.scope_stack@);
            lemma_frames(old(ctx).scope_stack@);
            let n = ctx.scope_stack@.len();
            assert(frames(ctx.scope_stack@)[n - 1] == Seq::<ScopeEntry>::empty());
        }
        let ghost air0 = *air;
        let mut statements: Vec<AirRef> = Vec::new();
        let mut last: Option<AnalysisResult> = None;
        let mut i: u32 = 0;
        while i < len
            invariant
                can_analyze(self, inst_ref),
                sema_kept(old(self), self),
                self.wf(),
                self.rir.instructions@[inst_ref as int].data == (InstData::Block { extra_start, len }),
                extra_start + len <= self.rir.extra@.len(),
                forall|k: int| extra_start <= k < extra_start + len ==> #[trigger] self.rir.extra@[k] < inst_ref,
                i <= len,
                statements@.len() <= i,
                air_grows(air0, *air),
                air_grows(*old(air), air0),
                ctx_kept(&pushed, ctx),
                ctx.loop_depth == old(ctx).loop_depth,
                frames(pushed.scope_stack@) == frames(old(ctx).scope_stack@).push(Seq::empty()),
                ctx.scope_stack@.len() > 0,
                scope_names_interned(self, ctx),
                last matches Some(x) ==> result_in(*air, x),
            decreases len - i,
        {
            let k = match extra_start.checked_add(i) {
                Some(k) => k,
                None => {
                    return Err(too_large(span));
                },
            };
            let s = self.rir.extra_at(k);
            let res = match self.analyze_inst(air, s, ctx) {
                Ok(x) => x,
                Err(e) => {
                    return Err(e);
                },
            };
            if i + 1 == len {
                last = Some(res);
            } else {
                statements.push(res.air_ref);
            }
            i = i + 1;
        }
        if !has_room(air, ctx) || statements.len() >= 0xFFFF_FFF0 - air.extra.len() {
            return Err(too_large(span));
        }
        let ghost before_finish = *ctx;
        let r = self.finish_block(air, ctx, &statements, last, span);
        proof {
            if r is Ok {
                lemma_frames(before_finish.scope_stack@);
                lemma_frames(pushed.scope_stack@);
                lemma_frames(old(ctx).scope_stack@);
                assert(frames(pushed.scope_stack@).drop_last() =~= frames(old(ctx).scope_stack@));
                assert(frames(ctx.scope_stack@) =~= frames(old(ctx).scope_stack@));
                lemma_scope_names_kept(old(self), old(ctx), self, ctx);
            }
        }
        r
    }

    /// Analyze the operand of a projection (a field or element read, or a
    /// comparison): a variable is read without being moved, and a field or
    /// element of a projection is itself projected; anything else is
    /// analyzed as usual.
    #[verifier::rlimit(100)]
    pub fn analyze_inst_for_projection(&mut self, air: &mut Air, inst_ref: InstRef, ctx: &mut AnalysisContext) -> (r:
        Result<AnalysisResult, CompileError>)
        requires
            can_analyze(old(self), inst_ref),
            scope_names_interned(old(self), old(ctx)),
        ensures
            air_grows(*old(air), *final(air)),
            sema_kept(old(self), final(self)),
            final(self).wf(),
            r is Ok ==> ctx_kept(old(ctx), final(ctx)),
            r matches Ok(a) ==> result_in(*final(air), a),
            r is Ok ==> scope_names_interned(final(self), final(ctx)),
        decreases inst_ref, 3nat,
    {
        let inst = *self.rir.get(inst_ref);
        let span = inst.span;
        if !has_room(air, ctx) {
            return Err(too_large(span));
        }
        let ghost ops = crate::rir::operands(inst.data);
        proof {
            assert(forall|j: int| 0 <= j < ops.len() ==> #[trigger] ops[j] < inst_ref);
        }
        match inst.data {
            InstData::VarRef { name } => {
                assert(crate::imports::inst_symbol(self.rir.instructions@[inst_ref as int].data) == Some(name));
                self.project_var(air, ctx, name, span)
            },
            InstData::FieldGet { base, field } => {
                assert(ops[0] == base);
                assert(crate::imports::inst_symbol(self.rir.instructions@[inst_ref as int].data) == Some(field));
                let b = match self.analyze_inst_for_projection(air, base, ctx) {
                    Ok(x) => x,
                    Err(e) => {
                        return Err(e);
                    },
                };
                if !has_room(air, ctx) {
                    return Err(too_large(span));
                }
                if !type_in_pool(&self.type_pool, b.ty) {
                    return Err(unknown_type(span));
                }
                self.project_field(air, b, field, span)
            },
            InstData::IndexGet { base, index } => {
                assert(ops[0] == base && ops[1] == index);
                let b = match self.analyze_inst_for_projection(air, base, ctx) {
                    Ok(x) => x,
                    Err(e) => {
                        return Err(e);
                    },
                };
                match b.ty {
                    Type::Array(_) => {},
                    _ => {
                        return Err(CompileError::new(ErrorKind::IndexOnNonArray { found: b.ty.name() }, span));
                    },
                }
                let i = match self.analyze_inst(air, index, ctx) {
                    Ok(x) => x,
                    Err(e) => {
                        return Err(e);
                    },
                };
                if !has_room(air, ctx) {
                    return Err(too_large(span));
                }
                if !type_in_pool(&self.type_pool, b.ty) {
                    return Err(unknown_type(span));
                }
                self.project_index(air, b, index, i, span)
            },
            _ => self.analyze_inst(air, inst_ref, ctx),
        }
    }

    /// An arithmetic or bitwise operator: both operands, then the operator.
    fn arith(
        &mut self,
        air: &mut Air,
        ctx: &mut AnalysisContext,
        inst_ref: InstRef,
        op: ArithOp,
        lhs: InstRef,
        rhs: InstRef,
        span: Span,
    ) -> (r: Result<AnalysisResult, CompileError>)
        requires
            can_analyze(old(self), inst_ref),
            lhs < inst_ref,
            rhs < inst_ref,
            scope_names_interned(old(self), old(ctx)),
        ensures
            air_grows(*old(air), *final(air)),
            sema_kept(old(self), final(self)),
            final(self).wf(),
            r is Ok ==> ctx_kept(old(ctx), final(ctx)),
            r matches Ok(a) ==> result_in(*final(air), a),
            r matches Ok(a) ==> (arith_performed(final(air).instructions@[a.air_ref as int].data) matches Some(
                (o, _, _),
            ) && o == op),
            r is Ok ==> scope_names_interned(final(self), final(ctx)),
        decreases inst_ref, 1nat,
    {
        let l = match self.analyze_inst(air, lhs, ctx) {
            Ok(x) => x,
            Err(e) => {
                return Err(e);
            },
        };
        let r = match self.analyze_inst(air, rhs, ctx) {
            Ok(x) => x,
            Err(e) => {
                return Err(e);
            },
        };
        if !has_room(air, ctx) {
            return Err(too_large(span));
        }
        Self::analyze_binary_arith(air, op, l, r, span)
    }

    /// A comparison: no chained comparison; both operands read as
    /// projections, then the comparison.
    fn compare(
        &mut self,
        air: &mut Air,
        ctx: &mut AnalysisContext,
        inst_ref: InstRef,
        op: CompareOp,
        lhs: InstRef,
        rhs: InstRef,
        span: Span,
    ) -> (r: Result<AnalysisResult, CompileError>)
        requires
            can_analyze(old(self), inst_ref),
            lhs < inst_ref,
            rhs < inst_ref,
            scope_names_interned(old(self), old(ctx)),
        ensures
            air_grows(*old(air), *final(air)),
            sema_kept(old(self), final(self)),
            final(self).wf(),
            r is Ok ==> ctx_kept(old(ctx), final(ctx)),
            r matches Ok(a) ==> result_in(*final(air), a),
            r matches Ok(a) ==> (comparison_performed(final(air).instructions@[a.air_ref as int].data) matches Some(
                (o, _, _),
            ) && o == op),
            r matches Ok(a) ==> a.ty == Type::Bool,
            r is Ok ==> scope_names_interned(final(self), final(ctx)),
        decreases inst_ref, 1nat,
    {
        match self.check_chained_comparison(lhs, span) {
            Ok(()) => {},
            Err(e) => {
                return Err(e);
            },
        }
        let l = match self.analyze_inst_for_projection(air, lhs, ctx) {
            Ok(x) => x,
            Err(e) => {
                return Err(e);
            },
        };
        let r = match self.analyze_inst_for_projection(air, rhs, ctx) {
            Ok(x) => x,
            Err(e) => {
                return Err(e);
            },
        };
        if !has_room(air, ctx) {
            return Err(too_large(span));
        }
        self.analyze_comparison(air, op, lhs, l, r, span)
    }

    /// A logical operator: both operands, then the operator.
    fn logic(
        &mut self,
        air: &mut Air,
        ctx: &mut AnalysisContext,
        inst_ref: InstRef,
        op: LogicOp,
        lhs: InstRef,
        rhs: InstRef,
        span: Span,
    ) -> (r: Result<AnalysisResult, CompileError>)
        requires
            can_analyze(old(self), inst_ref),
            lhs < inst_ref,
            rhs < inst_ref,
            scope_names_interned(old(self), old(ctx)),
        ensures
            air_grows(*old(air), *final(air)),
            sema_kept(old(self), final(self)),
            final(self).wf(),
            r is Ok ==> ctx_kept(old(ctx), final(ctx)),
            r matches Ok(a) ==> result_in(*final(air), a),
            r matches Ok(a) ==> (logic_performed(final(air).instructions@[a.air_ref as int].data) matches Some(
                (o, _, _),
            ) && o == op),
            r matches Ok(a) ==> a.ty == Type::Bool,
            r is Ok ==> scope_names_interned(final(self), final(ctx)),
        decreases inst_ref, 1nat,
    {
        let l = match self.analyze_inst(air, lhs, ctx) {
            Ok(x) => x,
            Err(e) => {
                return Err(e);
            },
        };
        let r = match self.analyze_inst(air, rhs, ctx) {
            Ok(x) => x,
            Err(e) => {
                return Err(e);
            },
        };
        if !has_room(air, ctx) {
            return Err(too_large(span));
        }
        Ok(Self::analyze_logical_op(air, op, l, r, span))
    }

    /// Instruction `sub` of `inst_ref` analyzed in a scope of its own (and,
    /// for a loop body, one loop deeper).
    fn scoped(
        &mut self,
        air: &mut Air,
        ctx: &mut AnalysisContext,
        inst_ref: InstRef,
        sub: InstRef,
        in_loop: bool,
        span: Span,
    ) -> (r: Result<AnalysisResult, CompileError>)
        requires
            can_analyze(old(self), inst_ref),
            sub < inst_ref,
            scope_names_interned(old(self), old(ctx)),
        ensures
            air_grows(*old(air), *final(air)),
            sema_kept(old(self), final(self)),
            final(self).wf(),
            r is Ok ==> ctx_kept(old(ctx), final(ctx)),
            r matches Ok(a) ==> result_in(*final(air), a),
            r is Ok ==> scope_names_interned(final(self), final(ctx)),
        decreases inst_ref, 0nat,
    {
        if in_loop && ctx.loop_depth == 0xFFFF_FFFF {
            return Err(too_large(span));
        }
        if in_loop {
            Self::enter_loop_body(ctx);
        } else {
            ctx.push_scope();
        }
        let ghost pushed = *ctx;
        proof {
            lemma_frames(ctx.scope_stack@);
            lemma_frames(old(ctx).scope_stack@);
            let n = ctx.scope_stack@.len();
            assert(frames(ctx.scope_stack@)[n - 1] == Seq::<ScopeEntry>::empty());
        }
        let res = match self.analyze_inst(air, sub, ctx) {
            Ok(x) => x,
            Err(e) => {
                return Err(e);
            },
        };
        let ghost before_pop = *ctx;
        if in_loop {
            Self::leave_loop_body(ctx);
        } else {
            ctx.pop_scope();
        }
        proof {
            lemma_frames(before_pop.scope_stack@);
            lemma_frames(ctx.scope_stack@);
            lemma_frames(pushed.scope_stack@);
            assert(frames(pushed.scope_stack@).drop_last() =~= frames(old(ctx).scope_stack@));
            assert(frames(ctx.scope_stack@) =~= frames(old(ctx).scope_stack@));
            lemma_scope_names_kept(old(self), old(ctx), self, ctx);
        }
        Ok(res)
    }

    /// An `if`: the condition, then each branch in a scope of its own from
    /// the same move state; afterwards a variable is moved if it was moved
    /// in a branch that completes. With an `else`, the type is the branches'
    /// (a diverging branch takes the other's); without, the branch must have
    /// unit type.
    #[verifier::rlimit(100)]
    fn branch(
        &mut self,
        air: &mut Air,
        ctx: &mut AnalysisContext,
        inst_ref: InstRef,
        cond: InstRef,
        then_block: InstRef,
        else_block: Option<InstRef>,
        span: Span,
    ) -> (r: Result<AnalysisResult, CompileError>)
        requires
            can_analyze(old(self), inst_ref),
            cond < inst_ref,
            then_block < inst_ref,
            else_block matches Some(e) ==> e < inst_ref,
            scope_names_interned(old(self), old(ctx)),
        ensures
            air_grows(*old(air), *final(air)),
            sema_kept(old(self), final(self)),
            final(self).wf(),
            r is Ok ==> ctx_kept(old(ctx), final(ctx)),
            r matches Ok(a) ==> result_in(*final(air), a),
            r is Ok ==> scope_names_interned(final(self), final(ctx)),
        decreases inst_ref, 1nat,
    {
        let c = match self.analyze_inst(air, cond, ctx) {
            Ok(x) => x,
            Err(e) => {
                return Err(e);
            },
        };
        let saved_moves = copy_moves(&ctx.moved_vars);
        let t = match self.scoped(air, ctx, inst_ref, then_block, false, span) {
            Ok(x) => x,
            Err(e) => {
                return Err(e);
            },
        };
        let then_span = self.rir.get(then_block).span;
        match else_block {
            Some(else_b) => {
                let then_moves = copy_moves(&ctx.moved_vars);
                ctx.moved_vars = saved_moves;
                let e = match self.scoped(air, ctx, inst_ref, else_b, false, span) {
                    Ok(x) => x,
                    Err(e) => {
                        return Err(e);
                    },
                };
                let else_span = self.rir.get(else_b).span;
                let else_moves = copy_moves(&ctx.moved_vars);
                ctx.merge_branch_moves(then_moves, else_moves, t.ty.is_never(), e.ty.is_never());
                let ty = match Self::branch_result_type(t.ty, e.ty, then_span, else_span) {
                    Ok(ty) => ty,
                    Err(err) => {
                        return Err(err);
                    },
                };
                if !has_room(air, ctx) {
                    return Err(too_large(span));
                }
                Ok(Self::emit_branch(air, c, t, Some(e), ty, span))
            },
            None => {
                match Self::check_if_without_else(t.ty, then_span) {
                    Ok(()) => {},
                    Err(err) => {
                        return Err(err);
                    },
                }
                let then_moves = copy_moves(&ctx.moved_vars);
                Self::merge_if_without_else_moves(ctx, then_moves, saved_moves, t.ty.is_never());
                if !has_room(air, ctx) {
                    return Err(too_large(span));
                }
                Ok(Self::emit_branch(air, c, t, None, Type::Unit, span))
            },
        }
    }

    /// Argument `j` of an intrinsic call, analyzed.
    fn intrinsic_arg(
        &mut self,
        air: &mut Air,
        ctx: &mut AnalysisContext,
        inst_ref: InstRef,
        args_start: u32,
        args_len: u32,
        j: u32,
        span: Span,
    ) -> (r: Result<AnalysisResult, CompileError>)
        requires
            can_analyze(old(self), inst_ref),
            old(self).rir.instructions@[inst_ref as int].data matches InstData::Intrinsic { args_start: a, args_len: n, .. }
                && a == args_start && n == args_len,
            j < args_len,
            scope_names_interned(old(self), old(ctx)),
        ensures
            air_grows(*old(air), *final(air)),
            sema_kept(old(self), final(self)),
            final(self).wf(),
            r is Ok ==> ctx_kept(old(ctx), final(ctx)),
            r matches Ok(a) ==> result_in(*final(air), a),
            r is Ok ==> scope_names_interned(final(self), final(ctx)),
        decreases inst_ref, 0nat,
    {
        proof {
            let (st, ln) = crate::rir::extra_range(self.rir.instructions@[inst_ref as int].data);
            assert(st == args_start && ln == args_len);
            assert(self.rir.extra@[args_start + j] < inst_ref);
        }
        let k = match args_start.checked_add(j) {
            Some(k) => k,
            None => {
                return Err(too_large(span));
            },
        };
        let s = self.rir.extra_at(k);
        self.analyze_inst(air, s, ctx)
    }

    /// An intrinsic call `@name(args)`: the intrinsic must be known and
    /// given as many arguments as it takes (`@test_preview_gate` checks its
    /// preview feature first); then its arguments are analyzed and the call
    /// finished with the intrinsic's rule.
    #[verifier::rlimit(100)]
    fn intrinsic(
        &mut self,
        air: &mut Air,
        ctx: &mut AnalysisContext,
        inst_ref: InstRef,
        name: crate::types::Sym,
        args_start: u32,
        args_len: u32,
        span: Span,
    ) -> (r: Result<AnalysisResult, CompileError>)
        requires
            can_analyze(old(self), inst_ref),
            old(self).rir.instructions@[inst_ref as int].data == (InstData::Intrinsic { name, args_start, args_len }),
            scope_names_interned(old(self), old(ctx)),
        ensures
            air_grows(*old(air), *final(air)),
            sema_kept(old(self), final(self)),
            final(self).wf(),
            r is Ok ==> ctx_kept(old(ctx), final(ctx)),
            r matches Ok(a) ==> result_in(*final(air), a),
            r is Ok ==> scope_names_interned(final(self), final(ctx)),
        decreases inst_ref, 1nat,
    {
        proof {
            assert(crate::imports::inst_symbol(self.rir.instructions@[inst_ref as int].data) == Some(name));
        }
        if !has_room(air, ctx) {
            return Err(too_large(span));
        }
        let kind = match self.classify_intrinsic(name, span) {
            Ok(k) => k,
            Err(e) => {
                return Err(e);
            },
        };
        let count = args_len as usize;
        if let IntrinsicKind::TestPreviewGate = kind {
            return self.analyze_test_preview_gate(air, count, span);
        }
        match check_intrinsic_arity(kind, count, span) {
            Ok(()) => {},
            Err(e) => {
                return Err(e);
            },
        }
        match kind {
            IntrinsicKind::ReadLine => {
                return Ok(self.emit_read_line(air, name, span));
            },
            IntrinsicKind::RandomU32 => {
                return Ok(emit_random(air, name, false, span));
            },
            IntrinsicKind::RandomU64 => {
                return Ok(emit_random(air, name, true, span));
            },
            IntrinsicKind::TargetArch => {
                return match (self.host, self.builtin_arch_id) {
                    (Some((arch, _)), Some(_)) => Ok(self.emit_target_arch(air, arch, span)),
                    _ => Err(unknown_target(span)),
                };
            },
            IntrinsicKind::TargetOs => {
                return match (self.host, self.builtin_os_id) {
                    (Some((_, os)), Some(_)) => Ok(self.emit_target_os(air, os, span)),
                    _ => Err(unknown_target(span)),
                };
            },
            IntrinsicKind::Panic => {
                if count == 0 {
                    return Ok(emit_panic(air, name, None, span));
                }
            },
            IntrinsicKind::Import => {
                if self.module_registry.modules.len() >= 0xFFFF_FFFE {
                    return Err(too_large(span));
                }
                proof {
                    let (st, ln) = crate::rir::extra_range(self.rir.instructions@[inst_ref as int].data);
                    assert(st == args_start && ln == args_len);
                    assert(self.rir.extra@[args_start as int] < inst_ref);
                }
                let t = match self.evaluate_import_intrinsic(args_start, args_len, span) {
                    Ok(t) => t,
                    Err(e) => {
                        return Err(e);
                    },
                };
                // There is no module instruction: a unit constant of the module's type stands for it.
                let air_ref = air.add_inst(AirInst { data: AirInstData::UnitConst, ty: t, span });
                return Ok(AnalysisResult::new(air_ref, t));
            },
            IntrinsicKind::Syscall => {
                let mut args: Vec<AnalysisResult> = Vec::new();
                let ghost air0 = *air;
                let mut j: u32 = 0;
                while j < args_len
                    invariant
                        can_analyze(self, inst_ref),
                        sema_kept(old(self), self),
                        self.wf(),
                        self.rir.instructions@[inst_ref as int].data == (InstData::Intrinsic { name, args_start, args_len }),
                        1 <= args_len <= 7,
                        j <= args_len,
                        args@.len() == j,
                        air_grows(*old(air), *air),
                        ctx_kept(old(ctx), ctx),
                        scope_names_interned(self, ctx),
                    decreases args_len - j,
                {
                    let a = match self.intrinsic_arg(air, ctx, inst_ref, args_start, args_len, j, span) {
                        Ok(a) => a,
                        Err(e) => {
                            return Err(e);
                        },
                    };
                    args.push(a);
                    j = j + 1;
                }
                if !has_room(air, ctx) {
                    return Err(too_large(span));
                }
                return finish_syscall(air, name, args.as_slice(), span);
            },
            _ => {},
        }
        // The intrinsics left take one or two arguments.
        let first = match self.intrinsic_arg(air, ctx, inst_ref, args_start, args_len, 0, span) {
            Ok(a) => a,
            Err(e) => {
                return Err(e);
            },
        };
        let second = if args_len == 2 {
            match self.intrinsic_arg(air, ctx, inst_ref, args_start, args_len, 1, span) {
                Ok(a) => Some(a),
                Err(e) => {
                    return Err(e);
                },
            }
        } else {
            None
        };
        if !has_room(air, ctx) {
            return Err(too_large(span));
        }
        match kind {
            IntrinsicKind::Dbg => finish_dbg(air, name, first, span),
            IntrinsicKind::IntCast => finish_int_cast(air, ctx, inst_ref, first, span),
            IntrinsicKind::Parse(t) => self.finish_parse(air, name, t, first, span),
            IntrinsicKind::Cast => {
                let target = match Self::get_resolved_type(ctx, inst_ref, span, "@cast intrinsic") {
                    Ok(t) => t,
                    Err(e) => {
                        return Err(e);
                    },
                };
                finish_cast(air, target, first, span)
            },
            IntrinsicKind::Panic => Ok(emit_panic(air, name, Some(first), span)),
            IntrinsicKind::Assert => Ok(emit_assert(air, name, first, span)),
            IntrinsicKind::PtrRead => {
                if !ptr_in_pool(&self.type_pool, first.ty) {
                    return Err(unknown_type(span));
                }
                finish_ptr_read(air, &self.type_pool, name, first, span)
            },
            IntrinsicKind::PtrWrite => {
                let value = match second {
                    Some(v) => v,
                    None => {
                        return Err(too_large(span));
                    },
                };
                if !ptr_in_pool(&self.type_pool, first.ty) {
                    return Err(unknown_type(span));
                }
                finish_ptr_write(air, &self.type_pool, name, first, value, span)
            },
            IntrinsicKind::PtrOffset => {
                let offset = match second {
                    Some(v) => v,
                    None => {
                        return Err(too_large(span));
                    },
                };
                finish_ptr_offset(air, name, first, offset, span)
            },
            IntrinsicKind::PtrToInt => finish_ptr_to_int(air, name, first, span),
            IntrinsicKind::IntToPtr => {
                match Self::get_resolved_type(ctx, inst_ref, span, "@int_to_ptr intrinsic") {
                    Ok(t) => finish_int_to_ptr(air, name, first, t, span),
                    Err(e) => {
                        // A wrong address type is reported before a missing result type.
                        if first.ty != Type::U64 && !first.ty.is_error() && !first.ty.is_never() {
                            finish_int_to_ptr(air, name, first, Type::Error, span)
                        } else {
                            Err(e)
                        }
                    },
                }
            },
            IntrinsicKind::Raw | IntrinsicKind::RawMut => {
                let is_mut = match kind {
                    IntrinsicKind::RawMut => true,
                    _ => false,
                };
                if self.type_pool.ptr_consts.len() >= 0xFFFF_FFFE || self.type_pool.ptr_muts.len() >= 0xFFFF_FFFE {
                    return Err(too_large(span));
                }
                Ok(finish_raw(air, &mut self.type_pool, name, is_mut, first, span))
            },
            _ => Err(CompileError::new(ErrorKind::InternalError("intrinsic without a rule".to_string()), span)),
        }
    }
}

/// The type a type name denotes: `type` (the type of types), else a
/// primitive type, a struct or an enum.
pub open spec fn type_name_meaning(s: &Sema, name: Sym) -> Option<Type> {
    if interned(s.interner)[name] == "type"@ {
        Some(Type::ComptimeType)
    } else {
        named_type(s.type_env(), name)
    }
}

impl<'a> Sema<'a> {
    /// Resolve a type name used as a value; an unknown name is an error.
    pub fn resolve_type_name(&self, name: Sym, span: Span) -> (r: Result<Type, CompileError>)
        requires
            interned(self.interner).contains_key(name),
        ensures
            match type_name_meaning(self, name) {
                Some(t) => r == Ok::<Type, CompileError>(t),
                None => r matches Err(e) && e.span == span && (e.kind matches ErrorKind::UnknownType(n) && n@
                    == interned(self.interner)[name]),
            },
    {
        let text = self.resolve(name);
        if str_eq(text, "type") {
            proof {
                reveal_strlit("type");
            }
            return Ok(Type::ComptimeType);
        }
        proof {
            reveal_strlit("type");
        }
        let no_types: HashMap<Sym, Type> = HashMap::new();
        let no_values: HashMap<Sym, ConstValue> = HashMap::new();
        let names = TypeNames {
            interner: &self.interner,
            structs: &self.structs,
            enums: &self.enums,
            type_subst: &no_types,
            value_subst: &no_values,
        };
        proof {
            assert(names.env().type_subst =~= Map::<Sym, Type>::empty());
            assert(names.env().value_subst =~= Map::<Sym, ConstValue>::empty());
            assert(names.env() == self.type_env());
        }
        match names.named_type(name) {
            Some(t) => Ok(t),
            None => Err(CompileError::new(ErrorKind::UnknownType(text.to_string()), span)),
        }
    }
}

/// The error for `@target_arch` or `@target_os` before the target is known.
fn unknown_target(span: Span) -> (e: CompileError)
    ensures
        e.span == span,
        e.kind is InternalError,
{
    CompileError::new(ErrorKind::InternalError("target not set for this compilation".to_string()), span)
}

/// A pointer type is in the pool.
fn ptr_in_pool(pool: &TypePool, t: Type) -> (r: bool)
    ensures
        r ==> ptr_known(pool, t),
{
    match t {
        Type::PtrConst(id) => (id as usize) < pool.ptr_consts.len(),
        Type::PtrMut(id) => (id as usize) < pool.ptr_muts.len(),
        _ => true,
    }
}

} // verus!
