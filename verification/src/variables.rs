//! References to variables and parameters, and the move checking they do.
//!
//! Reading a variable whose type is not `Copy` moves it; reading a variable
//! that was moved (wholly or in part) is an error.
use vstd::prelude::*;

use std::collections::HashMap;

use crate::air::{Air, AirInst, AirInstData};
use crate::context::{binding, frames, AnalysisContext, AnalysisResult, LocalVar, ParamMode};
use crate::diag::{CompileError, ErrorKind};
use crate::interner::interned;
use crate::moves::{MoveStateView, VariableMoveState};
use crate::sema::Sema;
use crate::typing::appended;
use crate::types::{name_of_type, AirRef, Span, Sym, Type};

verus! {

/// Some part of the variable is moved.
pub open spec fn any_part_moved(v: MoveStateView) -> bool {
    v.full is Some || v.partial.dom() != Set::<Seq<Sym>>::empty()
}

/// `s` is where the variable, or a part of it, was moved: the full move if
/// there is one, else one of the partial moves.
pub open spec fn is_move_site(v: MoveStateView, s: Span) -> bool {
    match v.full {
        Some(f) => s == f,
        None => exists|p: Seq<Sym>| #[trigger] v.partial.contains_key(p) && v.partial[p] == s,
    }
}

/// The variable `name` is moved in `moved`.
pub open spec fn moved_in(moved: Map<Sym, VariableMoveState>, name: Sym) -> bool {
    moved.contains_key(name) && any_part_moved(moved[name]@)
}

/// `after` is `before` once `name` is wholly moved at `span`.
pub open spec fn fully_moved_at(
    before: Map<Sym, VariableMoveState>,
    after: Map<Sym, VariableMoveState>,
    name: Sym,
    span: Span,
) -> bool {
    &&& after.dom() == before.dom().insert(name)
    &&& after[name]@ == (MoveStateView { full: Some(span), partial: Map::empty() })
    &&& forall|k: Sym| #[trigger] before.contains_key(k) && k != name ==> after[k] == before[k]
}

/// `e` reports a use of `name` (spelled `text`) after it was moved.
pub open spec fn reports_use_after_move(e: CompileError, text: Seq<char>, span: Span, state: VariableMoveState) -> bool {
    &&& e.span == span
    &&& match e.kind {
        ErrorKind::UseAfterMove(n) => n@ == text,
        _ => false,
    }
    &&& match e.label {
        Some((m, s)) => m@ == "value moved here"@ && state.reported_site() == Some(s) && is_move_site(state@, s),
        None => false,
    }
}

/// Record that `name` is wholly moved at `span`.
fn mark_fully_moved(moved: &mut HashMap<Sym, VariableMoveState>, name: Sym, span: Span)
    ensures
        fully_moved_at(old(moved)@, final(moved)@, name, span),
{
    let mut state = match moved.remove(&name) {
        Some(s) => s,
        None => VariableMoveState::new(),
    };
    state.mark_path_moved(&[], span);
    moved.insert(name, state);
    assert(moved@.dom() =~= old(moved)@.dom().insert(name));
}

/// The error for a use of a moved variable.
pub(crate) fn use_after_move(name: &str, span: Span, state: &VariableMoveState) -> (e: CompileError)
    requires
        any_part_moved(state@),
    ensures
        reports_use_after_move(e, name@, span, *state),
{
    let moved_span = match state.is_any_part_moved() {
        Some(s) => s,
        None => span,
    };
    CompileError::new(ErrorKind::UseAfterMove(name.to_string()), span).with_label(
        "value moved here".to_string(),
        moved_span,
    )
}

impl<'a> Sema<'a> {
    /// Analyze a reference to a variable: a parameter or a local.
    ///
    /// Reading a moved variable is an error. Reading a variable of a type
    /// that is not `Copy` moves it, except that a borrowed parameter cannot
    /// be moved out of. A local that is read counts as used.
    pub fn analyze_var_ref(&self, air: &mut Air, name: Sym, span: Span, ctx: &mut AnalysisContext) -> (r: Result<
        AnalysisResult,
        CompileError,
    >)
        requires
            interned(self.interner).contains_key(name),
            old(air).instructions@.len() < u32::MAX,
        ensures
            final(ctx).locals == old(ctx).locals,
            final(ctx).params == old(ctx).params,
            final(ctx).next_slot == old(ctx).next_slot,
            final(ctx).loop_depth == old(ctx).loop_depth,
            final(ctx).return_type == old(ctx).return_type,
            final(ctx).scope_stack == old(ctx).scope_stack,
            final(ctx).resolved_types == old(ctx).resolved_types,
            final(ctx).comptime_type_vars == old(ctx).comptime_type_vars,
            ({
                let text = interned(self.interner)[name];
                let moved = old(ctx).moved_vars@;
                let next = old(air).instructions@.len() as u32;
                if old(ctx).params@.contains_key(name) {
                    let p = old(ctx).params@[name];
                    let copy = self.type_pool.is_copy(p.ty);
                    if moved_in(moved, name) {
                        &&& *final(ctx) == *old(ctx)
                        &&& *final(air) == *old(air)
                        &&& r matches Err(e) && reports_use_after_move(e, text, span, moved[name])
                    } else if !copy && p.mode == ParamMode::Borrow {
                        &&& *final(ctx) == *old(ctx)
                        &&& *final(air) == *old(air)
                        &&& r matches Err(e) && e.span == span && match e.kind {
                            ErrorKind::MoveOutOfBorrow { variable } => variable@ == text,
                            _ => false,
                        }
                    } else {
                        &&& r == Ok::<AnalysisResult, CompileError>(AnalysisResult { air_ref: next, ty: p.ty })
                        &&& appended(
                            *old(air),
                            *final(air),
                            AirInst { data: AirInstData::Param { index: p.abi_slot }, ty: p.ty, span },
                        )
                        &&& if copy {
                            final(ctx).moved_vars == old(ctx).moved_vars
                        } else {
                            fully_moved_at(moved, final(ctx).moved_vars@, name, span)
                        }
                        &&& final(ctx).used_locals == old(ctx).used_locals
                        &&& final(ctx).locals == old(ctx).locals
                        &&& final(ctx).params == old(ctx).params
                        &&& final(ctx).scope_stack == old(ctx).scope_stack
                        &&& final(ctx).warnings == old(ctx).warnings
                    }
                } else if !old(ctx).locals@.contains_key(name) {
                    &&& *final(ctx) == *old(ctx)
                    &&& *final(air) == *old(air)
                    &&& r matches Err(e) && e.span == span && match e.kind {
                        ErrorKind::UndefinedVariable(n) => n@ == text,
                        _ => false,
                    }
                } else {
                    let l = old(ctx).locals@[name];
                    let copy = self.type_pool.is_copy(l.ty);
                    if moved_in(moved, name) {
                        &&& *final(ctx) == *old(ctx)
                        &&& *final(air) == *old(air)
                        &&& r matches Err(e) && reports_use_after_move(e, text, span, moved[name])
                    } else {
                        &&& r == Ok::<AnalysisResult, CompileError>(AnalysisResult { air_ref: next, ty: l.ty })
                        &&& appended(
                            *old(air),
                            *final(air),
                            AirInst { data: AirInstData::Load { slot: l.slot }, ty: l.ty, span },
                        )
                        &&& if copy {
                            final(ctx).moved_vars == old(ctx).moved_vars
                        } else {
                            fully_moved_at(moved, final(ctx).moved_vars@, name, span)
                        }
                        &&& final(ctx).used_locals@ == old(ctx).used_locals@.insert(name)
                        &&& final(ctx).locals == old(ctx).locals
                        &&& final(ctx).params == old(ctx).params
                        &&& final(ctx).scope_stack == old(ctx).scope_stack
                        &&& final(ctx).warnings == old(ctx).warnings
                    }
                }
            }),
    {
        // First check if it's a parameter
        match ctx.params.get(&name) {
            Some(param_info) => {
                let param = *param_info;
                let ty = param.ty;
                let name_str = self.resolve(name);
                // Check if this parameter has been moved
                match ctx.moved_vars.get(&name) {
                    Some(move_state) => {
                        if move_state.is_any_part_moved().is_some() {
                            return Err(use_after_move(name_str, span, move_state));
                        }
                    },
                    None => {},
                }
                // Handle move semantics based on parameter mode
                if !self.type_pool.is_type_copy(ty) {
                    match param.mode {
                        ParamMode::Normal | ParamMode::Comptime | ParamMode::Inout => {
                            mark_fully_moved(&mut ctx.moved_vars, name, span);
                        },
                        ParamMode::Borrow => {
                            return Err(
                                CompileError::new(
                                    ErrorKind::MoveOutOfBorrow { variable: name_str.to_string() },
                                    span,
                                ),
                            );
                        },
                    }
                }
                let air_ref = air.add_inst(AirInst { data: AirInstData::Param { index: param.abi_slot }, ty, span });
                return Ok(AnalysisResult::new(air_ref, ty));
            },
            None => {},
        }
        // Look up the variable in locals
        let name_str = self.resolve(name);
        let local = match ctx.locals.get(&name) {
            Some(l) => *l,
            None => {
                return Err(CompileError::new(ErrorKind::UndefinedVariable(name_str.to_string()), span));
            },
        };
        let ty = local.ty;
        let slot = local.slot;
        // Check if this variable has been moved
        match ctx.moved_vars.get(&name) {
            Some(move_state) => {
                if move_state.is_any_part_moved().is_some() {
                    return Err(use_after_move(name_str, span, move_state));
                }
            },
            None => {},
        }
        // If the type is not Copy, reading the variable moves it
        if !self.type_pool.is_type_copy(ty) {
            mark_fully_moved(&mut ctx.moved_vars, name, span);
        }
        // Mark variable as used
        ctx.used_locals.insert(name);
        // Load the variable
        let air_ref = air.add_inst(AirInst { data: AirInstData::Load { slot }, ty, span });
        Ok(AnalysisResult::new(air_ref, ty))
    }

    /// Analyze a reference to a parameter.
    pub fn analyze_param_ref(&self, air: &mut Air, name: Sym, span: Span, ctx: &AnalysisContext) -> (r: Result<
        AnalysisResult,
        CompileError,
    >)
        requires
            interned(self.interner).contains_key(name),
            old(air).instructions@.len() < u32::MAX,
        ensures
            ctx.params@.contains_key(name) ==> ({
                let p = ctx.params@[name];
                &&& r == Ok::<AnalysisResult, CompileError>(
                    AnalysisResult { air_ref: old(air).instructions@.len() as u32, ty: p.ty },
                )
                &&& appended(
                    *old(air),
                    *final(air),
                    AirInst { data: AirInstData::Param { index: p.abi_slot }, ty: p.ty, span },
                )
            }),
            !ctx.params@.contains_key(name) ==> *final(air) == *old(air) && match r {
                Err(e) => e.span == span && match e.kind {
                    ErrorKind::UndefinedVariable(n) => n@ == interned(self.interner)[name],
                    _ => false,
                },
                Ok(_) => false,
            },
    {
        let name_str = self.resolve(name);
        let param_info = match ctx.params.get(&name) {
            Some(p) => *p,
            None => {
                return Err(CompileError::new(ErrorKind::UndefinedVariable(name_str.to_string()), span));
            },
        };
        let ty = param_info.ty;
        let air_ref = air.add_inst(AirInst { data: AirInstData::Param { index: param_info.abi_slot }, ty, span });
        Ok(AnalysisResult::new(air_ref, ty))
    }
}

/// What an assignment stores into.
#[derive(Clone, Copy, Debug, PartialEq, Eq, Structural)]
pub enum AssignTarget {
    /// An `inout` parameter, by its ABI slot
    Param { abi_slot: u32 },
    /// A mutable local variable, by its slot
    Local { slot: u32 },
}

/// The target of an assignment to `name`, or the error the assignment is.
pub open spec fn assign_target_of(ctx: &AnalysisContext, name: Sym) -> Option<AssignTarget> {
    if ctx.params@.contains_key(name) {
        let p = ctx.params@[name];
        if p.mode == ParamMode::Inout {
            Some(AssignTarget::Param { abi_slot: p.abi_slot })
        } else {
            None
        }
    } else if ctx.locals@.contains_key(name) && ctx.locals@[name].is_mut {
        Some(AssignTarget::Local { slot: ctx.locals@[name].slot })
    } else {
        None
    }
}

impl<'a> Sema<'a> {
    /// Where an assignment to `name` stores, checked before the assigned
    /// value is analyzed: only `inout` parameters and mutable locals can be
    /// assigned to.
    pub fn assignment_target(&self, ctx: &AnalysisContext, name: Sym, span: Span) -> (r: Result<
        AssignTarget,
        CompileError,
    >)
        requires
            interned(self.interner).contains_key(name),
        ensures
            ({
                let text = interned(self.interner)[name];
                match assign_target_of(ctx, name) {
                    Some(t) => r == Ok::<AssignTarget, CompileError>(t),
                    None => match r {
                        Ok(_) => false,
                        Err(e) => e.span == span && if ctx.params@.contains_key(name) {
                            let p = ctx.params@[name];
                            if p.mode == ParamMode::Borrow {
                                e.kind matches ErrorKind::MutateBorrowedValue { variable } && variable@ == text
                            } else {
                                &&& e.kind matches ErrorKind::AssignToImmutable(n) && n@ == text
                                &&& e.help matches Some(h) && h@ == "consider making parameter `"@ + text
                                    + "` inout: `inout "@ + text + ": "@ + name_of_type(p.ty) + "`"@
                            }
                        } else if !ctx.locals@.contains_key(name) {
                            e.kind matches ErrorKind::UndefinedVariable(n) && n@ == text
                        } else {
                            &&& e.kind matches ErrorKind::AssignToImmutable(n) && n@ == text
                            &&& e.label matches Some(l) && l.0@ == "variable declared as immutable here"@
                                && l.1 == ctx.locals@[name].span
                            &&& e.help matches Some(h) && h@ == "consider making `"@ + text + "` mutable: `let mut "@
                                + text + "`"@
                        },
                    },
                }
            }),
    {
        let name_str = self.resolve(name);
        // First check if it's a parameter (only inout parameters can be assigned to)
        match ctx.params.get(&name) {
            Some(param_info) => {
                return match param_info.mode {
                    ParamMode::Normal | ParamMode::Comptime => {
                        let help = String::from_str("consider making parameter `").concat(name_str).concat(
                            "` inout: `inout ",
                        ).concat(name_str).concat(": ").concat(param_info.ty.name().as_str()).concat("`");
                        Err(
                            CompileError::new(ErrorKind::AssignToImmutable(name_str.to_string()), span).with_help(
                                help,
                            ),
                        )
                    },
                    ParamMode::Inout => Ok(AssignTarget::Param { abi_slot: param_info.abi_slot }),
                    ParamMode::Borrow => Err(
                        CompileError::new(ErrorKind::MutateBorrowedValue { variable: name_str.to_string() }, span),
                    ),
                };
            },
            None => {},
        }
        // Look up the local variable
        let local = match ctx.locals.get(&name) {
            Some(l) => *l,
            None => {
                return Err(CompileError::new(ErrorKind::UndefinedVariable(name_str.to_string()), span));
            },
        };
        // Check mutability
        if !local.is_mut {
            let help = String::from_str("consider making `").concat(name_str).concat("` mutable: `let mut ").concat(
                name_str,
            ).concat("`");
            return Err(
                CompileError::new(ErrorKind::AssignToImmutable(name_str.to_string()), span).with_label(
                    "variable declared as immutable here".to_string(),
                    local.span,
                ).with_help(help),
            );
        }
        Ok(AssignTarget::Local { slot: local.slot })
    }

    /// Finish an assignment once the value is analyzed: the variable holds
    /// a new value, so nothing of it is moved any more; the store is unit.
    pub fn finish_assign(
        air: &mut Air,
        ctx: &mut AnalysisContext,
        name: Sym,
        target: AssignTarget,
        value: AnalysisResult,
        span: Span,
    ) -> (r: AnalysisResult)
        requires
            old(air).instructions@.len() < u32::MAX,
        ensures
            final(ctx).moved_vars@ == old(ctx).moved_vars@.remove(name),
            final(ctx).locals == old(ctx).locals,
            final(ctx).params == old(ctx).params,
            final(ctx).used_locals == old(ctx).used_locals,
            final(ctx).scope_stack == old(ctx).scope_stack,
            final(ctx).warnings == old(ctx).warnings,
            final(ctx).next_slot == old(ctx).next_slot,
            final(ctx).loop_depth == old(ctx).loop_depth,
            final(ctx).return_type == old(ctx).return_type,
            final(ctx).resolved_types == old(ctx).resolved_types,
            final(ctx).comptime_type_vars == old(ctx).comptime_type_vars,
            final(ctx).local_strings == old(ctx).local_strings,
            r == (AnalysisResult { air_ref: old(air).instructions@.len() as u32, ty: Type::Unit }),
            appended(
                *old(air),
                *final(air),
                AirInst {
                    data: match target {
                        AssignTarget::Param { abi_slot } => AirInstData::ParamStore {
                            param_slot: abi_slot,
                            value: value.air_ref,
                        },
                        AssignTarget::Local { slot } => AirInstData::Store { slot, value: value.air_ref },
                    },
                    ty: Type::Unit,
                    span,
                },
            ),
    {
        // Assignment resets the move state
        ctx.moved_vars.remove(&name);
        let data = match target {
            AssignTarget::Param { abi_slot } => AirInstData::ParamStore { param_slot: abi_slot, value: value.air_ref },
            AssignTarget::Local { slot } => AirInstData::Store { slot, value: value.air_ref },
        };
        let air_ref = air.add_inst(AirInst { data, ty: Type::Unit, span });
        AnalysisResult::new(air_ref, Type::Unit)
    }
}

/// A read of a variable of a type that is not `Copy` moves it, there: a
/// second read is a use after move that points at the first.
pub proof fn law_read_moves_the_variable(
    before: Map<Sym, VariableMoveState>,
    after: Map<Sym, VariableMoveState>,
    name: Sym,
    span: Span,
)
    requires
        fully_moved_at(before, after, name, span),
    ensures
        moved_in(after, name),
        is_move_site(after[name]@, span),
{
    assert(after.dom().contains(name));
}

/// Assigning to a variable makes it usable again: nothing of it is moved.
pub proof fn law_assignment_revives(before: Map<Sym, VariableMoveState>, name: Sym)
    ensures
        !moved_in(before.remove(name), name),
{
}

/// Finish `let name = init;` once the initializer is analyzed: the
/// variable gets the next `num_slots` slots (the ABI slot count of its
/// type), is bound in the current scope, and a block marks its storage live
/// and stores the value. `let _ = init;` (no name) is the value itself.
pub fn finish_alloc(
    air: &mut Air,
    ctx: &mut AnalysisContext,
    name: Option<Sym>,
    is_mut: bool,
    allow_unused: bool,
    init: AnalysisResult,
    num_slots: u32,
    span: Span,
) -> (r: AnalysisResult)
    requires
        old(ctx).next_slot + num_slots <= u32::MAX,
        old(air).instructions@.len() + 3 <= u32::MAX,
        old(air).extra@.len() < u32::MAX,
    ensures
        match name {
            None => {
                &&& r == (AnalysisResult { air_ref: init.air_ref, ty: Type::Unit })
                &&& *final(air) == *old(air)
                &&& *final(ctx) == *old(ctx)
            },
            Some(n) => {
                let slot = old(ctx).next_slot;
                let base = old(air).instructions@.len();
                let var = LocalVar { slot, ty: init.ty, is_mut, span, allow_unused };
                &&& final(ctx).next_slot == slot + num_slots
                &&& final(ctx).locals@ == old(ctx).locals@.insert(n, var)
                &&& old(ctx).scope_stack@.len() > 0 ==> frames(final(ctx).scope_stack@) == frames(
                    old(ctx).scope_stack@,
                ).drop_last().push(old(ctx).scope_stack@.last()@.push((n, binding(old(ctx).locals@, n))))
                &&& old(ctx).scope_stack@.len() == 0 ==> final(ctx).scope_stack@ == old(ctx).scope_stack@
                &&& final(ctx).moved_vars@ == old(ctx).moved_vars@.remove(n)
                &&& final(ctx).used_locals@ == old(ctx).used_locals@
                &&& final(ctx).params == old(ctx).params
                &&& final(ctx).warnings@ == old(ctx).warnings@
                &&& final(ctx).loop_depth == old(ctx).loop_depth
                &&& final(ctx).return_type == old(ctx).return_type
                &&& final(ctx).resolved_types == old(ctx).resolved_types
                &&& final(ctx).comptime_type_vars == old(ctx).comptime_type_vars
                &&& r == (AnalysisResult { air_ref: (base + 2) as u32, ty: Type::Unit })
                &&& final(air).extra@ == old(air).extra@.push(base as u32)
                &&& final(air).instructions@ == old(air).instructions@.push(
                    AirInst { data: AirInstData::StorageLive { slot }, ty: init.ty, span },
                ).push(AirInst { data: AirInstData::Alloc { slot, init: init.air_ref }, ty: Type::Unit, span }).push(
                    AirInst {
                        data: AirInstData::Block {
                            stmts_start: old(air).extra@.len() as u32,
                            stmts_len: 1,
                            value: (base + 1) as u32,
                        },
                        ty: Type::Unit,
                        span,
                    },
                )
                &&& final(air).return_type == old(air).return_type
            },
        },
{
    let n = match name {
        Some(n) => n,
        None => {
            return AnalysisResult::new(init.air_ref, Type::Unit);
        },
    };
    let slot = ctx.next_slot;
    ctx.next_slot = slot + num_slots;
    ctx.insert_local(n, LocalVar { slot, ty: init.ty, is_mut, span, allow_unused });
    let storage_live = air.add_inst(AirInst { data: AirInstData::StorageLive { slot }, ty: init.ty, span });
    let alloc = air.add_inst(AirInst { data: AirInstData::Alloc { slot, init: init.air_ref }, ty: Type::Unit, span });
    let stmts = [storage_live];
    let stmts_start = air.add_extra(&stmts);
    assert(stmts@ == seq![storage_live]);
    let block = air.add_inst(
        AirInst { data: AirInstData::Block { stmts_start, stmts_len: 1, value: alloc }, ty: Type::Unit, span },
    );
    AnalysisResult::new(block, Type::Unit)
}

impl<'a> Sema<'a> {
    /// The instruction names a type bound at compile time (`let P = Point();`).
    pub fn is_comptime_type_var(&self, inst_ref: crate::rir::InstRef, ctx: &AnalysisContext) -> (r: bool)
        requires
            inst_ref < self.rir.instructions@.len(),
        ensures
            r == (self.rir.instructions@[inst_ref as int].data matches crate::rir::InstData::VarRef { name }
                && ctx.comptime_type_vars@.contains_key(name)),
    {
        match self.rir.get(inst_ref).data {
            crate::rir::InstData::VarRef { name } => ctx.comptime_type_vars.contains_key(&name),
            _ => false,
        }
    }
}

} // verus!
