//! The typing rules of control flow: `break` and `continue`, `if`, loops,
//! `return`, and the end of a block.
//!
//! As for operators, the parts of a construct (condition, branches, body,
//! statements) are analyzed by the caller; these rules check what the
//! language requires of their types and append the typed instruction.
use vstd::prelude::*;

use std::collections::HashMap;

use crate::air::{Air, AirInst, AirInstData};
use crate::checks::{no_unconsumed, reports_unconsumed, scope_names_interned, unused_warnings, warnings_view};
use crate::context::{frames, merged_state, restore_entries, AnalysisContext, AnalysisResult};
use crate::diag::{CompileError, ErrorKind};
use crate::interner::interned;
use crate::moves::VariableMoveState;
use crate::sema::Sema;
use crate::typing::{appended, is_type_mismatch};
use crate::types::{name_of_type, AirRef, Span, Sym, Type};

verus! {

/// The type of an `if` with an `else`: when a branch never produces a value
/// the other's type, else the two types, which must agree (unless one stands
/// for an error already reported).
pub open spec fn branch_type(then_type: Type, else_type: Type) -> Option<Type> {
    if then_type is Never && else_type is Never {
        Some(Type::Never)
    } else if then_type is Never {
        Some(else_type)
    } else if else_type is Never {
        Some(then_type)
    } else if then_type != else_type && !(then_type is Error) && !(else_type is Error) {
        None
    } else {
        Some(then_type)
    }
}

/// Append an instruction, returning its reference.
fn push_inst(air: &mut Air, data: AirInstData, ty: Type, span: Span) -> (r: AnalysisResult)
    requires
        old(air).instructions@.len() < u32::MAX,
    ensures
        appended(*old(air), *final(air), AirInst { data, ty, span }),
        r == (AnalysisResult { air_ref: old(air).instructions@.len() as u32, ty }),
{
    let air_ref = air.add_inst(AirInst { data, ty, span });
    AnalysisResult::new(air_ref, ty)
}

impl<'a> Sema<'a> {
    /// `break`: only inside a loop. It never produces a value.
    pub fn analyze_break(air: &mut Air, ctx: &AnalysisContext, span: Span) -> (r: Result<AnalysisResult, CompileError>)
        requires
            old(air).instructions@.len() < u32::MAX,
        ensures
            ctx.loop_depth == 0 ==> *final(air) == *old(air) && match r {
                Err(e) => e.span == span && e.kind is BreakOutsideLoop,
                Ok(_) => false,
            },
            ctx.loop_depth > 0 ==> r == Ok::<AnalysisResult, CompileError>(
                AnalysisResult { air_ref: old(air).instructions@.len() as u32, ty: Type::Never },
            ) && appended(*old(air), *final(air), AirInst { data: AirInstData::Break, ty: Type::Never, span }),
    {
        // Validate that we're inside a loop
        if ctx.loop_depth == 0 {
            return Err(CompileError::new(ErrorKind::BreakOutsideLoop, span));
        }
        Ok(push_inst(air, AirInstData::Break, Type::Never, span))
    }

    /// `continue`: only inside a loop. It never produces a value.
    pub fn analyze_continue(air: &mut Air, ctx: &AnalysisContext, span: Span) -> (r: Result<AnalysisResult, CompileError>)
        requires
            old(air).instructions@.len() < u32::MAX,
        ensures
            ctx.loop_depth == 0 ==> *final(air) == *old(air) && match r {
                Err(e) => e.span == span && e.kind is ContinueOutsideLoop,
                Ok(_) => false,
            },
            ctx.loop_depth > 0 ==> r == Ok::<AnalysisResult, CompileError>(
                AnalysisResult { air_ref: old(air).instructions@.len() as u32, ty: Type::Never },
            ) && appended(*old(air), *final(air), AirInst { data: AirInstData::Continue, ty: Type::Never, span }),
    {
        // Validate that we're inside a loop
        if ctx.loop_depth == 0 {
            return Err(CompileError::new(ErrorKind::ContinueOutsideLoop, span));
        }
        Ok(push_inst(air, AirInstData::Continue, Type::Never, span))
    }

    /// The type of an `if` with an `else` (never-type coercion): when both
    /// branches diverge it is `!`; when one does, the other's type; else the
    /// branch types must match exactly.
    pub fn branch_result_type(then_type: Type, else_type: Type, then_span: Span, else_span: Span) -> (r: Result<
        Type,
        CompileError,
    >)
        ensures
            match branch_type(then_type, else_type) {
                Some(t) => r == Ok::<Type, CompileError>(t),
                None => match r {
                    Err(e) => is_type_mismatch(e, name_of_type(then_type), else_type, else_span) && match e.label {
                        Some((m, s)) => m@ == "this is of type `"@ + name_of_type(then_type) + "`"@ && s == then_span,
                        None => false,
                    } && match e.note {
                        Some(n) => n@ == "if and else branches must have compatible types"@,
                        None => false,
                    },
                    Ok(_) => false,
                },
            },
    {
        match (then_type.is_never(), else_type.is_never()) {
            (true, true) => Ok(Type::Never),
            (true, false) => Ok(else_type),
            (false, true) => Ok(then_type),
            (false, false) => {
                // Neither diverges - types must match exactly
                if then_type != else_type && !then_type.is_error() && !else_type.is_error() {
                    let label = String::from_str("this is of type `").concat(then_type.name().as_str()).concat("`");
                    return Err(
                        CompileError::new(
                            ErrorKind::TypeMismatch { expected: then_type.name(), found: else_type.name() },
                            else_span,
                        ).with_label(label, then_span).with_note(
                            "if and else branches must have compatible types".to_string(),
                        ),
                    );
                }
                Ok(then_type)
            },
        }
    }

    /// The body of an `if` without `else` must have unit type (or never
    /// produce a value, or stand for an error already reported).
    pub fn check_if_without_else(then_type: Type, then_span: Span) -> (r: Result<(), CompileError>)
        ensures
            r is Ok <==> (then_type is Unit || then_type is Never || then_type is Error),
            r matches Err(e) ==> (is_type_mismatch(e, "()"@, then_type, then_span) && match e.help {
                Some(h) => h@ == "if expressions without else must have unit type; consider adding an else branch or making the body return ()"@,
                None => false,
            }),
    {
        let is_unit = match then_type {
            Type::Unit => true,
            _ => false,
        };
        if !is_unit && !then_type.is_never() && !then_type.is_error() {
            return Err(
                CompileError::new(
                    ErrorKind::TypeMismatch { expected: "()".to_string(), found: then_type.name() },
                    then_span,
                ).with_help(
                    "if expressions without else must have unit type; consider adding an else branch or making the body return ()".to_string(),
                ),
            );
        }
        Ok(())
    }

    /// The moves after an `if` without `else`: when the body diverges, the
    /// code after the `if` only runs when the condition was false, so the
    /// moves from before the `if` stand; otherwise a variable is moved if the
    /// body moved it or it was moved before.
    pub fn merge_if_without_else_moves(
        ctx: &mut AnalysisContext,
        then_moves: HashMap<Sym, VariableMoveState>,
        saved_moves: HashMap<Sym, VariableMoveState>,
        then_diverges: bool,
    )
        ensures
            final(ctx).params == old(ctx).params,
            final(ctx).next_slot == old(ctx).next_slot,
            final(ctx).return_type == old(ctx).return_type,
            final(ctx).resolved_types == old(ctx).resolved_types,
            final(ctx).comptime_type_vars == old(ctx).comptime_type_vars,
            final(ctx).loop_depth == old(ctx).loop_depth,
            then_diverges ==> final(ctx).moved_vars@ == saved_moves@,
            !then_diverges ==> forall|s: Sym|
                #[trigger] final(ctx).moved_vars@.contains_key(s) <==> ((then_moves@.contains_key(s)
                    || saved_moves@.contains_key(s)) && !merged_state(then_moves@, saved_moves@, s).is_empty()),
            !then_diverges ==> forall|s: Sym|
                #[trigger] final(ctx).moved_vars@.contains_key(s) ==> final(ctx).moved_vars@[s]@
                    == merged_state(then_moves@, saved_moves@, s),
            final(ctx).locals@ == old(ctx).locals@,
            final(ctx).scope_stack@ == old(ctx).scope_stack@,
            final(ctx).used_locals@ == old(ctx).used_locals@,
            final(ctx).warnings@ == old(ctx).warnings@,
    {
        if then_diverges {
            ctx.moved_vars = saved_moves;
        } else {
            ctx.merge_branch_moves(then_moves, saved_moves, false, false);
        }
    }

    /// The instruction of an `if`, of the type worked out for it.
    pub fn emit_branch(
        air: &mut Air,
        cond: AnalysisResult,
        then_result: AnalysisResult,
        else_result: Option<AnalysisResult>,
        ty: Type,
        span: Span,
    ) -> (r: AnalysisResult)
        requires
            old(air).instructions@.len() < u32::MAX,
        ensures
            r == (AnalysisResult { air_ref: old(air).instructions@.len() as u32, ty }),
            appended(
                *old(air),
                *final(air),
                AirInst {
                    data: AirInstData::Branch {
                        cond: cond.air_ref,
                        then_value: then_result.air_ref,
                        else_value: match else_result {
                            Some(e) => Some(e.air_ref),
                            None => None,
                        },
                    },
                    ty,
                    span,
                },
            ),
    {
        let else_value = match else_result {
            Some(e) => Some(e.air_ref),
            None => None,
        };
        push_inst(
            air,
            AirInstData::Branch { cond: cond.air_ref, then_value: then_result.air_ref, else_value },
            ty,
            span,
        )
    }

    /// Enter the body of a loop: a new scope, one loop deeper.
    pub fn enter_loop_body(ctx: &mut AnalysisContext)
        requires
            old(ctx).loop_depth < u32::MAX,
        ensures
            final(ctx).params == old(ctx).params,
            final(ctx).next_slot == old(ctx).next_slot,
            final(ctx).return_type == old(ctx).return_type,
            final(ctx).resolved_types == old(ctx).resolved_types,
            final(ctx).comptime_type_vars == old(ctx).comptime_type_vars,
            final(ctx).loop_depth == old(ctx).loop_depth + 1,
            frames(final(ctx).scope_stack@) == frames(old(ctx).scope_stack@).push(Seq::empty()),
            final(ctx).locals@ == old(ctx).locals@,
            final(ctx).moved_vars@ == old(ctx).moved_vars@,
            final(ctx).used_locals@ == old(ctx).used_locals@,
            final(ctx).warnings@ == old(ctx).warnings@,
    {
        ctx.push_scope();
        ctx.loop_depth = ctx.loop_depth + 1;
    }

    /// Leave the body of a loop: one loop shallower, and its scope popped.
    pub fn leave_loop_body(ctx: &mut AnalysisContext)
        requires
            old(ctx).loop_depth > 0,
            old(ctx).scope_stack@.len() > 0,
        ensures
            final(ctx).params == old(ctx).params,
            final(ctx).next_slot == old(ctx).next_slot,
            final(ctx).return_type == old(ctx).return_type,
            final(ctx).resolved_types == old(ctx).resolved_types,
            final(ctx).comptime_type_vars == old(ctx).comptime_type_vars,
            final(ctx).loop_depth == old(ctx).loop_depth - 1,
            frames(final(ctx).scope_stack@) == frames(old(ctx).scope_stack@).drop_last(),
            final(ctx).locals@ == restore_entries(old(ctx).locals@, old(ctx).scope_stack@.last()@),
            final(ctx).moved_vars@ == old(ctx).moved_vars@,
            final(ctx).used_locals@ == old(ctx).used_locals@,
            final(ctx).warnings@ == old(ctx).warnings@,
    {
        ctx.loop_depth = ctx.loop_depth - 1;
        ctx.pop_scope();
    }

    /// The instruction of a `while` loop: of unit type.
    pub fn emit_while_loop(air: &mut Air, cond: AnalysisResult, body: AnalysisResult, span: Span) -> (r: AnalysisResult)
        requires
            old(air).instructions@.len() < u32::MAX,
        ensures
            r == (AnalysisResult { air_ref: old(air).instructions@.len() as u32, ty: Type::Unit }),
            appended(
                *old(air),
                *final(air),
                AirInst { data: AirInstData::Loop { cond: cond.air_ref, body: body.air_ref }, ty: Type::Unit, span },
            ),
    {
        push_inst(air, AirInstData::Loop { cond: cond.air_ref, body: body.air_ref }, Type::Unit, span)
    }

    /// The instruction of an infinite `loop`: it never produces a value.
    pub fn emit_infinite_loop(air: &mut Air, body: AnalysisResult, span: Span) -> (r: AnalysisResult)
        requires
            old(air).instructions@.len() < u32::MAX,
        ensures
            r == (AnalysisResult { air_ref: old(air).instructions@.len() as u32, ty: Type::Never }),
            appended(
                *old(air),
                *final(air),
                AirInst { data: AirInstData::InfiniteLoop { body: body.air_ref }, ty: Type::Never, span },
            ),
    {
        push_inst(air, AirInstData::InfiniteLoop { body: body.air_ref }, Type::Never, span)
    }

    /// A `return` must give a value of the function's return type; a
    /// `return` without a value is only for unit-returning functions. A type
    /// that stands for an error already reported is accepted.
    pub fn check_return(return_type: Type, value_type: Option<Type>, span: Span) -> (r: Result<(), CompileError>)
        ensures
            match value_type {
                Some(t) => if !(return_type is Error) && !(t is Error) && !t.coerces_to(return_type) {
                    match r {
                        Err(e) => is_type_mismatch(e, name_of_type(return_type), t, span),
                        Ok(_) => false,
                    }
                } else {
                    r is Ok
                },
                None => if !(return_type is Unit) && !(return_type is Error) {
                    match r {
                        Err(e) => is_type_mismatch(e, name_of_type(return_type), Type::Unit, span),
                        Ok(_) => false,
                    }
                } else {
                    r is Ok
                },
            },
    {
        match value_type {
            Some(inner_ty) => {
                // The returned value must match the function's return type
                if !return_type.is_error() && !inner_ty.is_error() && !inner_ty.can_coerce_to(&return_type) {
                    return Err(
                        CompileError::new(
                            ErrorKind::TypeMismatch { expected: return_type.name(), found: inner_ty.name() },
                            span,
                        ),
                    );
                }
                Ok(())
            },
            None => {
                // `return;` without expression - only valid for unit-returning functions
                let is_unit = match return_type {
                    Type::Unit => true,
                    _ => false,
                };
                if !is_unit && !return_type.is_error() {
                    return Err(
                        CompileError::new(
                            ErrorKind::TypeMismatch { expected: return_type.name(), found: "()".to_string() },
                            span,
                        ),
                    );
                }
                Ok(())
            },
        }
    }

    /// The instruction of a `return`: it never produces a value.
    pub fn emit_return(air: &mut Air, value: Option<AirRef>, span: Span) -> (r: AnalysisResult)
        requires
            old(air).instructions@.len() < u32::MAX,
        ensures
            r == (AnalysisResult { air_ref: old(air).instructions@.len() as u32, ty: Type::Never }),
            appended(*old(air), *final(air), AirInst { data: AirInstData::Ret(value), ty: Type::Never, span }),
    {
        push_inst(air, AirInstData::Ret(value), Type::Never, span)
    }

    /// Finish a block whose instructions were analyzed in its own scope:
    /// `statements` are the results of all but the last, `last` that of the
    /// last one, if any.
    ///
    /// Linear values of the scope must have been consumed; unused variables
    /// are warned about; the scope is popped. An empty block has unit value;
    /// a block without statements is just its value; otherwise a block
    /// instruction holds the statements and has the value's type.
    pub fn finish_block(
        &self,
        air: &mut Air,
        ctx: &mut AnalysisContext,
        statements: &Vec<AirRef>,
        last: Option<AnalysisResult>,
        span: Span,
    ) -> (r: Result<AnalysisResult, CompileError>)
        requires
            old(ctx).scope_stack@.len() > 0,
            scope_names_interned(self, old(ctx)),
            old(air).instructions@.len() + 2 < u32::MAX,
            old(air).extra@.len() + statements@.len() <= u32::MAX,
            statements@.len() < u32::MAX,
        ensures
            final(ctx).params == old(ctx).params,
            final(ctx).next_slot == old(ctx).next_slot,
            final(ctx).loop_depth == old(ctx).loop_depth,
            final(ctx).return_type == old(ctx).return_type,
            final(ctx).resolved_types == old(ctx).resolved_types,
            final(ctx).comptime_type_vars == old(ctx).comptime_type_vars,
            ({
                let entries = old(ctx).scope_stack@.last()@;
                match r {
                    Err(e) => {
                        &&& reports_unconsumed(self, entries, old(ctx).locals@, old(ctx).moved_vars@, e)
                        &&& *final(ctx) == *old(ctx)
                        &&& *final(air) == *old(air)
                    },
                    Ok(res) => {
                        &&& no_unconsumed(self, entries, old(ctx).locals@, old(ctx).moved_vars@)
                        &&& warnings_view(final(ctx).warnings@) == warnings_view(old(ctx).warnings@)
                            + unused_warnings(
                            entries,
                            old(ctx).locals@,
                            old(ctx).used_locals@,
                            interned(self.interner),
                        )
                        &&& final(ctx).warnings@.take(old(ctx).warnings@.len() as int) == old(ctx).warnings@
                        &&& forall|i: int|
                            old(ctx).warnings@.len() <= i < final(ctx).warnings@.len() ==> (
                            #[trigger] final(ctx).warnings@[i]).label is None
                                && final(ctx).warnings@[i].note is None
                        &&& frames(final(ctx).scope_stack@) == frames(old(ctx).scope_stack@).drop_last()
                        &&& final(ctx).locals@ == restore_entries(old(ctx).locals@, entries)
                        &&& final(ctx).moved_vars@ == old(ctx).moved_vars@
                        &&& final(ctx).used_locals@ == old(ctx).used_locals@
                        &&& final(air).return_type == old(air).return_type
                        &&& {
                            // The block's value
                            let n = old(air).instructions@.len();
                            let unit = AirInst { data: AirInstData::UnitConst, ty: Type::Unit, span };
                            let (value, with_value) = match last {
                                Some(l) => (l, old(air).instructions@),
                                None => (
                                    AnalysisResult { air_ref: n as u32, ty: Type::Unit },
                                    old(air).instructions@.push(unit),
                                ),
                            };
                            if statements@.len() == 0 {
                                &&& res == value
                                &&& final(air).instructions@ == with_value
                                &&& final(air).extra == old(air).extra
                            } else {
                                &&& res == (AnalysisResult { air_ref: with_value.len() as u32, ty: value.ty })
                                &&& final(air).extra@ == old(air).extra@ + statements@
                                &&& final(air).instructions@ == with_value.push(
                                    AirInst {
                                        data: AirInstData::Block {
                                            stmts_start: old(air).extra@.len() as u32,
                                            stmts_len: statements@.len() as u32,
                                            value: value.air_ref,
                                        },
                                        ty: value.ty,
                                        span,
                                    },
                                )
                            }
                        }
                    },
                }
            }),
    {
        // Check for unconsumed linear values before popping scope
        match self.check_unconsumed_linear_values(ctx) {
            Ok(()) => {},
            Err(e) => return Err(e),
        }
        // Check for unused variables before popping scope
        self.check_unused_locals_in_current_scope(ctx);
        // Pop scope to remove block-scoped variables
        ctx.pop_scope();
        // An empty block evaluates to unit
        let value = match last {
            Some(result) => result,
            None => push_inst(air, AirInstData::UnitConst, Type::Unit, span),
        };
        // Only create a block instruction if there are statements;
        // otherwise the value stands for the block
        if statements.len() == 0 {
            Ok(value)
        } else {
            let stmts_start = air.add_extra(statements.as_slice());
            let stmts_len = statements.len() as u32;
            Ok(
                push_inst(
                    air,
                    AirInstData::Block { stmts_start, stmts_len, value: value.air_ref },
                    value.ty,
                    span,
                ),
            )
        }
    }
}


/// How the branches of an `if` agree on a type: a type agrees with
/// itself; a branch that never produces a value takes the other's type;
/// two different types that stand for no error disagree, in either order.
pub proof fn law_branch_types_agree(a: Type, b: Type)
    ensures
        branch_type(a, a) == Some(a),
        branch_type(Type::Never, b) == Some(b),
        branch_type(a, Type::Never) == Some(a),
        a != b && !(a is Never) && !(b is Never) && !(a is Error) && !(b is Error) ==> branch_type(a, b) is None,
        branch_type(a, b) is None <==> branch_type(b, a) is None,
        branch_type(a, b) matches Some(t) ==> (t == a || t == b),
{
}

} // verus!
