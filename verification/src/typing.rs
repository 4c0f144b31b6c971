//! The typing rules of expressions: literals, unary operators, arithmetic,
//! comparisons and logical operators.
//!
//! Each rule checks the types involved, reports the error the language
//! defines when they do not fit, and otherwise appends the typed instruction
//! to the function's AIR. Operands are analyzed by the caller, in source
//! order, before the rule for the operator is applied; the rules take the
//! operands' results.
use vstd::prelude::*;

use crate::air::{Air, AirInst, AirInstData};
use crate::consteval::const_value_in;
use crate::context::{AnalysisContext, AnalysisResult, ConstValue};
use crate::diag::{CompileError, ErrorKind};
use crate::interner::interned;
use crate::paths::{decimal, spec_decimal};
use crate::rir::{InstData, InstRef};
use crate::sema::Sema;
use crate::types::{name_of_type, AirRef, Span, Type};

verus! {

/// A binary arithmetic or bitwise operator.
#[derive(Clone, Copy, Debug, PartialEq, Eq, Structural)]
pub enum ArithOp {
    Add,
    Sub,
    Mul,
    Div,
    Mod,
    BitAnd,
    BitOr,
    BitXor,
    Shl,
    Shr,
}

/// A comparison operator.
#[derive(Clone, Copy, Debug, PartialEq, Eq, Structural)]
pub enum CompareOp {
    Eq,
    Ne,
    Lt,
    Gt,
    Le,
    Ge,
}

/// A logical operator.
#[derive(Clone, Copy, Debug, PartialEq, Eq, Structural)]
pub enum LogicOp {
    And,
    Or,
}

/// The typed instruction of an arithmetic operator.
pub open spec fn arith_data(op: ArithOp, l: AirRef, r: AirRef) -> AirInstData {
    match op {
        ArithOp::Add => AirInstData::Add(l, r),
        ArithOp::Sub => AirInstData::Sub(l, r),
        ArithOp::Mul => AirInstData::Mul(l, r),
        ArithOp::Div => AirInstData::Div(l, r),
        ArithOp::Mod => AirInstData::Mod(l, r),
        ArithOp::BitAnd => AirInstData::BitAnd(l, r),
        ArithOp::BitOr => AirInstData::BitOr(l, r),
        ArithOp::BitXor => AirInstData::BitXor(l, r),
        ArithOp::Shl => AirInstData::Shl(l, r),
        ArithOp::Shr => AirInstData::Shr(l, r),
    }
}

/// The typed instruction of a comparison operator.
pub open spec fn compare_data(op: CompareOp, l: AirRef, r: AirRef) -> AirInstData {
    match op {
        CompareOp::Eq => AirInstData::Eq(l, r),
        CompareOp::Ne => AirInstData::Ne(l, r),
        CompareOp::Lt => AirInstData::Lt(l, r),
        CompareOp::Gt => AirInstData::Gt(l, r),
        CompareOp::Le => AirInstData::Le(l, r),
        CompareOp::Ge => AirInstData::Ge(l, r),
    }
}

/// The arithmetic operator a typed instruction performs, with its operands.
pub open spec fn arith_performed(d: AirInstData) -> Option<(ArithOp, AirRef, AirRef)> {
    match d {
        AirInstData::Add(l, r) => Some((ArithOp::Add, l, r)),
        AirInstData::Sub(l, r) => Some((ArithOp::Sub, l, r)),
        AirInstData::Mul(l, r) => Some((ArithOp::Mul, l, r)),
        AirInstData::Div(l, r) => Some((ArithOp::Div, l, r)),
        AirInstData::Mod(l, r) => Some((ArithOp::Mod, l, r)),
        AirInstData::BitAnd(l, r) => Some((ArithOp::BitAnd, l, r)),
        AirInstData::BitOr(l, r) => Some((ArithOp::BitOr, l, r)),
        AirInstData::BitXor(l, r) => Some((ArithOp::BitXor, l, r)),
        AirInstData::Shl(l, r) => Some((ArithOp::Shl, l, r)),
        AirInstData::Shr(l, r) => Some((ArithOp::Shr, l, r)),
        _ => None,
    }
}

/// The comparison a typed instruction performs, with its operands.
pub open spec fn comparison_performed(d: AirInstData) -> Option<(CompareOp, AirRef, AirRef)> {
    match d {
        AirInstData::Eq(l, r) => Some((CompareOp::Eq, l, r)),
        AirInstData::Ne(l, r) => Some((CompareOp::Ne, l, r)),
        AirInstData::Lt(l, r) => Some((CompareOp::Lt, l, r)),
        AirInstData::Gt(l, r) => Some((CompareOp::Gt, l, r)),
        AirInstData::Le(l, r) => Some((CompareOp::Le, l, r)),
        AirInstData::Ge(l, r) => Some((CompareOp::Ge, l, r)),
        _ => None,
    }
}

/// The logical operator a typed instruction performs, with its operands.
pub open spec fn logic_performed(d: AirInstData) -> Option<(LogicOp, AirRef, AirRef)> {
    match d {
        AirInstData::And(l, r) => Some((LogicOp::And, l, r)),
        AirInstData::Or(l, r) => Some((LogicOp::Or, l, r)),
        _ => None,
    }
}

/// The typed instruction of a logical operator.
pub open spec fn logic_data(op: LogicOp, l: AirRef, r: AirRef) -> AirInstData {
    match op {
        LogicOp::And => AirInstData::And(l, r),
        LogicOp::Or => AirInstData::Or(l, r),
    }
}

/// The typed instruction of an arithmetic operator performs that very
/// operator on the operands in order (`a % b` is a remainder of `a` by
/// `b`, never a quotient), so no two operators share an instruction.
pub proof fn law_arith_instruction_performs_its_operator(op: ArithOp, l: AirRef, r: AirRef)
    ensures
        arith_performed(arith_data(op, l, r)) == Some((op, l, r)),
        comparison_performed(arith_data(op, l, r)) is None,
        forall|o: ArithOp| #[trigger] arith_data(o, l, r) == arith_data(op, l, r) ==> o == op,
{
    assert forall|o: ArithOp| #[trigger] arith_data(o, l, r) == arith_data(op, l, r) implies o == op by {
        assert(arith_performed(arith_data(o, l, r)) == Some((o, l, r)));
    }
}

/// The typed instruction of a comparison performs that very comparison on
/// the operands in order (`a <= b` is never `a < b`), and is no arithmetic.
pub proof fn law_comparison_instruction_performs_its_operator(op: CompareOp, l: AirRef, r: AirRef)
    ensures
        comparison_performed(compare_data(op, l, r)) == Some((op, l, r)),
        arith_performed(compare_data(op, l, r)) is None,
        forall|o: CompareOp| #[trigger] compare_data(o, l, r) == compare_data(op, l, r) ==> o == op,
{
    assert forall|o: CompareOp| #[trigger] compare_data(o, l, r) == compare_data(op, l, r) implies o == op by {
        assert(comparison_performed(compare_data(o, l, r)) == Some((o, l, r)));
    }
}

/// The typed instruction of a logical operator performs that very operator
/// on the operands in order.
pub proof fn law_logic_instruction_performs_its_operator(op: LogicOp, l: AirRef, r: AirRef)
    ensures
        logic_performed(logic_data(op, l, r)) == Some((op, l, r)),
        comparison_performed(logic_data(op, l, r)) is None,
        arith_performed(logic_data(op, l, r)) is None,
{
}

/// An operand type an integer operator accepts: an integer type, or a type
/// that already stands for a reported error or a value that never exists.
pub open spec fn integer_or_absorbing(t: Type) -> bool {
    t.spec_is_integer() || t is Error || t is Never
}

/// The types `==` and `!=` compare: integers, booleans, unit and structs
/// (strings among them).
pub open spec fn equatable(t: Type) -> bool {
    t.spec_is_integer() || t is Bool || t is Unit || t is Struct
}

/// `e` is a type mismatch error at `span` that expected `expected` and found type `found`.
pub open spec fn is_type_mismatch(e: CompileError, expected: Seq<char>, found: Type, span: Span) -> bool {
    e.span == span && match e.kind {
        ErrorKind::TypeMismatch { expected: x, found: f } => x@ == expected && f@ == name_of_type(found),
        _ => false,
    }
}

/// `after` is `before` with one more instruction.
pub open spec fn appended(before: Air, after: Air, inst: AirInst) -> bool {
    &&& after.instructions@ == before.instructions@.push(inst)
    &&& after.extra == before.extra
    &&& after.return_type == before.return_type
}

/// The bit pattern (as a `u64`) of the smallest value of a signed type.
pub open spec fn min_literal_bits(t: Type) -> u64 {
    match t {
        Type::I8 => 0xFFFF_FFFF_FFFF_FF80,
        Type::I16 => 0xFFFF_FFFF_FFFF_8000,
        Type::I32 => 0xFFFF_FFFF_8000_0000,
        _ => 0x8000_0000_0000_0000,
    }
}

/// The message of the internal error for an instruction whose type
/// inference left no type.
pub open spec fn unresolved_message(what: Seq<char>, inst_ref: InstRef) -> Seq<char> {
    "type inference did not resolve type for "@ + what + " (instruction "@ + spec_decimal(inst_ref as u64)
        + ")"@
}

/// Append an instruction, returning its reference.
fn push_inst(air: &mut Air, data: AirInstData, ty: Type, span: Span) -> (r: AnalysisResult)
    requires
        old(air).instructions@.len() < u32::MAX,
    ensures
        appended(*old(air), *final(air), AirInst { data, ty, span }),
        r == (AnalysisResult { air_ref: old(air).instructions@.len() as u32, ty }),
{
    let air_ref = air.add_inst(AirInst { data, ty, span });
    AnalysisResult::new(air_ref, ty)
}

impl<'a> Sema<'a> {
    /// The type inference gave instruction `inst_ref`.
    pub fn get_resolved_type(ctx: &AnalysisContext, inst_ref: InstRef, span: Span, context: &str) -> (r:
        Result<Type, CompileError>)
        ensures
            ctx.resolved_types@.contains_key(inst_ref) ==> r == Ok::<Type, CompileError>(
                ctx.resolved_types@[inst_ref],
            ),
            !ctx.resolved_types@.contains_key(inst_ref) ==> match r {
                Err(e) => e.span == span && match e.kind {
                    ErrorKind::InternalError(m) => m@ == unresolved_message(context@, inst_ref),
                    _ => false,
                },
                Ok(_) => false,
            },
    {
        match ctx.resolved_types.get(&inst_ref) {
            Some(t) => Ok(*t),
            None => {
                let message = String::from_str("type inference did not resolve type for ").concat(context).concat(
                    " (instruction ",
                ).concat(decimal(inst_ref as u64).as_str()).concat(")");
                Err(CompileError::new(ErrorKind::InternalError(message), span))
            },
        }
    }

    /// Analyze `comptime { expr }` in a function body (instruction
    /// `inst_ref`): the expression is evaluated at compile time and its value
    /// becomes a constant. An integer takes the type inference gave the block
    /// and must be non-negative and fit in it; a boolean or unit value is
    /// itself; a type cannot exist at run time; an expression that cannot be
    /// evaluated is an error.
    pub fn analyze_comptime_block(
        &mut self,
        air: &mut Air,
        inst_ref: InstRef,
        expr: InstRef,
        span: Span,
        ctx: &AnalysisContext,
    ) -> (r: Result<AnalysisResult, CompileError>)
        requires
            old(self).rir.wf(),
            expr < old(self).rir.instructions@.len(),
            old(air).instructions@.len() < u32::MAX,
        ensures
            *final(self) == *old(self),
            ({
                let next = old(air).instructions@.len() as u32;
                match const_value_in(old(self).rir, expr, Some(old(self).type_env())) {
                    Some(ConstValue::Integer(v)) => if !ctx.resolved_types@.contains_key(inst_ref) {
                        &&& *final(air) == *old(air)
                        &&& r matches Err(e) && e.span == span && (e.kind matches ErrorKind::InternalError(m)
                            && m@ == unresolved_message("comptime block"@, inst_ref))
                    } else {
                        let t = ctx.resolved_types@[inst_ref];
                        if v < 0 {
                            &&& *final(air) == *old(air)
                            &&& r matches Err(e) && e.span == span && (e.kind matches ErrorKind::ComptimeEvaluationFailed {
                                reason,
                            } && reason@ == "negative values not yet supported in comptime"@)
                        } else if !t.literal_fits_spec(v as u64) {
                            &&& *final(air) == *old(air)
                            &&& r matches Err(e) && e.span == span && (e.kind matches ErrorKind::LiteralOutOfRange {
                                value,
                                ty,
                            } && value == v as u64 && ty@ == name_of_type(t))
                        } else {
                            &&& r == Ok::<AnalysisResult, CompileError>(AnalysisResult { air_ref: next, ty: t })
                            &&& appended(
                                *old(air),
                                *final(air),
                                AirInst { data: AirInstData::IntConst(v as u64), ty: t, span },
                            )
                        }
                    },
                    Some(ConstValue::Bool(b)) => {
                        &&& r == Ok::<AnalysisResult, CompileError>(AnalysisResult { air_ref: next, ty: Type::Bool })
                        &&& appended(*old(air), *final(air), AirInst { data: AirInstData::BoolConst(b), ty: Type::Bool, span })
                    },
                    Some(ConstValue::Unit) => {
                        &&& r == Ok::<AnalysisResult, CompileError>(AnalysisResult { air_ref: next, ty: Type::Unit })
                        &&& appended(*old(air), *final(air), AirInst { data: AirInstData::UnitConst, ty: Type::Unit, span })
                    },
                    Some(ConstValue::Type(_)) => {
                        &&& *final(air) == *old(air)
                        &&& r matches Err(e) && e.span == span && (e.kind matches ErrorKind::ComptimeEvaluationFailed {
                            reason,
                        } && reason@ == "type values cannot exist at runtime"@)
                    },
                    None => {
                        &&& *final(air) == *old(air)
                        &&& r matches Err(e) && e.span == span && (e.kind matches ErrorKind::ComptimeEvaluationFailed {
                            reason,
                        } && reason@ == "expression contains values that cannot be known at compile time"@)
                    },
                }
            }),
    {
        match self.try_evaluate_const(expr) {
            Some(ConstValue::Integer(value)) => {
                let ty = match Self::get_resolved_type(ctx, inst_ref, span, "comptime block") {
                    Ok(t) => t,
                    Err(e) => {
                        return Err(e);
                    },
                };
                if value < 0 {
                    return Err(
                        CompileError::new(
                            ErrorKind::ComptimeEvaluationFailed {
                                reason: "negative values not yet supported in comptime".to_string(),
                            },
                            span,
                        ),
                    );
                }
                let unsigned_value = value as u64;
                if !ty.literal_fits(unsigned_value) {
                    return Err(
                        CompileError::new(ErrorKind::LiteralOutOfRange { value: unsigned_value, ty: ty.name() }, span),
                    );
                }
                Ok(push_inst(air, AirInstData::IntConst(unsigned_value), ty, span))
            },
            Some(ConstValue::Bool(value)) => Ok(push_inst(air, AirInstData::BoolConst(value), Type::Bool, span)),
            Some(ConstValue::Unit) => Ok(push_inst(air, AirInstData::UnitConst, Type::Unit, span)),
            Some(ConstValue::Type(_)) => Err(
                CompileError::new(
                    ErrorKind::ComptimeEvaluationFailed { reason: "type values cannot exist at runtime".to_string() },
                    span,
                ),
            ),
            None => Err(
                CompileError::new(
                    ErrorKind::ComptimeEvaluationFailed {
                        reason: "expression contains values that cannot be known at compile time".to_string(),
                    },
                    span,
                ),
            ),
        }
    }

    /// Analyze a literal constant instruction: an integer, boolean, string
    /// or unit constant.
    ///
    /// An integer literal takes the type inference gave it and must fit in
    /// it. A string literal is added to the function's string table and has
    /// the builtin `String` type.
    pub fn analyze_literal(&mut self, air: &mut Air, inst_ref: InstRef, ctx: &mut AnalysisContext) -> (r:
        Result<AnalysisResult, CompileError>)
        requires
            inst_ref < old(self).rir.instructions@.len(),
            old(air).instructions@.len() < u32::MAX,
            old(ctx).local_strings@.len() < u32::MAX,
            old(self).rir.instructions@[inst_ref as int].data matches InstData::StringConst(s) ==> {
                &&& old(self).builtin_string_id is Some
                &&& interned(old(self).interner).contains_key(s)
            },
        ensures
            *final(self) == *old(self),
            ({
                let inst = old(self).rir.instructions@[inst_ref as int];
                let next = old(air).instructions@.len() as u32;
                match inst.data {
                    InstData::IntConst(v) => if !old(ctx).resolved_types@.contains_key(inst_ref) {
                        &&& *final(air) == *old(air)
                        &&& *final(ctx) == *old(ctx)
                        &&& r matches Err(e) && e.span == inst.span && (e.kind matches ErrorKind::InternalError(m)
                            && m@ == unresolved_message("integer literal"@, inst_ref))
                    } else {
                        let t = old(ctx).resolved_types@[inst_ref];
                        &&& *final(ctx) == *old(ctx)
                        &&& if t.literal_fits_spec(v) {
                            &&& r == Ok::<AnalysisResult, CompileError>(
                                AnalysisResult { air_ref: next, ty: t },
                            )
                            &&& appended(*old(air), *final(air), AirInst { data: AirInstData::IntConst(v), ty: t, span: inst.span })
                        } else {
                            &&& *final(air) == *old(air)
                            &&& r matches Err(e) && e.span == inst.span && match e.kind {
                                ErrorKind::LiteralOutOfRange { value, ty } => value == v && ty@ == name_of_type(t),
                                _ => false,
                            }
                        }
                    },
                    InstData::BoolConst(b) => {
                        &&& *final(ctx) == *old(ctx)
                        &&& r == Ok::<AnalysisResult, CompileError>(AnalysisResult { air_ref: next, ty: Type::Bool })
                        &&& appended(*old(air), *final(air), AirInst { data: AirInstData::BoolConst(b), ty: Type::Bool, span: inst.span })
                    },
                    InstData::StringConst(s) => {
                        let t = Type::Struct(old(self).builtin_string_id->0);
                        let id = old(ctx).local_strings@.len() as u32;
                        &&& final(ctx).local_strings@.len() == old(ctx).local_strings@.len() + 1
                        &&& final(ctx).local_strings@.last()@ == interned(old(self).interner)[s]
                        &&& final(ctx).local_strings@.drop_last() == old(ctx).local_strings@
                        &&& final(ctx).locals == old(ctx).locals
                        &&& final(ctx).scope_stack == old(ctx).scope_stack
                        &&& final(ctx).moved_vars == old(ctx).moved_vars
                        &&& final(ctx).warnings == old(ctx).warnings
                        &&& final(ctx).params == old(ctx).params
                        &&& final(ctx).next_slot == old(ctx).next_slot
                        &&& final(ctx).loop_depth == old(ctx).loop_depth
                        &&& final(ctx).return_type == old(ctx).return_type
                        &&& final(ctx).resolved_types == old(ctx).resolved_types
                        &&& final(ctx).comptime_type_vars == old(ctx).comptime_type_vars
                        &&& r == Ok::<AnalysisResult, CompileError>(AnalysisResult { air_ref: next, ty: t })
                        &&& appended(*old(air), *final(air), AirInst { data: AirInstData::StringConst(id), ty: t, span: inst.span })
                    },
                    InstData::UnitConst => {
                        &&& *final(ctx) == *old(ctx)
                        &&& r == Ok::<AnalysisResult, CompileError>(AnalysisResult { air_ref: next, ty: Type::Unit })
                        &&& appended(*old(air), *final(air), AirInst { data: AirInstData::UnitConst, ty: Type::Unit, span: inst.span })
                    },
                    _ => {
                        &&& *final(air) == *old(air)
                        &&& *final(ctx) == *old(ctx)
                        &&& r matches Err(e) && e.span == inst.span && e.kind is InternalError
                    },
                }
            }),
    {
        let inst = *self.rir.get(inst_ref);
        match inst.data {
            InstData::IntConst(value) => {
                // The type comes from type inference
                let ty = match Self::get_resolved_type(ctx, inst_ref, inst.span, "integer literal") {
                    Ok(t) => t,
                    Err(e) => return Err(e),
                };
                // The literal value must fit in the target type's range
                if !ty.literal_fits(value) {
                    return Err(
                        CompileError::new(
                            ErrorKind::LiteralOutOfRange { value, ty: ty.name() },
                            inst.span,
                        ),
                    );
                }
                Ok(push_inst(air, AirInstData::IntConst(value), ty, inst.span))
            },
            InstData::BoolConst(value) => Ok(push_inst(air, AirInstData::BoolConst(value), Type::Bool, inst.span)),
            InstData::StringConst(symbol) => {
                // String literals use the builtin String struct type
                let ty = self.builtin_string_type();
                // Add the string to the function's own string table
                let string_content = self.resolve(symbol).to_string();
                let local_string_id = ctx.add_local_string(string_content);
                Ok(push_inst(air, AirInstData::StringConst(local_string_id), ty, inst.span))
            },
            InstData::UnitConst => Ok(push_inst(air, AirInstData::UnitConst, Type::Unit, inst.span)),
            _ => Err(
                CompileError::new(
                    ErrorKind::InternalError("analyze_literal called with non-literal instruction".to_string()),
                    inst.span,
                ),
            ),
        }
    }
}

impl<'a> Sema<'a> {
    /// The type of a negation `-operand`: the type inference gave it, which
    /// must not be unsigned.
    pub fn negation_type(ctx: &AnalysisContext, inst_ref: InstRef, span: Span) -> (r: Result<Type, CompileError>)
        ensures
            !ctx.resolved_types@.contains_key(inst_ref) ==> match r {
                Err(e) => e.span == span && (e.kind matches ErrorKind::InternalError(m) && m@ == unresolved_message(
                    "negation operator"@,
                    inst_ref,
                )),
                Ok(_) => false,
            },
            ctx.resolved_types@.contains_key(inst_ref) ==> ({
                let t = ctx.resolved_types@[inst_ref];
                if t.spec_is_unsigned() {
                    match r {
                        Err(e) => e.span == span && match e.kind {
                            ErrorKind::CannotNegateUnsigned(n) => n@ == name_of_type(t),
                            _ => false,
                        } && match e.note {
                            Some(n) => n@ == "unsigned values cannot be negated"@,
                            None => false,
                        },
                        Ok(_) => false,
                    }
                } else {
                    r == Ok::<Type, CompileError>(t)
                }
            }),
    {
        let ty = match Self::get_resolved_type(ctx, inst_ref, span, "negation operator") {
            Ok(t) => t,
            Err(e) => return Err(e),
        };
        // Unsigned values cannot be negated
        if ty.is_unsigned() {
            return Err(
                CompileError::new(ErrorKind::CannotNegateUnsigned(ty.name()), span).with_note(
                    "unsigned values cannot be negated".to_string(),
                ),
            );
        }
        Ok(ty)
    }

    /// Negating a literal equal to the magnitude of the smallest value of a
    /// signed type (`-128` for `i8`): the literal alone does not fit, so the
    /// smallest value is stored directly. Returns `None`, changing nothing,
    /// when the operand is not such a literal; the operand is then analyzed
    /// as any other.
    pub fn fold_negated_min_literal(&self, air: &mut Air, operand: InstRef, ty: Type, span: Span) -> (r: Option<
        AnalysisResult,
    >)
        requires
            operand < self.rir.instructions@.len(),
            old(air).instructions@.len() < u32::MAX,
        ensures
            match self.rir.instructions@[operand as int].data {
                InstData::IntConst(v) => if ty.negated_literal_fits_spec(v) && !ty.literal_fits_spec(v) {
                    &&& r == Some(AnalysisResult { air_ref: old(air).instructions@.len() as u32, ty })
                    &&& appended(
                        *old(air),
                        *final(air),
                        AirInst { data: AirInstData::IntConst(min_literal_bits(ty)), ty, span },
                    )
                } else {
                    r is None && *final(air) == *old(air)
                },
                _ => r is None && *final(air) == *old(air),
            },
    {
        let operand_inst = self.rir.get(operand);
        if let InstData::IntConst(value) = operand_inst.data {
            if ty.negated_literal_fits(value) && !ty.literal_fits(value) {
                // The MIN value case: store the smallest value directly
                let neg_value: u64 = match ty {
                    Type::I8 => 0xFFFF_FFFF_FFFF_FF80,
                    Type::I16 => 0xFFFF_FFFF_FFFF_8000,
                    Type::I32 => 0xFFFF_FFFF_8000_0000,
                    _ => 0x8000_0000_0000_0000,
                };
                return Some(push_inst(air, AirInstData::IntConst(neg_value), ty, span));
            }
        }
        None
    }

    /// The negation of an analyzed operand, of the negation's type.
    pub fn analyze_neg(air: &mut Air, operand: AnalysisResult, ty: Type, span: Span) -> (r: AnalysisResult)
        requires
            old(air).instructions@.len() < u32::MAX,
        ensures
            r == (AnalysisResult { air_ref: old(air).instructions@.len() as u32, ty }),
            appended(*old(air), *final(air), AirInst { data: AirInstData::Neg(operand.air_ref), ty, span }),
    {
        push_inst(air, AirInstData::Neg(operand.air_ref), ty, span)
    }

    /// Logical not of an analyzed operand: a boolean.
    pub fn analyze_not(air: &mut Air, operand: AnalysisResult, span: Span) -> (r: AnalysisResult)
        requires
            old(air).instructions@.len() < u32::MAX,
        ensures
            r == (AnalysisResult { air_ref: old(air).instructions@.len() as u32, ty: Type::Bool }),
            appended(
                *old(air),
                *final(air),
                AirInst { data: AirInstData::Not(operand.air_ref), ty: Type::Bool, span },
            ),
    {
        push_inst(air, AirInstData::Not(operand.air_ref), Type::Bool, span)
    }

    /// The type of a bitwise not `!operand` on integers: the type inference
    /// gave it, which must be an integer type.
    pub fn bit_not_type(ctx: &AnalysisContext, inst_ref: InstRef, span: Span) -> (r: Result<Type, CompileError>)
        ensures
            !ctx.resolved_types@.contains_key(inst_ref) ==> match r {
                Err(e) => e.span == span && (e.kind matches ErrorKind::InternalError(m) && m@ == unresolved_message(
                    "bitwise NOT operator"@,
                    inst_ref,
                )),
                Ok(_) => false,
            },
            ctx.resolved_types@.contains_key(inst_ref) ==> ({
                let t = ctx.resolved_types@[inst_ref];
                if integer_or_absorbing(t) {
                    r == Ok::<Type, CompileError>(t)
                } else {
                    match r {
                        Err(e) => is_type_mismatch(e, "integer type"@, t, span),
                        Ok(_) => false,
                    }
                }
            }),
    {
        let ty = match Self::get_resolved_type(ctx, inst_ref, span, "bitwise NOT operator") {
            Ok(t) => t,
            Err(e) => return Err(e),
        };
        // Bitwise NOT operates on integer types only
        if !ty.is_integer() && !ty.is_error() && !ty.is_never() {
            return Err(
                CompileError::new(
                    ErrorKind::TypeMismatch { expected: "integer type".to_string(), found: ty.name() },
                    span,
                ),
            );
        }
        Ok(ty)
    }

    /// Bitwise not of an analyzed operand, of the operator's type.
    pub fn analyze_bit_not(air: &mut Air, operand: AnalysisResult, ty: Type, span: Span) -> (r: AnalysisResult)
        requires
            old(air).instructions@.len() < u32::MAX,
        ensures
            r == (AnalysisResult { air_ref: old(air).instructions@.len() as u32, ty }),
            appended(*old(air), *final(air), AirInst { data: AirInstData::BitNot(operand.air_ref), ty, span }),
    {
        push_inst(air, AirInstData::BitNot(operand.air_ref), ty, span)
    }

    /// Analyze a binary arithmetic or bitwise operator on analyzed operands.
    ///
    /// Both operands have the same type (type inference saw to it); it must
    /// be an integer type, which is also the result's type.
    pub fn analyze_binary_arith(
        air: &mut Air,
        op: ArithOp,
        lhs: AnalysisResult,
        rhs: AnalysisResult,
        span: Span,
    ) -> (r: Result<AnalysisResult, CompileError>)
        requires
            old(air).instructions@.len() < u32::MAX,
        ensures
            integer_or_absorbing(lhs.ty) ==> r == Ok::<AnalysisResult, CompileError>(
                AnalysisResult { air_ref: old(air).instructions@.len() as u32, ty: lhs.ty },
            ) && appended(
                *old(air),
                *final(air),
                AirInst { data: arith_data(op, lhs.air_ref, rhs.air_ref), ty: lhs.ty, span },
            ),
            !integer_or_absorbing(lhs.ty) ==> *final(air) == *old(air) && match r {
                Err(e) => is_type_mismatch(e, "integer type"@, lhs.ty, span),
                Ok(_) => false,
            },
    {
        // Verify the type is integer (type inference should have enforced this)
        if !lhs.ty.is_integer() && !lhs.ty.is_error() && !lhs.ty.is_never() {
            return Err(
                CompileError::new(
                    ErrorKind::TypeMismatch { expected: "integer type".to_string(), found: lhs.ty.name() },
                    span,
                ),
            );
        }
        let data = match op {
            ArithOp::Add => AirInstData::Add(lhs.air_ref, rhs.air_ref),
            ArithOp::Sub => AirInstData::Sub(lhs.air_ref, rhs.air_ref),
            ArithOp::Mul => AirInstData::Mul(lhs.air_ref, rhs.air_ref),
            ArithOp::Div => AirInstData::Div(lhs.air_ref, rhs.air_ref),
            ArithOp::Mod => AirInstData::Mod(lhs.air_ref, rhs.air_ref),
            ArithOp::BitAnd => AirInstData::BitAnd(lhs.air_ref, rhs.air_ref),
            ArithOp::BitOr => AirInstData::BitOr(lhs.air_ref, rhs.air_ref),
            ArithOp::BitXor => AirInstData::BitXor(lhs.air_ref, rhs.air_ref),
            ArithOp::Shl => AirInstData::Shl(lhs.air_ref, rhs.air_ref),
            ArithOp::Shr => AirInstData::Shr(lhs.air_ref, rhs.air_ref),
        };
        Ok(push_inst(air, data, lhs.ty, span))
    }

    /// Comparisons do not chain: `a < b < c` parses as `(a < b) < c`, so the
    /// left operand of a comparison must not itself be one. Checked before
    /// the operands are analyzed.
    pub fn check_chained_comparison(&self, lhs: InstRef, span: Span) -> (r: Result<(), CompileError>)
        requires
            lhs < self.rir.instructions@.len(),
        ensures
            r is Ok <==> !crate::calls::is_comparison_data(self.rir.instructions@[lhs as int].data),
            r matches Err(e) ==> (e.span == span && e.kind is ChainedComparison && match e.help {
                Some(h) => h@ == "use `&&` to combine comparisons: `a < b && b < c`"@,
                None => false,
            }),
    {
        if self.is_comparison(lhs) {
            return Err(
                CompileError::new(ErrorKind::ChainedComparison, span).with_help(
                    "use `&&` to combine comparisons: `a < b && b < c`".to_string(),
                ),
            );
        }
        Ok(())
    }

    /// Analyze a comparison of analyzed operands (which comparisons read
    /// without consuming). The result is a boolean.
    ///
    /// `==` and `!=` compare integers, booleans, unit and structs (strings
    /// among them); the ordering operators compare integers only. An operand
    /// of a type that stands for a reported error or for no value is accepted.
    pub fn analyze_comparison(
        &self,
        air: &mut Air,
        op: CompareOp,
        lhs_inst: InstRef,
        lhs: AnalysisResult,
        rhs: AnalysisResult,
        span: Span,
    ) -> (r: Result<AnalysisResult, CompileError>)
        requires
            lhs_inst < self.rir.instructions@.len(),
            old(air).instructions@.len() < u32::MAX,
        ensures
            ({
                let ok = {
                    ||| lhs.ty is Never
                    ||| lhs.ty is Error
                    ||| (op is Eq || op is Ne) && equatable(lhs.ty)
                    ||| !(op is Eq || op is Ne) && lhs.ty.spec_is_integer()
                };
                let lhs_span = self.rir.instructions@[lhs_inst as int].span;
                if ok {
                    &&& r == Ok::<AnalysisResult, CompileError>(
                        AnalysisResult { air_ref: old(air).instructions@.len() as u32, ty: Type::Bool },
                    )
                    &&& appended(
                        *old(air),
                        *final(air),
                        AirInst { data: compare_data(op, lhs.air_ref, rhs.air_ref), ty: Type::Bool, span },
                    )
                } else {
                    &&& *final(air) == *old(air)
                    &&& r matches Err(e) && is_type_mismatch(
                        e,
                        if op is Eq || op is Ne {
                            "integer, bool, string, unit, or struct"@
                        } else {
                            "integer"@
                        },
                        lhs.ty,
                        lhs_span,
                    )
                }
            }),
    {
        let lhs_type = lhs.ty;
        let data = match op {
            CompareOp::Eq => AirInstData::Eq(lhs.air_ref, rhs.air_ref),
            CompareOp::Ne => AirInstData::Ne(lhs.air_ref, rhs.air_ref),
            CompareOp::Lt => AirInstData::Lt(lhs.air_ref, rhs.air_ref),
            CompareOp::Gt => AirInstData::Gt(lhs.air_ref, rhs.air_ref),
            CompareOp::Le => AirInstData::Le(lhs.air_ref, rhs.air_ref),
            CompareOp::Ge => AirInstData::Ge(lhs.air_ref, rhs.air_ref),
        };
        // Propagate Never/Error without additional type errors
        if lhs_type.is_never() || lhs_type.is_error() {
            return Ok(push_inst(air, data, Type::Bool, span));
        }
        let allow_bool = match op {
            CompareOp::Eq | CompareOp::Ne => true,
            _ => false,
        };
        if allow_bool {
            // Equality operators work on integers, booleans, strings, unit and structs
            let is_bool = match lhs_type {
                Type::Bool => true,
                _ => false,
            };
            let is_unit = match lhs_type {
                Type::Unit => true,
                _ => false,
            };
            if !lhs_type.is_integer() && !is_bool && !is_unit && !lhs_type.is_struct()
                && !self.is_builtin_string(lhs_type) {
                return Err(
                    CompileError::new(
                        ErrorKind::TypeMismatch {
                            expected: "integer, bool, string, unit, or struct".to_string(),
                            found: lhs_type.name(),
                        },
                        self.rir.get(lhs_inst).span,
                    ),
                );
            }
        } else if !lhs_type.is_integer() {
            return Err(
                CompileError::new(
                    ErrorKind::TypeMismatch { expected: "integer".to_string(), found: lhs_type.name() },
                    self.rir.get(lhs_inst).span,
                ),
            );
        }
        Ok(push_inst(air, data, Type::Bool, span))
    }

    /// Analyze a logical operator on analyzed operands: a boolean.
    pub fn analyze_logical_op(
        air: &mut Air,
        op: LogicOp,
        lhs: AnalysisResult,
        rhs: AnalysisResult,
        span: Span,
    ) -> (r: AnalysisResult)
        requires
            old(air).instructions@.len() < u32::MAX,
        ensures
            r == (AnalysisResult { air_ref: old(air).instructions@.len() as u32, ty: Type::Bool }),
            appended(
                *old(air),
                *final(air),
                AirInst { data: logic_data(op, lhs.air_ref, rhs.air_ref), ty: Type::Bool, span },
            ),
    {
        let data = match op {
            LogicOp::And => AirInstData::And(lhs.air_ref, rhs.air_ref),
            LogicOp::Or => AirInstData::Or(lhs.air_ref, rhs.air_ref),
        };
        push_inst(air, data, Type::Bool, span)
    }
}


/// The smallest value of each signed type, as the bits of a `u64`, is that
/// type's minimum sign-extended: `-128` for `i8` and so on.
pub proof fn law_min_literal_bits_are_the_minimum()
    ensures
        min_literal_bits(Type::I8) as i64 == -128i64,
        min_literal_bits(Type::I16) as i64 == -32768i64,
        min_literal_bits(Type::I32) as i64 == -2147483648i64,
        min_literal_bits(Type::I64) as i64 == i64::MIN,
{
    assert(0xFFFF_FFFF_FFFF_FF80u64 as i64 == -128i64) by (bit_vector);
    assert(0xFFFF_FFFF_FFFF_8000u64 as i64 == -32768i64) by (bit_vector);
    assert(0xFFFF_FFFF_8000_0000u64 as i64 == -2147483648i64) by (bit_vector);
    assert(0x8000_0000_0000_0000u64 as i64 == -9223372036854775808i64) by (bit_vector);
}

} // verus!
