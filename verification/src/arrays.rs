//! Arrays: literals, element reads and element stores.
//!
//! An element read copies the element out, so only arrays of `Copy`
//! elements can be indexed by value. An element store writes through a
//! variable, which must be a mutable local or an `inout` parameter. An index
//! written as a constant is checked against the array's length.
use vstd::prelude::*;

use crate::air::{Air, AirInst, AirInstData};
use crate::consteval::{literal_index, try_get_const_index_ctx};
use crate::context::{AnalysisContext, AnalysisResult, ParamMode};
use crate::diag::{CompileError, ErrorKind};
use crate::imports::symbols_interned;
use crate::interner::interned;
use crate::rir::{InstData, InstRef};
use crate::sema::Sema;
use crate::typing::appended;
use crate::types::{name_of_type, AirRef, Span, Type, TypePool};
use crate::variables::{moved_in, reports_use_after_move, use_after_move, AssignTarget};

verus! {

/// The array types the pool knows.
pub open spec fn array_known(pool: TypePool, ty: Type) -> bool {
    ty matches Type::Array(id) ==> id < pool.arrays@.len()
}

/// Every array type a variable of `ctx` has is known to the pool.
pub open spec fn variable_arrays_known(pool: TypePool, ctx: &AnalysisContext) -> bool {
    &&& forall|k| #[trigger] ctx.params@.contains_key(k) ==> array_known(pool, ctx.params@[k].ty)
    &&& forall|k| #[trigger] ctx.locals@.contains_key(k) ==> array_known(pool, ctx.locals@[k].ty)
}

/// The index a constant index expression names is outside an array of
/// `length` elements.
pub open spec fn out_of_bounds(c: i64, length: u64) -> bool {
    c < 0 || c >= length
}

/// `e` is the error a parameter that is not `inout` gives when it is stored into.
pub open spec fn reports_immutable_param(e: CompileError, text: Seq<char>, ty: Type, span: Span) -> bool {
    &&& e.span == span
    &&& e.kind matches ErrorKind::AssignToImmutable(n) && n@ == text
    &&& e.help matches Some(h) && h@ == "consider making parameter `"@ + text + "` inout: `inout "@ + text + ": "@
        + name_of_type(ty) + "`"@
    &&& e.label is None
}

/// An element store through parameter `name` is allowed: it is an `inout`
/// array parameter.
pub open spec fn param_store_ok(ctx: &AnalysisContext, name: crate::types::Sym) -> bool {
    let p = ctx.params@[name];
    p.mode == ParamMode::Inout && p.ty is Array
}

/// The error of an element store through parameter `name`, when it is one.
pub open spec fn reports_param_store_error(
    e: CompileError,
    ctx: &AnalysisContext,
    name: crate::types::Sym,
    text: Seq<char>,
    span: Span,
) -> bool {
    let p = ctx.params@[name];
    match p.mode {
        ParamMode::Borrow => e.span == span && e.label is None && e.help is None && (
        e.kind matches ErrorKind::MutateBorrowedValue { variable } && variable@ == text),
        ParamMode::Inout => e.span == span && e.label is None && e.help is None && (
        e.kind matches ErrorKind::IndexOnNonArray { found } && found@ == name_of_type(p.ty)),
        _ => reports_immutable_param(e, text, p.ty, span),
    }
}

pub(crate) fn immutable_param_error(name: &str, ty: Type, span: Span) -> (e: CompileError)
    ensures
        reports_immutable_param(e, name@, ty, span),
{
    let help = String::from_str("consider making parameter `").concat(name).concat("` inout: `inout ").concat(
        name,
    ).concat(": ").concat(ty.name().as_str()).concat("`");
    CompileError::new(ErrorKind::AssignToImmutable(name.to_string()), span).with_help(help)
}

impl<'a> Sema<'a> {
    /// The element store through parameter `name`: only `inout` array
    /// parameters can be stored into.
    fn param_store_target(&self, ctx: &AnalysisContext, name: crate::types::Sym, span: Span) -> (r: Result<
        (AssignTarget, Type, u64),
        CompileError,
    >)
        requires
            interned(self.interner).contains_key(name),
            ctx.params@.contains_key(name),
            variable_arrays_known(self.type_pool, ctx),
        ensures
            ({
                let p = ctx.params@[name];
                if param_store_ok(ctx, name) {
                    r matches Ok((t, ty, len)) && t == (AssignTarget::Param { abi_slot: p.abi_slot }) && ty == p.ty
                        && len == self.type_pool.arrays@[p.ty->Array_0 as int].len
                } else {
                    r matches Err(e) && reports_param_store_error(e, ctx, name, interned(self.interner)[name], span)
                }
            }),
    {
        let name_str = self.resolve(name);
        let p = *ctx.params.get(&name).unwrap();
        match p.mode {
            ParamMode::Normal | ParamMode::Comptime => Err(immutable_param_error(name_str, p.ty, span)),
            ParamMode::Borrow => Err(
                CompileError::new(ErrorKind::MutateBorrowedValue { variable: name_str.to_string() }, span),
            ),
            ParamMode::Inout => match p.ty {
                Type::Array(id) => {
                    assert(ctx.params@.contains_key(name));
                    Ok((AssignTarget::Param { abi_slot: p.abi_slot }, p.ty, self.type_pool.arrays[id as usize].len))
                },
                _ => Err(CompileError::new(ErrorKind::IndexOnNonArray { found: p.ty.name() }, span)),
            },
        }
    }

    /// Where an element store `base[i] = v` writes, checked before the
    /// index and the value are analyzed: `base` must name a variable that is
    /// not moved, that can be stored into (a mutable local or an `inout`
    /// parameter) and that holds an array. Returns the variable's slot, the
    /// array type and its length.
    pub fn index_set_target(&self, ctx: &AnalysisContext, base: InstRef, span: Span) -> (r: Result<
        (AssignTarget, Type, u64),
        CompileError,
    >)
        requires
            self.rir.wf(),
            base < self.rir.instructions@.len(),
            symbols_interned(self.rir, interned(self.interner)),
            variable_arrays_known(self.type_pool, ctx),
        ensures
            ({
                let names = interned(self.interner);
                let moved = ctx.moved_vars@;
                match self.rir.instructions@[base as int].data {
                    InstData::VarRef { name } => {
                        let text = names[name];
                        if moved_in(moved, name) {
                            r matches Err(e) && reports_use_after_move(e, text, span, moved[name])
                        } else if ctx.params@.contains_key(name) {
                            let p = ctx.params@[name];
                            if param_store_ok(ctx, name) {
                                r matches Ok((t, ty, len)) && t == (AssignTarget::Param { abi_slot: p.abi_slot })
                                    && ty == p.ty && len == self.type_pool.arrays@[p.ty->Array_0 as int].len
                            } else {
                                r matches Err(e) && reports_param_store_error(e, ctx, name, text, span)
                            }
                        } else if ctx.locals@.contains_key(name) {
                            let l = ctx.locals@[name];
                            if !l.is_mut {
                                r matches Err(e) && e.span == span && e.label is None && e.help is None && (
                                e.kind matches ErrorKind::AssignToImmutable(n) && n@ == text)
                            } else if l.ty is Array {
                                r matches Ok((t, ty, len)) && t == (AssignTarget::Local { slot: l.slot }) && ty
                                    == l.ty && len == self.type_pool.arrays@[l.ty->Array_0 as int].len
                            } else {
                                r matches Err(e) && e.span == span && (
                                e.kind matches ErrorKind::IndexOnNonArray { found } && found@ == name_of_type(l.ty))
                            }
                        } else {
                            r matches Err(e) && e.span == span && (e.kind matches ErrorKind::UndefinedVariable(n)
                                && n@ == text)
                        }
                    },
                    InstData::ParamRef { name } => {
                        let text = names[name];
                        if !ctx.params@.contains_key(name) {
                            r matches Err(e) && e.span == span && (e.kind matches ErrorKind::UndefinedVariable(n)
                                && n@ == text)
                        } else if moved_in(moved, name) {
                            r matches Err(e) && reports_use_after_move(e, text, span, moved[name])
                        } else {
                            let p = ctx.params@[name];
                            if param_store_ok(ctx, name) {
                                r matches Ok((t, ty, len)) && t == (AssignTarget::Param { abi_slot: p.abi_slot })
                                    && ty == p.ty && len == self.type_pool.arrays@[p.ty->Array_0 as int].len
                            } else {
                                r matches Err(e) && reports_param_store_error(e, ctx, name, text, span)
                            }
                        }
                    },
                    _ => r matches Err(e) && e.span == span && e.kind == ErrorKind::InvalidAssignmentTarget,
                }
            }),
    {
        let inst = self.rir.get(base);
        proof {
            assert(crate::imports::inst_symbol(self.rir.instructions@[base as int].data) is Some ==> interned(
                self.interner,
            ).contains_key(crate::imports::inst_symbol(self.rir.instructions@[base as int].data)->0));
        }
        match inst.data {
            InstData::VarRef { name } => {
                let name_str = self.resolve(name);
                match ctx.moved_vars.get(&name) {
                    Some(state) => {
                        if state.is_any_part_moved().is_some() {
                            return Err(use_after_move(name_str, span, state));
                        }
                    },
                    None => {},
                }
                if ctx.params.contains_key(&name) {
                    return self.param_store_target(ctx, name, span);
                }
                let l = match ctx.locals.get(&name) {
                    Some(l) => *l,
                    None => {
                        return Err(CompileError::new(ErrorKind::UndefinedVariable(name_str.to_string()), span));
                    },
                };
                if !l.is_mut {
                    return Err(CompileError::new(ErrorKind::AssignToImmutable(name_str.to_string()), span));
                }
                match l.ty {
                    Type::Array(id) => {
                        assert(ctx.locals@.contains_key(name));
                        Ok((AssignTarget::Local { slot: l.slot }, l.ty, self.type_pool.arrays[id as usize].len))
                    },
                    _ => Err(CompileError::new(ErrorKind::IndexOnNonArray { found: l.ty.name() }, span)),
                }
            },
            InstData::ParamRef { name } => {
                let name_str = self.resolve(name);
                if !ctx.params.contains_key(&name) {
                    return Err(CompileError::new(ErrorKind::UndefinedVariable(name_str.to_string()), span));
                }
                match ctx.moved_vars.get(&name) {
                    Some(state) => {
                        if state.is_any_part_moved().is_some() {
                            return Err(use_after_move(name_str, span, state));
                        }
                    },
                    None => {},
                }
                self.param_store_target(ctx, name, span)
            },
            _ => Err(CompileError::new(ErrorKind::InvalidAssignmentTarget, span)),
        }
    }

    /// Check an index written as a constant (a literal, or a negated
    /// literal) against an array of `length` elements. The error points at
    /// the index.
    pub fn check_const_index(&self, index: InstRef, length: u64) -> (r: Result<(), CompileError>)
        requires
            self.rir.wf(),
            index < self.rir.instructions@.len(),
        ensures
            match literal_index(self.rir, index) {
                Some(c) => if out_of_bounds(c, length) {
                    r matches Err(e) && e.span == self.rir.instructions@[index as int].span && e.kind == (
                    ErrorKind::IndexOutOfBounds { index: c, length })
                } else {
                    r is Ok
                },
                None => r is Ok,
            },
    {
        match try_get_const_index_ctx(self.rir, index) {
            Some(c) => {
                if c < 0 || c as u64 >= length {
                    return Err(
                        CompileError::new(
                            ErrorKind::IndexOutOfBounds { index: c, length },
                            self.rir.get(index).span,
                        ),
                    );
                }
                Ok(())
            },
            None => Ok(()),
        }
    }

    /// Finish an element read `base[index]` once both are analyzed: the
    /// base must be an array, a constant index must be in bounds, and the
    /// element type must be `Copy` (an element cannot be moved out).
    pub fn finish_index_get(
        &self,
        air: &mut Air,
        base: AnalysisResult,
        index_inst: InstRef,
        index: AnalysisResult,
        span: Span,
    ) -> (r: Result<AnalysisResult, CompileError>)
        requires
            self.rir.wf(),
            index_inst < self.rir.instructions@.len(),
            array_known(self.type_pool, base.ty),
            old(air).instructions@.len() < u32::MAX,
        ensures
            match base.ty {
                Type::Array(id) => {
                    let def = self.type_pool.arrays@[id as int];
                    let c = literal_index(self.rir, index_inst);
                    if c is Some && out_of_bounds(c->0, def.len) {
                        &&& *final(air) == *old(air)
                        &&& r matches Err(e) && e.span == self.rir.instructions@[index_inst as int].span && e.kind
                            == (ErrorKind::IndexOutOfBounds { index: c->0, length: def.len })
                    } else if !self.type_pool.is_copy(def.elem) {
                        &&& *final(air) == *old(air)
                        &&& r matches Err(e) && e.span == span && (e.kind matches ErrorKind::MoveOutOfIndex {
                            element_type,
                        } && element_type@ == name_of_type(def.elem)) && (e.help matches Some(h) && h@
                            == "use explicit methods like swap() or take() to remove elements"@)
                    } else {
                        &&& r == Ok::<AnalysisResult, CompileError>(
                            AnalysisResult { air_ref: old(air).instructions@.len() as u32, ty: def.elem },
                        )
                        &&& appended(
                            *old(air),
                            *final(air),
                            AirInst {
                                data: AirInstData::IndexGet {
                                    base: base.air_ref,
                                    array_type: base.ty,
                                    index: index.air_ref,
                                },
                                ty: def.elem,
                                span,
                            },
                        )
                    }
                },
                _ => {
                    &&& *final(air) == *old(air)
                    &&& r matches Err(e) && e.span == span && (e.kind matches ErrorKind::IndexOnNonArray { found }
                        && found@ == name_of_type(base.ty))
                },
            },
    {
        let def = match base.ty {
            Type::Array(id) => &self.type_pool.arrays[id as usize],
            _ => {
                return Err(CompileError::new(ErrorKind::IndexOnNonArray { found: base.ty.name() }, span));
            },
        };
        match self.check_const_index(index_inst, def.len) {
            Ok(()) => {},
            Err(e) => {
                return Err(e);
            },
        }
        if !self.type_pool.is_type_copy(def.elem) {
            return Err(
                CompileError::new(
                    ErrorKind::MoveOutOfIndex { element_type: def.elem.name() },
                    span,
                ).with_help("use explicit methods like swap() or take() to remove elements".to_string()),
            );
        }
        let air_ref = air.add_inst(
            AirInst {
                data: AirInstData::IndexGet { base: base.air_ref, array_type: base.ty, index: index.air_ref },
                ty: def.elem,
                span,
            },
        );
        Ok(AnalysisResult::new(air_ref, def.elem))
    }

    /// Check an array literal of `count` elements against the array type
    /// inference gave it, before the elements are analyzed.
    pub fn check_array_init(&self, array_type: Type, count: usize, span: Span) -> (r: Result<(), CompileError>)
        requires
            array_known(self.type_pool, array_type),
        ensures
            match array_type {
                Type::Array(id) => {
                    let len = self.type_pool.arrays@[id as int].len;
                    if count != len {
                        r matches Err(e) && e.span == span && e.kind == (ErrorKind::ArrayLengthMismatch {
                            expected: len,
                            found: count as u64,
                        })
                    } else {
                        r is Ok
                    }
                },
                _ => r matches Err(e) && e.span == span && (e.kind matches ErrorKind::InternalError(m) && m@
                    == "Array literal inferred as non-array type: "@ + name_of_type(array_type)),
            },
    {
        match array_type {
            Type::Array(id) => {
                let len = self.type_pool.arrays[id as usize].len;
                if count as u64 != len {
                    return Err(
                        CompileError::new(ErrorKind::ArrayLengthMismatch { expected: len, found: count as u64 }, span),
                    );
                }
                Ok(())
            },
            _ => {
                let message = String::from_str("Array literal inferred as non-array type: ").concat(
                    array_type.name().as_str(),
                );
                Err(CompileError::new(ErrorKind::InternalError(message), span))
            },
        }
    }
}

/// Emit an element store once the index and the value are analyzed.
pub fn emit_index_set(
    air: &mut Air,
    target: AssignTarget,
    array_type: Type,
    index: AirRef,
    value: AirRef,
    span: Span,
) -> (r: AnalysisResult)
    requires
        old(air).instructions@.len() < u32::MAX,
    ensures
        r == (AnalysisResult { air_ref: old(air).instructions@.len() as u32, ty: Type::Unit }),
        appended(
            *old(air),
            *final(air),
            AirInst {
                data: match target {
                    AssignTarget::Param { abi_slot } => AirInstData::ParamIndexSet {
                        param_slot: abi_slot,
                        array_type,
                        index,
                        value,
                    },
                    AssignTarget::Local { slot } => AirInstData::IndexSet { slot, array_type, index, value },
                },
                ty: Type::Unit,
                span,
            },
        ),
{
    let data = match target {
        AssignTarget::Param { abi_slot } => AirInstData::ParamIndexSet {
            param_slot: abi_slot,
            array_type,
            index,
            value,
        },
        AssignTarget::Local { slot } => AirInstData::IndexSet { slot, array_type, index, value },
    };
    let air_ref = air.add_inst(AirInst { data, ty: Type::Unit, span });
    AnalysisResult::new(air_ref, Type::Unit)
}

/// Emit an array literal once its elements are analyzed: the elements go
/// to the extra array in order.
pub fn emit_array_init(air: &mut Air, array_type: Type, elems: &Vec<AirRef>, span: Span) -> (r: AnalysisResult)
    requires
        old(air).instructions@.len() < u32::MAX,
        old(air).extra@.len() + elems@.len() <= u32::MAX,
    ensures
        r == (AnalysisResult { air_ref: old(air).instructions@.len() as u32, ty: array_type }),
        final(air).extra@ == old(air).extra@ + elems@,
        final(air).instructions@ == old(air).instructions@.push(
            AirInst {
                data: AirInstData::ArrayInit {
                    elems_start: old(air).extra@.len() as u32,
                    elems_len: elems@.len() as u32,
                },
                ty: array_type,
                span,
            },
        ),
        final(air).return_type == old(air).return_type,
{
    let elems_start = air.add_extra(elems.as_slice());
    let air_ref = air.add_inst(
        AirInst { data: AirInstData::ArrayInit { elems_start, elems_len: elems.len() as u32 }, ty: array_type, span },
    );
    AnalysisResult::new(air_ref, array_type)
}

} // verus!
