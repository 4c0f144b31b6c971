//! Places read for a projection (`a.b`, `a[i].c`, a receiver that is only
//! borrowed): reading a variable or a field this way does not move it, and
//! an array element may be reached though it is not `Copy`.
use vstd::prelude::*;

use crate::air::{Air, AirInst, AirInstData};
use crate::consteval::const_value_in;
use crate::context::{AnalysisContext, AnalysisResult, ConstValue};
use crate::diag::{CompileError, ErrorKind};
use crate::fields::field_index_of;
use crate::interner::interned;
use crate::rir::InstRef;
use crate::sema::Sema;
use crate::typing::appended;
use crate::types::{name_of_type, Span, Sym, Type};

verus! {

/// The variable `name` was wholly moved, at `s`.
pub open spec fn fully_moved(ctx: &AnalysisContext, name: Sym) -> Option<Span> {
    if ctx.moved_vars@.contains_key(name) {
        ctx.moved_vars@[name]@.full
    } else {
        None
    }
}

/// `e` reports reading `text` at `span` after it was wholly moved at `at`.
pub open spec fn reports_full_move(e: CompileError, text: Seq<char>, span: Span, at: Span) -> bool {
    &&& e.span == span
    &&& e.kind matches ErrorKind::UseAfterMove(n) && n@ == text
    &&& e.label matches Some((m, s)) && m@ == "value moved here"@ && s == at
}

/// The integer constant an index expression evaluates to, if any.
pub open spec fn const_index(sema: &Sema, index: InstRef) -> Option<i64> {
    match const_value_in(sema.rir, index, Some(sema.type_env())) {
        Some(ConstValue::Integer(n)) => Some(n),
        _ => None,
    }
}

impl<'a> Sema<'a> {
    /// Read a variable as the start of a projection: it must not be wholly
    /// moved (a partly moved variable can still be projected from), and it
    /// is not moved by this read. A local counts as used.
    pub fn project_var(&self, air: &mut Air, ctx: &mut AnalysisContext, name: Sym, span: Span) -> (r: Result<
        AnalysisResult,
        CompileError,
    >)
        requires
            interned(self.interner).contains_key(name),
            old(air).instructions@.len() < u32::MAX,
        ensures
            final(ctx).next_slot == old(ctx).next_slot,
            final(ctx).loop_depth == old(ctx).loop_depth,
            final(ctx).return_type == old(ctx).return_type,
            final(ctx).resolved_types == old(ctx).resolved_types,
            final(ctx).comptime_type_vars == old(ctx).comptime_type_vars,
            final(ctx).moved_vars == old(ctx).moved_vars,
            final(ctx).locals == old(ctx).locals,
            final(ctx).params == old(ctx).params,
            final(ctx).scope_stack == old(ctx).scope_stack,
            final(ctx).warnings == old(ctx).warnings,
            ({
                let text = interned(self.interner)[name];
                let next = old(air).instructions@.len() as u32;
                if old(ctx).params@.contains_key(name) {
                    let p = old(ctx).params@[name];
                    &&& final(ctx).used_locals == old(ctx).used_locals
                    &&& match fully_moved(old(ctx), name) {
                        Some(at) => *final(air) == *old(air) && (r matches Err(e) && reports_full_move(
                            e,
                            text,
                            span,
                            at,
                        )),
                        None => r == Ok::<AnalysisResult, CompileError>(AnalysisResult { air_ref: next, ty: p.ty })
                            && appended(
                            *old(air),
                            *final(air),
                            AirInst { data: AirInstData::Param { index: p.abi_slot }, ty: p.ty, span },
                        ),
                    }
                } else if !old(ctx).locals@.contains_key(name) {
                    &&& final(ctx).used_locals == old(ctx).used_locals
                    &&& *final(air) == *old(air)
                    &&& r matches Err(e) && e.span == span && (e.kind matches ErrorKind::UndefinedVariable(n) && n@
                        == text)
                } else {
                    let l = old(ctx).locals@[name];
                    match fully_moved(old(ctx), name) {
                        Some(at) => {
                            &&& final(ctx).used_locals == old(ctx).used_locals
                            &&& *final(air) == *old(air)
                            &&& r matches Err(e) && reports_full_move(e, text, span, at)
                        },
                        None => {
                            &&& final(ctx).used_locals@ == old(ctx).used_locals@.insert(name)
                            &&& r == Ok::<AnalysisResult, CompileError>(AnalysisResult { air_ref: next, ty: l.ty })
                            &&& appended(
                                *old(air),
                                *final(air),
                                AirInst { data: AirInstData::Load { slot: l.slot }, ty: l.ty, span },
                            )
                        },
                    }
                }
            }),
    {
        let text = self.resolve(name);
        let full = match ctx.moved_vars.get(&name) {
            Some(state) => state.full_move(),
            None => None,
        };
        match ctx.params.get(&name) {
            Some(p) => {
                let p = *p;
                match full {
                    Some(at) => {
                        return Err(
                            CompileError::new(ErrorKind::UseAfterMove(text.to_string()), span).with_label(
                                "value moved here".to_string(),
                                at,
                            ),
                        );
                    },
                    None => {},
                }
                let air_ref = air.add_inst(AirInst { data: AirInstData::Param { index: p.abi_slot }, ty: p.ty, span });
                return Ok(AnalysisResult::new(air_ref, p.ty));
            },
            None => {},
        }
        let l = match ctx.locals.get(&name) {
            Some(l) => *l,
            None => {
                return Err(CompileError::new(ErrorKind::UndefinedVariable(text.to_string()), span));
            },
        };
        match full {
            Some(at) => {
                return Err(
                    CompileError::new(ErrorKind::UseAfterMove(text.to_string()), span).with_label(
                        "value moved here".to_string(),
                        at,
                    ),
                );
            },
            None => {},
        }
        ctx.used_locals.insert(name);
        let air_ref = air.add_inst(AirInst { data: AirInstData::Load { slot: l.slot }, ty: l.ty, span });
        Ok(AnalysisResult::new(air_ref, l.ty))
    }

    /// Select a field of a projected value: the value must be a struct with
    /// that field. Nothing is moved.
    pub fn project_field(&self, air: &mut Air, base: AnalysisResult, field: Sym, span: Span) -> (r: Result<
        AnalysisResult,
        CompileError,
    >)
        requires
            interned(self.interner).contains_key(field),
            base.ty matches Type::Struct(id) ==> id < self.type_pool.structs@.len()
                && self.type_pool.structs@[id as int].fields@.len() <= u32::MAX,
            old(air).instructions@.len() < u32::MAX,
        ensures
            ({
                let fname = interned(self.interner)[field];
                match base.ty {
                    Type::Struct(id) => {
                        let def = self.type_pool.structs@[id as int];
                        match field_index_of(def.fields@, fname) {
                            None => *final(air) == *old(air) && (r matches Err(e) && e.span == span && (
                            e.kind matches ErrorKind::UnknownField { struct_name, field_name } && struct_name@
                                == def.name@ && field_name@ == fname)),
                            Some(i) => {
                                let fty = def.fields@[i].ty;
                                &&& r == Ok::<AnalysisResult, CompileError>(
                                    AnalysisResult { air_ref: old(air).instructions@.len() as u32, ty: fty },
                                )
                                &&& appended(
                                    *old(air),
                                    *final(air),
                                    AirInst {
                                        data: AirInstData::FieldGet {
                                            base: base.air_ref,
                                            struct_id: id,
                                            field_index: i as u32,
                                        },
                                        ty: fty,
                                        span,
                                    },
                                )
                            },
                        }
                    },
                    _ => *final(air) == *old(air) && (r matches Err(e) && e.span == span && (
                    e.kind matches ErrorKind::FieldAccessOnNonStruct { found } && found@ == name_of_type(base.ty))),
                }
            }),
    {
        let id = match base.ty {
            Type::Struct(id) => id,
            _ => {
                return Err(CompileError::new(ErrorKind::FieldAccessOnNonStruct { found: base.ty.name() }, span));
            },
        };
        let def = &self.type_pool.structs[id as usize];
        let fname = self.resolve(field);
        let (index, f) = match def.find_field(fname) {
            Some(found) => found,
            None => {
                return Err(
                    CompileError::new(
                        ErrorKind::UnknownField { struct_name: def.name.clone(), field_name: fname.to_string() },
                        span,
                    ),
                );
            },
        };
        proof {
            crate::fields::lemma_field_index_of(def.fields@, fname@);
        }
        let fty = f.ty;
        let air_ref = air.add_inst(
            AirInst { data: AirInstData::FieldGet { base: base.air_ref, struct_id: id, field_index: index as u32 }, ty: fty, span },
        );
        Ok(AnalysisResult::new(air_ref, fty))
    }

    /// Select an element of a projected array once the index is analyzed:
    /// the value must be an array, the index an unsigned integer, and a
    /// constant index within bounds. The element need not be `Copy`, since
    /// it is only projected from.
    pub fn project_index(
        &mut self,
        air: &mut Air,
        base: AnalysisResult,
        index_inst: InstRef,
        index: AnalysisResult,
        span: Span,
    ) -> (r: Result<AnalysisResult, CompileError>)
        requires
            old(self).rir.wf(),
            index_inst < old(self).rir.instructions@.len(),
            base.ty matches Type::Array(id) ==> id < old(self).type_pool.arrays@.len(),
            old(air).instructions@.len() < u32::MAX,
        ensures
            *final(self) == *old(self),
            ({
                let index_span = old(self).rir.instructions@[index_inst as int].span;
                match base.ty {
                    Type::Array(id) => {
                        let def = old(self).type_pool.arrays@[id as int];
                        let c = const_index(old(self), index_inst);
                        if !index.ty.spec_is_unsigned() && !(index.ty is Error) {
                            *final(air) == *old(air) && (r matches Err(e) && e.span == index_span && (
                            e.kind matches ErrorKind::TypeMismatch { expected, found } && expected@
                                == "unsigned integer type"@ && found@ == name_of_type(index.ty)))
                        } else if c is Some && (c->0 < 0 || c->0 >= def.len) {
                            *final(air) == *old(air) && (r matches Err(e) && e.span == index_span && e.kind == (
                            ErrorKind::IndexOutOfBounds { index: c->0, length: def.len }))
                        } else {
                            &&& r == Ok::<AnalysisResult, CompileError>(
                                AnalysisResult { air_ref: old(air).instructions@.len() as u32, ty: def.elem },
                            )
                            &&& appended(
                                *old(air),
                                *final(air),
                                AirInst {
                                    data: AirInstData::IndexGet {
                                        base: base.air_ref,
                                        array_type: base.ty,
                                        index: index.air_ref,
                                    },
                                    ty: def.elem,
                                    span,
                                },
                            )
                        }
                    },
                    _ => *final(air) == *old(air) && (r matches Err(e) && e.span == span && (
                    e.kind matches ErrorKind::IndexOnNonArray { found } && found@ == name_of_type(base.ty))),
                }
            }),
    {
        let id = match base.ty {
            Type::Array(id) => id,
            _ => {
                return Err(CompileError::new(ErrorKind::IndexOnNonArray { found: base.ty.name() }, span));
            },
        };
        let elem = self.type_pool.arrays[id as usize].elem;
        let length = self.type_pool.arrays[id as usize].len;
        let index_span = self.rir.get(index_inst).span;
        if !index.ty.is_unsigned() && !index.ty.is_error() {
            return Err(
                CompileError::new(
                    ErrorKind::TypeMismatch {
                        expected: "unsigned integer type".to_string(),
                        found: index.ty.name(),
                    },
                    index_span,
                ),
            );
        }
        match self.try_get_const_index(index_inst) {
            Some(c) => {
                if c < 0 || c as u64 >= length {
                    return Err(CompileError::new(ErrorKind::IndexOutOfBounds { index: c, length }, index_span));
                }
            },
            None => {},
        }
        let air_ref = air.add_inst(
            AirInst {
                data: AirInstData::IndexGet { base: base.air_ref, array_type: base.ty, index: index.air_ref },
                ty: elem,
                span,
            },
        );
        Ok(AnalysisResult::new(air_ref, elem))
    }
}

} // verus!
