//! Field stores `a.b.c = v`: the place must start at a variable that is not
//! moved and can be stored into, and each field on the way must exist.
use vstd::prelude::*;

use crate::air::{Air, AirInst, AirInstData};
use crate::arrays::{immutable_param_error, reports_immutable_param};
use crate::context::{AnalysisContext, AnalysisResult, ParamMode};
use crate::diag::{CompileError, ErrorKind};
use crate::fields::field_index_of;
use crate::imports::{inst_symbol, symbols_interned};
use crate::interner::interned;
use crate::rir::{InstData, InstRef, Rir};
use crate::sema::Sema;
use crate::typing::appended;
use crate::types::{name_of_type, Span, Sym, Type, TypePool};
use crate::variables::{moved_in, reports_use_after_move, use_after_move, AssignTarget};

verus! {

/// The place a store writes through: whether its variable is written as a
/// parameter reference, the variable, and the fields then selected.
pub open spec fn store_place(rir: &Rir, r: InstRef) -> Option<(bool, Sym, Seq<Sym>)>
    decreases r,
{
    if r >= rir.instructions@.len() {
        None
    } else {
        match rir.instructions@[r as int].data {
            InstData::VarRef { name } => Some((false, name, Seq::empty())),
            InstData::ParamRef { name } => Some((true, name, Seq::empty())),
            InstData::FieldGet { base, field } => if base < r {
                match store_place(rir, base) {
                    Some((p, root, path)) => Some((p, root, path.push(field))),
                    None => None,
                }
            } else {
                None
            },
            _ => None,
        }
    }
}

/// How following fields from a type ends.
pub ghost enum FieldWalk {
    /// Every field exists: the type reached and, per field, its struct and position.
    Done { ty: Type, steps: Seq<(u32, u32)> },
    /// A field of a type that is not a struct.
    NotStruct { found: Type },
    /// A field the struct does not have.
    NoField { struct_id: u32, field: Sym },
}

/// Follow the fields `path` from a value of type `ty`.
pub open spec fn field_walk(pool: &TypePool, names: Map<Sym, Seq<char>>, ty: Type, path: Seq<Sym>) -> FieldWalk
    decreases path.len(),
{
    if path.len() == 0 {
        FieldWalk::Done { ty, steps: Seq::empty() }
    } else {
        match ty {
            Type::Struct(id) => match field_index_of(pool.structs@[id as int].fields@, names[path[0]]) {
                Some(i) => match field_walk(pool, names, pool.structs@[id as int].fields@[i].ty, path.drop_first()) {
                    FieldWalk::Done { ty: t, steps } => FieldWalk::Done { ty: t, steps: seq![(id, i as u32)] + steps },
                    other => other,
                },
                None => FieldWalk::NoField { struct_id: id, field: path[0] },
            },
            _ => FieldWalk::NotStruct { found: ty },
        }
    }
}

/// Every struct type the pool's structs hold is in the pool.
pub open spec fn struct_fields_known(pool: &TypePool) -> bool {
    forall|s: int, f: int|
        0 <= s < pool.structs@.len() && 0 <= f < pool.structs@[s].fields@.len() ==> (
        #[trigger] pool.structs@[s].fields@[f].ty matches Type::Struct(id) ==> id < pool.structs@.len())
}

/// Every struct type a variable of `ctx` has is in the pool.
pub open spec fn variable_structs_known(pool: &TypePool, ctx: &AnalysisContext) -> bool {
    &&& forall|k| #[trigger] ctx.params@.contains_key(k) ==> (ctx.params@[k].ty matches Type::Struct(id) ==> id
        < pool.structs@.len())
    &&& forall|k| #[trigger] ctx.locals@.contains_key(k) ==> (ctx.locals@[k].ty matches Type::Struct(id) ==> id
        < pool.structs@.len())
}

/// The variable a store writes through, once found: where it is and its type.
pub open spec fn store_root(ctx: &AnalysisContext, root: Sym) -> (AssignTarget, Type) {
    if ctx.params@.contains_key(root) {
        (AssignTarget::Param { abi_slot: ctx.params@[root].abi_slot }, ctx.params@[root].ty)
    } else {
        (AssignTarget::Local { slot: ctx.locals@[root].slot }, ctx.locals@[root].ty)
    }
}

/// The variable can be stored into: a mutable local or an `inout` parameter.
pub open spec fn storable(ctx: &AnalysisContext, root: Sym) -> bool {
    if ctx.params@.contains_key(root) {
        ctx.params@[root].mode == ParamMode::Inout
    } else {
        ctx.locals@[root].is_mut
    }
}

/// `e` is the error for a store through a variable that cannot be stored into.
pub open spec fn reports_not_storable(e: CompileError, ctx: &AnalysisContext, root: Sym, text: Seq<char>, span: Span) -> bool {
    if ctx.params@.contains_key(root) {
        let p = ctx.params@[root];
        if p.mode == ParamMode::Borrow {
            e.span == span && e.help is None && e.label is None && (e.kind matches ErrorKind::MutateBorrowedValue {
                variable,
            } && variable@ == text)
        } else {
            reports_immutable_param(e, text, p.ty, span)
        }
    } else {
        e.span == span && e.help is None && e.label is None && (e.kind matches ErrorKind::AssignToImmutable(n) && n@
            == text)
    }
}

/// Where a field store writes: the variable, and per field on the way
/// (the last one being the field stored into) its struct and position.
#[derive(Debug)]
pub struct FieldSetTarget {
    pub root: AssignTarget,
    pub steps: Vec<(u32, u32)>,
}

impl<'a> Sema<'a> {
    /// Where a field store `base.field = v` writes, checked before the
    /// value is analyzed: `base` must be a variable, or fields of one; the
    /// variable must not be moved (in any part) and must be a mutable local
    /// or an `inout` parameter; and each field must exist on the struct
    /// before it.
    #[verifier::rlimit(80)]
    pub fn field_set_target(&self, ctx: &AnalysisContext, base: InstRef, field: Sym, span: Span) -> (r: Result<
        FieldSetTarget,
        CompileError,
    >)
        requires
            self.rir.wf(),
            base < self.rir.instructions@.len(),
            symbols_interned(self.rir, interned(self.interner)),
            interned(self.interner).contains_key(field),
            struct_fields_known(&self.type_pool),
            variable_structs_known(&self.type_pool, ctx),
        ensures
            ({
                let names = interned(self.interner);
                let moved = ctx.moved_vars@;
                match store_place(self.rir, base) {
                    None => r matches Err(e) && e.span == span && e.kind == ErrorKind::InvalidAssignmentTarget,
                    Some((param_ref, root, path)) => {
                        let text = names[root];
                        let found = ctx.params@.contains_key(root) || (!param_ref && ctx.locals@.contains_key(root));
                        if !param_ref && moved_in(moved, root) {
                            r matches Err(e) && reports_use_after_move(e, text, span, moved[root])
                        } else if !found {
                            r matches Err(e) && e.span == span && (e.kind matches ErrorKind::UndefinedVariable(n) && n@
                                == text)
                        } else if param_ref && moved_in(moved, root) {
                            r matches Err(e) && reports_use_after_move(e, text, span, moved[root])
                        } else if !storable(ctx, root) {
                            r matches Err(e) && reports_not_storable(e, ctx, root, text, span)
                        } else {
                            match field_walk(&self.type_pool, names, store_root(ctx, root).1, path.push(field)) {
                                FieldWalk::Done { steps, .. } => r matches Ok(t) && t.root == store_root(ctx, root).0
                                    && t.steps@ == steps,
                                FieldWalk::NotStruct { found } => r matches Err(e) && e.span == span && (
                                e.kind matches ErrorKind::FieldAccessOnNonStruct { found: f } && f@ == name_of_type(
                                    found,
                                )),
                                FieldWalk::NoField { struct_id, field: f } => r matches Err(e) && e.span == span && (
                                e.kind matches ErrorKind::UnknownField { struct_name, field_name } && struct_name@
                                    == self.type_pool.structs@[struct_id as int].name@ && field_name@ == names[f]),
                            }
                        }
                    },
                }
            }),
    {
        let ghost names = interned(self.interner);
        // Walk up to the variable, collecting the fields outermost first
        let mut current = base;
        let mut fields: Vec<Sym> = Vec::new();
        fields.push(field);
        let mut param_ref = false;
        let mut root: Sym = 0;
        loop
            invariant_except_break
                current < self.rir.instructions@.len(),
                store_place(self.rir, base) == prefixed(store_place(self.rir, current), fields@.drop_first().reverse()),
            invariant
                self.rir.wf(),
                symbols_interned(self.rir, names),
                names == interned(self.interner),
                forall|i: int| 0 <= i < fields@.len() ==> names.contains_key(#[trigger] fields@[i]),
                fields@.len() >= 1,
                fields@[0] == field,
            ensures
                store_place(self.rir, base) == Some((param_ref, root, path_of(fields@))),
                names.contains_key(root),
            decreases current,
        {
            let inst = self.rir.get(current);
            proof {
                assert(inst_symbol(self.rir.instructions@[current as int].data) is Some ==> names.contains_key(
                    inst_symbol(self.rir.instructions@[current as int].data)->0,
                ));
            }
            match inst.data {
                InstData::VarRef { name } => {
                    param_ref = false;
                    root = name;
                    break ;
                },
                InstData::ParamRef { name } => {
                    param_ref = true;
                    root = name;
                    break ;
                },
                InstData::FieldGet { base: inner, field: f } => {
                    assert(crate::rir::operands(inst.data)[0] == inner);
                    let ghost before = fields@;
                    fields.push(f);
                    proof {
                        lemma_push_reverse(before, f);
                        match store_place(self.rir, inner) {
                            Some((p, r, path)) => {
                                assert(path.push(f) + before.drop_first().reverse() =~= path + (seq![f]
                                    + before.drop_first().reverse()));
                            },
                            None => {},
                        }
                    }
                    current = inner;
                },
                _ => {
                    return Err(CompileError::new(ErrorKind::InvalidAssignmentTarget, span));
                },
            }
        }
        let text = self.resolve(root);
        // The variable: not moved, found, and storable
        if !param_ref {
            match ctx.moved_vars.get(&root) {
                Some(state) => {
                    if state.is_any_part_moved().is_some() {
                        return Err(use_after_move(text, span, state));
                    }
                },
                None => {},
            }
        }
        let (target, root_ty) = match ctx.params.get(&root) {
            Some(p) => {
                if param_ref {
                    match ctx.moved_vars.get(&root) {
                        Some(state) => {
                            if state.is_any_part_moved().is_some() {
                                return Err(use_after_move(text, span, state));
                            }
                        },
                        None => {},
                    }
                }
                match p.mode {
                    ParamMode::Inout => {},
                    ParamMode::Borrow => {
                        return Err(
                            CompileError::new(ErrorKind::MutateBorrowedValue { variable: text.to_string() }, span),
                        );
                    },
                    _ => {
                        return Err(immutable_param_error(text, p.ty, span));
                    },
                }
                (AssignTarget::Param { abi_slot: p.abi_slot }, p.ty)
            },
            None => {
                if param_ref {
                    return Err(CompileError::new(ErrorKind::UndefinedVariable(text.to_string()), span));
                }
                match ctx.locals.get(&root) {
                    Some(l) => {
                        if !l.is_mut {
                            return Err(CompileError::new(ErrorKind::AssignToImmutable(text.to_string()), span));
                        }
                        (AssignTarget::Local { slot: l.slot }, l.ty)
                    },
                    None => {
                        return Err(CompileError::new(ErrorKind::UndefinedVariable(text.to_string()), span));
                    },
                }
            },
        };
        // Follow the fields from the variable out
        let ghost full = path_of(fields@).push(field);
        proof {
            lemma_path_of_push(fields@);
            assert(full.skip(0) =~= full);
        }
        let mut ty = root_ty;
        let mut steps: Vec<(u32, u32)> = Vec::new();
        let mut k: usize = fields.len();
        while k > 0
            invariant
                0 <= k <= fields@.len(),
                fields@.len() >= 1,
                names == interned(self.interner),
                full == fields@.reverse(),
                full == path_of(fields@).push(field),
                store_place(self.rir, base) == Some((param_ref, root, path_of(fields@))),
                !(!param_ref && moved_in(ctx.moved_vars@, root)),
                ctx.params@.contains_key(root) || (!param_ref && ctx.locals@.contains_key(root)),
                !(param_ref && moved_in(ctx.moved_vars@, root)),
                storable(ctx, root),
                root_ty == store_root(ctx, root).1,
                target == store_root(ctx, root).0,
                forall|i: int| 0 <= i < fields@.len() ==> names.contains_key(#[trigger] fields@[i]),
                struct_fields_known(&self.type_pool),
                ty matches Type::Struct(id) ==> id < self.type_pool.structs@.len(),
                field_walk(&self.type_pool, names, root_ty, full) == after_steps(
                    steps@,
                    field_walk(&self.type_pool, names, ty, full.skip(fields@.len() - k)),
                ),
            decreases k,
        {
            let f = fields[k - 1];
            let ghost rest = full.skip(fields@.len() - k);
            proof {
                assert(rest.drop_first() =~= full.skip(fields@.len() - k + 1));
            }
            let id = match ty {
                Type::Struct(id) => id,
                _ => {
                    return Err(CompileError::new(ErrorKind::FieldAccessOnNonStruct { found: ty.name() }, span));
                },
            };
            let def = &self.type_pool.structs[id as usize];
            let fname = self.resolve(f);
            let index = match def.find_field(fname) {
                Some((i, _)) => i,
                None => {
                    return Err(
                        CompileError::new(
                            ErrorKind::UnknownField { struct_name: def.name.clone(), field_name: fname.to_string() },
                            span,
                        ),
                    );
                },
            };
            proof {
                crate::fields::lemma_field_index_of(def.fields@, fname@);
                lemma_after_step(steps@, (id, index as u32), field_walk(
                    &self.type_pool,
                    names,
                    def.fields@[index as int].ty,
                    rest.drop_first(),
                ));
            }
            steps.push((id, index as u32));
            ty = def.fields[index].ty;
            k = k - 1;
        }
        Ok(FieldSetTarget { root: target, steps })
    }
}

/// A place with more fields selected after it.
pub open spec fn prefixed(place: Option<(bool, Sym, Seq<Sym>)>, more: Seq<Sym>) -> Option<(bool, Sym, Seq<Sym>)> {
    match place {
        Some((p, root, path)) => Some((p, root, path + more)),
        None => None,
    }
}

/// A walk that took `steps` before continuing as `rest`.
pub open spec fn after_steps(steps: Seq<(u32, u32)>, rest: FieldWalk) -> FieldWalk {
    match rest {
        FieldWalk::Done { ty, steps: s } => FieldWalk::Done { ty, steps: steps + s },
        other => other,
    }
}

proof fn lemma_after_step(steps: Seq<(u32, u32)>, step: (u32, u32), rest: FieldWalk)
    ensures
        after_steps(
            steps,
            match rest {
                FieldWalk::Done { ty: t, steps: s } => FieldWalk::Done { ty: t, steps: seq![step] + s },
                other => other,
            },
        ) == after_steps(steps.push(step), rest),
{
    match rest {
        FieldWalk::Done { ty, steps: s } => {
            assert(steps + (seq![step] + s) =~= steps.push(step) + s);
        },
        _ => {},
    }
}

/// The fields of a place, root first, from the fields collected outermost
/// first (after the stored field).
pub open spec fn path_of(collected: Seq<Sym>) -> Seq<Sym> {
    collected.drop_first().reverse()
}

proof fn lemma_push_reverse(s: Seq<Sym>, f: Sym)
    requires
        s.len() >= 1,
    ensures
        s.push(f).drop_first().reverse() =~= seq![f] + s.drop_first().reverse(),
{
    let a = s.drop_first().push(f).reverse();
    let b = seq![f] + s.drop_first().reverse();
    assert forall|i: int| 0 <= i < a.len() implies a[i] == b[i] by {}
}

proof fn lemma_path_of_push(collected: Seq<Sym>)
    requires
        collected.len() >= 1,
    ensures
        path_of(collected).push(collected[0]) =~= collected.reverse(),
{
    let a = path_of(collected).push(collected[0]);
    let b = collected.reverse();
    assert forall|i: int| 0 <= i < a.len() implies a[i] == b[i] by {}
}

/// Emit a field store once the value is analyzed. `offset` is the slot
/// offset of the stored field within the variable, by the ABI layout of the
/// types on the way.
pub fn emit_field_set(
    air: &mut Air,
    root: AssignTarget,
    offset: u32,
    struct_id: u32,
    field_index: u32,
    value: AnalysisResult,
    span: Span,
) -> (r: AnalysisResult)
    requires
        old(air).instructions@.len() < u32::MAX,
        root matches AssignTarget::Local { slot } ==> slot + offset <= u32::MAX,
    ensures
        r == (AnalysisResult { air_ref: old(air).instructions@.len() as u32, ty: Type::Unit }),
        appended(
            *old(air),
            *final(air),
            AirInst {
                data: match root {
                    AssignTarget::Local { slot } => AirInstData::FieldSet {
                        slot: (slot + offset) as u32,
                        struct_id,
                        field_index,
                        value: value.air_ref,
                    },
                    AssignTarget::Param { abi_slot } => AirInstData::ParamFieldSet {
                        param_slot: abi_slot,
                        inner_offset: offset,
                        struct_id,
                        field_index,
                        value: value.air_ref,
                    },
                },
                ty: Type::Unit,
                span,
            },
        ),
{
    let data = match root {
        AssignTarget::Local { slot } => AirInstData::FieldSet {
            slot: slot + offset,
            struct_id,
            field_index,
            value: value.air_ref,
        },
        AssignTarget::Param { abi_slot } => AirInstData::ParamFieldSet {
            param_slot: abi_slot,
            inner_offset: offset,
            struct_id,
            field_index,
            value: value.air_ref,
        },
    };
    let air_ref = air.add_inst(AirInst { data, ty: Type::Unit, span });
    AnalysisResult::new(air_ref, Type::Unit)
}

} // verus!
