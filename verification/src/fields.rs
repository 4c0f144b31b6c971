//! Field access, and the moves of fields it makes.
//!
//! Reading a field whose type is not `Copy` moves that field out of its
//! variable (a partial move); reading any field of a linear struct consumes
//! the whole variable.
use vstd::prelude::*;

use std::collections::HashMap;

use crate::air::{Air, AirInst, AirInstData};
use crate::calls::{extract_field_path_ctx, field_path, root_variable};
use crate::context::{state_of, AnalysisContext, AnalysisResult};
use crate::diag::{CompileError, ErrorKind};
use crate::imports::{inst_symbol, symbols_interned};
use crate::interner::interned;
use crate::moves::{MoveStateView, VariableMoveState};
use crate::rir::{InstData, InstRef, Rir};
use crate::sema::Sema;
use crate::typing::appended;
use crate::types::{name_of_type, Span, StructDef, StructField, Sym, Type};

verus! {

/// The position of the first field named `name`, if any.
pub open spec fn field_index_of(fields: Seq<StructField>, name: Seq<char>) -> Option<int>
    decreases fields.len(),
{
    if fields.len() == 0 {
        None
    } else {
        match field_index_of(fields.drop_last(), name) {
            Some(i) => Some(i),
            None => if fields.last().name@ == name {
                Some(fields.len() - 1)
            } else {
                None
            },
        }
    }
}

/// A field path written out: the variable's name, then `.` and each field's name.
pub open spec fn dotted(names: Map<Sym, Seq<char>>, root: Sym, path: Seq<Sym>) -> Seq<char>
    decreases path.len(),
{
    if path.len() == 0 {
        names[root]
    } else {
        dotted(names, root, path.drop_last()) + "."@ + names[path.last()]
    }
}

/// `after` is `before` once `path` of variable `root` is marked moved at `span`.
pub open spec fn path_marked(
    before: Map<Sym, VariableMoveState>,
    after: Map<Sym, VariableMoveState>,
    root: Sym,
    path: Seq<Sym>,
    span: Span,
) -> bool {
    &&& after.dom() == before.dom().insert(root)
    &&& after[root]@ == state_of(before, root).mark(path, span)
    &&& forall|k: Sym| #[trigger] before.contains_key(k) && k != root ==> after[k] == before[k]
}

/// A first field found in a prefix is the first field of the whole list.
proof fn lemma_field_index_prefix(fields: Seq<StructField>, n: int, name: Seq<char>)
    requires
        0 <= n <= fields.len(),
        field_index_of(fields.take(n), name) is Some,
    ensures
        field_index_of(fields, name) == field_index_of(fields.take(n), name),
    decreases fields.len(),
{
    if n < fields.len() {
        assert(fields.drop_last().take(n) =~= fields.take(n));
        lemma_field_index_prefix(fields.drop_last(), n, name);
    } else {
        assert(fields.take(n) =~= fields);
    }
}

/// The names a field path uses are held by the interner.
proof fn lemma_field_path_interned(rir: &Rir, names: Map<Sym, Seq<char>>, r: InstRef)
    requires
        rir.wf(),
        symbols_interned(rir, names),
    ensures
        field_path(rir, r) matches Some((root, path)) ==> names.contains_key(root) && forall|i: int|
            0 <= i < path.len() ==> names.contains_key(#[trigger] path[i]),
    decreases r,
{
    if r < rir.instructions@.len() {
        assert(inst_symbol(rir.instructions@[r as int].data) == inst_symbol(rir.instructions@[r as int].data));
        match rir.instructions@[r as int].data {
            InstData::FieldGet { base, field } => {
                if base < r {
                    lemma_field_path_interned(rir, names, base);
                }
            },
            _ => {},
        }
    }
}

impl StructDef {
    /// The first field with the given name, and its position.
    pub fn find_field(&self, name: &str) -> (r: Option<(usize, &StructField)>)
        ensures
            match field_index_of(self.fields@, name@) {
                Some(i) => match r {
                    Some((j, f)) => j as int == i && *f == self.fields@[i],
                    None => false,
                },
                None => r is None,
            },
    {
        let mut i: usize = 0;
        while i < self.fields.len()
            invariant
                i <= self.fields@.len(),
                field_index_of(self.fields@.take(i as int), name@) is None,
            decreases self.fields@.len() - i,
        {
            proof {
                assert(self.fields@.take(i + 1).drop_last() =~= self.fields@.take(i as int));
            }
            if crate::paths::str_eq(self.fields[i].name.as_str(), name) {
                proof {
                    lemma_field_index_prefix(self.fields@, i as int + 1, name@);
                }
                return Some((i, &self.fields[i]));
            }
            i = i + 1;
        }
        assert(self.fields@.take(i as int) =~= self.fields@);
        None
    }
}

/// Record that `path` of variable `root` is moved at `span`.
fn mark_path(moved: &mut HashMap<Sym, VariableMoveState>, root: Sym, path: &[Sym], span: Span)
    ensures
        path_marked(old(moved)@, final(moved)@, root, path@, span),
{
    let mut state = match moved.remove(&root) {
        Some(s) => s,
        None => {
            let s = VariableMoveState::new();
            assert(s@.partial =~= Map::<Seq<Sym>, Span>::empty());
            s
        },
    };
    state.mark_path_moved(path, span);
    moved.insert(root, state);
    assert(moved@.dom() =~= old(moved)@.dom().insert(root));
}

impl<'a> Sema<'a> {
    /// A field path written out for a message: `root.f.g`.
    fn path_text(&self, root: Sym, path: &Vec<Sym>) -> (s: String)
        requires
            interned(self.interner).contains_key(root),
            forall|i: int| 0 <= i < path@.len() ==> interned(self.interner).contains_key(#[trigger] path@[i]),
        ensures
            s@ == dotted(interned(self.interner), root, path@),
    {
        let mut text = self.resolve(root).to_string();
        let mut i: usize = 0;
        while i < path.len()
            invariant
                i <= path@.len(),
                forall|j: int| 0 <= j < path@.len() ==> interned(self.interner).contains_key(#[trigger] path@[j]),
                text@ == dotted(interned(self.interner), root, path@.take(i as int)),
            decreases path@.len() - i,
        {
            proof {
                assert(path@.take(i + 1).drop_last() =~= path@.take(i as int));
            }
            text = text.concat(".").concat(self.resolve(path[i]));
            i = i + 1;
        }
        assert(path@.take(i as int) =~= path@);
        text
    }

    /// Finish a field access `base.field` once the base is analyzed (as a
    /// projection, which does not move it).
    ///
    /// The base must be a struct that has the field. Reading a field of a
    /// linear struct consumes the whole variable; reading a field whose type
    /// is not `Copy` moves that field, and reading a moved field (or a field
    /// of a moved part) is an error.
    pub fn finish_field_get(
        &self,
        air: &mut Air,
        ctx: &mut AnalysisContext,
        inst_ref: InstRef,
        base: AnalysisResult,
        field: Sym,
        span: Span,
    ) -> (r: Result<AnalysisResult, CompileError>)
        requires
            self.rir.wf(),
            inst_ref < self.rir.instructions@.len(),
            symbols_interned(self.rir, interned(self.interner)),
            interned(self.interner).contains_key(field),
            base.ty matches Type::Struct(id) ==> id < self.type_pool.structs@.len(),
            old(air).instructions@.len() < u32::MAX,
        ensures
            final(ctx).locals == old(ctx).locals,
            final(ctx).params == old(ctx).params,
            final(ctx).next_slot == old(ctx).next_slot,
            final(ctx).loop_depth == old(ctx).loop_depth,
            final(ctx).return_type == old(ctx).return_type,
            final(ctx).scope_stack == old(ctx).scope_stack,
            final(ctx).resolved_types == old(ctx).resolved_types,
            final(ctx).comptime_type_vars == old(ctx).comptime_type_vars,
            ({
                let names = interned(self.interner);
                let moved = old(ctx).moved_vars@;
                match base.ty {
                    Type::Struct(id) => {
                        let def = self.type_pool.structs@[id as int];
                        match field_index_of(def.fields@, names[field]) {
                            None => {
                                &&& *final(ctx) == *old(ctx)
                                &&& *final(air) == *old(air)
                                &&& r matches Err(e) && e.span == span && match e.kind {
                                    ErrorKind::UnknownField { struct_name, field_name } => struct_name@ == def.name@
                                        && field_name@ == names[field],
                                    _ => false,
                                }
                            },
                            Some(i) => {
                                let fty = def.fields@[i].ty;
                                let ok = {
                                    &&& r == Ok::<AnalysisResult, CompileError>(
                                        AnalysisResult { air_ref: old(air).instructions@.len() as u32, ty: fty },
                                    )
                                    &&& appended(
                                        *old(air),
                                        *final(air),
                                        AirInst {
                                            data: AirInstData::FieldGet {
                                                base: base.air_ref,
                                                struct_id: id,
                                                field_index: i as u32,
                                            },
                                            ty: fty,
                                            span,
                                        },
                                    )
                                };
                                let rest_unchanged = {
                                    &&& final(ctx).locals == old(ctx).locals
                                    &&& final(ctx).params == old(ctx).params
                                    &&& final(ctx).used_locals == old(ctx).used_locals
                                    &&& final(ctx).scope_stack == old(ctx).scope_stack
                                    &&& final(ctx).warnings == old(ctx).warnings
                                };
                                if def.is_linear {
                                    &&& ok
                                    &&& rest_unchanged
                                    &&& match root_variable(self.rir, inst_ref) {
                                        Some(v) => path_marked(moved, final(ctx).moved_vars@, v, Seq::empty(), span),
                                        None => final(ctx).moved_vars == old(ctx).moved_vars,
                                    }
                                } else if self.type_pool.is_copy(fty) {
                                    &&& ok
                                    &&& *final(ctx) == *old(ctx)
                                } else {
                                    match field_path(self.rir, inst_ref) {
                                        None => ok && *final(ctx) == *old(ctx),
                                        Some((root, path)) => {
                                            if moved.contains_key(root) && moved[root]@.path_moved(path) is Some {
                                                &&& *final(ctx) == *old(ctx)
                                                &&& *final(air) == *old(air)
                                                &&& r matches Err(e) && e.span == span && match e.kind {
                                                    ErrorKind::UseAfterMove(t) => t@ == dotted(names, root, path),
                                                    _ => false,
                                                } && match e.label {
                                                    Some((m, s)) => m@ == "value moved here"@ && s
                                                        == moved[root]@.path_moved(path)->0,
                                                    None => false,
                                                }
                                            } else {
                                                &&& ok
                                                &&& rest_unchanged
                                                &&& path_marked(moved, final(ctx).moved_vars@, root, path, span)
                                            }
                                        },
                                    }
                                }
                            },
                        }
                    },
                    _ => {
                        &&& *final(ctx) == *old(ctx)
                        &&& *final(air) == *old(air)
                        &&& r matches Err(e) && e.span == span && match e.kind {
                            ErrorKind::FieldAccessOnNonStruct { found } => found@ == name_of_type(base.ty),
                            _ => false,
                        }
                    },
                }
            }),
    {
        let base_type = base.ty;
        let struct_id = match base_type {
            Type::Struct(id) => id,
            _ => {
                return Err(CompileError::new(ErrorKind::FieldAccessOnNonStruct { found: base_type.name() }, span));
            },
        };
        let struct_def = &self.type_pool.structs[struct_id as usize];
        let is_linear = struct_def.is_linear;
        let field_name_str = self.resolve(field);
        let (field_index, field_type) = match struct_def.find_field(field_name_str) {
            Some((i, f)) => (i, f.ty),
            None => {
                return Err(
                    CompileError::new(
                        ErrorKind::UnknownField {
                            struct_name: struct_def.name.clone(),
                            field_name: field_name_str.to_string(),
                        },
                        span,
                    ),
                );
            },
        };
        if is_linear {
            // For linear types, field access consumes the entire struct
            match self.extract_root_variable(inst_ref) {
                Some(root_var) => mark_path(&mut ctx.moved_vars, root_var, &[], span),
                None => {},
            }
        } else if !self.type_pool.is_type_copy(field_type) {
            // A non-Copy field is moved out of its variable
            match extract_field_path_ctx(self.rir, inst_ref) {
                Some((root_var, field_path)) => {
                    proof {
                        lemma_field_path_interned(self.rir, interned(self.interner), inst_ref);
                    }
                    // Check if this field path is already moved
                    match ctx.moved_vars.get(&root_var) {
                        Some(state) => match state.is_path_moved(field_path.as_slice()) {
                            Some(moved_span) => {
                                let path_str = self.path_text(root_var, &field_path);
                                return Err(
                                    CompileError::new(ErrorKind::UseAfterMove(path_str), span).with_label(
                                        "value moved here".to_string(),
                                        moved_span,
                                    ),
                                );
                            },
                            None => {},
                        },
                        None => {},
                    }
                    // Mark this field path as moved
                    mark_path(&mut ctx.moved_vars, root_var, field_path.as_slice(), span);
                },
                None => {},
            }
        }
        let inst = AirInst {
            data: AirInstData::FieldGet { base: base.air_ref, struct_id, field_index: field_index as u32 },
            ty: field_type,
            span,
        };
        let air_ref = air.add_inst(inst);
        Ok(AnalysisResult::new(air_ref, field_type))
    }
}

/// The struct's fields have distinct names.
pub open spec fn fields_distinct(def: StructDef) -> bool {
    forall|i: int, j: int| 0 <= i < j < def.fields@.len() ==> def.fields@[i].name@ != def.fields@[j].name@
}

/// The names written in a struct literal, in source order.
pub open spec fn init_texts(names: Map<Sym, Seq<char>>, inits: Seq<Sym>) -> Seq<Seq<char>> {
    inits.map_values(|s: Sym| names[s])
}

/// The `k`-th name of a struct literal was already written before.
pub open spec fn written_before(inits: Seq<Seq<char>>, k: int) -> bool {
    exists|q: int| 0 <= q < k && inits[q] == inits[k]
}

/// The `k`-th name of a struct literal is wrong: not a field, or written twice.
pub open spec fn init_bad_at(fields: Seq<StructField>, inits: Seq<Seq<char>>, k: int) -> bool {
    field_index_of(fields, inits[k]) is None || written_before(inits, k)
}

/// The first wrong name of a struct literal, if any.
pub open spec fn first_bad_init(fields: Seq<StructField>, inits: Seq<Seq<char>>) -> Option<int> {
    if exists|k: int| 0 <= k < inits.len() && #[trigger] init_bad_at(fields, inits, k) {
        Some(
            choose|k: int|
                0 <= k < inits.len() && #[trigger] init_bad_at(fields, inits, k) && forall|j: int|
                    0 <= j < k ==> !#[trigger] init_bad_at(fields, inits, j),
        )
    } else {
        None
    }
}

/// The fields a struct literal leaves out, in declaration order.
pub open spec fn missing_fields(fields: Seq<StructField>, inits: Seq<Seq<char>>) -> Seq<Seq<char>>
    decreases fields.len(),
{
    if fields.len() == 0 {
        Seq::empty()
    } else {
        let rest = missing_fields(fields.drop_last(), inits);
        if inits.contains(fields.last().name@) {
            rest
        } else {
            rest.push(fields.last().name@)
        }
    }
}

/// `field_index_of` finds the first field of the name.
pub(crate) proof fn lemma_field_index_of(fields: Seq<StructField>, name: Seq<char>)
    ensures
        match field_index_of(fields, name) {
            Some(i) => 0 <= i < fields.len() && fields[i].name@ == name && forall|j: int|
                0 <= j < i ==> (#[trigger] fields[j]).name@ != name,
            None => forall|j: int| 0 <= j < fields.len() ==> (#[trigger] fields[j]).name@ != name,
        },
    decreases fields.len(),
{
    if fields.len() > 0 {
        lemma_field_index_of(fields.drop_last(), name);
        assert forall|j: int| 0 <= j < fields.len() - 1 implies fields.drop_last()[j] == fields[j] by {}
    }
}

/// The first wrong name is the one found by checking the names in order.
proof fn lemma_first_bad_init(fields: Seq<StructField>, inits: Seq<Seq<char>>, k: int)
    requires
        0 <= k < inits.len(),
        init_bad_at(fields, inits, k),
        forall|j: int| 0 <= j < k ==> !#[trigger] init_bad_at(fields, inits, j),
    ensures
        first_bad_init(fields, inits) == Some(k),
{
    let w = choose|w: int|
        0 <= w < inits.len() && #[trigger] init_bad_at(fields, inits, w) && forall|j: int|
            0 <= j < w ==> !#[trigger] init_bad_at(fields, inits, j);
    assert(0 <= w < inits.len() && init_bad_at(fields, inits, w) && forall|j: int|
        0 <= j < w ==> !#[trigger] init_bad_at(fields, inits, j));
}

/// The error for a name of a struct literal that is not a field of the
/// struct, or (`duplicate`) that is written twice.
fn field_error(def: &StructDef, name: &str, span: Span, duplicate: bool) -> (e: CompileError)
    ensures
        e.span == span,
        duplicate ==> (e.kind matches ErrorKind::DuplicateField { struct_name, field_name } && struct_name@
            == def.name@ && field_name@ == name@),
        !duplicate ==> (e.kind matches ErrorKind::UnknownField { struct_name, field_name } && struct_name@
            == def.name@ && field_name@ == name@),
{
    if duplicate {
        CompileError::new(
            ErrorKind::DuplicateField { struct_name: def.name.clone(), field_name: name.to_string() },
            span,
        )
    } else {
        CompileError::new(
            ErrorKind::UnknownField { struct_name: def.name.clone(), field_name: name.to_string() },
            span,
        )
    }
}

impl<'a> Sema<'a> {
    /// Check the field names of a struct literal `T { a: .., b: .. }`
    /// before its values are analyzed: the type must be a struct, every
    /// name a field of it, written once, and every field given. Returns the
    /// struct and, for each name in source order, the field's position.
    #[verifier::rlimit(80)]
    pub fn check_struct_init(&self, struct_name_sym: Sym, init_names: &[Sym], span: Span) -> (r: Result<
        (u32, Vec<u32>),
        CompileError,
    >)
        requires
            interned(self.interner).contains_key(struct_name_sym),
            forall|k: int| 0 <= k < init_names@.len() ==> interned(self.interner).contains_key(#[trigger] init_names@[k]),
            self.structs@.contains_key(struct_name_sym) ==> self.structs@[struct_name_sym] < self.type_pool.structs@.len()
                && self.type_pool.structs@[self.structs@[struct_name_sym] as int].fields@.len() < u32::MAX
                && fields_distinct(self.type_pool.structs@[self.structs@[struct_name_sym] as int]),
        ensures
            ({
                let names = interned(self.interner);
                if !self.structs@.contains_key(struct_name_sym) {
                    r matches Err(e) && e.span == span && match e.kind {
                        ErrorKind::UnknownType(n) => n@ == names[struct_name_sym],
                        _ => false,
                    }
                } else {
                    let id = self.structs@[struct_name_sym];
                    let def = self.type_pool.structs@[id as int];
                    let inits = init_texts(names, init_names@);
                    match first_bad_init(def.fields@, inits) {
                        Some(k) => r matches Err(e) && e.span == span && if field_index_of(def.fields@, inits[k]) is None {
                            e.kind matches ErrorKind::UnknownField { struct_name, field_name } && struct_name@
                                == def.name@ && field_name@ == inits[k]
                        } else {
                            e.kind matches ErrorKind::DuplicateField { struct_name, field_name } && struct_name@
                                == def.name@ && field_name@ == inits[k]
                        },
                        None => if inits.len() != def.fields@.len() {
                            r matches Err(e) && e.span == span && match e.kind {
                                ErrorKind::MissingFields { struct_name, missing_fields: m } => struct_name@ == def.name@
                                    && m@.map_values(|s: String| s@) == missing_fields(def.fields@, inits),
                                _ => false,
                            }
                        } else {
                            r matches Ok((sid, order)) && sid == id && order@.len() == inits.len() && (forall|k: int|
                                0 <= k < inits.len() ==> field_index_of(def.fields@, inits[k]) == Some(
                                    #[trigger] order@[k] as int,
                                )) && forall|k: int, j: int|
                                0 <= k < j < order@.len() ==> #[trigger] order@[k] != #[trigger] order@[j]
                        },
                    }
                }
            }),
    {
        // Look up the struct type
        let struct_id = match self.structs.get(&struct_name_sym) {
            Some(id) => *id,
            None => {
                return Err(CompileError::new(ErrorKind::UnknownType(self.resolve(struct_name_sym).to_string()), span));
            },
        };
        let struct_def = &self.type_pool.structs[struct_id as usize];
        let ghost names = interned(self.interner);
        let ghost inits = init_texts(names, init_names@);
        // Check for unknown or duplicate fields, and note each field's position
        let mut order: Vec<u32> = Vec::new();
        let mut k: usize = 0;
        while k < init_names.len()
            invariant
                k <= init_names@.len(),
                names == interned(self.interner),
                inits == init_texts(names, init_names@),
                self.structs@.contains_key(struct_name_sym),
                struct_id == self.structs@[struct_name_sym],
                struct_id < self.type_pool.structs@.len(),
                *struct_def == self.type_pool.structs@[struct_id as int],
                struct_def.fields@.len() < u32::MAX,
                forall|j: int| 0 <= j < init_names@.len() ==> names.contains_key(#[trigger] init_names@[j]),
                forall|j: int| 0 <= j < k ==> !#[trigger] init_bad_at(struct_def.fields@, inits, j),
                order@.len() == k,
                forall|j: int| 0 <= j < k ==> field_index_of(struct_def.fields@, inits[j]) == Some(
                    #[trigger] order@[j] as int,
                ),
            decreases init_names@.len() - k,
        {
            let init_name = self.resolve(init_names[k]);
            let index = match struct_def.find_field(init_name) {
                Some((i, _)) => i,
                None => {
                    proof {
                        lemma_first_bad_init(struct_def.fields@, inits, k as int);
                    }
                    return Err(field_error(struct_def, init_name, span, false));
                },
            };
            // Written twice?
            if self.name_written_before(init_names, k) {
                proof {
                    lemma_first_bad_init(struct_def.fields@, inits, k as int);
                }
                return Err(field_error(struct_def, init_name, span, true));
            }
            proof {
                lemma_field_index_of(struct_def.fields@, inits[k as int]);
            }
            order.push(index as u32);
            assert forall|j: int| 0 <= j < k + 1 implies field_index_of(struct_def.fields@, inits[j]) == Some(
                #[trigger] order@[j] as int,
            ) by {}
            k = k + 1;
        }
        // Check that all fields are provided
        if init_names.len() != struct_def.fields.len() {
            let missing = self.missing_field_names(struct_def, init_names);
            return Err(
                CompileError::new(
                    ErrorKind::MissingFields { struct_name: struct_def.name.clone(), missing_fields: missing },
                    span,
                ),
            );
        }
        proof {
            assert forall|a: int, b: int| 0 <= a < b < order@.len() implies #[trigger] order@[a]
                != #[trigger] order@[b] by {
                lemma_field_index_of(struct_def.fields@, inits[a]);
                lemma_field_index_of(struct_def.fields@, inits[b]);
                assert(!init_bad_at(struct_def.fields@, inits, b));
            }
        }
        Ok((struct_id, order))
    }

    /// Whether the `k`-th name of a struct literal was already written before it.
    fn name_written_before(&self, init_names: &[Sym], k: usize) -> (r: bool)
        requires
            k < init_names@.len(),
            forall|q: int| 0 <= q < init_names@.len() ==> interned(self.interner).contains_key(#[trigger] init_names@[q]),
        ensures
            r == written_before(init_texts(interned(self.interner), init_names@), k as int),
    {
        let ghost inits = init_texts(interned(self.interner), init_names@);
        let name = self.resolve(init_names[k]);
        let mut j: usize = 0;
        while j < k
            invariant
                j <= k,
                k < init_names@.len(),
                inits == init_texts(interned(self.interner), init_names@),
                name@ == inits[k as int],
                forall|q: int| 0 <= q < init_names@.len() ==> interned(self.interner).contains_key(#[trigger] init_names@[q]),
                forall|q: int| 0 <= q < j ==> inits[q] != inits[k as int],
            decreases k - j,
        {
            let earlier = self.resolve(init_names[j]);
            assert(earlier@ == inits[j as int]);
            if crate::paths::str_eq(earlier, name) {
                return true;
            }
            j = j + 1;
        }
        false
    }

    /// The names of the fields a struct literal leaves out, in declaration order.
    fn missing_field_names(&self, def: &StructDef, init_names: &[Sym]) -> (m: Vec<String>)
        requires
            forall|k: int| 0 <= k < init_names@.len() ==> interned(self.interner).contains_key(#[trigger] init_names@[k]),
        ensures
            m@.map_values(|s: String| s@) == missing_fields(def.fields@, init_texts(interned(self.interner), init_names@)),
    {
        let ghost names = interned(self.interner);
        let ghost inits = init_texts(names, init_names@);
        let mut out: Vec<String> = Vec::new();
        let mut i: usize = 0;
        while i < def.fields.len()
            invariant
                i <= def.fields@.len(),
                names == interned(self.interner),
                inits == init_texts(names, init_names@),
                forall|k: int| 0 <= k < init_names@.len() ==> names.contains_key(#[trigger] init_names@[k]),
                out@.map_values(|s: String| s@) == missing_fields(def.fields@.take(i as int), inits),
            decreases def.fields@.len() - i,
        {
            let name = def.fields[i].name.as_str();
            // Was it written?
            let mut found = false;
            let mut k: usize = 0;
            while k < init_names.len()
                invariant
                    k <= init_names@.len(),
                    names == interned(self.interner),
                    inits == init_texts(names, init_names@),
                    forall|q: int| 0 <= q < init_names@.len() ==> names.contains_key(#[trigger] init_names@[q]),
                    found <==> exists|q: int| 0 <= q < k && inits[q] == name@,
                decreases init_names@.len() - k,
            {
                let written = self.resolve(init_names[k]);
                assert(written@ == inits[k as int]);
                if crate::paths::str_eq(written, name) {
                    found = true;
                }
                k = k + 1;
            }
            proof {
                assert(def.fields@.take(i + 1).drop_last() =~= def.fields@.take(i as int));
                if found {
                    let q = choose|q: int| 0 <= q < k && inits[q] == name@;
                }
            }
            if !found {
                out.push(def.fields[i].name.clone());
            }
            i = i + 1;
        }
        assert(def.fields@.take(i as int) =~= def.fields@);
        out
    }
}

/// Lay out analyzed field values in declaration order: the value written
/// `k`-th goes to position `order[k]`.
pub fn declaration_order(order: &Vec<u32>, values: &Vec<u32>) -> (r: Vec<u32>)
    requires
        order@.len() == values@.len(),
        forall|k: int| 0 <= k < order@.len() ==> #[trigger] order@[k] < order@.len(),
        forall|k: int, j: int| 0 <= k < j < order@.len() ==> order@[k] != order@[j],
    ensures
        r@.len() == values@.len(),
        forall|k: int| 0 <= k < order@.len() ==> r@[#[trigger] order@[k] as int] == values@[k],
{
    let n = values.len();
    let mut out: Vec<u32> = Vec::new();
    let mut i: usize = 0;
    while i < n
        invariant
            i <= n,
            n == values@.len(),
            out@.len() == i,
        decreases n - i,
    {
        out.push(0);
        i = i + 1;
    }
    let mut k: usize = 0;
    while k < n
        invariant
            k <= n,
            n == values@.len(),
            n == order@.len(),
            out@.len() == n,
            forall|q: int| 0 <= q < order@.len() ==> #[trigger] order@[q] < order@.len(),
            forall|q: int, j: int| 0 <= q < j < order@.len() ==> order@[q] != order@[j],
            forall|q: int| 0 <= q < k ==> out@[#[trigger] order@[q] as int] == values@[q],
        decreases n - k,
    {
        out.set(order[k] as usize, values[k]);
        proof {
            assert forall|q: int| 0 <= q < k + 1 implies out@[#[trigger] order@[q] as int] == values@[q] by {}
        }
        k = k + 1;
    }
    out
}

/// Emit a checked struct literal once its values are analyzed: `values[k]`
/// is the value written `k`-th and `order[k]` its field's position (as
/// `check_struct_init` returns them). The values go to the extra array in
/// declaration order, followed by the source order, and the literal's
/// instruction refers to both.
pub fn emit_struct_init(air: &mut Air, struct_id: u32, order: &Vec<u32>, values: &Vec<u32>, span: Span) -> (r:
    AnalysisResult)
    requires
        order@.len() == values@.len(),
        forall|k: int| 0 <= k < order@.len() ==> #[trigger] order@[k] < order@.len(),
        forall|k: int, j: int| 0 <= k < j < order@.len() ==> order@[k] != order@[j],
        old(air).extra@.len() + 2 * values@.len() <= u32::MAX,
        old(air).instructions@.len() < u32::MAX,
    ensures
        ({
            let start = old(air).extra@.len();
            let n = values@.len();
            &&& r == AnalysisResult { air_ref: old(air).instructions@.len() as u32, ty: Type::Struct(struct_id) }
            &&& final(air).extra@.len() == start + 2 * n
            &&& final(air).extra@.subrange(0, start as int) == old(air).extra@
            &&& forall|k: int| 0 <= k < n ==> final(air).extra@[start + #[trigger] order@[k]] == values@[k]
            &&& final(air).extra@.subrange((start + n) as int, (start + 2 * n) as int) == order@
            &&& final(air).instructions@ == old(air).instructions@.push(
                AirInst {
                    data: AirInstData::StructInit {
                        struct_id,
                        fields_start: start as u32,
                        fields_len: n as u32,
                        source_order_start: (start + n) as u32,
                    },
                    ty: Type::Struct(struct_id),
                    span,
                },
            )
            &&& final(air).return_type == old(air).return_type
        }),
{
    let ghost old_air = *air;
    let fields = declaration_order(order, values);
    let fields_start = air.add_extra(fields.as_slice());
    let source_order_start = air.add_extra(order.as_slice());
    let ty = Type::Struct(struct_id);
    let air_ref = air.add_inst(
        AirInst {
            data: AirInstData::StructInit {
                struct_id,
                fields_start,
                fields_len: values.len() as u32,
                source_order_start,
            },
            ty,
            span,
        },
    );
    proof {
        let start = old_air.extra@.len();
        let n = values@.len();
        assert forall|k: int| 0 <= k < n implies air.extra@[start + #[trigger] order@[k]] == values@[k] by {}
    }
    AnalysisResult::new(air_ref, ty)
}

/// Field `i` is named by some name written in a struct literal.
pub open spec fn field_initialized(fields: Seq<StructField>, inits: Seq<Seq<char>>, i: int) -> bool {
    exists|k: int| 0 <= k < inits.len() && #[trigger] field_index_of(fields, inits[k]) == Some(i)
}

/// A struct literal that passes the checks initializes every field of the
/// struct: each field is named by some written name.
pub proof fn law_struct_literal_initializes_every_field(fields: Seq<StructField>, inits: Seq<Seq<char>>)
    requires
        first_bad_init(fields, inits) is None,
        inits.len() == fields.len(),
    ensures
        forall|i: int| 0 <= i < fields.len() ==> #[trigger] field_initialized(fields, inits, i),
{
    let n = inits.len() as int;
    assert forall|k: int| 0 <= k < n implies !#[trigger] init_bad_at(fields, inits, k) by {}
    let positions = Seq::new(n as nat, |k: int| field_index_of(fields, inits[k])->0);
    assert forall|k: int| 0 <= k < n implies 0 <= #[trigger] positions[k] < n && field_index_of(fields, inits[k])
        == Some(positions[k]) by {
        assert(!init_bad_at(fields, inits, k));
        lemma_field_index_of(fields, inits[k]);
    }
    assert(positions.no_duplicates()) by {
        assert forall|a: int, b: int| 0 <= a < n && 0 <= b < n && a != b implies positions[a] != positions[b] by {
            lemma_field_index_of(fields, inits[a]);
            lemma_field_index_of(fields, inits[b]);
            if positions[a] == positions[b] {
                if a < b {
                    assert(init_bad_at(fields, inits, b));
                } else {
                    assert(init_bad_at(fields, inits, a));
                }
            }
        }
    }
    let range = vstd::set_lib::set_int_range(0, n);
    positions.unique_seq_to_set();
    vstd::set_lib::lemma_int_range(0, n);
    assert(positions.to_set().subset_of(range)) by {
        assert forall|v: int| #[trigger] positions.to_set().contains(v) implies range.contains(v) by {
            let k = choose|k: int| 0 <= k < positions.len() && positions[k] == v;
        }
    }
    positions.lemma_cardinality_of_set();
    vstd::set_lib::lemma_subset_equality(positions.to_set(), range);
    assert forall|i: int| 0 <= i < fields.len() implies #[trigger] field_initialized(fields, inits, i) by {
        assert(positions.to_set().contains(i));
        let k = choose|k: int| 0 <= k < positions.len() && positions[k] == i;
    }
}

} // verus!
