//! Anonymous structs and their structural identity.
//!
//! Two anonymous structs with the same field names and types (in order) AND
//! the same method signatures are the same type. Method bodies do not
//! affect structural equality.
use vstd::prelude::*;

use crate::interner::{intern, interned};
use crate::paths::{decimal, seq_starts_with, spec_decimal, str_starts_with};
use crate::sema::{AnonMethodSig, Sema};
use crate::types::{fields_view, StructDef, StructField, Sym, Type, TypePool};

verus! {

/// The name prefix of anonymous structs.
pub open spec fn anon_prefix() -> Seq<char> {
    "__anon_struct_"@
}

/// The name an anonymous struct is registered under while it gets its id.
pub open spec fn anon_temp_prefix() -> Seq<char> {
    "__anon_struct_temp_"@
}

/// The abstract method signatures of a list.
pub open spec fn sigs_view(s: Seq<AnonMethodSig>) -> Seq<(Sym, bool, Seq<Sym>, Sym)> {
    s.map_values(|m: AnonMethodSig| m@)
}

/// The method signatures recorded for struct `id` (none if nothing is recorded).
pub open spec fn recorded_sigs(m: Map<u32, Vec<AnonMethodSig>>, id: u32) -> Seq<(Sym, bool, Seq<Sym>, Sym)> {
    if m.contains_key(id) {
        sigs_view(m[id]@)
    } else {
        Seq::empty()
    }
}

/// Struct `id` of the pool is an anonymous struct with exactly these fields
/// and method signatures.
pub open spec fn anon_struct_matches(
    pool: &TypePool,
    sigs: Map<u32, Vec<AnonMethodSig>>,
    id: int,
    fields: Seq<(Seq<char>, Type)>,
    methods: Seq<(Sym, bool, Seq<Sym>, Sym)>,
) -> bool {
    &&& 0 <= id < pool.structs@.len()
    &&& seq_starts_with(pool.structs@[id].name@, anon_prefix())
    &&& fields_view(pool.structs@[id].fields@) == fields
    &&& recorded_sigs(sigs, id as u32) == methods
}

/// Every field type is Copy.
pub open spec fn all_copy(pool: &TypePool, fields: Seq<StructField>) -> bool {
    forall|i: int| 0 <= i < fields.len() ==> #[trigger] pool.is_copy(fields[i].ty)
}

/// Field lists are equal by name and type.
fn fields_equal(a: &Vec<StructField>, b: &[StructField]) -> (r: bool)
    ensures
        r == (fields_view(a@) == fields_view(b@)),
{
    if a.len() != b.len() {
        return false;
    }
    let mut i: usize = 0;
    while i < a.len()
        invariant
            i <= a@.len(),
            a@.len() == b@.len(),
            forall|j: int| 0 <= j < i ==> fields_view(a@)[j] == fields_view(b@)[j],
        decreases a@.len() - i,
    {
        if a[i].name != b[i].name || a[i].ty != b[i].ty {
            assert(fields_view(a@)[i as int] != fields_view(b@)[i as int]);
            return false;
        }
        i = i + 1;
    }
    assert(fields_view(a@) =~= fields_view(b@));
    true
}

/// Symbol lists are equal.
fn syms_equal(a: &Vec<Sym>, b: &Vec<Sym>) -> (r: bool)
    ensures
        r == (a@ == b@),
{
    if a.len() != b.len() {
        return false;
    }
    let mut i: usize = 0;
    while i < a.len()
        invariant
            i <= a@.len(),
            a@.len() == b@.len(),
            forall|j: int| 0 <= j < i ==> a@[j] == b@[j],
        decreases a@.len() - i,
    {
        if a[i] != b[i] {
            return false;
        }
        i = i + 1;
    }
    assert(a@ =~= b@);
    true
}

/// Method signature lists are equal.
fn sigs_equal(a: &[AnonMethodSig], b: &[AnonMethodSig]) -> (r: bool)
    ensures
        r == (sigs_view(a@) == sigs_view(b@)),
{
    if a.len() != b.len() {
        return false;
    }
    let mut i: usize = 0;
    while i < a.len()
        invariant
            i <= a@.len(),
            a@.len() == b@.len(),
            forall|j: int| 0 <= j < i ==> sigs_view(a@)[j] == sigs_view(b@)[j],
        decreases a@.len() - i,
    {
        let x = &a[i];
        let y = &b[i];
        if x.name != y.name || x.has_self != y.has_self || !syms_equal(&x.param_types, &y.param_types)
            || x.return_type != y.return_type {
            assert(sigs_view(a@)[i as int] != sigs_view(b@)[i as int]);
            return false;
        }
        i = i + 1;
    }
    assert(sigs_view(a@) =~= sigs_view(b@));
    true
}

/// A copy of a symbol list.
fn copy_syms(a: &Vec<Sym>) -> (r: Vec<Sym>)
    ensures
        r@ == a@,
{
    let mut out: Vec<Sym> = Vec::new();
    let mut i: usize = 0;
    while i < a.len()
        invariant
            i <= a@.len(),
            out@ == a@.take(i as int),
        decreases a@.len() - i,
    {
        out.push(a[i]);
        i = i + 1;
    }
    out
}

/// A copy of a field list.
fn copy_fields(a: &[StructField]) -> (r: Vec<StructField>)
    ensures
        fields_view(r@) == fields_view(a@),
        forall|i: int| 0 <= i < a@.len() ==> #[trigger] r@[i].ty == a@[i].ty,
        r@.len() == a@.len(),
{
    let mut out: Vec<StructField> = Vec::new();
    let mut i: usize = 0;
    while i < a.len()
        invariant
            i <= a@.len(),
            out@.len() == i,
            forall|j: int| 0 <= j < i ==> fields_view(out@)[j] == fields_view(a@)[j],
            forall|j: int| 0 <= j < i ==> #[trigger] out@[j].ty == a@[j].ty,
        decreases a@.len() - i,
    {
        out.push(StructField { name: a[i].name.clone(), ty: a[i].ty });
        i = i + 1;
    }
    out
}

/// A copy of a method signature list.
fn copy_sigs(a: &[AnonMethodSig]) -> (r: Vec<AnonMethodSig>)
    ensures
        sigs_view(r@) == sigs_view(a@),
{
    let mut out: Vec<AnonMethodSig> = Vec::new();
    let mut i: usize = 0;
    while i < a.len()
        invariant
            i <= a@.len(),
            out@.len() == i,
            forall|j: int| 0 <= j < i ==> sigs_view(out@)[j] == sigs_view(a@)[j],
        decreases a@.len() - i,
    {
        let x = &a[i];
        out.push(
            AnonMethodSig {
                name: x.name,
                has_self: x.has_self,
                param_types: copy_syms(&x.param_types),
                return_type: x.return_type,
            },
        );
        i = i + 1;
    }
    out
}

/// Whether every field's type is Copy.
fn fields_all_copy(pool: &TypePool, fields: &[StructField]) -> (r: bool)
    ensures
        r == all_copy(pool, fields@),
{
    let mut i: usize = 0;
    while i < fields.len()
        invariant
            i <= fields@.len(),
            forall|j: int| 0 <= j < i ==> #[trigger] pool.is_copy(fields@[j].ty),
        decreases fields@.len() - i,
    {
        if !pool.is_type_copy(fields[i].ty) {
            return false;
        }
        i = i + 1;
    }
    true
}

} // verus!

verus! {

impl<'a> Sema<'a> {
    /// The anonymous struct types that match these fields and methods.
    pub open spec fn first_anon_match(
        &self,
        fields: Seq<(Seq<char>, Type)>,
        methods: Seq<(Sym, bool, Seq<Sym>, Sym)>,
    ) -> Option<int> {
        if exists|id: int|
            #[trigger] anon_struct_matches(&self.type_pool, self.anon_struct_method_sigs@, id, fields, methods) {
            Some(
                choose|id: int|
                    #[trigger] anon_struct_matches(&self.type_pool, self.anon_struct_method_sigs@, id, fields, methods)
                        && forall|j: int| 0 <= j < id ==> !#[trigger] anon_struct_matches(
                            &self.type_pool,
                            self.anon_struct_method_sigs@,
                            j,
                            fields,
                            methods,
                        ),
            )
        } else {
            None
        }
    }

    /// Below any matching struct there is a first matching struct.
    proof fn lemma_minimal_anon_match(
        &self,
        k: int,
        fields: Seq<(Seq<char>, Type)>,
        methods: Seq<(Sym, bool, Seq<Sym>, Sym)>,
    )
        requires
            anon_struct_matches(&self.type_pool, self.anon_struct_method_sigs@, k, fields, methods),
        ensures
            exists|id: int|
                #[trigger] anon_struct_matches(&self.type_pool, self.anon_struct_method_sigs@, id, fields, methods)
                    && forall|j: int| 0 <= j < id ==> !#[trigger] anon_struct_matches(
                        &self.type_pool,
                        self.anon_struct_method_sigs@,
                        j,
                        fields,
                        methods,
                    ),
            self.first_anon_match(fields, methods) is Some,
            anon_struct_matches(
                &self.type_pool,
                self.anon_struct_method_sigs@,
                self.first_anon_match(fields, methods)->0,
                fields,
                methods,
            ),
        decreases k,
    {
        if exists|j: int| 0 <= j < k && #[trigger] anon_struct_matches(&self.type_pool, self.anon_struct_method_sigs@, j, fields, methods) {
            let j = choose|j: int| 0 <= j < k && #[trigger] anon_struct_matches(&self.type_pool, self.anon_struct_method_sigs@, j, fields, methods);
            self.lemma_minimal_anon_match(j, fields, methods);
        }
    }

    proof fn lemma_first_anon_match(
        &self,
        id: int,
        fields: Seq<(Seq<char>, Type)>,
        methods: Seq<(Sym, bool, Seq<Sym>, Sym)>,
    )
        requires
            anon_struct_matches(&self.type_pool, self.anon_struct_method_sigs@, id, fields, methods),
            forall|j: int|
                0 <= j < id ==> !#[trigger] anon_struct_matches(
                    &self.type_pool,
                    self.anon_struct_method_sigs@,
                    j,
                    fields,
                    methods,
                ),
        ensures
            self.first_anon_match(fields, methods) == Some(id),
    {
        let c = self.first_anon_match(fields, methods)->0;
    }

    /// Find an existing anonymous struct with the same fields and methods, or create a new one.
    ///
    /// Returns the struct type and whether it was newly created; callers
    /// register methods only for newly created structs.
    pub fn find_or_create_anon_struct(&mut self, fields: &[StructField], method_sigs: &[AnonMethodSig]) -> (r: (Type, bool))
        requires
            old(self).wf(),
            old(self).type_pool.spec_len() < u32::MAX,
            interned(old(self).interner).dom().finite(),
            interned(old(self).interner).dom().len() + 4 < u32::MAX,
        ensures
            final(self).wf(),
            final(self).enums@ == old(self).enums@,
            final(self).constants@ == old(self).constants@,
            final(self).functions == old(self).functions,
            final(self).methods == old(self).methods,
            final(self).file_paths@ == old(self).file_paths@,
            final(self).type_pool.enums@ == old(self).type_pool.enums@,
            final(self).type_pool.arrays@ == old(self).type_pool.arrays@,
            final(self).builtin_string_id == old(self).builtin_string_id,
            // Afterwards the returned struct is the first one with these fields and methods.
            r.0 matches Type::Struct(id) && final(self).first_anon_match(
                fields_view(fields@),
                sigs_view(method_sigs@),
            ) == Some(id as int),
            // An equal anonymous struct exists: the first one is reused, nothing changes.
            (exists|id: int|
                #[trigger] anon_struct_matches(&old(self).type_pool, old(self).anon_struct_method_sigs@, id, fields_view(fields@), sigs_view(method_sigs@)))
                ==> ({
                let id = old(self).first_anon_match(fields_view(fields@), sigs_view(method_sigs@))->0;
                &&& r == (Type::Struct(id as u32), false)
                &&& final(self).type_pool.structs@ == old(self).type_pool.structs@
                &&& final(self).anon_struct_method_sigs@ == old(self).anon_struct_method_sigs@
                &&& final(self).structs@ == old(self).structs@
                &&& final(self).interner == old(self).interner
            }),
            // Otherwise a new anonymous struct is registered.
            !(exists|id: int|
                #[trigger] anon_struct_matches(&old(self).type_pool, old(self).anon_struct_method_sigs@, id, fields_view(fields@), sigs_view(method_sigs@)))
                ==> ({
                let n = old(self).type_pool.structs@.len();
                let def = final(self).type_pool.structs@[n as int];
                &&& r == (Type::Struct(n as u32), true)
                &&& final(self).type_pool.structs@.len() == n + 1
                &&& final(self).type_pool.structs@.take(n as int) == old(self).type_pool.structs@
                &&& def.name@ == anon_prefix() + spec_decimal(n as u64)
                &&& fields_view(def.fields@) == fields_view(fields@)
                &&& def.is_copy == all_copy(&old(self).type_pool, fields@)
                &&& !def.is_handle && !def.is_linear && def.destructor is None
                &&& !def.is_builtin && !def.is_pub && def.file_id == 0
                &&& recorded_sigs(final(self).anon_struct_method_sigs@, n as u32) == sigs_view(method_sigs@)
                &&& forall|k: u32| k != n ==> #[trigger] recorded_sigs(final(self).anon_struct_method_sigs@, k)
                    == recorded_sigs(old(self).anon_struct_method_sigs@, k)
                &&& exists|t: Sym, f: Sym| #![trigger old(self).structs@.remove(t).insert(f, n as u32)] {
                    &&& interned(final(self).interner) == interned(old(self).interner).insert(
                        t,
                        anon_temp_prefix() + spec_decimal(old(self).type_pool.spec_len() as u64),
                    ).insert(f, anon_prefix() + spec_decimal(n as u64))
                    &&& final(self).structs@ == old(self).structs@.remove(t).insert(f, n as u32)
                }
            }),
    {
        let ghost fv = fields_view(fields@);
        let ghost mv = sigs_view(method_sigs@);
        let empty_sigs: Vec<AnonMethodSig> = Vec::new();
        // Check if an equivalent anonymous struct already exists
        let n = self.type_pool.structs.len();
        let mut struct_id: usize = 0;
        while struct_id < n
            invariant
                n == self.type_pool.structs@.len(),
                *self == *old(self),
                old(self).wf(),
                n < u32::MAX,
                struct_id <= n,
                empty_sigs@.len() == 0,
                fv == fields_view(fields@),
                mv == sigs_view(method_sigs@),
                forall|j: int|
                    0 <= j < struct_id ==> !#[trigger] anon_struct_matches(
                        &self.type_pool,
                        self.anon_struct_method_sigs@,
                        j,
                        fv,
                        mv,
                    ),
            decreases n - struct_id,
        {
            let struct_def = &self.type_pool.structs[struct_id];
            if str_starts_with(struct_def.name.as_str(), "__anon_struct_") && fields_equal(
                &struct_def.fields,
                fields,
            ) {
                let id32 = struct_id as u32;
                let existing_sigs = match self.anon_struct_method_sigs.get(&id32) {
                    Some(v) => v.as_slice(),
                    None => empty_sigs.as_slice(),
                };
                assert(sigs_view(existing_sigs@) == recorded_sigs(self.anon_struct_method_sigs@, id32));
                if sigs_equal(existing_sigs, method_sigs) {
                    proof {
                        self.lemma_first_anon_match(struct_id as int, fv, mv);
                    }
                    // Found a matching struct
                    return (Type::Struct(struct_id as u32), false);
                }
            }
            struct_id = struct_id + 1;
        }
        proof {
            if exists|id: int| #[trigger] anon_struct_matches(&self.type_pool, self.anon_struct_method_sigs@, id, fv, mv) {
                let id = choose|id: int| #[trigger] anon_struct_matches(&self.type_pool, self.anon_struct_method_sigs@, id, fv, mv);
            }
        }
        // No matching struct found - create a new one
        let pool_len = self.type_pool.structs.len() + self.type_pool.enums.len() + self.type_pool.arrays.len();
        let anon_name_temp = String::from_str("__anon_struct_temp_").concat(decimal(pool_len as u64).as_str());
        let name_sym = intern(&mut self.interner, anon_name_temp.as_str());
        // Determine if the struct is Copy (all fields are Copy)
        let is_copy = fields_all_copy(&self.type_pool, fields);
        let struct_def = StructDef {
            name: anon_name_temp,
            fields: copy_fields(fields),
            is_copy,
            is_handle: false,
            is_linear: false,
            destructor: None,
            is_builtin: false,
            is_pub: false,  // Anonymous structs are private
            file_id: 0,  // Anonymous, no source file
        };
        let struct_id = n as u32;
        self.type_pool.structs.push(struct_def);
        // Store method signatures for future structural equality checks
        if method_sigs.len() != 0 {
            self.anon_struct_method_sigs.insert(struct_id, copy_sigs(method_sigs));
        }
        // Register in struct lookup
        self.structs.insert(name_sym, struct_id);
        // Update the name now that we have the id
        let final_name = String::from_str("__anon_struct_").concat(decimal(struct_id as u64).as_str());
        let final_name_sym = intern(&mut self.interner, final_name.as_str());
        let mut updated_def = self.type_pool.structs.pop().unwrap();
        updated_def.name = final_name;
        self.type_pool.structs.push(updated_def);
        // Update the struct lookup
        self.structs.remove(&name_sym);
        self.structs.insert(final_name_sym, struct_id);
        proof {
            assert forall|k: u32| k != n implies #[trigger] recorded_sigs(self.anon_struct_method_sigs@, k)
                == recorded_sigs(old(self).anon_struct_method_sigs@, k) by {}
            if method_sigs@.len() == 0 {
                assert(sigs_view(method_sigs@) =~= Seq::<(Sym, bool, Seq<Sym>, Sym)>::empty());
            }
            assert(self.structs@ =~= old(self).structs@.remove(name_sym).insert(final_name_sym, n as u32));
            let nm = self.type_pool.structs@[n as int].name@;
            assert(nm.subrange(0, anon_prefix().len() as int) =~= anon_prefix());
            assert forall|j: int| 0 <= j < n implies !#[trigger] anon_struct_matches(
                &self.type_pool,
                self.anon_struct_method_sigs@,
                j,
                fv,
                mv,
            ) by {
                assert(recorded_sigs(self.anon_struct_method_sigs@, j as u32) == recorded_sigs(
                    old(self).anon_struct_method_sigs@,
                    j as u32,
                ));
                assert(!anon_struct_matches(&old(self).type_pool, old(self).anon_struct_method_sigs@, j, fv, mv));
            }
            self.lemma_first_anon_match(n as int, fv, mv);
        }
        (Type::Struct(struct_id), true)
    }
}

} // verus!

verus! {

/// Structural identity: once `find_or_create_anon_struct` has returned the
/// struct `id` for some fields and methods (so that `id` is the first
/// anonymous struct with them), asking again with equal fields and methods
/// takes its "found" branch and returns `id` again, not a new struct.
pub proof fn law_anon_struct_structural_identity(
    s: &Sema,
    fields: Seq<(Seq<char>, Type)>,
    methods: Seq<(Sym, bool, Seq<Sym>, Sym)>,
    id: int,
)
    requires
        s.first_anon_match(fields, methods) == Some(id),
    ensures
        exists|j: int| #[trigger] anon_struct_matches(&s.type_pool, s.anon_struct_method_sigs@, j, fields, methods),
        anon_struct_matches(&s.type_pool, s.anon_struct_method_sigs@, id, fields, methods),
{
    let w = choose|w: int| #[trigger] anon_struct_matches(&s.type_pool, s.anon_struct_method_sigs@, w, fields, methods);
    s.lemma_minimal_anon_match(w, fields, methods);
}

/// Structural identity, both ways: the anonymous struct found for a shape of
/// fields and methods is one that has exactly that shape, so a shape that
/// differs in its fields (names, types or order) or in its methods never
/// finds the same struct.
pub proof fn law_anon_struct_shape_determines_struct(
    s: &Sema,
    fields: Seq<(Seq<char>, Type)>,
    methods: Seq<(Sym, bool, Seq<Sym>, Sym)>,
    other_fields: Seq<(Seq<char>, Type)>,
    other_methods: Seq<(Sym, bool, Seq<Sym>, Sym)>,
)
    requires
        s.first_anon_match(fields, methods) is Some,
        s.first_anon_match(other_fields, other_methods) == s.first_anon_match(fields, methods),
    ensures
        other_fields == fields,
        other_methods == methods,
{
    let id = s.first_anon_match(fields, methods)->0;
    law_anon_struct_structural_identity(s, fields, methods, id);
    law_anon_struct_structural_identity(s, other_fields, other_methods, id);
}

/// Anonymous-struct lookup is idempotent: once a lookup of a shape has
/// returned `Struct(id)` (afterwards `first_anon_match` is `Some(id)`, as
/// `find_or_create_anon_struct` ensures), an equal struct exists and the
/// first is `id`, so a second lookup of the same shape takes the reuse
/// branch of that contract: it returns `(Struct(id), false)` and changes no
/// table.
pub proof fn law_anon_struct_lookup_idempotent(
    s: &Sema,
    fields: Seq<(Seq<char>, Type)>,
    methods: Seq<(Sym, bool, Seq<Sym>, Sym)>,
    id: int,
)
    requires
        s.first_anon_match(fields, methods) == Some(id),
    ensures
        exists|j: int| #[trigger] anon_struct_matches(&s.type_pool, s.anon_struct_method_sigs@, j, fields, methods),
        s.first_anon_match(fields, methods)->0 == id,
        0 <= id < s.type_pool.structs@.len(),
{
    law_anon_struct_structural_identity(s, fields, methods, id);
}

} // verus!
