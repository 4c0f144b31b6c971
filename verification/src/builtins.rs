//! Built-in types, such as `String`, injected as synthetic structs before
//! user code is analyzed.
//!
//! The built-in types are described by a registry (their names, fields,
//! methods and destructors); the analyzer registers each one as a struct,
//! so that user code that names it finds it, and keeps the id of `String`
//! at hand.
use vstd::prelude::*;

use crate::interner::{intern, interned};
use crate::paths::str_eq;
use crate::sema::Sema;
use crate::types::{StructDef, StructField, Sym, Type};

verus! {

/// The type of a field of a built-in type.
#[derive(Clone, Copy, Debug, PartialEq, Eq, Structural)]
pub enum BuiltinFieldType {
    U64,
    U8,
    Bool,
}

/// A field of a built-in type.
#[derive(Debug)]
pub struct BuiltinField {
    pub name: String,
    pub ty: BuiltinFieldType,
}

/// How a built-in method takes its receiver.
#[derive(Clone, Copy, Debug, PartialEq, Eq, Structural)]
pub enum ReceiverMode {
    ByValue,
    ByRef,
    ByMutRef,
}

/// The type of a parameter of a built-in method.
#[derive(Clone, Copy, Debug, PartialEq, Eq, Structural)]
pub enum BuiltinParamType {
    U64,
    U8,
    Bool,
    /// The built-in type itself
    SelfType,
}

/// The type a built-in method returns.
#[derive(Clone, Copy, Debug, PartialEq, Eq, Structural)]
pub enum BuiltinReturnType {
    Unit,
    U64,
    U8,
    Bool,
    /// The built-in type itself
    SelfType,
}

/// A method of a built-in type.
#[derive(Debug)]
pub struct BuiltinMethod {
    pub name: String,
    pub receiver_mode: ReceiverMode,
    /// The parameters' types, after the receiver
    pub params: Vec<BuiltinParamType>,
    pub return_ty: BuiltinReturnType,
    /// The runtime function that implements the method
    pub runtime_fn: String,
}

/// An associated function of a built-in type (called as `Type::name(..)`).
#[derive(Debug)]
pub struct BuiltinAssociatedFn {
    pub name: String,
    pub params: Vec<BuiltinParamType>,
    pub return_ty: BuiltinReturnType,
    /// The runtime function that implements it
    pub runtime_fn: String,
}

/// The description of a built-in type.
#[derive(Debug)]
pub struct BuiltinTypeDef {
    pub name: String,
    pub fields: Vec<BuiltinField>,
    pub is_copy: bool,
    /// The name of the destructor function, if any
    pub drop_fn: Option<String>,
    pub methods: Vec<BuiltinMethod>,
    pub associated_fns: Vec<BuiltinAssociatedFn>,
}

/// The type a built-in field type stands for.
pub open spec fn field_type(t: BuiltinFieldType) -> Type {
    match t {
        BuiltinFieldType::U64 => Type::U64,
        BuiltinFieldType::U8 => Type::U8,
        BuiltinFieldType::Bool => Type::Bool,
    }
}

/// The struct definition registered for a built-in type: always public,
/// never linear, with no source file.
pub open spec fn builtin_struct(b: BuiltinTypeDef, def: StructDef) -> bool {
    &&& def.name@ == b.name@
    &&& def.fields@.len() == b.fields@.len()
    &&& forall|i: int|
        0 <= i < b.fields@.len() ==> (#[trigger] def.fields@[i]).name@ == b.fields@[i].name@
            && def.fields@[i].ty == field_type(b.fields@[i].ty)
    &&& def.is_copy == b.is_copy
    &&& !def.is_handle
    &&& !def.is_linear
    &&& match (def.destructor, b.drop_fn) {
        (Some(d), Some(f)) => d@ == f@,
        (None, None) => true,
        _ => false,
    }
    &&& def.is_builtin
    &&& def.is_pub
    &&& def.file_id == 0
}

/// The position of the first built-in type named `name`, if any.
pub open spec fn first_named(builtins: Seq<BuiltinTypeDef>, name: Seq<char>) -> Option<int>
    decreases builtins.len(),
{
    if builtins.len() == 0 {
        None
    } else {
        match first_named(builtins.drop_last(), name) {
            Some(i) => Some(i),
            None => if builtins.last().name@ == name {
                Some(builtins.len() - 1)
            } else {
                None
            },
        }
    }
}

/// The position of the first method named `name` of a built-in type, if any.
pub open spec fn first_method(methods: Seq<BuiltinMethod>, name: Seq<char>) -> Option<int>
    decreases methods.len(),
{
    if methods.len() == 0 {
        None
    } else {
        match first_method(methods.drop_last(), name) {
            Some(i) => Some(i),
            None => if methods.last().name@ == name {
                Some(methods.len() - 1)
            } else {
                None
            },
        }
    }
}

/// Some built-in type's method of this name (the first of that name) takes
/// its receiver by mutable reference.
pub open spec fn mutation_method(builtins: Seq<BuiltinTypeDef>, name: Seq<char>) -> bool {
    exists|i: int|
        0 <= i < builtins.len() && (match first_method(#[trigger] builtins[i].methods@, name) {
            Some(j) => builtins[i].methods@[j].receiver_mode == ReceiverMode::ByMutRef,
            None => false,
        })
}

impl BuiltinTypeDef {
    /// The first method of this type with the given name.
    pub fn find_method(&self, name: &str) -> (r: Option<&BuiltinMethod>)
        ensures
            match first_method(self.methods@, name@) {
                Some(j) => r == Some(&self.methods@[j]),
                None => r is None,
            },
    {
        let mut j: usize = 0;
        while j < self.methods.len()
            invariant
                j <= self.methods@.len(),
                first_method(self.methods@.take(j as int), name@) is None,
            decreases self.methods@.len() - j,
        {
            proof {
                assert(self.methods@.take(j + 1).drop_last() =~= self.methods@.take(j as int));
            }
            if str_eq(self.methods[j].name.as_str(), name) {
                proof {
                    lemma_first_method_prefix(self.methods@, j as int + 1, name@);
                }
                return Some(&self.methods[j]);
            }
            j = j + 1;
        }
        assert(self.methods@.take(j as int) =~= self.methods@);
        None
    }
}

/// A first method found in a prefix is the first method of the whole list.
proof fn lemma_first_method_prefix(methods: Seq<BuiltinMethod>, n: int, name: Seq<char>)
    requires
        0 <= n <= methods.len(),
        first_method(methods.take(n), name) is Some,
    ensures
        first_method(methods, name) == first_method(methods.take(n), name),
    decreases methods.len(),
{
    if n < methods.len() {
        assert(methods.drop_last().take(n) =~= methods.take(n));
        lemma_first_method_prefix(methods.drop_last(), n, name);
    } else {
        assert(methods.take(n) =~= methods);
    }
}

/// A first built-in type found in a prefix is the first of the whole registry.
proof fn lemma_first_named_prefix(builtins: Seq<BuiltinTypeDef>, n: int, name: Seq<char>)
    requires
        0 <= n <= builtins.len(),
        first_named(builtins.take(n), name) is Some,
    ensures
        first_named(builtins, name) == first_named(builtins.take(n), name),
    decreases builtins.len(),
{
    if n < builtins.len() {
        assert(builtins.drop_last().take(n) =~= builtins.take(n));
        lemma_first_named_prefix(builtins.drop_last(), n, name);
    } else {
        assert(builtins.take(n) =~= builtins);
    }
}

/// The built-in type of a given name in the registry: the first one so named.
pub fn get_builtin_type<'b>(builtins: &'b [BuiltinTypeDef], name: &str) -> (r: Option<&'b BuiltinTypeDef>)
    ensures
        match first_named(builtins@, name@) {
            Some(i) => r == Some(&builtins@[i]),
            None => r is None,
        },
{
    let mut i: usize = 0;
    while i < builtins.len()
        invariant
            i <= builtins@.len(),
            first_named(builtins@.take(i as int), name@) is None,
        decreases builtins@.len() - i,
    {
        proof {
            assert(builtins@.take(i + 1).drop_last() =~= builtins@.take(i as int));
        }
        if str_eq(builtins[i].name.as_str(), name) {
            proof {
                lemma_first_named_prefix(builtins@, i as int + 1, name@);
            }
            return Some(&builtins[i]);
        }
        i = i + 1;
    }
    assert(builtins@.take(i as int) =~= builtins@);
    None
}

/// The built-in types have distinct names.
pub open spec fn names_distinct(builtins: Seq<BuiltinTypeDef>) -> bool {
    forall|i: int, j: int| 0 <= i < j < builtins.len() ==> builtins[i].name@ != builtins[j].name@
}

/// `after` is the struct table `before` once the first `n` built-in types
/// are registered with ids from `base` on, their names spelled by `names`.
pub open spec fn registers_builtins(
    before: Map<Sym, u32>,
    after: Map<Sym, u32>,
    names: Map<Sym, Seq<char>>,
    builtins: Seq<BuiltinTypeDef>,
    n: int,
    base: int,
) -> bool {
    &&& forall|i: int|
        0 <= i < n ==> exists|k: Sym|
            #[trigger] names.contains_key(k) && names[k] == (#[trigger] builtins[i]).name@ && after.contains_key(k)
                && after[k] == base + i
    &&& forall|k: Sym|
        #[trigger] after.contains_key(k) ==> (before.contains_key(k) && after[k] == before[k]) || exists|i: int|
            0 <= i < n && names.contains_key(k) && names[k] == (#[trigger] builtins[i]).name@ && after[k]
                == base + i
    &&& forall|k: Sym| #[trigger] before.contains_key(k) ==> after.contains_key(k)
}

/// The id `String` gets among the first `n` built-in types, if it is one of them.
pub open spec fn string_position(builtins: Seq<BuiltinTypeDef>, n: int) -> Option<int> {
    if exists|i: int| 0 <= i < n && (#[trigger] builtins[i]).name@ == "String"@ {
        Some(choose|i: int| 0 <= i < n && (#[trigger] builtins[i]).name@ == "String"@)
    } else {
        None
    }
}

/// The struct fields of a built-in type's fields.
fn builtin_fields(fields: &Vec<BuiltinField>) -> (r: Vec<StructField>)
    ensures
        r@.len() == fields@.len(),
        forall|i: int|
            0 <= i < fields@.len() ==> (#[trigger] r@[i]).name@ == fields@[i].name@ && r@[i].ty
                == field_type(fields@[i].ty),
{
    let mut out: Vec<StructField> = Vec::new();
    let mut i: usize = 0;
    while i < fields.len()
        invariant
            i <= fields@.len(),
            out@.len() == i,
            forall|j: int|
                0 <= j < i ==> (#[trigger] out@[j]).name@ == fields@[j].name@ && out@[j].ty == field_type(
                    fields@[j].ty,
                ),
        decreases fields@.len() - i,
    {
        let f = &fields[i];
        let ty = match f.ty {
            BuiltinFieldType::U64 => Type::U64,
            BuiltinFieldType::U8 => Type::U8,
            BuiltinFieldType::Bool => Type::Bool,
        };
        out.push(StructField { name: f.name.clone(), ty });
        i = i + 1;
    }
    out
}

impl<'a> Sema<'a> {
    /// Inject the built-in types as synthetic structs, before user code is
    /// analyzed.
    ///
    /// Each built-in type becomes a public, non-linear struct with no source
    /// file, registered in the type pool and in the struct table under its
    /// name; the id of `String` is kept for quick access. Methods are not
    /// registered: calls on built-in types look them up in the registry.
    pub fn inject_builtin_types(&mut self, builtins: &[BuiltinTypeDef])
        requires
            old(self).wf(),
            names_distinct(builtins@),
            old(self).type_pool.structs@.len() + builtins@.len() < u32::MAX,
            interned(old(self).interner).dom().finite(),
            interned(old(self).interner).dom().len() + builtins@.len() + 2 < u32::MAX,
        ensures
            final(self).wf(),
            final(self).rir == old(self).rir,
            final(self).enums == old(self).enums,
            final(self).constants == old(self).constants,
            final(self).functions == old(self).functions,
            final(self).methods == old(self).methods,
            final(self).file_paths == old(self).file_paths,
            final(self).anon_struct_method_sigs == old(self).anon_struct_method_sigs,
            final(self).module_registry == old(self).module_registry,
            final(self).type_pool.enums == old(self).type_pool.enums,
            final(self).type_pool.arrays == old(self).type_pool.arrays,
            final(self).type_pool.structs@.len() == old(self).type_pool.structs@.len() + builtins@.len(),
            final(self).type_pool.structs@.take(old(self).type_pool.structs@.len() as int)
                == old(self).type_pool.structs@,
            forall|i: int|
                0 <= i < builtins@.len() ==> builtin_struct(
                    builtins@[i],
                    #[trigger] final(self).type_pool.structs@[old(self).type_pool.structs@.len() + i],
                ),
            forall|k: Sym|
                #[trigger] interned(old(self).interner).contains_key(k) ==> interned(
                    final(self).interner,
                ).contains_key(k) && interned(final(self).interner)[k] == interned(old(self).interner)[k],
            registers_builtins(
                old(self).structs@,
                final(self).structs@,
                interned(final(self).interner),
                builtins@,
                builtins@.len() as int,
                old(self).type_pool.structs@.len() as int,
            ),
            final(self).builtin_string_id == match string_position(builtins@, builtins@.len() as int) {
                Some(i) => Some((old(self).type_pool.structs@.len() + i) as u32),
                None => old(self).builtin_string_id,
            },
    {
        let ghost base = self.type_pool.structs@.len() as int;
        let mut i: usize = 0;
        while i < builtins.len()
            invariant
                i <= builtins@.len(),
                self.wf(),
                names_distinct(builtins@),
                self.rir == old(self).rir,
                self.enums == old(self).enums,
                self.constants == old(self).constants,
                self.functions == old(self).functions,
                self.methods == old(self).methods,
                self.file_paths == old(self).file_paths,
                self.anon_struct_method_sigs == old(self).anon_struct_method_sigs,
                self.module_registry == old(self).module_registry,
                self.type_pool.enums == old(self).type_pool.enums,
                self.type_pool.arrays == old(self).type_pool.arrays,
                base == old(self).type_pool.structs@.len(),
                base + builtins@.len() < u32::MAX,
                self.type_pool.structs@.len() == base + i,
                self.type_pool.structs@.take(base) == old(self).type_pool.structs@,
                forall|j: int|
                    0 <= j < i ==> builtin_struct(builtins@[j], #[trigger] self.type_pool.structs@[base + j]),
                interned(self.interner).dom().finite(),
                interned(self.interner).dom().len() <= interned(old(self).interner).dom().len() + i,
                interned(old(self).interner).dom().len() + builtins@.len() + 2 < u32::MAX,
                forall|k: Sym|
                    #[trigger] interned(old(self).interner).contains_key(k) ==> interned(
                        self.interner,
                    ).contains_key(k) && interned(self.interner)[k] == interned(old(self).interner)[k],
                registers_builtins(
                    old(self).structs@,
                    self.structs@,
                    interned(self.interner),
                    builtins@,
                    i as int,
                    base,
                ),
                self.builtin_string_id == match string_position(builtins@, i as int) {
                    Some(j) => Some((base + j) as u32),
                    None => old(self).builtin_string_id,
                },
            decreases builtins@.len() - i,
        {
            let builtin = &builtins[i];
            // Convert builtin field types to our Type enum
            let fields = builtin_fields(&builtin.fields);
            let destructor = match &builtin.drop_fn {
                Some(d) => Some(d.clone()),
                None => None,
            };
            // Built-in types are always public and have no source file
            let struct_def = StructDef {
                name: builtin.name.clone(),
                fields,
                is_copy: builtin.is_copy,
                is_handle: false,
                is_linear: false,
                destructor,
                is_builtin: true,
                is_pub: true,
                file_id: 0,
            };
            let ghost names_before = interned(self.interner);
            let ghost structs_before = self.structs@;
            let name_sym = intern(&mut self.interner, builtin.name.as_str());
            let struct_id = self.type_pool.structs.len() as u32;
            self.type_pool.structs.push(struct_def);
            self.structs.insert(name_sym, struct_id);
            if str_eq(builtin.name.as_str(), "String") {
                self.builtin_string_id = Some(struct_id);
            }
            proof {
                let names = interned(self.interner);
                let ii = i as int;
                assert forall|j: int| 0 <= j < ii + 1 implies builtin_struct(
                    builtins@[j],
                    #[trigger] self.type_pool.structs@[base + j],
                ) by {}
                // Symbols held before keep their strings.
                assert forall|k: Sym| #[trigger] names_before.contains_key(k) implies names.contains_key(k)
                    && names[k] == names_before[k] by {}
                // The earlier built-in types keep their entries: their names differ.
                assert forall|j: int| 0 <= j < ii + 1 implies exists|k: Sym|
                    #[trigger] names.contains_key(k) && names[k] == (#[trigger] builtins@[j]).name@
                        && self.structs@.contains_key(k) && self.structs@[k] == base + j by {
                    if j < ii {
                        let k = choose|k: Sym|
                            #[trigger] names_before.contains_key(k) && names_before[k] == builtins@[j].name@
                                && structs_before.contains_key(k) && structs_before[k] == base + j;
                    } else {
                        assert(names.contains_key(name_sym) && self.structs@[name_sym] == base + j);
                    }
                }
                assert forall|k: Sym| #[trigger] self.structs@.contains_key(k) implies (old(
                    self,
                ).structs@.contains_key(k) && self.structs@[k] == old(self).structs@[k]) || exists|j: int|
                    0 <= j < ii + 1 && names.contains_key(k) && names[k] == (#[trigger] builtins@[j]).name@
                        && self.structs@[k] == base + j by {
                    if k != name_sym {
                        if !(old(self).structs@.contains_key(k) && structs_before[k] == old(self).structs@[k]) {
                            let j = choose|j: int|
                                0 <= j < ii && names_before.contains_key(k) && names_before[k] == (
                                #[trigger] builtins@[j]).name@ && structs_before[k] == base + j;
                        }
                    }
                }
                // The id of String.
                if builtins@[ii].name@ == "String"@ {
                    assert(string_position(builtins@, ii) is None) by {
                        if exists|j: int| 0 <= j < ii && (#[trigger] builtins@[j]).name@ == "String"@ {
                            let j = choose|j: int| 0 <= j < ii && (#[trigger] builtins@[j]).name@ == "String"@;
                        }
                    }
                    let w = choose|j: int| 0 <= j < ii + 1 && (#[trigger] builtins@[j]).name@ == "String"@;
                    assert(w == ii) by {}
                } else {
                    if exists|j: int| 0 <= j < ii + 1 && (#[trigger] builtins@[j]).name@ == "String"@ {
                        let w = choose|j: int| 0 <= j < ii + 1 && (#[trigger] builtins@[j]).name@ == "String"@;
                        let v = choose|j: int| 0 <= j < ii && (#[trigger] builtins@[j]).name@ == "String"@;
                        assert(v == w) by {}
                    }
                }
            }
            i = i + 1;
        }
    }

    /// The registry entry of a struct, if it is a built-in type.
    pub fn get_builtin_type_def<'b>(&self, struct_id: u32, builtins: &'b [BuiltinTypeDef]) -> (r: Option<
        &'b BuiltinTypeDef,
    >)
        requires
            struct_id < self.type_pool.structs@.len(),
        ensures
            ({
                let def = self.type_pool.structs@[struct_id as int];
                if def.is_builtin {
                    match first_named(builtins@, def.name@) {
                        Some(i) => r == Some(&builtins@[i]),
                        None => r is None,
                    }
                } else {
                    r is None
                }
            }),
    {
        let struct_def = &self.type_pool.structs[struct_id as usize];
        if struct_def.is_builtin {
            get_builtin_type(builtins, struct_def.name.as_str())
        } else {
            None
        }
    }

    /// Whether a method name is that of a built-in mutation method: one that
    /// takes its receiver by mutable reference, whose storage must be known
    /// before the receiver is analyzed.
    pub fn is_builtin_mutation_method(&self, builtins: &[BuiltinTypeDef], method_name: &str) -> (r: bool)
        ensures
            r == mutation_method(builtins@, method_name@),
    {
        let mut i: usize = 0;
        while i < builtins.len()
            invariant
                i <= builtins@.len(),
                forall|j: int|
                    0 <= j < i ==> !(match first_method(#[trigger] builtins@[j].methods@, method_name@) {
                        Some(m) => builtins@[j].methods@[m].receiver_mode == ReceiverMode::ByMutRef,
                        None => false,
                    }),
            decreases builtins@.len() - i,
        {
            if let Some(method) = builtins[i].find_method(method_name) {
                if method.receiver_mode == ReceiverMode::ByMutRef {
                    assert(match first_method(builtins@[i as int].methods@, method_name@) {
                        Some(m) => builtins@[i as int].methods@[m].receiver_mode == ReceiverMode::ByMutRef,
                        None => false,
                    });
                    return true;
                }
            }
            i = i + 1;
        }
        false
    }
}

} // verus!
