//! The semantic analyzer's state and the decisions it makes about
//! declarations: module visibility, enum resolution, and the identity of
//! anonymous struct types.
use vstd::prelude::*;

use std::collections::HashMap;

use lasso::ThreadedRodeo;

use crate::context::ParamMode;
use crate::intrinsics::{HostArch, HostOs};
use crate::diag::{preview_name, CompileError, ErrorKind, PreviewFeature, PreviewFeatures};
use crate::interner::{interned, try_resolve};
use crate::paths::{
    path_file_stem, path_join, path_parent, paths_equal, spec_file_stem, spec_path_join,
    spec_path_parent, spec_paths_equal,
};
use crate::rir::{InstRef, Rir};
use crate::types::{Span, StructField, Sym, Type, TypePool};

verus! {

/// Information about a constant declaration.
#[derive(Clone, Copy, Debug)]
pub struct ConstInfo {
    /// Whether this constant is public
    pub is_pub: bool,
    /// The type of the constant value (e.g., `Type::Module` for imports)
    pub ty: Type,
    /// The RIR instruction for the initializer
    pub init: InstRef,
    /// Span of the const declaration
    pub span: Span,
}

/// The modules imported so far: for each module id, the import path as
/// written and the file it resolved to.
pub struct ModuleRegistry {
    pub modules: Vec<(String, String)>,
}

/// The module identity of a file: the directory module it belongs to.
/// A facade file `_foo.rue` belongs to the module `foo` next to it; any
/// other file belongs to its parent directory.
pub open spec fn module_identity(path: Seq<char>) -> Option<Seq<char>> {
    match (spec_path_parent(path), spec_file_stem(path)) {
        (Some(parent), Some(stem)) => if stem.len() > 0 && stem[0] == '_' {
            Some(spec_path_join(parent, stem.drop_first()))
        } else {
            Some(parent)
        },
        _ => None,
    }
}

/// Two module identities (possibly unknown) are the same module.
pub open spec fn same_module(a: Option<Seq<char>>, b: Option<Seq<char>>) -> bool {
    match (a, b) {
        (Some(x), Some(y)) => x == y || spec_paths_equal(x, y),
        (None, None) => true,
        _ => false,
    }
}

/// An item declared in `target` with visibility `is_pub` can be used from `accessing`.
pub open spec fn accessible(
    file_paths: Map<u32, String>,
    accessing: u32,
    target: u32,
    is_pub: bool,
) -> bool {
    if is_pub {
        true
    } else if file_paths.contains_key(accessing) && file_paths.contains_key(target) {
        same_module(
            module_identity(file_paths[accessing]@),
            module_identity(file_paths[target]@),
        )
    } else {
        // Unknown paths (single-file mode, synthetic types) are permissive.
        true
    }
}

/// A range of parameters in the parameter arena: where they start and how many.
#[derive(Clone, Copy, Debug, PartialEq, Eq, Structural)]
pub struct ParamRange {
    pub start: u32,
    pub len: u32,
}

/// The parameters of every function and method, side by side: a
/// `ParamRange` picks one declaration's parameters out of each list.
pub struct ParamArena {
    pub names: Vec<Sym>,
    pub types: Vec<Type>,
    pub modes: Vec<ParamMode>,
    pub comptime: Vec<bool>,
}

impl ParamArena {
    /// An empty arena.
    pub fn new() -> (a: Self)
        ensures
            a.wf(),
            a.names@.len() == 0,
    {
        ParamArena { names: Vec::new(), types: Vec::new(), modes: Vec::new(), comptime: Vec::new() }
    }

    /// The lists are as long as each other.
    pub open spec fn wf(&self) -> bool {
        &&& self.types@.len() == self.names@.len()
        &&& self.modes@.len() == self.names@.len()
        &&& self.comptime@.len() == self.names@.len()
    }

    /// The range lies within the arena.
    pub open spec fn holds(&self, r: ParamRange) -> bool {
        r.start + r.len <= self.names@.len()
    }
}

/// Information about a function.
#[derive(Clone, Copy, Debug)]
pub struct FunctionInfo {
    /// Parameter data (names, types, modes, comptime flags) in the parameter arena
    pub params: ParamRange,
    /// Return type
    pub return_type: Type,
    /// The return type symbol (before resolution), for generic specialization
    pub return_type_sym: Sym,
    /// The RIR instruction of the function body
    pub body: InstRef,
    /// Span of the function declaration
    pub span: Span,
    /// Whether this function has comptime type parameters
    pub is_generic: bool,
    /// Whether this function is public (visible outside its directory)
    pub is_pub: bool,
    /// File the function was declared in (for visibility checking)
    pub file_id: u32,
}

/// The key of a struct's method in the method table: the struct id in the
/// high word, the method's name in the low word.
pub open spec fn method_key(struct_id: u32, name: Sym) -> u64 {
    (struct_id as u64 * 0x1_0000_0000 + name as u64) as u64
}

/// The key of a struct's method in the method table.
pub fn method_table_key(struct_id: u32, name: Sym) -> (k: u64)
    ensures
        k == method_key(struct_id, name),
{
    struct_id as u64 * 0x1_0000_0000u64 + name as u64
}

/// Different methods (by struct and name) have different keys, so the
/// method table holds each struct's methods apart.
pub proof fn law_method_keys_distinct(a: u32, m: Sym, b: u32, n: Sym)
    requires
        a != b || m != n,
    ensures
        method_key(a, m) != method_key(b, n),
{
    let x = (a as int) * 0x1_0000_0000 + (m as int);
    let y = (b as int) * 0x1_0000_0000 + (n as int);
    assert(0 <= x < 0x1_0000_0000_0000_0000int) by (nonlinear_arith)
        requires
            x == (a as int) * 0x1_0000_0000 + (m as int),
            0 <= a < 0x1_0000_0000int,
            0 <= m < 0x1_0000_0000int,
    ;
    assert(0 <= y < 0x1_0000_0000_0000_0000int) by (nonlinear_arith)
        requires
            y == (b as int) * 0x1_0000_0000 + (n as int),
            0 <= b < 0x1_0000_0000int,
            0 <= n < 0x1_0000_0000int,
    ;
    assert(x != y) by (nonlinear_arith)
        requires
            x == (a as int) * 0x1_0000_0000 + (m as int),
            y == (b as int) * 0x1_0000_0000 + (n as int),
            0 <= m < 0x1_0000_0000int,
            0 <= n < 0x1_0000_0000int,
            a != b || m != n,
    ;
}

/// Information about a method in an impl block.
#[derive(Clone, Copy, Debug)]
pub struct MethodInfo {
    /// The struct type this method belongs to
    pub struct_type: Type,
    /// Whether this is a method (has self) or associated function (no self)
    pub has_self: bool,
    /// Parameter data in the parameter arena, excluding `self`
    pub params: ParamRange,
    /// Return type
    pub return_type: Type,
    /// The RIR instruction of the method body
    pub body: InstRef,
    /// Span of the method declaration
    pub span: Span,
}

/// The state built while gathering declarations, from which function bodies
/// are analyzed.
pub struct GatherOutput<'a> {
    pub rir: &'a Rir,
    pub interner: ThreadedRodeo,
    /// Struct name symbol to struct id
    pub structs: HashMap<Sym, u32>,
    /// Enum name symbol to enum id
    pub enums: HashMap<Sym, u32>,
    /// Function name to function information
    pub functions: HashMap<Sym, FunctionInfo>,
    /// Method information, by `method_key` of the struct id and the method name
    pub methods: HashMap<u64, MethodInfo>,
    /// Const name to const information
    pub constants: HashMap<Sym, ConstInfo>,
    /// Struct id of the builtin `String` type
    pub builtin_string_id: Option<u32>,
    /// Enum ids of the builtin `Arch` and `Os` enums
    pub builtin_arch_id: Option<u32>,
    pub builtin_os_id: Option<u32>,
    /// The struct, enum and array definitions
    pub type_pool: TypePool,
    /// The parameters of the functions and methods
    pub param_arena: ParamArena,
    /// The preview features enabled for this compilation
    pub preview_features: PreviewFeatures,
}

impl<'a> GatherOutput<'a> {
    /// The semantic analyzer that analyzes function bodies with these
    /// declarations: nothing imported yet, no file paths, no anonymous
    /// struct methods recorded.
    pub fn into_sema(self) -> (s: Sema<'a>)
        ensures
            s.rir == self.rir,
            s.interner == self.interner,
            s.structs == self.structs,
            s.enums == self.enums,
            s.functions == self.functions,
            s.methods == self.methods,
            s.constants == self.constants,
            s.builtin_string_id == self.builtin_string_id,
            s.builtin_arch_id == self.builtin_arch_id,
            s.builtin_os_id == self.builtin_os_id,
            s.type_pool == self.type_pool,
            s.param_arena == self.param_arena,
            s.preview_features == self.preview_features,
            s.host is None,
            s.abi_slots@.len() == 0,
            s.module_registry.modules@.len() == 0,
            s.file_paths@.len() == 0,
            s.anon_struct_method_sigs@.len() == 0,
    {
        Sema {
            rir: self.rir,
            interner: self.interner,
            functions: self.functions,
            structs: self.structs,
            enums: self.enums,
            methods: self.methods,
            constants: self.constants,
            builtin_string_id: self.builtin_string_id,
            builtin_arch_id: self.builtin_arch_id,
            builtin_os_id: self.builtin_os_id,
            type_pool: self.type_pool,
            param_arena: self.param_arena,
            preview_features: self.preview_features,
            host: None,
            abi_slots: Vec::new(),
            module_registry: ModuleRegistry { modules: Vec::new() },
            file_paths: HashMap::new(),
            anon_struct_method_sigs: HashMap::new(),
        }
    }
}

/// The slot count the first entry for `ty` gives, if any.
pub open spec fn slot_count_in(table: Seq<(Type, u32)>, ty: Type) -> Option<u32>
    decreases table.len(),
{
    if table.len() == 0 {
        None
    } else if table[0].0 == ty {
        Some(table[0].1)
    } else {
        slot_count_in(table.skip(1), ty)
    }
}

/// The ABI slots the first `n` fields take, by the layout table; `None`
/// when one of them has no slot count.
pub open spec fn fields_slots(table: Seq<(Type, u32)>, fields: Seq<StructField>, n: int) -> Option<int>
    decreases n,
{
    if n <= 0 {
        Some(0)
    } else {
        match (fields_slots(table, fields, n - 1), slot_count_in(table, fields[n - 1].ty)) {
            (Some(a), Some(b)) => Some(a + b),
            _ => None,
        }
    }
}

/// Once the slots of a prefix are unknown, so are those of every longer prefix.
proof fn lemma_fields_slots_none(table: Seq<(Type, u32)>, fields: Seq<StructField>, i: int, n: int)
    requires
        0 <= i <= n,
        fields_slots(table, fields, i) is None,
    ensures
        fields_slots(table, fields, n) is None,
    decreases n - i,
{
    if i < n {
        lemma_fields_slots_none(table, fields, i + 1, n);
    }
}

/// The slots of a longer prefix are at least those of a shorter one.
proof fn lemma_fields_slots_grow(table: Seq<(Type, u32)>, fields: Seq<StructField>, i: int, n: int)
    requires
        0 <= i <= n,
        fields_slots(table, fields, i) is Some,
    ensures
        fields_slots(table, fields, n) matches Some(b) ==> b >= fields_slots(table, fields, i)->0,
    decreases n - i,
{
    if i < n {
        if fields_slots(table, fields, i + 1) is Some {
            lemma_fields_slots_grow(table, fields, i + 1, n);
        } else {
            lemma_fields_slots_none(table, fields, i + 1, n);
        }
    }
}

/// Semantic analyzer state.
pub struct Sema<'a> {
    pub rir: &'a Rir,
    pub interner: ThreadedRodeo,
    /// Function table: function name symbol to function info
    pub functions: HashMap<Sym, FunctionInfo>,
    /// Method table: by `method_key` of the struct id and the method name
    pub methods: HashMap<u64, MethodInfo>,
    /// Struct table: struct name symbol to struct id
    pub structs: HashMap<Sym, u32>,
    /// Enum table: enum name symbol to enum id
    pub enums: HashMap<Sym, u32>,
    /// Constant table: const name symbol to const info
    pub constants: HashMap<Sym, ConstInfo>,
    /// Struct id of the builtin `String` type, once injected
    pub builtin_string_id: Option<u32>,
    /// Enum ids of the builtin `Arch` and `Os` enums, once injected
    pub builtin_arch_id: Option<u32>,
    pub builtin_os_id: Option<u32>,
    /// The struct, enum and array definitions
    pub type_pool: TypePool,
    /// The parameters of the functions and methods
    pub param_arena: ParamArena,
    /// Imported modules
    pub module_registry: ModuleRegistry,
    /// Source file path of each file id (for module resolution)
    pub file_paths: HashMap<u32, String>,
    /// Method signatures of anonymous structs, for structural equality
    pub anon_struct_method_sigs: HashMap<u32, Vec<AnonMethodSig>>,
    /// The preview features enabled for this compilation
    pub preview_features: PreviewFeatures,
    /// The architecture and operating system compiled for, once known
    pub host: Option<(HostArch, HostOs)>,
    /// The number of ABI slots a value of each type takes, as the type
    /// layout gives them (the first entry for a type counts)
    pub abi_slots: Vec<(Type, u32)>,
}

/// Method signature of an anonymous struct, as written (type names, not types).
pub struct AnonMethodSig {
    /// Method name
    pub name: Sym,
    /// Whether this is a method (has self) or associated function (no self)
    pub has_self: bool,
    /// Parameter type symbols (excluding self parameter)
    pub param_types: Vec<Sym>,
    /// Return type symbol
    pub return_type: Sym,
}

impl View for AnonMethodSig {
    type V = (Sym, bool, Seq<Sym>, Sym);

    open spec fn view(&self) -> (Sym, bool, Seq<Sym>, Sym) {
        (self.name, self.has_self, self.param_types@, self.return_type)
    }
}

impl<'a> Sema<'a> {
    /// The tables refer only to types that exist.
    pub open spec fn wf(&self) -> bool {
        &&& forall|k: Sym| #[trigger] self.structs@.contains_key(k) ==> self.structs@[k]
            < self.type_pool.structs@.len()
        &&& forall|k: Sym| #[trigger] self.enums@.contains_key(k) ==> self.enums@[k]
            < self.type_pool.enums@.len()
        &&& forall|k: u32| #[trigger] self.anon_struct_method_sigs@.contains_key(k) ==> k
            < self.type_pool.structs@.len()
        &&& self.builtin_string_id matches Some(id) ==> id < self.type_pool.structs@.len()
    }

    /// Create a new semantic analyzer.
    pub fn new(rir: &'a Rir, interner: ThreadedRodeo, preview_features: PreviewFeatures) -> (s: Self)
        ensures
            s.preview_features == preview_features,
            s.host is None,
            s.abi_slots@.len() == 0,
            s.wf(),
            s.rir == rir,
            s.interner == interner,
            s.functions@.len() == 0,
            s.methods@.len() == 0,
            s.structs@.len() == 0,
            s.enums@.len() == 0,
            s.constants@.len() == 0,
            s.builtin_string_id is None,
            s.builtin_arch_id is None,
            s.builtin_os_id is None,
            s.type_pool.structs@.len() == 0,
            s.type_pool.enums@.len() == 0,
            s.param_arena.wf(),
            s.param_arena.names@.len() == 0,
            s.module_registry.modules@.len() == 0,
            s.file_paths@.len() == 0,
            s.anon_struct_method_sigs@.len() == 0,
    {
        Sema {
            rir,
            interner,
            functions: HashMap::new(),
            methods: HashMap::new(),
            structs: HashMap::new(),
            enums: HashMap::new(),
            constants: HashMap::new(),
            builtin_string_id: None,
            builtin_arch_id: None,
            builtin_os_id: None,
            type_pool: TypePool::new(),
            param_arena: ParamArena::new(),
            module_registry: ModuleRegistry { modules: Vec::new() },
            file_paths: HashMap::new(),
            anon_struct_method_sigs: HashMap::new(),
            preview_features,
            host: None,
            abi_slots: Vec::new(),
        }
    }

    /// The number of ABI slots of a value of type `ty`, from the layout table.
    pub fn abi_slot_count(&self, ty: Type) -> (r: Option<u32>)
        ensures
            r == slot_count_in(self.abi_slots@, ty),
    {
        let mut i: usize = 0;
        assert(self.abi_slots@.skip(0) =~= self.abi_slots@);
        while i < self.abi_slots.len()
            invariant
                i <= self.abi_slots@.len(),
                slot_count_in(self.abi_slots@, ty) == slot_count_in(self.abi_slots@.skip(i as int), ty),
            decreases self.abi_slots@.len() - i,
        {
            let (t, n) = self.abi_slots[i];
            proof {
                assert(self.abi_slots@.skip(i as int)[0] == self.abi_slots@[i as int]);
                assert(self.abi_slots@.skip(i as int).skip(1) =~= self.abi_slots@.skip(i + 1));
            }
            if t == ty {
                return Some(n);
            }
            i = i + 1;
        }
        None
    }

    /// The slot offset of field `field_index` within a value of struct
    /// `struct_id`: the ABI slots of the fields before it; `None` when one
    /// of them has no slot count or the sum outgrows `u32`.
    pub fn field_slot_offset(&self, struct_id: u32, field_index: u32) -> (r: Option<u32>)
        requires
            struct_id < self.type_pool.structs@.len(),
            field_index <= self.type_pool.structs@[struct_id as int].fields@.len(),
        ensures
            ({
                let fields = self.type_pool.structs@[struct_id as int].fields@;
                match fields_slots(self.abi_slots@, fields, field_index as int) {
                    Some(n) => if n <= u32::MAX {
                        r == Some(n as u32)
                    } else {
                        r is None
                    },
                    None => r is None,
                }
            }),
    {
        let ghost fields = self.type_pool.structs@[struct_id as int].fields@;
        let def = &self.type_pool.structs[struct_id as usize];
        let mut total: u64 = 0;
        let mut i: u32 = 0;
        while i < field_index
            invariant
                i <= field_index,
                field_index <= fields.len(),
                def.fields@ == fields,
                fields == self.type_pool.structs@[struct_id as int].fields@,
                fields_slots(self.abi_slots@, fields, i as int) == Some(total as int),
                total <= u32::MAX,
            decreases field_index - i,
        {
            let ghost before = total;
            let k = match self.abi_slot_count(def.fields[i as usize].ty) {
                Some(k) => k,
                None => {
                    proof {
                        assert(fields_slots(self.abi_slots@, fields, i as int + 1) is None);
                        lemma_fields_slots_none(self.abi_slots@, fields, i as int + 1, field_index as int);
                    }
                    return None;
                },
            };
            total = total + k as u64;
            proof {
                assert(fields_slots(self.abi_slots@, fields, i as int + 1) == Some(before + k));
            }
            i = i + 1;
            if total > 0xFFFF_FFFF {
                proof {
                    lemma_fields_slots_grow(self.abi_slots@, fields, i as int, field_index as int);
                }
                return None;
            }
        }
        Some(total as u32)
    }

    /// Record the architecture and operating system compiled for.
    pub fn set_host(&mut self, arch: HostArch, os: HostOs)
        ensures
            final(self).host == Some((arch, os)),
            final(self).rir == old(self).rir,
            final(self).interner == old(self).interner,
            final(self).functions == old(self).functions,
            final(self).methods == old(self).methods,
            final(self).structs == old(self).structs,
            final(self).enums == old(self).enums,
            final(self).type_pool == old(self).type_pool,
            final(self).builtin_string_id == old(self).builtin_string_id,
            final(self).builtin_arch_id == old(self).builtin_arch_id,
            final(self).builtin_os_id == old(self).builtin_os_id,
            final(self).anon_struct_method_sigs == old(self).anon_struct_method_sigs,
            final(self).preview_features == old(self).preview_features,
    {
        self.host = Some((arch, os));
    }

    /// Require a preview feature: an error naming the feature and `what`
    /// uses it, with advice on enabling it, when it is not enabled.
    pub fn require_preview(&self, feature: PreviewFeature, what: &str, span: Span) -> (r: Result<(), CompileError>)
        ensures
            self.preview_features.enabled@.contains(feature) ==> r is Ok,
            !self.preview_features.enabled@.contains(feature) ==> (r matches Err(e) && e.span == span && (
            e.kind matches ErrorKind::PreviewFeatureRequired { feature: f, what: w } && f == feature && w@ == what@)
                && (e.help matches Some(h) && h@ == "use `--preview "@ + preview_name(feature)
                + "` to enable this feature"@)),
    {
        if self.preview_features.contains(feature) {
            Ok(())
        } else {
            let help = String::from_str("use `--preview ").concat(feature.name()).concat("` to enable this feature");
            proof {
                reveal_strlit("use `--preview ");
                reveal_strlit("` to enable this feature");
            }
            Err(
                CompileError::new(ErrorKind::PreviewFeatureRequired { feature, what: what.to_string() }, span).with_help(
                    help,
                ),
            )
        }
    }

    /// Set file paths for module resolution in multi-file compilation.
    pub fn set_file_paths(&mut self, file_paths: HashMap<u32, String>)
        ensures
            final(self).file_paths@ == file_paths@,
            final(self).structs@ == old(self).structs@,
            final(self).enums@ == old(self).enums@,
            final(self).functions == old(self).functions,
            final(self).methods == old(self).methods,
            final(self).constants == old(self).constants,
            final(self).type_pool == old(self).type_pool,
            final(self).anon_struct_method_sigs@ == old(self).anon_struct_method_sigs@,
            final(self).builtin_string_id == old(self).builtin_string_id,
            final(self).interner == old(self).interner,
    {
        self.file_paths = file_paths;
    }

    /// Get the file path for a given file id.
    pub fn get_file_path(&self, file_id: u32) -> (r: Option<&str>)
        ensures
            r is Some <==> self.file_paths@.contains_key(file_id),
            r matches Some(s) ==> s@ == self.file_paths@[file_id]@,
    {
        match self.file_paths.get(&file_id) {
            Some(s) => Some(s.as_str()),
            None => None,
        }
    }

    /// Get the source file path for a span.
    pub fn get_source_path(&self, span: Span) -> (r: Option<&str>)
        ensures
            r is Some <==> self.file_paths@.contains_key(span.file_id),
            r matches Some(s) ==> s@ == self.file_paths@[span.file_id]@,
    {
        self.get_file_path(span.file_id)
    }

    /// Check if the compilation involves imports (multi-file compilation).
    pub fn has_imports(&self) -> (r: bool)
        ensures
            r == (self.module_registry.modules@.len() > 0),
    {
        self.module_registry.modules.len() != 0
    }

    /// Get the module identity for a file path.
    ///
    /// - For regular files: the parent directory
    /// - For facade files (`_foo.rue`): the corresponding directory (`foo/`)
    pub fn get_module_identity(path: &str) -> (r: Option<String>)
        ensures
            r is Some <==> module_identity(path@) is Some,
            r matches Some(s) ==> s@ == module_identity(path@)->0,
    {
        let parent = match path_parent(path) {
            Some(p) => p,
            None => return None,
        };
        let file_stem = match path_file_stem(path) {
            Some(s) => s,
            None => return None,
        };
        let stem = file_stem.as_str();
        let n = stem.unicode_len();
        if n > 0 && stem.get_char(0) == '_' {
            // Facade file: _utils.rue -> parent/utils
            let module_name = stem.substring_char(1, n);
            assert(module_name@ =~= stem@.drop_first());
            Some(path_join(parent.as_str(), module_name))
        } else {
            // Regular file: the module is just the parent directory
            Some(parent)
        }
    }

    /// Check if the accessing file can see an item from the target file.
    ///
    /// `pub` items are always accessible; private items are accessible from
    /// files of the same directory module; when either path is unknown,
    /// access is allowed.
    pub fn is_accessible(&self, accessing_file_id: u32, target_file_id: u32, is_pub: bool) -> (r:
        bool)
        ensures
            r == accessible(self.file_paths@, accessing_file_id, target_file_id, is_pub),
    {
        // Public items are always accessible
        if is_pub {
            return true;
        }
        let accessing_path = self.get_file_path(accessing_file_id);
        let target_path = self.get_file_path(target_file_id);
        match (accessing_path, target_path) {
            (Some(acc), Some(tgt)) => {
                let acc_module = Self::get_module_identity(acc);
                let tgt_module = Self::get_module_identity(tgt);
                match (acc_module, tgt_module) {
                    (Some(a), Some(t)) => {
                        let same = a == t;
                        if same {
                            true
                        } else {
                            paths_equal(a.as_str(), t.as_str())
                        }
                    },
                    (None, None) => true,
                    _ => false,
                }
            },
            // If either path is unknown, allow access
            _ => true,
        }
    }

    /// The string of a symbol; the symbol must be held by the interner.
    pub fn resolve(&self, k: Sym) -> (s: &str)
        requires
            interned(self.interner).contains_key(k),
        ensures
            s@ == interned(self.interner)[k],
    {
        match try_resolve(&self.interner, k) {
            Some(s) => s,
            None => "",
        }
    }

    /// Resolve an enum type through a module reference.
    ///
    /// Used for qualified enum paths like `module.EnumName::Variant` in match
    /// patterns. Private enums are only accessible from the same directory module.
    pub fn resolve_enum_through_module(&self, _module_ref: InstRef, enum_name: Sym, span: Span) -> (r:
        Result<u32, CompileError>)
        requires
            self.wf(),
            interned(self.interner).contains_key(enum_name),
        ensures
            !self.enums@.contains_key(enum_name) ==> match r {
                Err(e) => e.span == span && match e.kind {
                    ErrorKind::UnknownEnumType(n) => n@ == interned(self.interner)[enum_name],
                    _ => false,
                },
                Ok(_) => false,
            },
            self.enums@.contains_key(enum_name) ==> ({
                let id = self.enums@[enum_name];
                let def = self.type_pool.enums@[id as int];
                if accessible(self.file_paths@, span.file_id, def.file_id, def.is_pub) {
                    r == Ok::<u32, CompileError>(id)
                } else {
                    match r {
                        Err(e) => e.span == span && match e.kind {
                            ErrorKind::PrivateMemberAccess { item_kind, name } => item_kind@
                                == "enum"@ && name@ == interned(self.interner)[enum_name],
                            _ => false,
                        },
                        Ok(_) => false,
                    }
                }
            }),
    {
        let enum_name_str = self.resolve(enum_name);
        // Try to find the enum globally
        let enum_id = match self.enums.get(&enum_name) {
            Some(id) => *id,
            None => {
                return Err(
                    CompileError::new(ErrorKind::UnknownEnumType(enum_name_str.to_string()), span),
                );
            },
        };
        // Check visibility
        let enum_def = &self.type_pool.enums[enum_id as usize];
        let accessing_file_id = span.file_id;
        let target_file_id = enum_def.file_id;
        if !self.is_accessible(accessing_file_id, target_file_id, enum_def.is_pub) {
            return Err(
                CompileError::new(
                    ErrorKind::PrivateMemberAccess {
                        item_kind: "enum".to_string(),
                        name: enum_name_str.to_string(),
                    },
                    span,
                ),
            );
        }
        Ok(enum_id)
    }

    /// Check if a type is the builtin String type.
    pub fn is_builtin_string(&self, ty: Type) -> (r: bool)
        ensures
            r == (ty matches Type::Struct(id) && self.builtin_string_id == Some(id)),
    {
        match ty {
            Type::Struct(struct_id) => match self.builtin_string_id {
                Some(id) => id == struct_id,
                None => false,
            },
            _ => false,
        }
    }

    /// The builtin String struct type; the builtin types must have been injected.
    pub fn builtin_string_type(&self) -> (t: Type)
        requires
            self.builtin_string_id is Some,
        ensures
            t == Type::Struct(self.builtin_string_id->0),
    {
        match self.builtin_string_id {
            Some(id) => Type::Struct(id),
            None => Type::Error,
        }
    }

    /// The AIR output type of a builtin struct.
    pub fn builtin_air_type(&self, struct_id: u32) -> (t: Type)
        ensures
            t == Type::Struct(struct_id),
    {
        Type::Struct(struct_id)
    }

    /// Check if a type is a linear type.
    /// Only struct types can be linear - primitives and other types are not linear.
    pub fn is_type_linear(&self, ty: Type) -> (r: bool)
        ensures
            r == self.type_pool.is_linear(ty),
    {
        self.type_pool.is_type_linear(ty)
    }
}

} // verus!

verus! {

/// A `pub` item can be used from any file.
pub proof fn law_public_items_always_accessible(file_paths: Map<u32, String>, accessing: u32, target: u32)
    ensures
        accessible(file_paths, accessing, target, true),
{
}

/// A private item can be used from the file that declares it.
pub proof fn law_private_items_accessible_in_own_file(file_paths: Map<u32, String>, file: u32)
    ensures
        accessible(file_paths, file, file, false),
{
}

} // verus!
