//! Import resolution and const initializer evaluation.
//!
//! Before function bodies are analyzed, constants initialized with
//! `@import("path")` are given module types. An import path is resolved
//! against the files already loaded for the compilation.
use vstd::prelude::*;

use crate::diag::{CompileError, ErrorKind};
use crate::paths::{
    path_file_stem, path_join, seq_ends_with, spec_file_stem, spec_path_join, str_ends_with, str_eq,
};
use crate::interner::interned;
use crate::rir::{Inst, InstData, InstRef, Rir};
use crate::sema::{ConstInfo, ModuleRegistry, Sema};
use crate::types::{Span, Sym, Type};

verus! {

/// The import path without a trailing `.rue`.
pub open spec fn import_base(import: Seq<char>) -> Seq<char> {
    if seq_ends_with(import, ".rue"@) {
        import.subrange(0, import.len() - ".rue"@.len())
    } else {
        import
    }
}

/// A loaded file answers an import: it is the path itself, it ends with
/// the path (with or without `.rue`), or its stem is the module name
/// (`math` for `math.rue`) or the name of a directory module's entry file
/// (`_math` for `_math.rue`).
pub open spec fn import_matches(file: Seq<char>, import: Seq<char>) -> bool {
    let base = import_base(import);
    ||| file == import
    ||| seq_ends_with(file, base + ".rue"@)
    ||| seq_ends_with(file, import)
    ||| match spec_file_stem(file) {
        Some(name) => name == base || name == "_"@ + base,
        None => false,
    }
}

/// Some loaded file answers the import.
pub open spec fn preloaded_match(file_paths: Map<u32, String>, import: Seq<char>) -> bool {
    exists|k: u32| #[trigger] file_paths.contains_key(k) && import_matches(file_paths[k]@, import)
}

/// `p` is the path of a loaded file.
pub open spec fn is_loaded_path(file_paths: Map<u32, String>, p: Seq<char>) -> bool {
    exists|k: u32| #[trigger] file_paths.contains_key(k) && file_paths[k]@ == p
}

/// `candidates` lists the loaded files: one entry per file.
pub open spec fn lists_loaded_paths(candidates: Seq<String>, file_paths: Map<u32, String>) -> bool {
    &&& candidates.len() == file_paths.dom().len()
    &&& forall|i: int| 0 <= i < candidates.len() ==> is_loaded_path(file_paths, #[trigger] candidates[i]@)
    &&& forall|k: u32| #[trigger] file_paths.contains_key(k) ==> exists|i: int|
        0 <= i < candidates.len() && #[trigger] candidates[i]@ == file_paths[k]@
}

/// The error for an import that no loaded file answers.
pub open spec fn is_module_not_found(e: CompileError, import: Seq<char>, span: Span) -> bool {
    e.span == span && match e.kind {
        ErrorKind::ModuleNotFound { path, .. } => path@ == import,
        _ => false,
    }
}

/// The symbol an instruction names, if it names one.
pub open spec fn inst_symbol(d: InstData) -> Option<Sym> {
    match d {
        InstData::StringConst(s) => Some(s),
        InstData::TypeConst { name } => Some(name),
        InstData::VarRef { name } => Some(name),
        InstData::ParamRef { name } => Some(name),
        InstData::FieldGet { field, .. } => Some(field),
        InstData::Intrinsic { name, .. } => Some(name),
        InstData::Alloc { name: Some(n), .. } => Some(n),
        InstData::Assign { name, .. } => Some(name),
        InstData::Call { name, .. } => Some(name),
        InstData::StructInit { name, .. } => Some(name),
        InstData::EnumVariant { enum_sym, .. } => Some(enum_sym),
        InstData::FieldSet { field, .. } => Some(field),
        _ => None,
    }
}

/// Every symbol the instructions name is held by the interner.
pub open spec fn symbols_interned(rir: &Rir, names: Map<Sym, Seq<char>>) -> bool {
    forall|i: int|
        0 <= i < rir.instructions@.len() ==> match #[trigger] inst_symbol(rir.instructions@[i].data) {
            Some(s) => names.contains_key(s),
            None => true,
        }
}

/// Every name and argument of the directives is held by the interner.
pub open spec fn directives_interned(rir: &Rir, names: Map<Sym, Seq<char>>) -> bool {
    &&& forall|i: int| 0 <= i < rir.directives@.len() ==> names.contains_key(#[trigger] rir.directives@[i].name)
    &&& forall|i: int, j: int|
        0 <= i < rir.directives@.len() && 0 <= j < rir.directives@[i].args@.len() ==> names.contains_key(
            #[trigger] rir.directives@[i].args@[j],
        )
}

/// The argument instruction of a one-argument intrinsic whose arguments start at `args_start`.
pub open spec fn single_arg(rir: &Rir, args_start: u32) -> Inst {
    rir.instructions@[rir.extra@[args_start as int] as int]
}

/// The error `@import` with `args_len` arguments starting at `args_start`,
/// written at `span`, gives, when it gives one.
pub open spec fn import_error(
    rir: &Rir,
    names: Map<Sym, Seq<char>>,
    args_start: u32,
    args_len: u32,
    span: Span,
    e: CompileError,
) -> bool {
    if args_len != 1 {
        e.span == span && match e.kind {
            ErrorKind::IntrinsicWrongArgCount { name, expected, found } => name@ == "import"@
                && expected == 1 && found == args_len,
            _ => false,
        }
    } else {
        match single_arg(rir, args_start).data {
            InstData::StringConst(s) => is_module_not_found(e, names[s], span),
            _ => e.span == single_arg(rir, args_start).span && e.kind is ImportRequiresStringLiteral,
        }
    }
}

/// The import path of an `@import` call, when it has one string literal argument.
pub open spec fn import_path_arg(
    rir: &Rir,
    names: Map<Sym, Seq<char>>,
    args_start: u32,
    args_len: u32,
) -> Option<Seq<char>> {
    if args_len == 1 {
        match single_arg(rir, args_start).data {
            InstData::StringConst(s) => Some(names[s]),
            _ => None,
        }
    } else {
        None
    }
}

/// An `@import` call succeeds: its one argument is a string literal naming a
/// loaded file other than `std`.
pub open spec fn import_succeeds(
    rir: &Rir,
    names: Map<Sym, Seq<char>>,
    file_paths: Map<u32, String>,
    args_start: u32,
    args_len: u32,
) -> bool {
    match import_path_arg(rir, names, args_start, args_len) {
        Some(path) => path != "std"@ && preloaded_match(file_paths, path),
        None => false,
    }
}

/// `entries` registers, under `id`, a loaded file that answers `import`.
pub open spec fn module_answers(
    entries: Seq<(Seq<char>, Seq<char>)>,
    file_paths: Map<u32, String>,
    import: Seq<char>,
    id: u32,
) -> bool {
    &&& id < entries.len()
    &&& import_matches(entries[id as int].1, import)
    &&& is_loaded_path(file_paths, entries[id as int].1)
}

/// The initializer of `c` is an `@import` call.
pub open spec fn is_import_const(rir: &Rir, names: Map<Sym, Seq<char>>, c: ConstInfo) -> bool {
    match rir.instructions@[c.init as int].data {
        InstData::Intrinsic { name, .. } => names[name] == "import"@,
        _ => false,
    }
}

/// The argument range of the intrinsic call that initializes `c`.
pub open spec fn init_args(rir: &Rir, c: ConstInfo) -> (u32, u32) {
    match rir.instructions@[c.init as int].data {
        InstData::Intrinsic { args_start, args_len, .. } => (args_start, args_len),
        _ => (0, 0),
    }
}

/// The `@import` call that initializes `c` succeeds.
pub open spec fn const_import_succeeds(
    rir: &Rir,
    names: Map<Sym, Seq<char>>,
    file_paths: Map<u32, String>,
    c: ConstInfo,
) -> bool {
    import_succeeds(rir, names, file_paths, init_args(rir, c).0, init_args(rir, c).1)
}

/// The import path of the `@import` call that initializes `c`.
pub open spec fn const_import_path(rir: &Rir, names: Map<Sym, Seq<char>>, c: ConstInfo) -> Seq<char> {
    import_path_arg(rir, names, init_args(rir, c).0, init_args(rir, c).1)->0
}

/// `after` is constant `before` once evaluated: an imported module gets the
/// type of a registered module that answers its import; any other constant
/// is left as it is.
pub open spec fn const_evaluated(
    rir: &Rir,
    names: Map<Sym, Seq<char>>,
    file_paths: Map<u32, String>,
    entries: Seq<(Seq<char>, Seq<char>)>,
    before: ConstInfo,
    after: ConstInfo,
) -> bool {
    if is_import_const(rir, names, before) {
        &&& after.is_pub == before.is_pub
        &&& after.init == before.init
        &&& after.span == before.span
        &&& after.ty matches Type::Module(id) && module_answers(
            entries,
            file_paths,
            const_import_path(rir, names, before),
            id,
        )
    } else {
        after == before
    }
}

/// What `module_answers` says of a registry still holds once modules are added.
proof fn lemma_answers_kept(
    before: Seq<(Seq<char>, Seq<char>)>,
    after: Seq<(Seq<char>, Seq<char>)>,
    file_paths: Map<u32, String>,
    import: Seq<char>,
    id: u32,
)
    requires
        before.len() <= after.len(),
        after.subrange(0, before.len() as int) == before,
        module_answers(before, file_paths, import, id),
    ensures
        module_answers(after, file_paths, import, id),
{
}

/// The import path without a trailing `.rue`.
fn strip_rue(import_path: &str) -> (base: &str)
    ensures
        base@ == import_base(import_path@),
{
    if str_ends_with(import_path, ".rue") {
        let n = import_path.unicode_len();
        let k = ".rue".unicode_len();
        import_path.substring_char(0, n - k)
    } else {
        import_path
    }
}

/// Whether a loaded file answers an import, given the import's base name
/// and the base name with `.rue`.
fn file_answers_import(file_path: &str, import_path: &str, base: &str, with_rue: &str) -> (r: bool)
    requires
        base@ == import_base(import_path@),
        with_rue@ == base@ + ".rue"@,
    ensures
        r == import_matches(file_path@, import_path@),
{
    // Exact match
    if str_eq(file_path, import_path) {
        return true;
    }
    // "utils/strings" matches ".../utils/strings.rue"
    if str_ends_with(file_path, with_rue) {
        return true;
    }
    // "utils/strings.rue" matches ".../utils/strings.rue"
    if str_ends_with(file_path, import_path) {
        return true;
    }
    // "math" or "math.rue" matches a file named math.rue, or _math.rue (directory module)
    match path_file_stem(file_path) {
        Some(name) => {
            if str_eq(name.as_str(), base) {
                true
            } else {
                let underscored = String::from_str("_").concat(base);
                str_eq(name.as_str(), underscored.as_str())
            }
        },
        None => false,
    }
}

/// `module_for` gives the first entry for the file, and `None` only when
/// no entry is for it.
proof fn lemma_module_for(entries: Seq<(Seq<char>, Seq<char>)>, file: Seq<char>)
    ensures
        match ModuleRegistry::module_for(entries, file) {
            Some(i) => 0 <= i < entries.len() && entries[i].1 == file && forall|j: int|
                0 <= j < i ==> (#[trigger] entries[j]).1 != file,
            None => forall|j: int| 0 <= j < entries.len() ==> (#[trigger] entries[j]).1 != file,
        },
    decreases entries.len(),
{
    if entries.len() > 0 {
        lemma_module_for(entries.drop_last(), file);
        assert forall|j: int| 0 <= j < entries.len() - 1 implies entries.drop_last()[j] == entries[j] by {}
    }
}

impl ModuleRegistry {
    /// The modules as (import path, resolved file) pairs.
    pub open spec fn entries(&self) -> Seq<(Seq<char>, Seq<char>)> {
        self.modules@.map_values(|m: (String, String)| (m.0@, m.1@))
    }

    /// The id of the module registered for file `file`, if any: the first entry
    /// for it.
    pub open spec fn module_for(entries: Seq<(Seq<char>, Seq<char>)>, file: Seq<char>) -> Option<int>
        decreases entries.len(),
    {
        if entries.len() == 0 {
            None
        } else {
            match ModuleRegistry::module_for(entries.drop_last(), file) {
                Some(i) => Some(i),
                None => if entries.last().1 == file {
                    Some(entries.len() - 1)
                } else {
                    None
                },
            }
        }
    }

    /// `after` is `before` once the module for `file` (imported as `import`)
    /// has been looked up or created with id `id`.
    pub open spec fn registered(
        before: Seq<(Seq<char>, Seq<char>)>,
        after: Seq<(Seq<char>, Seq<char>)>,
        import: Seq<char>,
        file: Seq<char>,
        id: u32,
    ) -> bool {
        match ModuleRegistry::module_for(before, file) {
            Some(i) => id == i && after == before,
            None => id == before.len() && after == before.push((import, file)),
        }
    }

    /// Whether no module has been imported.
    pub fn is_empty(&self) -> (r: bool)
        ensures
            r == (self.modules@.len() == 0),
    {
        self.modules.len() == 0
    }

    /// The module for a resolved file: the one already registered for it, or
    /// a new one. Returns its id and whether it is new.
    pub fn get_or_create(&mut self, import_path: String, resolved_path: String) -> (r: (u32, bool))
        requires
            old(self).modules@.len() < u32::MAX,
        ensures
            ModuleRegistry::module_for(old(self).entries(), resolved_path@) matches Some(i) ==> r == (
            i as u32, false) && final(self).modules@ == old(self).modules@,
            ModuleRegistry::module_for(old(self).entries(), resolved_path@) is None ==> r == (
            old(self).modules@.len() as u32, true) && final(self).entries() == old(self).entries().push(
                (import_path@, resolved_path@),
            ),
            ModuleRegistry::registered(old(self).entries(), final(self).entries(), import_path@, resolved_path@, r.0),
            r.1 == ModuleRegistry::module_for(old(self).entries(), resolved_path@) is None,
            r.0 < final(self).modules@.len(),
            final(self).entries()[r.0 as int].1 == resolved_path@,
    {
        let ghost entries = self.entries();
        proof {
            lemma_module_for(entries, resolved_path@);
        }
        let mut i: usize = 0;
        while i < self.modules.len()
            invariant
                i <= self.modules@.len(),
                self.modules@ == old(self).modules@,
                self.modules@.len() < u32::MAX,
                entries == self.entries(),
                forall|j: int| 0 <= j < i ==> (#[trigger] entries[j]).1 != resolved_path@,
            decreases self.modules@.len() - i,
        {
            if self.modules[i].1 == resolved_path {
                assert(entries[i as int].1 == resolved_path@);
                proof {
                    lemma_module_for(entries, resolved_path@);
                }
                return (i as u32, false);
            }
            i = i + 1;
        }
        let id = self.modules.len() as u32;
        self.modules.push((import_path, resolved_path));
        (id, true)
    }
}

impl<'a> Sema<'a> {
    /// Resolve an import path for const evaluation, against the files
    /// already loaded.
    ///
    /// `std` cannot be imported here. Otherwise the result is a loaded file
    /// that answers the import; when several do, the first one met while
    /// walking the file table is taken. When none does, the error lists the
    /// loaded files as candidates.
    pub fn resolve_import_path_for_const(&self, import_path: &str, span: Span) -> (r: Result<
        String,
        CompileError,
    >)
        ensures
            import_path@ == "std"@ ==> match r {
                Err(e) => is_module_not_found(e, import_path@, span) && match e.kind {
                    ErrorKind::ModuleNotFound { candidates, .. } => candidates@.len() == 0,
                    _ => false,
                },
                Ok(_) => false,
            },
            import_path@ != "std"@ ==> match r {
                Ok(p) => import_matches(p@, import_path@) && is_loaded_path(self.file_paths@, p@),
                Err(e) => !preloaded_match(self.file_paths@, import_path@) && is_module_not_found(
                    e,
                    import_path@,
                    span,
                ) && match e.kind {
                    ErrorKind::ModuleNotFound { candidates, .. } => lists_loaded_paths(
                        candidates@,
                        self.file_paths@,
                    ),
                    _ => false,
                },
            },
            import_path@ != "std"@ && preloaded_match(self.file_paths@, import_path@) ==> r is Ok,
    {
        // Check for standard library import: not supported during const eval
        if str_eq(import_path, "std") {
            return Err(
                CompileError::new(
                    ErrorKind::ModuleNotFound { path: import_path.to_string(), candidates: Vec::new() },
                    span,
                ),
            );
        }
        // Check if the import path matches an already-loaded file
        let import_base = strip_rue(import_path);
        let import_with_rue = String::from_str(import_base).concat(".rue");
        let ghost mut checked: Set<u32> = Set::empty();
        for (file_id, file_path) in it: self.file_paths.iter()
            invariant
                import_path@ != "std"@,
                import_base@ == crate::imports::import_base(import_path@),
                import_with_rue@ == import_base@ + ".rue"@,
                forall|k: u32|
                    #[trigger] checked.contains(k) <==> exists|j: int|
                        0 <= j < it.index() && *it.seq()[j].0 == k,
                forall|k: u32|
                    #[trigger] checked.contains(k) ==> self.file_paths@.contains_key(k)
                        && !import_matches(self.file_paths@[k]@, import_path@),
        {
            let ghost fid = *file_id;
            assert(self.file_paths@.contains_key(fid) && self.file_paths@[fid] == *file_path);
            if file_answers_import(file_path.as_str(), import_path, import_base, import_with_rue.as_str()) {
                return Ok(file_path.clone());
            }
            proof {
                checked = checked.insert(fid);
            }
        }
        assert(forall|k: u32| #[trigger] self.file_paths@.contains_key(k) ==> checked.contains(k));
        // Module not found - collect candidates for error message
        let mut candidates: Vec<String> = Vec::new();
        let ghost mut listed: Set<u32> = Set::empty();
        for (file_id, file_path) in it2: self.file_paths.iter()
            invariant
                candidates@.len() == it2.index(),
                forall|k: u32|
                    #[trigger] listed.contains(k) <==> exists|j: int|
                        0 <= j < it2.index() && *it2.seq()[j].0 == k,
                forall|k: u32|
                    #[trigger] listed.contains(k) ==> self.file_paths@.contains_key(k) && exists|i: int|
                        0 <= i < candidates@.len() && #[trigger] candidates@[i]@ == self.file_paths@[k]@,
                forall|i: int|
                    0 <= i < candidates@.len() ==> is_loaded_path(
                        self.file_paths@,
                        #[trigger] candidates@[i]@,
                    ),
        {
            let ghost fid = *file_id;
            let ghost before = candidates@;
            candidates.push(file_path.clone());
            proof {
                listed = listed.insert(fid);
                assert(candidates@[before.len() as int]@ == self.file_paths@[fid]@);
                assert forall|i: int| 0 <= i < candidates@.len() implies is_loaded_path(
                    self.file_paths@,
                    #[trigger] candidates@[i]@,
                ) by {}
                assert forall|k: u32| #[trigger] listed.contains(k) implies self.file_paths@.contains_key(k)
                    && exists|i: int|
                    0 <= i < candidates@.len() && #[trigger] candidates@[i]@ == self.file_paths@[k]@ by {
                    if k != fid {
                        let i = choose|i: int|
                            0 <= i < before.len() && #[trigger] before[i]@ == self.file_paths@[k]@;
                        assert(candidates@[i] == before[i]);
                    }
                }
            }
        }
        assert(forall|k: u32| #[trigger] self.file_paths@.contains_key(k) ==> listed.contains(k));
        Err(
            CompileError::new(
                ErrorKind::ModuleNotFound { path: import_path.to_string(), candidates },
                span,
            ),
        )
    }
}

impl<'a> Sema<'a> {
    /// Evaluate an `@import` intrinsic call at compile time: resolve its path
    /// and register the module, whose type is the result.
    pub fn evaluate_import_intrinsic(&mut self, args_start: u32, args_len: u32, span: Span) -> (r:
        Result<Type, CompileError>)
        requires
            old(self).rir.wf(),
            symbols_interned(old(self).rir, interned(old(self).interner)),
            args_len == 1 ==> args_start < old(self).rir.extra@.len() && old(self).rir.extra@[args_start as int]
                < old(self).rir.instructions@.len(),
            old(self).module_registry.modules@.len() < u32::MAX,
        ensures
            final(self).builtin_arch_id == old(self).builtin_arch_id,
            final(self).builtin_os_id == old(self).builtin_os_id,
            final(self).preview_features == old(self).preview_features,
            final(self).host == old(self).host,
            final(self).abi_slots == old(self).abi_slots,
            final(self).param_arena == old(self).param_arena,
            final(self).rir == old(self).rir,
            final(self).interner == old(self).interner,
            final(self).structs == old(self).structs,
            final(self).enums == old(self).enums,
            final(self).constants == old(self).constants,
            final(self).functions == old(self).functions,
            final(self).methods == old(self).methods,
            final(self).builtin_string_id == old(self).builtin_string_id,
            final(self).type_pool == old(self).type_pool,
            final(self).file_paths == old(self).file_paths,
            final(self).anon_struct_method_sigs == old(self).anon_struct_method_sigs,
            r is Ok <==> import_succeeds(
                old(self).rir,
                interned(old(self).interner),
                old(self).file_paths@,
                args_start,
                args_len,
            ),
            match r {
                Ok(t) => exists|id: u32|
                    t == Type::Module(id) && module_answers(
                        final(self).module_registry.entries(),
                        old(self).file_paths@,
                        import_path_arg(old(self).rir, interned(old(self).interner), args_start, args_len)->0,
                        id,
                    ) && ModuleRegistry::registered(
                        old(self).module_registry.entries(),
                        final(self).module_registry.entries(),
                        import_path_arg(old(self).rir, interned(old(self).interner), args_start, args_len)->0,
                        final(self).module_registry.entries()[id as int].1,
                        id,
                    ),
                Err(e) => import_error(old(self).rir, interned(old(self).interner), args_start, args_len, span, e)
                    && final(self).module_registry == old(self).module_registry,
            },
    {
        // @import takes exactly one argument
        if args_len != 1 {
            return Err(
                CompileError::new(
                    ErrorKind::IntrinsicWrongArgCount {
                        name: "import".to_string(),
                        expected: 1,
                        found: args_len as usize,
                    },
                    span,
                ),
            );
        }
        // The argument is in the side table (intrinsics use instruction refs)
        let arg_ref: InstRef = self.rir.extra_at(args_start);
        let arg_inst = self.rir.get(arg_ref);
        // The argument must be a string literal
        let import_path = match arg_inst.data {
            InstData::StringConst(path_sym) => {
                proof {
                    assert(inst_symbol(self.rir.instructions@[arg_ref as int].data) == Some(path_sym));
                }
                self.resolve(path_sym).to_string()
            },
            _ => {
                return Err(CompileError::new(ErrorKind::ImportRequiresStringLiteral, arg_inst.span));
            },
        };
        // Resolve the import path
        let resolved_path = match self.resolve_import_path_for_const(import_path.as_str(), span) {
            Ok(p) => p,
            Err(e) => return Err(e),
        };
        let ghost import = import_path@;
        // Register the module
        let (module_id, _is_new) = self.module_registry.get_or_create(import_path, resolved_path);
        proof {
            assert(module_answers(self.module_registry.entries(), self.file_paths@, import, module_id));
        }
        Ok(Type::Module(module_id))
    }
}

impl<'a> Sema<'a> {
    /// Evaluate const initializers to determine their types.
    ///
    /// Called after declaration gathering and before function body analysis:
    /// a constant initialized with `@import("module")` gets the module's type,
    /// which lets a constant re-export an imported module. Other initializers
    /// are left as they are. The first failing import (in the order the
    /// constant table is walked) stops the evaluation with its error.
    pub fn evaluate_const_initializers(&mut self) -> (r: Result<(), CompileError>)
        requires
            old(self).rir.wf(),
            symbols_interned(old(self).rir, interned(old(self).interner)),
            forall|k: Sym|
                #[trigger] old(self).constants@.contains_key(k) ==> old(self).constants@[k].init
                    < old(self).rir.instructions@.len(),
            old(self).module_registry.modules@.len() + old(self).constants@.dom().len() < u32::MAX,
        ensures
            final(self).rir == old(self).rir,
            final(self).interner == old(self).interner,
            final(self).structs == old(self).structs,
            final(self).enums == old(self).enums,
            final(self).functions == old(self).functions,
            final(self).methods == old(self).methods,
            final(self).builtin_string_id == old(self).builtin_string_id,
            final(self).type_pool == old(self).type_pool,
            final(self).file_paths == old(self).file_paths,
            final(self).anon_struct_method_sigs == old(self).anon_struct_method_sigs,
            old(self).module_registry.modules@.len() <= final(self).module_registry.modules@.len(),
            final(self).module_registry.entries().subrange(0, old(self).module_registry.modules@.len() as int)
                == old(self).module_registry.entries(),
            r is Ok <==> forall|k: Sym|
                #[trigger] old(self).constants@.contains_key(k) && is_import_const(
                    old(self).rir,
                    interned(old(self).interner),
                    old(self).constants@[k],
                ) ==> const_import_succeeds(
                    old(self).rir,
                    interned(old(self).interner),
                    old(self).file_paths@,
                    old(self).constants@[k],
                ),
            r is Ok ==> final(self).constants@.dom() == old(self).constants@.dom(),
            r is Ok ==> forall|k: Sym|
                #[trigger] old(self).constants@.contains_key(k) ==> const_evaluated(
                    old(self).rir,
                    interned(old(self).interner),
                    old(self).file_paths@,
                    final(self).module_registry.entries(),
                    old(self).constants@[k],
                    final(self).constants@[k],
                ),
            r matches Err(e) ==> exists|k: Sym|
                #[trigger] old(self).constants@.contains_key(k) && is_import_const(
                    old(self).rir,
                    interned(old(self).interner),
                    old(self).constants@[k],
                ) && !const_import_succeeds(
                    old(self).rir,
                    interned(old(self).interner),
                    old(self).file_paths@,
                    old(self).constants@[k],
                ) && import_error(
                    old(self).rir,
                    interned(old(self).interner),
                    init_args(old(self).rir, old(self).constants@[k]).0,
                    init_args(old(self).rir, old(self).constants@[k]).1,
                    old(self).constants@[k].span,
                    e,
                ),
    {
        // Collect const names to iterate (the table is updated as we go)
        let mut const_names: Vec<Sym> = Vec::new();
        let ghost mut collected: Set<Sym> = Set::empty();
        for (name, _info) in it: self.constants.iter()
            invariant
                const_names@.len() == it.index(),
                forall|k: Sym|
                    #[trigger] collected.contains(k) <==> exists|j: int|
                        0 <= j < it.index() && *it.seq()[j].0 == k,
                forall|k: Sym|
                    #[trigger] collected.contains(k) ==> exists|j: int|
                        0 <= j < const_names@.len() && #[trigger] const_names@[j] == k,
                forall|j: int|
                    0 <= j < const_names@.len() ==> self.constants@.contains_key(
                        #[trigger] const_names@[j],
                    ),
        {
            let ghost before = const_names@;
            const_names.push(*name);
            proof {
                collected = collected.insert(*name);
                assert(const_names@[before.len() as int] == *name);
                assert forall|k: Sym| #[trigger] collected.contains(k) implies exists|j: int|
                    0 <= j < const_names@.len() && #[trigger] const_names@[j] == k by {
                    if k != *name {
                        let j = choose|j: int| 0 <= j < before.len() && #[trigger] before[j] == k;
                        assert(const_names@[j] == before[j]);
                    }
                }
            }
        }
        assert(forall|k: Sym| #[trigger] self.constants@.contains_key(k) ==> collected.contains(k));
        let ghost old_consts = self.constants@;
        let ghost old_entries = self.module_registry.entries();
        let ghost names = interned(self.interner);
        let ghost mut done: Set<Sym> = Set::empty();
        let mut i: usize = 0;
        while i < const_names.len()
            invariant
                i <= const_names@.len(),
                self.rir == old(self).rir,
                self.interner == old(self).interner,
                self.structs == old(self).structs,
                self.enums == old(self).enums,
                self.functions == old(self).functions,
                self.methods == old(self).methods,
                self.builtin_string_id == old(self).builtin_string_id,
                self.type_pool == old(self).type_pool,
                self.file_paths == old(self).file_paths,
                self.anon_struct_method_sigs == old(self).anon_struct_method_sigs,
                old_consts == old(self).constants@,
                old_entries == old(self).module_registry.entries(),
                names == interned(self.interner),
                self.rir.wf(),
                symbols_interned(self.rir, names),
                forall|k: Sym|
                    #[trigger] old_consts.contains_key(k) ==> old_consts[k].init
                        < self.rir.instructions@.len(),
                self.constants@.dom() == old_consts.dom(),
                forall|j: int| 0 <= j < const_names@.len() ==> old_consts.contains_key(#[trigger] const_names@[j]),
                forall|k: Sym|
                    #[trigger] old_consts.contains_key(k) ==> exists|j: int|
                        0 <= j < const_names@.len() && #[trigger] const_names@[j] == k,
                forall|j: int| 0 <= j < i ==> done.contains(#[trigger] const_names@[j]),
                forall|k: Sym|
                    #[trigger] old_consts.contains_key(k) && done.contains(k) ==> const_evaluated(
                        self.rir,
                        names,
                        self.file_paths@,
                        self.module_registry.entries(),
                        old_consts[k],
                        self.constants@[k],
                    ) && (is_import_const(self.rir, names, old_consts[k]) ==> const_import_succeeds(
                        self.rir,
                        names,
                        self.file_paths@,
                        old_consts[k],
                    )),
                forall|k: Sym|
                    #[trigger] old_consts.contains_key(k) && !done.contains(k) ==> self.constants@[k]
                        == old_consts[k],
                old_entries.len() <= self.module_registry.modules@.len() <= old_entries.len() + i,
                self.module_registry.entries().subrange(0, old_entries.len() as int) == old_entries,
                old_entries.len() + const_names@.len() < u32::MAX,
            decreases const_names@.len() - i,
        {
            let name = const_names[i];
            let ghost entries_before = self.module_registry.entries();
            if let Some(c) = self.constants.get(&name) {
                let const_info = *c;
                let inst = self.rir.get(const_info.init);
                // Check if the init expression is an @import intrinsic
                match inst.data {
                    InstData::Intrinsic { name: intrinsic_name, args_start, args_len } => {
                        proof {
                            assert(inst_symbol(self.rir.instructions@[const_info.init as int].data)
                                == Some(intrinsic_name));
                            let (st, ln) = crate::rir::extra_range(
                                self.rir.instructions@[const_info.init as int].data,
                            );
                        }
                        let intrinsic_name_str = self.resolve(intrinsic_name);
                        if str_eq(intrinsic_name_str, "import") {
                            // This is an @import - evaluate it at compile time
                            let result = match self.evaluate_import_intrinsic(
                                args_start,
                                args_len,
                                const_info.span,
                            ) {
                                Ok(t) => t,
                                Err(e) => {
                                    return Err(e);
                                },
                            };
                            // Update the const type to the module type
                            let updated = ConstInfo {
                                is_pub: const_info.is_pub,
                                ty: result,
                                init: const_info.init,
                                span: const_info.span,
                            };
                            self.constants.insert(name, updated);
                        }
                    },
                    _ => {},
                }
            }
            proof {
                let entries_after = self.module_registry.entries();
                assert(entries_after.subrange(0, entries_before.len() as int) =~= entries_before);
                assert forall|k: Sym|
                    #[trigger] old_consts.contains_key(k) && done.insert(name).contains(k) implies const_evaluated(
                        self.rir,
                        names,
                        self.file_paths@,
                        entries_after,
                        old_consts[k],
                        self.constants@[k],
                    ) && (is_import_const(self.rir, names, old_consts[k]) ==> const_import_succeeds(
                        self.rir,
                        names,
                        self.file_paths@,
                        old_consts[k],
                    )) by {
                    if k != name && is_import_const(self.rir, names, old_consts[k]) {
                        let id = self.constants@[k].ty->Module_0;
                        lemma_answers_kept(
                            entries_before,
                            entries_after,
                            self.file_paths@,
                            const_import_path(self.rir, names, old_consts[k]),
                            id,
                        );
                    }
                }
                done = done.insert(name);
            }
            i = i + 1;
        }
        Ok(())
    }
}

} // verus!

verus! {

/// Importing a file again, under any import path, gives back the module of
/// the first import and registers nothing new.
pub proof fn law_reimport_gives_same_module(
    before: Seq<(Seq<char>, Seq<char>)>,
    mid: Seq<(Seq<char>, Seq<char>)>,
    after: Seq<(Seq<char>, Seq<char>)>,
    first_import: Seq<char>,
    second_import: Seq<char>,
    file: Seq<char>,
    first_id: u32,
    second_id: u32,
)
    requires
        ModuleRegistry::registered(before, mid, first_import, file, first_id),
        ModuleRegistry::registered(mid, after, second_import, file, second_id),
    ensures
        second_id == first_id,
        after == mid,
{
    if ModuleRegistry::module_for(before, file) is None {
        assert(mid.drop_last() =~= before);
    }
}

/// Registering a module keeps the modules registered before, and the id
/// given is that of a module for the file.
pub proof fn law_registration_keeps_modules(
    before: Seq<(Seq<char>, Seq<char>)>,
    after: Seq<(Seq<char>, Seq<char>)>,
    import: Seq<char>,
    file: Seq<char>,
    id: u32,
)
    requires
        ModuleRegistry::registered(before, after, import, file, id),
    ensures
        after.len() >= before.len(),
        after.subrange(0, before.len() as int) == before,
        id < after.len(),
        after[id as int].1 == file,
{
    lemma_module_for(before, file);
}

/// A loaded file answers an import during full analysis: it is the path
/// itself, it ends with the path, or its stem is the module name.
pub open spec fn preloaded_answers(file: Seq<char>, import: Seq<char>) -> bool {
    ||| file == import
    ||| seq_ends_with(file, import)
    ||| spec_file_stem(file) == Some(import_base(import))
}

/// A loaded file is the root of the standard library.
pub open spec fn is_std_root(file: Seq<char>) -> bool {
    seq_ends_with(file, "_std.rue"@) || seq_ends_with(file, "std/_std.rue"@)
}

/// The files an import may name on disk, relative to the importing file's
/// directory, in the order they are tried.
pub struct DiskCandidates {
    /// `dir/base.rue`, a simple file module
    pub file: String,
    /// `dir/import`, when the import path already ends in `.rue`
    pub direct: Option<String>,
    /// `dir/_base.rue`, the entry file of a directory module
    pub dir_module_root: String,
    /// `dir/base`, the directory of a directory module
    pub dir_path: String,
    /// What was tried, for the error message
    pub tried: Vec<String>,
}

impl<'a> Sema<'a> {
    /// The loaded file that an import path names, if any: the first one met
    /// while walking the file table that is the path itself, ends with it, or
    /// has the module name as its stem.
    pub fn find_preloaded_import(&self, import_path: &str) -> (r: Option<String>)
        ensures
            r matches Some(p) ==> preloaded_answers(p@, import_path@) && is_loaded_path(
                self.file_paths@,
                p@,
            ),
            r is None <==> forall|k: u32|
                #[trigger] self.file_paths@.contains_key(k) ==> !preloaded_answers(
                    self.file_paths@[k]@,
                    import_path@,
                ),
    {
        let import_base = strip_rue(import_path);
        let ghost mut checked: Set<u32> = Set::empty();
        for (file_id, path) in it: self.file_paths.iter()
            invariant
                import_base@ == crate::imports::import_base(import_path@),
                forall|k: u32|
                    #[trigger] checked.contains(k) <==> exists|j: int|
                        0 <= j < it.index() && *it.seq()[j].0 == k,
                forall|k: u32|
                    #[trigger] checked.contains(k) ==> self.file_paths@.contains_key(k)
                        && !preloaded_answers(self.file_paths@[k]@, import_path@),
        {
            let ghost fid = *file_id;
            assert(self.file_paths@.contains_key(fid) && self.file_paths@[fid] == *path);
            // Exact match, or the file path ends with the import path
            if str_eq(path.as_str(), import_path) || str_ends_with(path.as_str(), import_path) {
                return Some(path.clone());
            }
            // For imports like "math" or "math.rue", the file is named accordingly
            match path_file_stem(path.as_str()) {
                Some(name) => {
                    if str_eq(name.as_str(), import_base) {
                        return Some(path.clone());
                    }
                },
                None => {},
            }
            proof {
                checked = checked.insert(fid);
            }
        }
        assert(forall|k: u32| #[trigger] self.file_paths@.contains_key(k) ==> checked.contains(k));
        None
    }

    /// A loaded root file of the standard library, if any: the first one met
    /// while walking the file table.
    pub fn find_preloaded_std(&self) -> (r: Option<String>)
        ensures
            r matches Some(p) ==> is_std_root(p@) && is_loaded_path(self.file_paths@, p@),
            r is None <==> forall|k: u32|
                #[trigger] self.file_paths@.contains_key(k) ==> !is_std_root(self.file_paths@[k]@),
    {
        let ghost mut checked: Set<u32> = Set::empty();
        for (file_id, path) in it: self.file_paths.iter()
            invariant
                forall|k: u32|
                    #[trigger] checked.contains(k) <==> exists|j: int|
                        0 <= j < it.index() && *it.seq()[j].0 == k,
                forall|k: u32|
                    #[trigger] checked.contains(k) ==> self.file_paths@.contains_key(k)
                        && !is_std_root(self.file_paths@[k]@),
        {
            let ghost fid = *file_id;
            assert(self.file_paths@.contains_key(fid) && self.file_paths@[fid] == *path);
            if str_ends_with(path.as_str(), "_std.rue") || str_ends_with(path.as_str(), "std/_std.rue") {
                return Some(path.clone());
            }
            proof {
                checked = checked.insert(fid);
            }
        }
        assert(forall|k: u32| #[trigger] self.file_paths@.contains_key(k) ==> checked.contains(k));
        None
    }
}

/// The files an import path may name on disk, next to the importing file in
/// `source_dir`, and the list of what is tried for the error message.
pub fn import_disk_candidates(source_dir: &str, import_path: &str) -> (c: DiskCandidates)
    ensures
        c.file@ == spec_path_join(source_dir@, import_base(import_path@) + ".rue"@),
        c.direct is Some <==> seq_ends_with(import_path@, ".rue"@),
        c.direct matches Some(d) ==> d@ == spec_path_join(source_dir@, import_path@),
        c.dir_module_root@ == spec_path_join(source_dir@, "_"@ + import_base(import_path@) + ".rue"@),
        c.dir_path@ == spec_path_join(source_dir@, import_base(import_path@)),
        strings_seq(c.tried@) == {
            let first = seq![c.file@];
            let with_direct = match c.direct {
                Some(d) => if d@ == c.file@ {
                    first
                } else {
                    first.push(d@)
                },
                None => first,
            };
            with_direct.push(c.dir_module_root@ + " + "@ + import_base(import_path@) + "/"@)
        },
{
    // Strip the .rue extension, if present, for the base name
    let base_name = strip_rue(import_path);
    let mut tried: Vec<String> = Vec::new();
    // 1. foo.rue (simple file module)
    let file_name = String::from_str(base_name).concat(".rue");
    let file = path_join(source_dir, file_name.as_str());
    tried.push(file.clone());
    // 2. The import path itself, when it already ends in .rue
    let direct = if str_ends_with(import_path, ".rue") {
        let candidate = path_join(source_dir, import_path);
        if !str_eq(candidate.as_str(), file.as_str()) {
            tried.push(candidate.clone());
        }
        Some(candidate)
    } else {
        None
    };
    // 3. _foo.rue + foo/ directory (directory module)
    let root_name = String::from_str("_").concat(base_name).concat(".rue");
    let dir_module_root = path_join(source_dir, root_name.as_str());
    let dir_path = path_join(source_dir, base_name);
    let note = dir_module_root.clone().concat(" + ").concat(base_name).concat("/");
    tried.push(note);
    proof {
        let first = seq![file@];
        assert(strings_seq(tried@) =~= {
            let with_direct = match direct {
                Some(d) => if d@ == file@ {
                    first
                } else {
                    first.push(d@)
                },
                None => first,
            };
            with_direct.push(dir_module_root@ + " + "@ + import_base(import_path@) + "/"@)
        });
    }
    DiskCandidates { file, direct, dir_module_root, dir_path, tried }
}

/// The texts of a list of strings.
pub open spec fn strings_seq(v: Seq<String>) -> Seq<Seq<char>> {
    v.map_values(|s: String| s@)
}

/// Which of the disk candidates an import resolves to, given which of them
/// exist: the simple file module, then the path as written, then the entry
/// file of a directory module. When none exists, the import is not found and
/// the error lists what was tried.
pub fn choose_disk_candidate(
    c: DiskCandidates,
    file_exists: bool,
    direct_exists: bool,
    root_exists: bool,
    import_path: &str,
    span: Span,
) -> (r: Result<String, CompileError>)
    ensures
        file_exists ==> r == Ok::<String, CompileError>(c.file),
        !file_exists && c.direct is Some && direct_exists ==> r == Ok::<String, CompileError>(c.direct->0),
        !file_exists && !(c.direct is Some && direct_exists) && root_exists ==> r == Ok::<
            String,
            CompileError,
        >(c.dir_module_root),
        !file_exists && !(c.direct is Some && direct_exists) && !root_exists ==> match r {
            Err(e) => is_module_not_found(e, import_path@, span) && match e.kind {
                ErrorKind::ModuleNotFound { candidates, .. } => candidates == c.tried,
                _ => false,
            },
            Ok(_) => false,
        },
{
    if file_exists {
        return Ok(c.file);
    }
    match c.direct {
        Some(d) => if direct_exists {
            return Ok(d);
        },
        None => {},
    }
    if root_exists {
        return Ok(c.dir_module_root);
    }
    Err(CompileError::new(ErrorKind::ModuleNotFound { path: import_path.to_string(), candidates: c.tried }, span))
}

} // verus!
