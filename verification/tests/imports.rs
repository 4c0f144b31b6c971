use std::collections::HashMap;

use lasso::{Key, ThreadedRodeo};
use rue_air::diag::{ErrorKind, PreviewFeatures};
use rue_air::imports::{choose_disk_candidate, import_disk_candidates};
use rue_air::rir::{Inst, InstData, Rir};
use rue_air::sema::{ConstInfo, ModuleRegistry, Sema};
use rue_air::types::{Span, Type};

fn intern(rodeo: &mut ThreadedRodeo, s: &str) -> u32 {
    rodeo.get_or_intern(s).into_usize() as u32
}

fn push(rir: &mut Rir, data: InstData) -> u32 {
    rir.add_inst(Inst { data, span: Span::new(0, 1, 2) }).unwrap()
}

fn files(paths: &[&str]) -> HashMap<u32, String> {
    let mut m = HashMap::new();
    for (i, p) in paths.iter().enumerate() {
        m.insert(i as u32, p.to_string());
    }
    m
}

#[test]
fn std_cannot_be_imported_during_const_eval() {
    let rir = Rir::new();
    let mut sema = Sema::new(&rir, ThreadedRodeo::new(), PreviewFeatures::new());
    sema.set_file_paths(files(&["/src/std/_std.rue"]));
    let err = sema.resolve_import_path_for_const("std", Span::new(0, 3, 4)).unwrap_err();
    assert_eq!(err.span, Span::new(0, 3, 4));
    match err.kind {
        ErrorKind::ModuleNotFound { path, candidates } => {
            assert_eq!(path, "std");
            assert!(candidates.is_empty());
        }
        other => panic!("unexpected error {:?}", other),
    }
}

#[test]
fn import_path_matches_loaded_files() {
    let rir = Rir::new();
    let mut sema = Sema::new(&rir, ThreadedRodeo::new(), PreviewFeatures::new());
    sema.set_file_paths(files(&["/proj/utils/strings.rue"]));
    let span = Span::new(0, 0, 0);
    for import in ["/proj/utils/strings.rue", "utils/strings", "utils/strings.rue", "strings", "strings.rue"] {
        assert_eq!(
            sema.resolve_import_path_for_const(import, span).unwrap(),
            "/proj/utils/strings.rue",
            "import {}",
            import
        );
    }
}

#[test]
fn directory_module_entry_file_matches() {
    let rir = Rir::new();
    let mut sema = Sema::new(&rir, ThreadedRodeo::new(), PreviewFeatures::new());
    sema.set_file_paths(files(&["/proj/_math.rue"]));
    let r = sema.resolve_import_path_for_const("math", Span::new(0, 0, 0));
    assert_eq!(r.unwrap(), "/proj/_math.rue");
}

#[test]
fn unknown_import_lists_candidates() {
    let rir = Rir::new();
    let mut sema = Sema::new(&rir, ThreadedRodeo::new(), PreviewFeatures::new());
    sema.set_file_paths(files(&["/a/main.rue", "/a/lib.rue"]));
    let err = sema.resolve_import_path_for_const("missing", Span::new(1, 2, 3)).unwrap_err();
    match err.kind {
        ErrorKind::ModuleNotFound { path, mut candidates } => {
            assert_eq!(path, "missing");
            candidates.sort();
            assert_eq!(candidates, vec!["/a/lib.rue".to_string(), "/a/main.rue".to_string()]);
        }
        other => panic!("unexpected error {:?}", other),
    }
}

#[test]
fn registry_reuses_modules_by_file() {
    let mut reg = ModuleRegistry { modules: Vec::new() };
    assert!(reg.is_empty());
    let (a, new_a) = reg.get_or_create("math".to_string(), "/p/math.rue".to_string());
    let (b, new_b) = reg.get_or_create("math.rue".to_string(), "/p/math.rue".to_string());
    let (c, new_c) = reg.get_or_create("io".to_string(), "/p/io.rue".to_string());
    assert_eq!((a, new_a), (0, true));
    assert_eq!((b, new_b), (0, false));
    assert_eq!((c, new_c), (1, true));
    assert_eq!(reg.modules.len(), 2);
    assert!(!reg.is_empty());
}

#[test]
fn import_intrinsic_errors() {
    let mut rir = Rir::new();
    let mut rodeo = ThreadedRodeo::new();
    let import = intern(&mut rodeo, "import");
    let path = intern(&mut rodeo, "math");
    let lit = push(&mut rir, InstData::StringConst(path));
    let int = push(&mut rir, InstData::IntConst(1));
    let start_lit = rir.add_extra(&[lit]).unwrap();
    let start_int = rir.add_extra(&[int]).unwrap();
    let _call = push(&mut rir, InstData::Intrinsic { name: import, args_start: start_lit, args_len: 1 });
    let mut sema = Sema::new(&rir, rodeo, PreviewFeatures::new());
    sema.set_file_paths(files(&["/p/math.rue"]));
    let span = Span::new(0, 9, 9);

    let err = sema.evaluate_import_intrinsic(start_lit, 2, span).unwrap_err();
    match err.kind {
        ErrorKind::IntrinsicWrongArgCount { name, expected, found } => {
            assert_eq!((name.as_str(), expected, found), ("import", 1, 2));
        }
        other => panic!("unexpected error {:?}", other),
    }
    let err = sema.evaluate_import_intrinsic(start_int, 1, span).unwrap_err();
    assert!(matches!(err.kind, ErrorKind::ImportRequiresStringLiteral));
    assert_eq!(err.span, Span::new(0, 1, 2));
    assert!(!sema.has_imports());

    let t = sema.evaluate_import_intrinsic(start_lit, 1, span).unwrap();
    assert_eq!(t, Type::Module(0));
    assert!(sema.has_imports());
    assert_eq!(sema.module_registry.modules[0], ("math".to_string(), "/p/math.rue".to_string()));
}

#[test]
fn const_initializers_get_module_types() {
    let mut rir = Rir::new();
    let mut rodeo = ThreadedRodeo::new();
    let import = intern(&mut rodeo, "import");
    let math = intern(&mut rodeo, "math");
    let math_rue = intern(&mut rodeo, "math.rue");
    let a = intern(&mut rodeo, "a");
    let b = intern(&mut rodeo, "b");
    let c = intern(&mut rodeo, "c");
    let lit1 = push(&mut rir, InstData::StringConst(math));
    let lit2 = push(&mut rir, InstData::StringConst(math_rue));
    let s1 = rir.add_extra(&[lit1]).unwrap();
    let s2 = rir.add_extra(&[lit2]).unwrap();
    let call1 = push(&mut rir, InstData::Intrinsic { name: import, args_start: s1, args_len: 1 });
    let call2 = push(&mut rir, InstData::Intrinsic { name: import, args_start: s2, args_len: 1 });
    let seven = push(&mut rir, InstData::IntConst(7));
    let mut sema = Sema::new(&rir, rodeo, PreviewFeatures::new());
    sema.set_file_paths(files(&["/p/math.rue", "/p/main.rue"]));
    let span = Span::new(1, 0, 0);
    sema.constants.insert(a, ConstInfo { is_pub: true, ty: Type::Unit, init: call1, span });
    sema.constants.insert(b, ConstInfo { is_pub: false, ty: Type::Unit, init: call2, span });
    sema.constants.insert(c, ConstInfo { is_pub: false, ty: Type::I32, init: seven, span });
    assert!(sema.evaluate_const_initializers().is_ok());
    // Both imports name the same file: one module.
    assert_eq!(sema.module_registry.modules.len(), 1);
    assert_eq!(sema.constants[&a].ty, Type::Module(0));
    assert_eq!(sema.constants[&b].ty, Type::Module(0));
    assert_eq!(sema.constants[&c].ty, Type::I32);
}

#[test]
fn const_initializer_failure_is_reported() {
    let mut rir = Rir::new();
    let mut rodeo = ThreadedRodeo::new();
    let import = intern(&mut rodeo, "import");
    let nope = intern(&mut rodeo, "nope");
    let a = intern(&mut rodeo, "a");
    let lit = push(&mut rir, InstData::StringConst(nope));
    let s = rir.add_extra(&[lit]).unwrap();
    let call = push(&mut rir, InstData::Intrinsic { name: import, args_start: s, args_len: 1 });
    let mut sema = Sema::new(&rir, rodeo, PreviewFeatures::new());
    sema.set_file_paths(files(&["/p/math.rue"]));
    let span = Span::new(2, 5, 6);
    sema.constants.insert(a, ConstInfo { is_pub: true, ty: Type::Unit, init: call, span });
    let err = sema.evaluate_const_initializers().unwrap_err();
    assert_eq!(err.span, span);
    match err.kind {
        ErrorKind::ModuleNotFound { path, candidates } => {
            assert_eq!(path, "nope");
            assert_eq!(candidates, vec!["/p/math.rue".to_string()]);
        }
        other => panic!("unexpected error {:?}", other),
    }
}

#[test]
fn preloaded_imports_and_std() {
    let rir = Rir::new();
    let mut sema = Sema::new(&rir, ThreadedRodeo::new(), PreviewFeatures::new());
    sema.set_file_paths(files(&["/p/math.rue", "/p/std/_std.rue"]));
    assert_eq!(sema.find_preloaded_import("math").as_deref(), Some("/p/math.rue"));
    assert_eq!(sema.find_preloaded_import("math.rue").as_deref(), Some("/p/math.rue"));
    assert_eq!(sema.find_preloaded_import("/p/math.rue").as_deref(), Some("/p/math.rue"));
    assert_eq!(sema.find_preloaded_import("io"), None);
    assert_eq!(sema.find_preloaded_std().as_deref(), Some("/p/std/_std.rue"));
    let mut other = Sema::new(&rir, ThreadedRodeo::new(), PreviewFeatures::new());
    other.set_file_paths(files(&["/p/main.rue"]));
    assert_eq!(other.find_preloaded_std(), None);
}

#[test]
fn disk_candidates_in_order() {
    let c = import_disk_candidates("/src", "utils");
    assert_eq!(c.file, "/src/utils.rue");
    assert_eq!(c.direct, None);
    assert_eq!(c.dir_module_root, "/src/_utils.rue");
    assert_eq!(c.dir_path, "/src/utils");
    assert_eq!(c.tried, vec!["/src/utils.rue".to_string(), "/src/_utils.rue + utils/".to_string()]);
    let c2 = import_disk_candidates("/src", "utils.rue");
    assert_eq!(c2.direct.as_deref(), Some("/src/utils.rue"));
    assert_eq!(c2.tried.len(), 2);

    let span = Span::new(0, 0, 0);
    assert_eq!(choose_disk_candidate(import_disk_candidates("/s", "m"), true, false, true, "m", span).unwrap(), "/s/m.rue");
    assert_eq!(choose_disk_candidate(import_disk_candidates("/s", "m"), false, false, true, "m", span).unwrap(), "/s/_m.rue");
    let err = choose_disk_candidate(import_disk_candidates("/s", "m"), false, true, false, "m", span).unwrap_err();
    match err.kind {
        ErrorKind::ModuleNotFound { path, candidates } => {
            assert_eq!(path, "m");
            assert_eq!(candidates, vec!["/s/m.rue".to_string(), "/s/_m.rue + m/".to_string()]);
        }
        other => panic!("unexpected error {:?}", other),
    }
}
