use std::collections::HashMap;

use lasso::{Key, ThreadedRodeo};
use rue_air::context::AnalysisContext;
use rue_air::diag::{ErrorKind, PreviewFeatures};
use rue_air::lazy::LazyItem;
use rue_air::rir::Rir;
use rue_air::sema::{method_table_key, FunctionInfo, MethodInfo, ParamRange, Sema};
use rue_air::types::{Span, Type};

fn intern(rodeo: &mut ThreadedRodeo, s: &str) -> u32 {
    rodeo.get_or_intern(s).into_usize() as u32
}

fn function(is_generic: bool) -> FunctionInfo {
    FunctionInfo {
        params: ParamRange { start: 0, len: 0 },
        return_type: Type::Unit,
        return_type_sym: 0,
        body: 0,
        span: Span::new(0, 0, 1),
        is_generic,
        is_pub: true,
        file_id: 0,
    }
}

fn method() -> MethodInfo {
    MethodInfo {
        struct_type: Type::Struct(0),
        has_self: true,
        params: ParamRange { start: 0, len: 0 },
        return_type: Type::Unit,
        body: 0,
        span: Span::new(0, 0, 1),
    }
}

#[test]
fn lazy_analysis_visits_what_main_reaches() {
    let rir = Rir::new();
    let mut rodeo = ThreadedRodeo::new();
    let main = intern(&mut rodeo, "main");
    let a = intern(&mut rodeo, "a");
    let b = intern(&mut rodeo, "b");
    let unused = intern(&mut rodeo, "unused");
    let generic = intern(&mut rodeo, "generic");
    let hidden = intern(&mut rodeo, "hidden");
    let builtin = intern(&mut rodeo, "builtin");
    let area = intern(&mut rodeo, "area");
    let mut sema = Sema::new(&rir, rodeo, PreviewFeatures::new());
    for f in [main, a, b, unused, hidden] {
        sema.functions.insert(f, function(false));
    }
    sema.functions.insert(generic, function(true));
    let area_key = method_table_key(0, area);
    sema.methods.insert(area_key, method());
    let f = LazyItem::Function;
    let refs = vec![
        (f(main), vec![f(a), f(builtin), f(generic), f(a)]),
        (f(a), vec![f(main), LazyItem::Method(area_key)]),
        // A second entry for the same body adds to the first.
        (f(a), vec![LazyItem::Method(99)]),
        (LazyItem::Method(area_key), vec![f(b)]),
        (f(b), vec![]),
        // A generic function's own calls are not followed: it is analyzed when specialized.
        (f(generic), vec![f(hidden)]),
        (f(unused), vec![f(hidden)]),
    ];
    let order = sema.lazy_analysis_order(&refs).unwrap();
    assert_eq!(order, vec![f(main), f(a), f(generic), LazyItem::Method(area_key), f(b)]);
}

#[test]
fn lazy_analysis_needs_main() {
    let rir = Rir::new();
    let mut rodeo = ThreadedRodeo::new();
    let f = intern(&mut rodeo, "f");
    let m = intern(&mut rodeo, "main");
    let mut sema = Sema::new(&rir, rodeo, PreviewFeatures::new());
    sema.functions.insert(f, function(false));
    // `main` is a name, but no function has it.
    let e = sema.lazy_analysis_order(&vec![]).unwrap_err();
    assert_eq!(e.errors.len(), 1);
    assert_eq!(e.errors[0].kind, ErrorKind::NoMainFunction);
    sema.functions.insert(m, function(false));
    assert_eq!(sema.lazy_analysis_order(&vec![]).unwrap(), vec![LazyItem::Function(m)]);
}

#[test]
fn a_body_s_references_become_a_queue_entry() {
    let mut ctx = AnalysisContext::new(HashMap::new(), HashMap::new(), Type::Unit);
    ctx.record_function_reference(3);
    ctx.record_function_reference(5);
    ctx.record_function_reference(3);
    ctx.record_method_reference(70);
    let (item, mut calls) = ctx.lazy_references(LazyItem::Function(1));
    assert_eq!(item, LazyItem::Function(1));
    calls.sort_by_key(|x| match x {
        LazyItem::Function(f) => (0, *f as u64),
        LazyItem::Method(k) => (1, *k),
    });
    assert_eq!(calls, vec![LazyItem::Function(3), LazyItem::Function(5), LazyItem::Method(70)]);
}
