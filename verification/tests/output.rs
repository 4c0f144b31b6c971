use rue_air::air::{convert_arg_mode, Air, AirArgMode, AirInst, AirInstData};
use rue_air::context::{CompileWarning, WarningKind};
use rue_air::diag::{CompileError, ErrorKind};
use rue_air::output::{merge_function_results, sort_warnings_by_start, AnalyzedFunction, FunctionResult};
use rue_air::rir::ArgMode;
use rue_air::types::{Span, Type, TypePool};

fn string_fn(name: &str, ids: &[u32]) -> AnalyzedFunction {
    let mut air = Air::new(Type::Unit);
    air.add_inst(AirInst { data: AirInstData::IntConst(1), ty: Type::I32, span: Span::new(0, 0, 1) });
    for &id in ids {
        air.add_inst(AirInst { data: AirInstData::StringConst(id), ty: Type::Struct(0), span: Span::new(0, 1, 2) });
    }
    AnalyzedFunction { name: name.to_string(), air, num_locals: 1, num_param_slots: 0, param_modes: Vec::new() }
}

fn warning(name: &str, start: u32) -> CompileWarning {
    CompileWarning { kind: WarningKind::UnusedVariable(name.to_string()), span: Span::new(0, start, start + 1), help: None, label: None, note: None }
}

fn warning_name(w: &CompileWarning) -> String {
    match &w.kind {
        WarningKind::UnusedVariable(n) => n.clone(),
        WarningKind::UnreachablePattern(p) => p.clone(),
    }
}

fn strings(v: &[&str]) -> Vec<String> {
    v.iter().map(|s| s.to_string()).collect()
}

fn string_ids(f: &AnalyzedFunction) -> Vec<u32> {
    f.air
        .instructions
        .iter()
        .filter_map(|i| match i.data {
            AirInstData::StringConst(id) => Some(id),
            _ => None,
        })
        .collect()
}

#[test]
fn strings_are_merged_once_and_renumbered() {
    let results: Vec<FunctionResult> = vec![
        Ok((string_fn("a", &[0, 1]), Vec::new(), strings(&["hello", "world"]))),
        Ok((string_fn("b", &[0, 1, 0]), Vec::new(), strings(&["world", "again"]))),
        Ok((string_fn("c", &[]), Vec::new(), Vec::new())),
    ];
    let out = merge_function_results(results, TypePool::new()).unwrap();
    assert_eq!(out.strings, strings(&["hello", "world", "again"]));
    assert_eq!(out.functions.len(), 3);
    assert_eq!(out.functions[0].name, "a");
    assert_eq!(string_ids(&out.functions[0]), vec![0, 1]);
    assert_eq!(string_ids(&out.functions[1]), vec![1, 2, 1]);
    assert_eq!(out.functions[1].air.instructions[0].data, AirInstData::IntConst(1));
    assert_eq!(out.functions[2].air.instructions.len(), 1);
}

#[test]
fn warnings_are_sorted_stably() {
    let results: Vec<FunctionResult> = vec![
        Ok((string_fn("a", &[]), vec![warning("x", 30), warning("y", 10)], Vec::new())),
        Ok((string_fn("b", &[]), vec![warning("z", 10), warning("w", 5)], Vec::new())),
    ];
    let out = merge_function_results(results, TypePool::new()).unwrap();
    let names: Vec<String> = out.warnings.iter().map(warning_name).collect();
    assert_eq!(names, vec!["w", "y", "z", "x"]);
}

#[test]
fn any_error_fails_the_merge() {
    let e1 = CompileError::new(ErrorKind::InoutNonLvalue, Span::new(0, 4, 5));
    let e2 = CompileError::new(ErrorKind::BorrowNonLvalue, Span::new(0, 1, 2));
    let results: Vec<FunctionResult> = vec![
        Err(e1),
        Ok((string_fn("a", &[0]), Vec::new(), strings(&["s"]))),
        Err(e2),
    ];
    let errs = merge_function_results(results, TypePool::new()).unwrap_err();
    assert_eq!(errs.errors.len(), 2);
    assert!(matches!(errs.errors[0].kind, ErrorKind::InoutNonLvalue));
    assert!(matches!(errs.errors[1].kind, ErrorKind::BorrowNonLvalue));
}

#[test]
fn no_results_give_empty_output() {
    let out = merge_function_results(Vec::new(), TypePool::new()).unwrap();
    assert!(out.functions.is_empty());
    assert!(out.strings.is_empty());
    assert!(out.warnings.is_empty());
}

#[test]
fn sort_keeps_every_warning() {
    let sorted = sort_warnings_by_start(vec![warning("c", 3), warning("a", 1), warning("b", 1), warning("d", 0)]);
    let names: Vec<String> = sorted.iter().map(warning_name).collect();
    assert_eq!(names, vec!["d", "a", "b", "c"]);
}

#[test]
fn remap_rewrites_only_string_literals() {
    let mut air = Air::new(Type::Bool);
    air.add_inst(AirInst { data: AirInstData::StringConst(1), ty: Type::Struct(0), span: Span::new(0, 0, 0) });
    air.add_inst(AirInst { data: AirInstData::BoolConst(true), ty: Type::Bool, span: Span::new(0, 0, 0) });
    air.add_inst(AirInst { data: AirInstData::StringConst(0), ty: Type::Struct(0), span: Span::new(0, 0, 0) });
    air.remap_string_ids(&vec![7, 9]);
    assert_eq!(air.instructions[0].data, AirInstData::StringConst(9));
    assert_eq!(air.instructions[1].data, AirInstData::BoolConst(true));
    assert_eq!(air.instructions[2].data, AirInstData::StringConst(7));
    assert_eq!(air.return_type, Type::Bool);
}

#[test]
fn arg_modes_convert() {
    assert_eq!(convert_arg_mode(ArgMode::Normal), AirArgMode::Normal);
    assert_eq!(convert_arg_mode(ArgMode::Inout), AirArgMode::Inout);
    assert_eq!(convert_arg_mode(ArgMode::Borrow), AirArgMode::Borrow);
}
