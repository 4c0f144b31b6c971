use std::collections::HashMap;

use lasso::{Key, ThreadedRodeo};
use rue_air::air::{Air, AirInstData};
use rue_air::context::{AnalysisContext, ParamInfo, ParamMode};
use rue_air::diag::{ErrorKind, PreviewFeatures};
use rue_air::functions::FunctionJob;
use rue_air::rir::{Directive, Inst, InstData, Pattern, Rir};
use rue_air::lazy::LazyItem;
use rue_air::sema::{FunctionInfo, ParamRange, Sema};
use rue_air::types::{ArrayDef, EnumDef, Span, StructDef, StructField, Type};

fn intern(rodeo: &mut ThreadedRodeo, s: &str) -> u32 {
    rodeo.get_or_intern(s).into_usize() as u32
}

/// A fresh interner holding `x` (and `y`), with their keys.
fn names() -> (ThreadedRodeo, u32, u32) {
    let mut rodeo = ThreadedRodeo::new();
    let x = intern(&mut rodeo, "x");
    let y = intern(&mut rodeo, "y");
    (rodeo, x, y)
}

fn push(rir: &mut Rir, data: InstData, start: u32) -> u32 {
    rir.add_inst(Inst { data, span: Span::new(0, start, start + 1) }).unwrap()
}

fn string_struct() -> StructDef {
    StructDef {
        name: "String".to_string(),
        fields: Vec::new(),
        is_copy: false,
        is_handle: false,
        is_linear: false,
        destructor: None,
        is_builtin: true,
        is_pub: true,
        file_id: 0,
    }
}

fn ready(sema: &mut Sema) {
    sema.type_pool.structs.push(string_struct());
    sema.builtin_string_id = Some(0);
    sema.abi_slots.push((Type::I32, 1));
    sema.abi_slots.push((Type::Bool, 1));
}

/// `{ let x = 1 + 2; x }`: instructions 0..=5, the block last.
fn let_then_read(rir: &mut Rir, x: u32, is_mut: bool) -> (u32, HashMap<u32, Type>) {
    let one = push(rir, InstData::IntConst(1), 1);
    let two = push(rir, InstData::IntConst(2), 3);
    let sum = push(rir, InstData::Add { lhs: one, rhs: two }, 2);
    let alloc = push(
        rir,
        InstData::Alloc { name: Some(x), is_mut, init: sum, directives_start: 0, directives_len: 0 },
        0,
    );
    let read = push(rir, InstData::VarRef { name: x }, 5);
    let start = rir.add_extra(&[alloc, read]).unwrap();
    let block = push(rir, InstData::Block { extra_start: start, len: 2 }, 0);
    let mut types = HashMap::new();
    types.insert(one, Type::I32);
    types.insert(two, Type::I32);
    types.insert(sum, Type::I32);
    (block, types)
}

#[test]
fn function_with_a_let_binding() {
    let mut rodeo = ThreadedRodeo::new();
    let x = intern(&mut rodeo, "x");
    let mut rir = Rir::new();
    let (body, types) = let_then_read(&mut rir, x, false);
    let mut sema = Sema::new(&rir, rodeo, PreviewFeatures::new());
    ready(&mut sema);
    let job = FunctionJob {
        name: "main".to_string(),
        return_type: Type::I32,
        params: Vec::new(),
        body,
        resolved_types: types,
    };
    let (f, warnings, strings) = sema.analyze_function(&job).unwrap();
    assert_eq!(f.name, "main");
    assert_eq!(f.num_locals, 1);
    assert_eq!(f.num_param_slots, 0);
    assert!(f.param_modes.is_empty());
    assert!(warnings.is_empty());
    assert!(strings.is_empty());
    let last = f.air.instructions.last().unwrap();
    assert!(matches!(last.data, AirInstData::Ret(Some(_))));
    assert_eq!(last.ty, Type::I32);
    assert!(f.air.instructions.iter().any(|i| matches!(i.data, AirInstData::Alloc { slot: 0, .. })));
    assert!(f.air.instructions.iter().any(|i| matches!(i.data, AirInstData::StorageLive { slot: 0 })));
}

#[test]
fn variable_type_without_slot_count_is_internal_error() {
    let mut rodeo = ThreadedRodeo::new();
    let x = intern(&mut rodeo, "x");
    let mut rir = Rir::new();
    let (body, types) = let_then_read(&mut rir, x, false);
    let mut sema = Sema::new(&rir, rodeo, PreviewFeatures::new());
    ready(&mut sema);
    sema.abi_slots.clear();
    let job = FunctionJob { name: "f".to_string(), return_type: Type::I32, params: Vec::new(), body, resolved_types: types };
    let e = sema.analyze_function(&job).unwrap_err();
    match e.kind {
        ErrorKind::InternalError(m) => assert_eq!(m, "no ABI slot count for the type of a variable"),
        other => panic!("unexpected error {:?}", other),
    }
}

#[test]
fn parameters_are_laid_out_in_abi_slots() {
    let mut rodeo = ThreadedRodeo::new();
    let a = intern(&mut rodeo, "a");
    let b = intern(&mut rodeo, "b");
    let rir = Rir::new();
    let mut sema = Sema::new(&rir, rodeo, PreviewFeatures::new());
    sema.abi_slots.push((Type::I64, 2));
    let params = vec![(a, Type::I64, ParamMode::Normal), (b, Type::Struct(4), ParamMode::Inout), (a, Type::Bool, ParamMode::Borrow)];
    let (table, modes) = sema.layout_params(&params, Span::new(0, 0, 1)).unwrap();
    assert_eq!(modes, vec![false, false, true, true]);
    assert_eq!(table.len(), 2);
    assert_eq!(table[&a], ParamInfo { abi_slot: 0, ty: Type::I64, mode: ParamMode::Normal });
    assert_eq!(table[&b], ParamInfo { abi_slot: 2, ty: Type::Struct(4), mode: ParamMode::Inout });
    let unknown = vec![(a, Type::Bool, ParamMode::Normal)];
    let e = sema.layout_params(&unknown, Span::new(0, 3, 4)).unwrap_err();
    assert!(matches!(e.kind, ErrorKind::InternalError(_)));
    assert_eq!(e.span, Span::new(0, 3, 4));
}

#[test]
fn assignment_needs_a_mutable_binding() {
    for is_mut in [false, true] {
        let (rodeo, x, _) = names();
        let mut rir = Rir::new();
        let (block, mut types) = let_then_read(&mut rir, x, is_mut);
        let seven = push(&mut rir, InstData::IntConst(7), 9);
        types.insert(seven, Type::I32);
        let assign = push(&mut rir, InstData::Assign { name: x, value: seven }, 8);
        let alloc = rir.extra[rir.extra.len() - 2];
        let start = rir.add_extra(&[alloc, assign]).unwrap();
        let body = push(&mut rir, InstData::Block { extra_start: start, len: 2 }, 0);
        let mut sema = Sema::new(&rir, rodeo, PreviewFeatures::new());
        ready(&mut sema);
        let _ = block;
        let mut air = Air::new(Type::Unit);
        let mut ctx = AnalysisContext::new(HashMap::new(), types, Type::Unit);
        let r = sema.analyze_inst(&mut air, body, &mut ctx);
        if is_mut {
            let r = r.unwrap();
            assert_eq!(r.ty, Type::Unit);
            assert!(air.instructions.iter().any(|i| matches!(i.data, AirInstData::Store { slot: 0, .. })));
            assert_eq!(ctx.scope_stack.len(), 0);
            assert_eq!(ctx.loop_depth, 0);
        } else {
            let e = r.unwrap_err();
            match e.kind {
                ErrorKind::AssignToImmutable(n) => assert_eq!(n, "x"),
                other => panic!("unexpected error {:?}", other),
            }
            assert_eq!(e.help.as_deref(), Some("consider making `x` mutable: `let mut x`"));
        }
    }
}

#[test]
fn wildcard_let_is_the_value_as_unit() {
    let rodeo = ThreadedRodeo::new();
    let mut rir = Rir::new();
    let five = push(&mut rir, InstData::IntConst(5), 1);
    let alloc = push(&mut rir, InstData::Alloc { name: None, is_mut: false, init: five, directives_start: 0, directives_len: 0 }, 0);
    let mut sema = Sema::new(&rir, rodeo, PreviewFeatures::new());
    ready(&mut sema);
    let mut air = Air::new(Type::Unit);
    let mut types = HashMap::new();
    types.insert(five, Type::I32);
    let mut ctx = AnalysisContext::new(HashMap::new(), types, Type::Unit);
    let r = sema.analyze_inst(&mut air, alloc, &mut ctx).unwrap();
    assert_eq!(r.ty, Type::Unit);
    assert_eq!(air.instructions[r.air_ref as usize].data, AirInstData::IntConst(5));
    assert_eq!(air.instructions[r.air_ref as usize].ty, Type::I32);
    assert_eq!(ctx.next_slot, 0);
    assert!(ctx.locals.is_empty());
}

#[test]
fn allow_directive_marks_the_binding() {
    let mut rodeo = ThreadedRodeo::new();
    let x = intern(&mut rodeo, "x");
    let allow = intern(&mut rodeo, "allow");
    let unused = intern(&mut rodeo, "unused_variable");
    let mut rir = Rir::new();
    rir.directives.push(Directive { name: allow, args: vec![unused] });
    let t = push(&mut rir, InstData::BoolConst(true), 1);
    let alloc = push(&mut rir, InstData::Alloc { name: Some(x), is_mut: false, init: t, directives_start: 0, directives_len: 1 }, 0);
    let bad = push(&mut rir, InstData::Alloc { name: Some(x), is_mut: false, init: t, directives_start: 1, directives_len: 1 }, 0);
    let mut sema = Sema::new(&rir, rodeo, PreviewFeatures::new());
    ready(&mut sema);
    let mut air = Air::new(Type::Unit);
    let mut ctx = AnalysisContext::new(HashMap::new(), HashMap::new(), Type::Unit);
    let r = sema.analyze_inst(&mut air, alloc, &mut ctx).unwrap();
    assert_eq!(r.ty, Type::Unit);
    assert!(ctx.locals[&x].allow_unused);
    assert_eq!(ctx.locals[&x].slot, 0);
    assert_eq!(ctx.next_slot, 1);
    let e = sema.analyze_inst(&mut air, bad, &mut ctx).unwrap_err();
    assert!(matches!(e.kind, ErrorKind::InternalError(_)));
}

#[test]
fn type_bound_at_compile_time_takes_no_slot() {
    let mut rodeo = ThreadedRodeo::new();
    let p = intern(&mut rodeo, "P");
    let i32_name = intern(&mut rodeo, "i32");
    let mut rir = Rir::new();
    let ty = push(&mut rir, InstData::TypeConst { name: i32_name }, 1);
    let alloc = push(&mut rir, InstData::Alloc { name: Some(p), is_mut: false, init: ty, directives_start: 0, directives_len: 0 }, 0);
    let mut sema = Sema::new(&rir, rodeo, PreviewFeatures::new());
    ready(&mut sema);
    let mut air = Air::new(Type::Unit);
    let mut ctx = AnalysisContext::new(HashMap::new(), HashMap::new(), Type::Unit);
    let r = sema.analyze_inst(&mut air, alloc, &mut ctx).unwrap();
    assert_eq!(r.ty, Type::Unit);
    assert_eq!(air.instructions[r.air_ref as usize].data, AirInstData::UnitConst);
    assert_eq!(ctx.comptime_type_vars[&p], Type::I32);
    assert_eq!(ctx.next_slot, 0);
    assert!(ctx.locals.is_empty());
}

#[test]
fn sequential_analysis_reports_every_error() {
    let (rodeo, x, y) = names();
    let mut rir = Rir::new();
    let (body, types) = let_then_read(&mut rir, x, false);
    let jobs = vec![
        FunctionJob { name: "a".to_string(), return_type: Type::I32, params: Vec::new(), body, resolved_types: types.clone() },
        FunctionJob { name: "b".to_string(), return_type: Type::I32, params: Vec::new(), body, resolved_types: HashMap::new() },
        FunctionJob { name: "c".to_string(), return_type: Type::I32, params: Vec::new(), body, resolved_types: HashMap::new() },
    ];
    let mut sema = Sema::new(&rir, rodeo, PreviewFeatures::new());
    ready(&mut sema);
    let errors = sema.analyze_all_function_bodies_sequential(&jobs).unwrap_err();
    assert_eq!(errors.errors.len(), 2);
    assert!(errors.errors.iter().all(|e| matches!(e.kind, ErrorKind::InternalError(_))));

    let ok_jobs = vec![
        FunctionJob { name: "a".to_string(), return_type: Type::I32, params: Vec::new(), body, resolved_types: types.clone() },
        FunctionJob { name: "b".to_string(), return_type: Type::I32, params: vec![(y, Type::I32, ParamMode::Inout)], body, resolved_types: types },
    ];
    let mut sema = Sema::new(&rir, names().0, PreviewFeatures::new());
    ready(&mut sema);
    let out = sema.analyze_all_function_bodies_sequential(&ok_jobs).unwrap();
    assert_eq!(out.functions.len(), 2);
    assert_eq!(out.functions[0].name, "a");
    assert_eq!(out.functions[1].name, "b");
    assert_eq!(out.functions[1].param_modes, vec![true]);
    assert!(out.strings.is_empty());
    assert_eq!(out.type_pool.structs.len(), 1);
}

fn function_info(return_type: Type) -> FunctionInfo {
    FunctionInfo {
        params: ParamRange { start: 0, len: 0 },
        return_type,
        return_type_sym: 0,
        body: 0,
        span: Span::new(0, 0, 1),
        is_generic: false,
        is_pub: true,
        file_id: 0,
    }
}

/// `fn helper() -> i32 { 7 }`, `fn main() -> i32 { helper() }` and
/// `fn unused() -> i32 { 1 }`, with their jobs by symbol.
fn program(rir: &mut Rir, main: u32, helper: u32, unused: u32) -> HashMap<u32, FunctionJob> {
    let seven = push(rir, InstData::IntConst(7), 20);
    let call = push(rir, InstData::Call { name: helper, args_start: 0, args_len: 0 }, 10);
    let one = push(rir, InstData::IntConst(1), 30);
    let mut jobs = HashMap::new();
    let mut t = HashMap::new();
    t.insert(seven, Type::I32);
    jobs.insert(helper, FunctionJob { name: "helper".to_string(), return_type: Type::I32, params: Vec::new(), body: seven, resolved_types: t });
    jobs.insert(main, FunctionJob { name: "main".to_string(), return_type: Type::I32, params: Vec::new(), body: call, resolved_types: HashMap::new() });
    let mut t = HashMap::new();
    t.insert(one, Type::I32);
    jobs.insert(unused, FunctionJob { name: "unused".to_string(), return_type: Type::I32, params: Vec::new(), body: one, resolved_types: t });
    jobs
}

fn program_names() -> (ThreadedRodeo, u32, u32, u32) {
    let mut rodeo = ThreadedRodeo::new();
    let main = intern(&mut rodeo, "main");
    let helper = intern(&mut rodeo, "helper");
    let unused = intern(&mut rodeo, "unused");
    (rodeo, main, helper, unused)
}

#[test]
fn call_is_checked_and_emitted() {
    let (rodeo, main, helper, unused) = program_names();
    let mut rir = Rir::new();
    let jobs = program(&mut rir, main, helper, unused);
    let mut sema = Sema::new(&rir, rodeo, PreviewFeatures::new());
    ready(&mut sema);
    sema.functions.insert(helper, function_info(Type::I32));
    let (f, _, _) = sema.analyze_function(&jobs[&main]).unwrap();
    assert!(f.air.instructions.iter().any(|i| i.data == AirInstData::Call { name: helper, args_start: 0, args_len: 0 } && i.ty == Type::I32));
    let (rodeo, main, helper, unused) = program_names();
    let mut sema = Sema::new(&rir, rodeo, PreviewFeatures::new());
    ready(&mut sema);
    sema.functions.insert(helper, function_info(Type::I64));
    let _ = unused;
    let (f, _, _) = sema.analyze_function(&jobs[&main]).unwrap();
    assert!(f.air.instructions.iter().any(|i| i.data == AirInstData::Call { name: helper, args_start: 0, args_len: 0 } && i.ty == Type::I64));
}

#[test]
fn call_of_an_unknown_function_is_an_error() {
    let (rodeo, main, helper, unused) = program_names();
    let mut rir = Rir::new();
    let jobs = program(&mut rir, main, helper, unused);
    let mut sema = Sema::new(&rir, rodeo, PreviewFeatures::new());
    ready(&mut sema);
    let e = sema.analyze_function(&jobs[&main]).unwrap_err();
    match e.kind {
        ErrorKind::UndefinedFunction(n) => assert_eq!(n, "helper"),
        other => panic!("unexpected error {:?}", other),
    }
    assert_eq!(e.span, Span::new(0, 10, 11));
}

#[test]
fn lazy_driver_analyzes_what_main_reaches() {
    let (rodeo, main, helper, unused) = program_names();
    let mut rir = Rir::new();
    let jobs = program(&mut rir, main, helper, unused);
    let mut sema = Sema::new(&rir, rodeo, PreviewFeatures::new());
    ready(&mut sema);
    for f in [main, helper, unused] {
        sema.functions.insert(f, function_info(Type::I32));
    }
    let (out, queue, order) = sema.analyze_function_bodies_lazy(&jobs);
    assert_eq!(order, vec![LazyItem::Function(main), LazyItem::Function(helper)]);
    assert_eq!(queue.len(), 2);
    assert_eq!(queue[0], (LazyItem::Function(main), vec![LazyItem::Function(helper)]));
    assert_eq!(queue[1], (LazyItem::Function(helper), Vec::new()));
    let out = out.unwrap();
    let names: Vec<&str> = out.functions.iter().map(|f| f.name.as_str()).collect();
    assert_eq!(names, vec!["main", "helper"]);
}

#[test]
fn lazy_driver_needs_main() {
    let (rodeo, main, helper, unused) = program_names();
    let mut rir = Rir::new();
    let jobs = program(&mut rir, main, helper, unused);
    let mut sema = Sema::new(&rir, rodeo, PreviewFeatures::new());
    ready(&mut sema);
    sema.functions.insert(helper, function_info(Type::I32));
    let (out, queue, order) = sema.analyze_function_bodies_lazy(&jobs);
    let errors = out.unwrap_err();
    assert_eq!(errors.errors.len(), 1);
    assert!(matches!(errors.errors[0].kind, ErrorKind::NoMainFunction));
    assert!(queue.is_empty());
    assert!(order.is_empty());
}

#[test]
fn struct_literal_in_declaration_order() {
    let mut rodeo = ThreadedRodeo::new();
    let point = intern(&mut rodeo, "Point");
    let x = intern(&mut rodeo, "x");
    let y = intern(&mut rodeo, "y");
    let z = intern(&mut rodeo, "z");
    let mut rir = Rir::new();
    let two = push(&mut rir, InstData::IntConst(2), 1);
    let one = push(&mut rir, InstData::IntConst(1), 2);
    rir.field_inits.push((y, two));
    rir.field_inits.push((x, one));
    rir.field_inits.push((z, one));
    let lit = push(&mut rir, InstData::StructInit { name: point, fields_start: 0, fields_len: 2 }, 0);
    let bad = push(&mut rir, InstData::StructInit { name: point, fields_start: 1, fields_len: 2 }, 5);
    let mut sema = Sema::new(&rir, rodeo, PreviewFeatures::new());
    ready(&mut sema);
    let mut def = string_struct();
    def.name = "Point".to_string();
    def.is_builtin = false;
    def.fields.push(StructField { name: "x".to_string(), ty: Type::I32 });
    def.fields.push(StructField { name: "y".to_string(), ty: Type::I32 });
    sema.type_pool.structs.push(def);
    sema.structs.insert(point, 1);
    let mut types = HashMap::new();
    types.insert(one, Type::I32);
    types.insert(two, Type::I32);
    let mut air = Air::new(Type::Unit);
    let mut ctx = AnalysisContext::new(HashMap::new(), types, Type::Unit);
    let r = sema.analyze_inst(&mut air, lit, &mut ctx).unwrap();
    assert_eq!(r.ty, Type::Struct(1));
    let inst = air.instructions[r.air_ref as usize];
    match inst.data {
        AirInstData::StructInit { struct_id, fields_start, fields_len, source_order_start } => {
            assert_eq!((struct_id, fields_len), (1, 2));
            let fields = &air.extra[fields_start as usize..fields_start as usize + 2];
            assert_eq!(air.instructions[fields[0] as usize].data, AirInstData::IntConst(1));
            assert_eq!(air.instructions[fields[1] as usize].data, AirInstData::IntConst(2));
            assert_eq!(&air.extra[source_order_start as usize..source_order_start as usize + 2], &[1, 0]);
        },
        other => panic!("unexpected instruction {:?}", other),
    }
    let e = sema.analyze_inst(&mut air, bad, &mut ctx).unwrap_err();
    match e.kind {
        ErrorKind::UnknownField { struct_name, field_name } => assert_eq!((struct_name.as_str(), field_name.as_str()), ("Point", "z")),
        other => panic!("unexpected error {:?}", other),
    }
}

#[test]
fn match_on_a_bool_needs_both_arms() {
    let rodeo = ThreadedRodeo::new();
    let mut rir = Rir::new();
    let t = push(&mut rir, InstData::BoolConst(true), 6);
    let one = push(&mut rir, InstData::IntConst(1), 14);
    let two = push(&mut rir, InstData::IntConst(2), 24);
    rir.match_arms.push((Pattern::Bool(true, Span::new(0, 10, 14)), one));
    rir.match_arms.push((Pattern::Bool(false, Span::new(0, 20, 25)), two));
    let full = push(&mut rir, InstData::Match { scrutinee: t, arms_start: 0, arms_len: 2 }, 0);
    let partial = push(&mut rir, InstData::Match { scrutinee: t, arms_start: 0, arms_len: 1 }, 30);
    let mut sema = Sema::new(&rir, rodeo, PreviewFeatures::new());
    ready(&mut sema);
    let mut types = HashMap::new();
    types.insert(one, Type::I32);
    types.insert(two, Type::I32);
    let mut air = Air::new(Type::Unit);
    let mut ctx = AnalysisContext::new(HashMap::new(), types, Type::Unit);
    let r = sema.analyze_inst(&mut air, full, &mut ctx).unwrap();
    assert_eq!(r.ty, Type::I32);
    assert!(matches!(air.instructions[r.air_ref as usize].data, AirInstData::Match { arms_len: 2, .. }));
    assert_eq!(ctx.scope_stack.len(), 0);
    let e = sema.analyze_inst(&mut air, partial, &mut ctx).unwrap_err();
    assert!(matches!(e.kind, ErrorKind::NonExhaustiveMatch));
    assert_eq!(e.span, Span::new(0, 30, 31));
}

#[test]
fn array_literal_has_its_inferred_length() {
    let rodeo = ThreadedRodeo::new();
    let mut rir = Rir::new();
    let one = push(&mut rir, InstData::IntConst(1), 1);
    let two = push(&mut rir, InstData::IntConst(2), 4);
    let start = rir.add_extra(&[one, two]).unwrap();
    let good = push(&mut rir, InstData::ArrayInit { elems_start: start, elems_len: 2 }, 0);
    let short = push(&mut rir, InstData::ArrayInit { elems_start: start, elems_len: 1 }, 7);
    let mut sema = Sema::new(&rir, rodeo, PreviewFeatures::new());
    ready(&mut sema);
    sema.type_pool.arrays.push(ArrayDef { elem: Type::I32, len: 2, is_copy: true });
    let mut types = HashMap::new();
    types.insert(one, Type::I32);
    types.insert(two, Type::I32);
    types.insert(good, Type::Array(0));
    types.insert(short, Type::Array(0));
    let mut air = Air::new(Type::Unit);
    let mut ctx = AnalysisContext::new(HashMap::new(), types, Type::Unit);
    let r = sema.analyze_inst(&mut air, good, &mut ctx).unwrap();
    assert_eq!(r.ty, Type::Array(0));
    match air.instructions[r.air_ref as usize].data {
        AirInstData::ArrayInit { elems_start, elems_len } => {
            assert_eq!(elems_len, 2);
            let e0 = air.extra[elems_start as usize] as usize;
            let e1 = air.extra[elems_start as usize + 1] as usize;
            assert_eq!(air.instructions[e0].data, AirInstData::IntConst(1));
            assert_eq!(air.instructions[e1].data, AirInstData::IntConst(2));
        },
        other => panic!("unexpected instruction {:?}", other),
    }
    let e = sema.analyze_inst(&mut air, short, &mut ctx).unwrap_err();
    assert_eq!(e.kind, ErrorKind::ArrayLengthMismatch { expected: 2, found: 1 });
    assert_eq!(e.span, Span::new(0, 7, 8));
}

/// `{ let a = [1, 2]; a[index] = 5 }` with `a` mutable or not.
fn store_into_array(is_mut: bool, index: u64) -> (Rir, u32, HashMap<u32, Type>) {
    let (_, a, _) = names();
    let mut rir = Rir::new();
    let one = push(&mut rir, InstData::IntConst(1), 9);
    let two = push(&mut rir, InstData::IntConst(2), 12);
    let start = rir.add_extra(&[one, two]).unwrap();
    let arr = push(&mut rir, InstData::ArrayInit { elems_start: start, elems_len: 2 }, 8);
    let alloc = push(&mut rir, InstData::Alloc { name: Some(a), is_mut, init: arr, directives_start: 0, directives_len: 0 }, 0);
    let base = push(&mut rir, InstData::VarRef { name: a }, 20);
    let i = push(&mut rir, InstData::IntConst(index), 22);
    let five = push(&mut rir, InstData::IntConst(5), 27);
    let set = push(&mut rir, InstData::IndexSet { base, index: i, value: five }, 20);
    let stmts = rir.add_extra(&[alloc, set]).unwrap();
    let block = push(&mut rir, InstData::Block { extra_start: stmts, len: 2 }, 0);
    let mut types = HashMap::new();
    for r in [one, two, five] {
        types.insert(r, Type::I32);
    }
    types.insert(i, Type::U64);
    types.insert(arr, Type::Array(0));
    (rir, block, types)
}

#[test]
fn element_store_checks_target_and_constant_index() {
    for (is_mut, index) in [(true, 1u64), (true, 2), (false, 1)] {
        let (rir, block, types) = store_into_array(is_mut, index);
        let mut sema = Sema::new(&rir, names().0, PreviewFeatures::new());
        ready(&mut sema);
        sema.type_pool.arrays.push(ArrayDef { elem: Type::I32, len: 2, is_copy: true });
        sema.abi_slots.push((Type::Array(0), 2));
        sema.abi_slots.push((Type::U64, 1));
        let mut air = Air::new(Type::Unit);
        let mut ctx = AnalysisContext::new(HashMap::new(), types, Type::Unit);
        let r = sema.analyze_inst(&mut air, block, &mut ctx);
        match (is_mut, index) {
            (true, 1) => {
                assert_eq!(r.unwrap().ty, Type::Unit);
                assert!(air.instructions.iter().any(|i| matches!(i.data, AirInstData::IndexSet { slot: 0, array_type: Type::Array(0), .. })));
            },
            (true, _) => {
                let e = r.unwrap_err();
                assert_eq!(e.kind, ErrorKind::IndexOutOfBounds { index: 2, length: 2 });
                assert_eq!(e.span, Span::new(0, 22, 23));
            },
            _ => {
                let e = r.unwrap_err();
                assert!(matches!(e.kind, ErrorKind::AssignToImmutable(_)));
            },
        }
    }
}

#[test]
fn enum_variant_by_name() {
    let mut rodeo = ThreadedRodeo::new();
    let color = intern(&mut rodeo, "Color");
    let green = intern(&mut rodeo, "Green");
    let blue = intern(&mut rodeo, "Blue");
    let mut rir = Rir::new();
    let g = push(&mut rir, InstData::EnumVariant { module: None, enum_sym: color, variant: green }, 0);
    let b = push(&mut rir, InstData::EnumVariant { module: None, enum_sym: color, variant: blue }, 3);
    let mut sema = Sema::new(&rir, rodeo, PreviewFeatures::new());
    ready(&mut sema);
    sema.type_pool.enums.push(EnumDef { name: "Color".to_string(), variants: vec!["Red".to_string(), "Green".to_string()], is_pub: true, file_id: 0 });
    sema.enums.insert(color, 0);
    let mut air = Air::new(Type::Unit);
    let mut ctx = AnalysisContext::new(HashMap::new(), HashMap::new(), Type::Unit);
    let r = sema.analyze_inst(&mut air, g, &mut ctx).unwrap();
    assert_eq!(r.ty, Type::Enum(0));
    assert_eq!(air.instructions[r.air_ref as usize].data, AirInstData::EnumVariant { enum_id: 0, variant_index: 1 });
    let e = sema.analyze_inst(&mut air, b, &mut ctx).unwrap_err();
    match e.kind {
        ErrorKind::UnknownVariant { enum_name, variant_name } => assert_eq!((enum_name.as_str(), variant_name.as_str()), ("Color", "Blue")),
        other => panic!("unexpected error {:?}", other),
    }
}

#[test]
fn field_store_goes_to_the_field() {
    let mut rodeo = ThreadedRodeo::new();
    let point = intern(&mut rodeo, "Point");
    let x = intern(&mut rodeo, "x");
    let y = intern(&mut rodeo, "y");
    let p = intern(&mut rodeo, "p");
    let w = intern(&mut rodeo, "w");
    let mut rir = Rir::new();
    let one = push(&mut rir, InstData::IntConst(1), 1);
    let two = push(&mut rir, InstData::IntConst(2), 2);
    rir.field_inits.push((x, one));
    rir.field_inits.push((y, two));
    let lit = push(&mut rir, InstData::StructInit { name: point, fields_start: 0, fields_len: 2 }, 0);
    let alloc = push(&mut rir, InstData::Alloc { name: Some(p), is_mut: true, init: lit, directives_start: 0, directives_len: 0 }, 0);
    let base = push(&mut rir, InstData::VarRef { name: p }, 10);
    let five = push(&mut rir, InstData::IntConst(5), 16);
    let set = push(&mut rir, InstData::FieldSet { base, field: y, value: five }, 10);
    let bad = push(&mut rir, InstData::FieldSet { base, field: w, value: five }, 20);
    let stmts = rir.add_extra(&[alloc, set, bad]).unwrap();
    let ok_block = push(&mut rir, InstData::Block { extra_start: stmts, len: 2 }, 0);
    let bad_block = push(&mut rir, InstData::Block { extra_start: stmts, len: 3 }, 0);
    for (block, good) in [(ok_block, true), (bad_block, false)] {
        let mut rodeo2 = ThreadedRodeo::new();
        for s in ["Point", "x", "y", "p", "w"] {
            intern(&mut rodeo2, s);
        }
        let mut sema = Sema::new(&rir, rodeo2, PreviewFeatures::new());
        ready(&mut sema);
        let mut def = string_struct();
        def.name = "Point".to_string();
        def.is_builtin = false;
        def.fields.push(StructField { name: "x".to_string(), ty: Type::I32 });
        def.fields.push(StructField { name: "y".to_string(), ty: Type::I32 });
        sema.type_pool.structs.push(def);
        sema.structs.insert(point, 1);
        sema.abi_slots.push((Type::Struct(1), 2));
        let mut types = HashMap::new();
        for r in [one, two, five] {
            types.insert(r, Type::I32);
        }
        let mut air = Air::new(Type::Unit);
        let mut ctx = AnalysisContext::new(HashMap::new(), types, Type::Unit);
        let r = sema.analyze_inst(&mut air, block, &mut ctx);
        if good {
            assert_eq!(r.unwrap().ty, Type::Unit);
            assert!(air.instructions.iter().any(|i| matches!(i.data, AirInstData::FieldSet { slot: 0, struct_id: 1, field_index: 1, .. })));
        } else {
            match r.unwrap_err().kind {
                ErrorKind::UnknownField { struct_name, field_name } => assert_eq!((struct_name.as_str(), field_name.as_str()), ("Point", "w")),
                other => panic!("unexpected error {:?}", other),
            }
        }
    }
}

#[test]
fn field_slot_offset_sums_earlier_fields() {
    let rir = Rir::new();
    let mut sema = Sema::new(&rir, ThreadedRodeo::new(), PreviewFeatures::new());
    let mut def = string_struct();
    def.fields.push(StructField { name: "a".to_string(), ty: Type::I64 });
    def.fields.push(StructField { name: "b".to_string(), ty: Type::Bool });
    def.fields.push(StructField { name: "c".to_string(), ty: Type::U8 });
    sema.type_pool.structs.push(def);
    sema.abi_slots.push((Type::I64, 2));
    sema.abi_slots.push((Type::Bool, 1));
    assert_eq!(sema.field_slot_offset(0, 0), Some(0));
    assert_eq!(sema.field_slot_offset(0, 1), Some(2));
    assert_eq!(sema.field_slot_offset(0, 2), Some(3));
    assert_eq!(sema.field_slot_offset(0, 3), None);
}
