use std::collections::HashMap;

use lasso::{Key, ThreadedRodeo};
use rue_air::air::{Air, AirInstData};
use rue_air::builtins::{BuiltinAssociatedFn, BuiltinMethod, BuiltinParamType, BuiltinReturnType, BuiltinTypeDef, ReceiverMode};
use rue_air::context::{AnalysisContext, LocalVar, ParamInfo, ParamMode};
use rue_air::diag::{ErrorKind, PreviewFeatures};
use rue_air::methods::{
    begin_builtin_assoc_fn, builtin_return, check_builtin_assoc_arg, emit_string_store, AssocFnOwner, MethodReceiver,
};
use rue_air::moves::VariableMoveState;
use rue_air::rir::{Inst, InstData, Rir};
use rue_air::sema::{method_table_key, MethodInfo, ParamRange, Sema};
use rue_air::types::{Span, StructDef, Type};
use rue_air::variables::AssignTarget;

fn intern(rodeo: &mut ThreadedRodeo, s: &str) -> u32 {
    rodeo.get_or_intern(s).into_usize() as u32
}

fn lookup(rodeo: &ThreadedRodeo, s: &str) -> Option<u32> {
    rodeo.get(s).map(|k| k.into_usize() as u32)
}

fn push(rir: &mut Rir, data: InstData, at: u32) -> u32 {
    rir.add_inst(Inst { data, span: Span::new(0, at, at + 1) }).unwrap()
}

fn struct_def(name: &str, is_builtin: bool) -> StructDef {
    StructDef {
        name: name.to_string(),
        fields: vec![],
        is_copy: false,
        is_handle: false,
        is_linear: false,
        destructor: None,
        is_builtin,
        is_pub: true,
        file_id: 0,
    }
}

fn method(has_self: bool, len: u32) -> MethodInfo {
    MethodInfo {
        struct_type: Type::Struct(0),
        has_self,
        params: ParamRange { start: 0, len },
        return_type: Type::I32,
        body: 0,
        span: Span::new(0, 0, 1),
    }
}

fn string_def() -> BuiltinTypeDef {
    BuiltinTypeDef {
        name: "String".to_string(),
        fields: vec![],
        is_copy: false,
        drop_fn: None,
        methods: vec![
            BuiltinMethod {
                name: "len".to_string(),
                receiver_mode: ReceiverMode::ByRef,
                params: vec![],
                return_ty: BuiltinReturnType::U64,
                runtime_fn: "__rue_string_len".to_string(),
            },
            BuiltinMethod {
                name: "push_str".to_string(),
                receiver_mode: ReceiverMode::ByMutRef,
                params: vec![BuiltinParamType::SelfType],
                return_ty: BuiltinReturnType::SelfType,
                runtime_fn: "__rue_string_push_str".to_string(),
            },
        ],
        associated_fns: vec![BuiltinAssociatedFn {
            name: "with_capacity".to_string(),
            params: vec![BuiltinParamType::U64],
            return_ty: BuiltinReturnType::SelfType,
            runtime_fn: "__rue_string_with_capacity".to_string(),
        }],
    }
}

#[test]
fn method_receivers() {
    let rir = Rir::new();
    let mut rodeo = ThreadedRodeo::new();
    let area = intern(&mut rodeo, "area");
    let origin = intern(&mut rodeo, "origin");
    let nope = intern(&mut rodeo, "nope");
    let mut sema = Sema::new(&rir, rodeo, PreviewFeatures::new());
    sema.type_pool.structs.push(struct_def("Point", false));
    sema.type_pool.structs.push(struct_def("String", true));
    sema.methods.insert(method_table_key(0, area), method(true, 1));
    sema.methods.insert(method_table_key(0, origin), method(false, 0));
    let builtins = vec![string_def()];
    let span = Span::new(0, 0, 9);
    let mut cx = AnalysisContext::new(HashMap::new(), HashMap::new(), Type::Unit);

    assert!(matches!(sema.method_receiver(&mut cx, &builtins, Type::Module(0), area, span), Ok(MethodReceiver::Module)));
    assert!(matches!(sema.method_receiver(&mut cx, &builtins, Type::Struct(1), area, span), Ok(MethodReceiver::Builtin { struct_id: 1 })));
    match sema.method_receiver(&mut cx, &builtins, Type::Struct(0), area, span) {
        Ok(MethodReceiver::User { struct_id, info }) => assert_eq!((struct_id, info.params.len), (0, 1)),
        _ => panic!("expected a method"),
    }
    assert_eq!(
        sema.method_receiver(&mut cx, &builtins, Type::Struct(0), nope, span).unwrap_err().kind,
        ErrorKind::UndefinedMethod { owner: "Point".to_string(), method_name: "nope".to_string() }
    );
    assert_eq!(
        sema.method_receiver(&mut cx, &builtins, Type::Struct(0), origin, span).unwrap_err().kind,
        ErrorKind::AssocFnCalledAsMethod { owner: "Point".to_string(), function_name: "origin".to_string() }
    );
    assert_eq!(
        sema.method_receiver(&mut cx, &builtins, Type::I32, area, span).unwrap_err().kind,
        ErrorKind::MethodCallOnNonStruct { found: "i32".to_string(), method_name: "area".to_string() }
    );
    // Only the call of a struct's own method is recorded.
    assert_eq!(cx.referenced_methods.len(), 1);
    assert!(cx.referenced_methods.contains(&method_table_key(0, area)));
    assert!(cx.referenced_functions.is_empty());
    assert_eq!(
        sema.check_method_args(method(true, 1), &[], span).unwrap_err().kind,
        ErrorKind::WrongArgumentCount { expected: 1, found: 0 }
    );
    assert!(sema.check_method_args(method(true, 0), &[], span).is_ok());

    let k = sema.method_call_name(0, area);
    assert_eq!(lookup(&sema.interner, "Point.area"), Some(k));
}

#[test]
fn builtin_methods() {
    let rir = Rir::new();
    let mut rodeo = ThreadedRodeo::new();
    let s = intern(&mut rodeo, "s");
    let mut sema = Sema::new(&rir, rodeo, PreviewFeatures::new());
    sema.builtin_string_id = Some(1);
    let def = string_def();
    let mut ctx = AnalysisContext::new(HashMap::new(), HashMap::new(), Type::Unit);
    let mut moved = VariableMoveState::new();
    moved.mark_path_moved(&[], Span::new(0, 1, 2));
    ctx.moved_vars.insert(s, moved);
    let span = Span::new(0, 0, 9);

    // A method that borrows its receiver does not move it.
    let m = sema.begin_builtin_method(&mut ctx, &def, "len", Some(s), 0, span).unwrap();
    assert_eq!(m.runtime_fn, "__rue_string_len");
    assert!(ctx.moved_vars.is_empty());
    assert_eq!(
        sema.begin_builtin_method(&mut ctx, &def, "push_str", Some(s), 0, span).unwrap_err().kind,
        ErrorKind::WrongArgumentCount { expected: 1, found: 0 }
    );
    assert_eq!(
        sema.begin_builtin_method(&mut ctx, &def, "shout", None, 0, span).unwrap_err().kind,
        ErrorKind::UndefinedMethod { owner: "String".to_string(), method_name: "shout".to_string() }
    );
    // Argument types: the String type is accepted for the type itself.
    assert!(sema.check_builtin_arg(BuiltinParamType::SelfType, 1, Type::Struct(1), span).is_ok());
    assert!(sema.check_builtin_arg(BuiltinParamType::U64, 1, Type::Error, span).is_ok());
    assert_eq!(
        sema.check_builtin_arg(BuiltinParamType::U8, 1, Type::U64, span).unwrap_err().kind,
        ErrorKind::TypeMismatch { expected: "u8".to_string(), found: "u64".to_string() }
    );
    assert_eq!(builtin_return(BuiltinReturnType::SelfType, 1), Type::Struct(1));
    let k = sema.runtime_fn_name(&def.methods[1]);
    assert_eq!(lookup(&sema.interner, "__rue_string_push_str"), Some(k));
}

#[test]
fn mutated_strings_are_written_back() {
    let mut rir = Rir::new();
    let mut rodeo = ThreadedRodeo::new();
    let a = intern(&mut rodeo, "a");
    let b = intern(&mut rodeo, "b");
    let p = intern(&mut rodeo, "p");
    let q = intern(&mut rodeo, "q");
    let var_a = push(&mut rir, InstData::VarRef { name: a }, 0);
    let var_b = push(&mut rir, InstData::VarRef { name: b }, 0);
    let var_p = push(&mut rir, InstData::VarRef { name: p }, 0);
    let var_q = push(&mut rir, InstData::VarRef { name: q }, 0);
    let par_p = push(&mut rir, InstData::ParamRef { name: p }, 0);
    let mut params = HashMap::new();
    params.insert(p, ParamInfo { abi_slot: 4, ty: Type::Struct(1), mode: ParamMode::Inout });
    params.insert(q, ParamInfo { abi_slot: 5, ty: Type::Struct(1), mode: ParamMode::Borrow });
    let sema = Sema::new(&rir, rodeo, PreviewFeatures::new());
    let mut ctx = AnalysisContext::new(params, HashMap::new(), Type::Unit);
    let local = |slot: u32, is_mut: bool| LocalVar { slot, ty: Type::Struct(1), is_mut, span: Span::new(0, 0, 1), allow_unused: false };
    ctx.insert_local(a, local(2, true));
    ctx.insert_local(b, local(3, false));
    let span = Span::new(0, 0, 9);
    assert_eq!(sema.string_receiver_storage(&ctx, var_a, span).unwrap(), AssignTarget::Local { slot: 2 });
    assert_eq!(sema.string_receiver_storage(&ctx, var_p, span).unwrap(), AssignTarget::Param { abi_slot: 4 });
    assert_eq!(sema.string_receiver_storage(&ctx, var_b, span).unwrap_err().kind, ErrorKind::AssignToImmutable("b".to_string()));
    assert_eq!(sema.string_receiver_storage(&ctx, var_q, span).unwrap_err().kind, ErrorKind::MutateBorrowedValue { variable: "q".to_string() });
    assert_eq!(sema.string_receiver_storage(&ctx, par_p, span).unwrap_err().kind, ErrorKind::InvalidAssignmentTarget);

    let mut air = Air::new(Type::Unit);
    let r = emit_string_store(&mut air, 7, AssignTarget::Param { abi_slot: 4 }, span);
    assert_eq!((r.air_ref, r.ty), (0, Type::Unit));
    assert_eq!(air.instructions[0].data, AirInstData::ParamStore { param_slot: 4, value: 7 });
}

#[test]
fn associated_function_calls() {
    let rir = Rir::new();
    let mut rodeo = ThreadedRodeo::new();
    let point = intern(&mut rodeo, "Point");
    let string = intern(&mut rodeo, "String");
    let p = intern(&mut rodeo, "P");
    let n = intern(&mut rodeo, "N");
    let origin = intern(&mut rodeo, "origin");
    let area = intern(&mut rodeo, "area");
    let missing = intern(&mut rodeo, "Missing");
    let mut sema = Sema::new(&rir, rodeo, PreviewFeatures::new());
    sema.type_pool.structs.push(struct_def("Point", false));
    sema.type_pool.structs.push(struct_def("String", true));
    sema.structs.insert(point, 0);
    sema.structs.insert(string, 1);
    sema.methods.insert(method_table_key(0, area), method(true, 1));
    sema.methods.insert(method_table_key(0, origin), method(false, 0));
    let builtins = vec![string_def()];
    let mut ctx = AnalysisContext::new(HashMap::new(), HashMap::new(), Type::Unit);
    ctx.comptime_type_vars.insert(p, Type::Struct(0));
    ctx.comptime_type_vars.insert(n, Type::I32);
    let span = Span::new(0, 0, 9);

    assert!(matches!(sema.assoc_fn_owner(&builtins, &ctx, point, origin, span), Ok(AssocFnOwner::User { struct_id: 0, .. })));
    // A type bound at compile time names its struct.
    assert!(matches!(sema.assoc_fn_owner(&builtins, &ctx, p, origin, span), Ok(AssocFnOwner::User { struct_id: 0, .. })));
    assert!(matches!(sema.assoc_fn_owner(&builtins, &ctx, string, origin, span), Ok(AssocFnOwner::Builtin { struct_id: 1 })));
    assert_eq!(
        sema.assoc_fn_owner(&builtins, &ctx, n, origin, span).unwrap_err().kind,
        ErrorKind::TypeMismatch { expected: "struct type".to_string(), found: "i32".to_string() }
    );
    assert_eq!(sema.assoc_fn_owner(&builtins, &ctx, missing, origin, span).unwrap_err().kind, ErrorKind::UnknownType("Missing".to_string()));
    assert_eq!(
        sema.assoc_fn_owner(&builtins, &ctx, p, area, span).unwrap_err().kind,
        ErrorKind::MethodCalledAsAssocFn { owner: "P".to_string(), method_name: "area".to_string() }
    );
    assert_eq!(
        sema.assoc_fn_owner(&builtins, &ctx, point, missing, span).unwrap_err().kind,
        ErrorKind::UndefinedAssocFn { owner: "Point".to_string(), function_name: "Missing".to_string() }
    );
    let k = sema.assoc_fn_call_name(0, origin);
    assert_eq!(lookup(&sema.interner, "Point::origin"), Some(k));

    let def = string_def();
    assert_eq!(begin_builtin_assoc_fn(&def, "with_capacity", 1, span).unwrap().runtime_fn, "__rue_string_with_capacity");
    assert_eq!(
        begin_builtin_assoc_fn(&def, "with_capacity", 2, span).unwrap_err().kind,
        ErrorKind::WrongArgumentCount { expected: 1, found: 2 }
    );
    assert_eq!(
        begin_builtin_assoc_fn(&def, "new", 0, span).unwrap_err().kind,
        ErrorKind::UndefinedAssocFn { owner: "String".to_string(), function_name: "new".to_string() }
    );
    // No String exception here: the parameter's type must match.
    assert!(check_builtin_assoc_arg(BuiltinParamType::U64, 1, Type::U64, span).is_ok());
    assert_eq!(
        check_builtin_assoc_arg(BuiltinParamType::SelfType, 2, Type::Struct(1), span).unwrap_err().kind,
        ErrorKind::TypeMismatch { expected: "<struct>".to_string(), found: "<struct>".to_string() }
    );
}
