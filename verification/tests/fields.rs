use std::collections::HashMap;

use lasso::{Key, ThreadedRodeo};
use rue_air::air::{Air, AirInstData};
use rue_air::context::{AnalysisContext, AnalysisResult, LocalVar};
use rue_air::diag::{ErrorKind, PreviewFeatures};
use rue_air::rir::{Inst, InstData, Rir};
use rue_air::sema::Sema;
use rue_air::types::{Span, StructDef, StructField, Type};

fn intern(rodeo: &mut ThreadedRodeo, s: &str) -> u32 {
    rodeo.get_or_intern(s).into_usize() as u32
}

fn push(rir: &mut Rir, data: InstData) -> u32 {
    rir.add_inst(Inst { data, span: Span::new(0, 0, 1) }).unwrap()
}

fn def(name: &str, fields: Vec<(&str, Type)>, is_copy: bool, is_linear: bool) -> StructDef {
    StructDef {
        name: name.to_string(),
        fields: fields.into_iter().map(|(n, ty)| StructField { name: n.to_string(), ty }).collect(),
        is_copy,
        is_handle: false,
        is_linear,
        destructor: None,
        is_builtin: false,
        is_pub: true,
        file_id: 0,
    }
}

#[test]
fn field_reads_move_non_copy_fields() {
    let mut rir = Rir::new();
    let mut rodeo = ThreadedRodeo::new();
    let o = intern(&mut rodeo, "o");
    let inner = intern(&mut rodeo, "inner");
    let n = intern(&mut rodeo, "n");
    let var = push(&mut rir, InstData::VarRef { name: o });
    let get_inner = push(&mut rir, InstData::FieldGet { base: var, field: inner });
    let get_n = push(&mut rir, InstData::FieldGet { base: var, field: n });
    let mut sema = Sema::new(&rir, rodeo, PreviewFeatures::new());
    // struct 0: Inner (not Copy); struct 1: Outer { n: i32, inner: Inner }
    sema.type_pool.structs.push(def("Inner", vec![], false, false));
    sema.type_pool.structs.push(def("Outer", vec![("n", Type::I32), ("inner", Type::Struct(0))], false, false));
    let mut ctx = AnalysisContext::new(HashMap::new(), HashMap::new(), Type::Unit);
    ctx.insert_local(o, LocalVar { slot: 0, ty: Type::Struct(1), is_mut: false, span: Span::new(0, 0, 1), allow_unused: false });
    let mut air = Air::new(Type::Unit);
    let base = AnalysisResult::new(0, Type::Struct(1));
    let first = Span::new(0, 5, 6);

    let r = sema.finish_field_get(&mut air, &mut ctx, get_n, base, n, first).unwrap();
    assert_eq!(r.ty, Type::I32);
    assert_eq!(air.instructions[0].data, AirInstData::FieldGet { base: 0, struct_id: 1, field_index: 0 });
    assert!(ctx.moved_vars.is_empty());

    let r = sema.finish_field_get(&mut air, &mut ctx, get_inner, base, inner, first).unwrap();
    assert_eq!(r.ty, Type::Struct(0));
    assert_eq!(ctx.moved_vars[&o].is_path_moved(&[inner]), Some(first));
    assert_eq!(ctx.moved_vars[&o].full_move(), None);

    let e = sema.finish_field_get(&mut air, &mut ctx, get_inner, base, inner, Span::new(0, 9, 10)).unwrap_err();
    assert!(matches!(e.kind, ErrorKind::UseAfterMove(ref p) if p == "o.inner"));
    assert_eq!(e.label, Some(("value moved here".to_string(), first)));
    // The other field is still readable.
    assert!(sema.finish_field_get(&mut air, &mut ctx, get_n, base, n, first).is_ok());
}

#[test]
fn field_errors_and_linear_structs() {
    let mut rir = Rir::new();
    let mut rodeo = ThreadedRodeo::new();
    let h = intern(&mut rodeo, "h");
    let fd = intern(&mut rodeo, "fd");
    let nope = intern(&mut rodeo, "nope");
    let var = push(&mut rir, InstData::VarRef { name: h });
    let get = push(&mut rir, InstData::FieldGet { base: var, field: fd });
    let mut sema = Sema::new(&rir, rodeo, PreviewFeatures::new());
    sema.type_pool.structs.push(def("Handle", vec![("fd", Type::I32)], false, true));
    let mut ctx = AnalysisContext::new(HashMap::new(), HashMap::new(), Type::Unit);
    let mut air = Air::new(Type::Unit);
    let s = Span::new(0, 3, 4);
    match sema.finish_field_get(&mut air, &mut ctx, get, AnalysisResult::new(0, Type::I32), fd, s).unwrap_err().kind {
        ErrorKind::FieldAccessOnNonStruct { found } => assert_eq!(found, "i32"),
        other => panic!("unexpected error {:?}", other),
    }
    match sema.finish_field_get(&mut air, &mut ctx, get, AnalysisResult::new(0, Type::Struct(0)), nope, s).unwrap_err().kind {
        ErrorKind::UnknownField { struct_name, field_name } => assert_eq!((struct_name.as_str(), field_name.as_str()), ("Handle", "nope")),
        other => panic!("unexpected error {:?}", other),
    }
    // Reading a field of a linear struct consumes the whole variable.
    sema.finish_field_get(&mut air, &mut ctx, get, AnalysisResult::new(0, Type::Struct(0)), fd, s).unwrap();
    assert_eq!(ctx.moved_vars[&h].full_move(), Some(s));
    assert_eq!(sema.type_pool.structs[0].find_field("fd").map(|(i, f)| (i, f.ty)), Some((0, Type::I32)));
}

fn point_sema<'a>(rir: &'a Rir, names: &[&str]) -> (Sema<'a>, Vec<u32>) {
    let mut rodeo = ThreadedRodeo::new();
    let syms: Vec<u32> = names.iter().map(|n| intern(&mut rodeo, n)).collect();
    let mut sema = Sema::new(rir, rodeo, PreviewFeatures::new());
    sema.type_pool.structs.push(def("Point", vec![("x", Type::I32), ("y", Type::I64), ("z", Type::Bool)], true, false));
    sema.structs.insert(syms[0], 0);
    (sema, syms)
}

#[test]
fn struct_literal_fields_are_checked_in_source_order() {
    let rir = Rir::new();
    let (sema, s) = point_sema(&rir, &["Point", "x", "y", "z", "w", "Nope"]);
    let span = Span::new(0, 1, 20);
    // Written out of order: z, x, y.
    let (id, order) = sema.check_struct_init(s[0], &[s[3], s[1], s[2]], span).unwrap();
    assert_eq!((id, order), (0, vec![2, 0, 1]));
    // Unknown struct.
    match sema.check_struct_init(s[5], &[], span).unwrap_err().kind {
        ErrorKind::UnknownType(n) => assert_eq!(n, "Nope"),
        other => panic!("unexpected error {:?}", other),
    }
    // The first wrong name decides: `w` is unknown, though `x` repeats later.
    match sema.check_struct_init(s[0], &[s[1], s[4], s[1]], span).unwrap_err().kind {
        ErrorKind::UnknownField { struct_name, field_name } => assert_eq!((struct_name.as_str(), field_name.as_str()), ("Point", "w")),
        other => panic!("unexpected error {:?}", other),
    }
    match sema.check_struct_init(s[0], &[s[2], s[2], s[4]], span).unwrap_err().kind {
        ErrorKind::DuplicateField { struct_name, field_name } => assert_eq!((struct_name.as_str(), field_name.as_str()), ("Point", "y")),
        other => panic!("unexpected error {:?}", other),
    }
    // Missing fields are listed in declaration order.
    let e = sema.check_struct_init(s[0], &[s[2]], span).unwrap_err();
    assert_eq!(e.span, span);
    match e.kind {
        ErrorKind::MissingFields { struct_name, missing_fields } => {
            assert_eq!(struct_name, "Point");
            assert_eq!(missing_fields, vec!["x".to_string(), "z".to_string()]);
        }
        other => panic!("unexpected error {:?}", other),
    }
}

#[test]
fn struct_literal_values_are_laid_out_in_declaration_order() {
    let mut air = Air::new(Type::Unit);
    air.add_extra(&[7]);
    let span = Span::new(0, 2, 9);
    // Values 10, 11, 12 written for fields 2, 0, 1.
    let r = rue_air::fields::emit_struct_init(&mut air, 4, &vec![2, 0, 1], &vec![10, 11, 12], span);
    assert_eq!((r.air_ref, r.ty), (0, Type::Struct(4)));
    assert_eq!(air.extra, vec![7, 11, 12, 10, 2, 0, 1]);
    assert_eq!(
        air.instructions[0].data,
        AirInstData::StructInit { struct_id: 4, fields_start: 1, fields_len: 3, source_order_start: 4 }
    );
    assert_eq!(rue_air::fields::declaration_order(&vec![1, 0], &vec![5, 6]), vec![6, 5]);
}
