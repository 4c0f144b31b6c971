use rue_air::air::{Air, AirInstData};
use rue_air::context::AnalysisResult;
use rue_air::diag::ErrorKind;
use rue_air::pointers::{
    finish_int_to_ptr, finish_ptr_offset, finish_ptr_read, finish_ptr_to_int, finish_ptr_write, finish_raw,
    finish_syscall,
};
use rue_air::types::{Span, Type, TypePool};

fn mismatch(kind: ErrorKind) -> (String, String, String) {
    match kind {
        ErrorKind::IntrinsicTypeMismatch { name, expected, found } => (name, expected, found),
        other => panic!("unexpected error {:?}", other),
    }
}

fn strs(t: (&str, &str, &str)) -> (String, String, String) {
    (t.0.to_string(), t.1.to_string(), t.2.to_string())
}

fn arg(air_ref: u32, ty: Type) -> AnalysisResult {
    AnalysisResult::new(air_ref, ty)
}

#[test]
fn raw_pointers_are_interned_once() {
    let mut pool = TypePool::new();
    let mut air = Air::new(Type::Unit);
    let span = Span::new(0, 0, 5);
    let p = finish_raw(&mut air, &mut pool, 7, false, arg(0, Type::I32), span);
    let q = finish_raw(&mut air, &mut pool, 7, false, arg(0, Type::I32), span);
    let m = finish_raw(&mut air, &mut pool, 8, true, arg(0, Type::I32), span);
    let b = finish_raw(&mut air, &mut pool, 8, true, arg(0, Type::Bool), span);
    assert_eq!(p.ty, Type::PtrConst(0));
    assert_eq!(q.ty, Type::PtrConst(0));
    assert_eq!(m.ty, Type::PtrMut(0));
    assert_eq!(b.ty, Type::PtrMut(1));
    assert_eq!(pool.ptr_consts, vec![Type::I32]);
    assert_eq!(pool.ptr_muts, vec![Type::I32, Type::Bool]);
    assert_eq!((p.air_ref, q.air_ref, m.air_ref, b.air_ref), (0, 1, 2, 3));
    assert_eq!(air.instructions[2].data, AirInstData::Intrinsic { name: 8, args_start: 2, args_len: 1 });
    assert_eq!(air.extra, vec![0, 0, 0, 0]);
}

#[test]
fn reading_and_writing_through_pointers() {
    let mut pool = TypePool::new();
    pool.ptr_consts.push(Type::U8);
    pool.ptr_muts.push(Type::I64);
    let mut air = Air::new(Type::Unit);
    let span = Span::new(0, 3, 9);
    let r = finish_ptr_read(&mut air, &pool, 1, arg(4, Type::PtrConst(0)), span).unwrap();
    assert_eq!(r, AnalysisResult::new(0, Type::U8));
    let r = finish_ptr_read(&mut air, &pool, 1, arg(5, Type::PtrMut(0)), span).unwrap();
    assert_eq!(r.ty, Type::I64);
    let e = finish_ptr_read(&mut air, &pool, 1, arg(5, Type::I32), span).unwrap_err();
    assert_eq!(mismatch(e.kind), strs(("ptr_read", "ptr const T or ptr mut T", "i32")));
    assert_eq!(air.instructions.len(), 2);

    let w = finish_ptr_write(&mut air, &pool, 2, arg(5, Type::PtrMut(0)), arg(6, Type::I64), span).unwrap();
    assert_eq!(w, AnalysisResult::new(2, Type::Unit));
    assert_eq!(air.extra, vec![4, 5, 5, 6]);
    assert!(finish_ptr_write(&mut air, &pool, 2, arg(5, Type::PtrMut(0)), arg(6, Type::Never), span).is_ok());
    let e = finish_ptr_write(&mut air, &pool, 2, arg(5, Type::PtrMut(0)), arg(6, Type::Bool), span).unwrap_err();
    assert_eq!(e.kind, ErrorKind::TypeMismatch { expected: "i64".to_string(), found: "bool".to_string() });
    let e = finish_ptr_write(&mut air, &pool, 2, arg(4, Type::PtrConst(0)), arg(6, Type::U8), span).unwrap_err();
    assert_eq!(mismatch(e.kind), strs(("ptr_write", "ptr mut T (cannot write through ptr const)", "<ptr const>")));
    let e = finish_ptr_write(&mut air, &pool, 2, arg(4, Type::U64), arg(6, Type::U8), span).unwrap_err();
    assert_eq!(mismatch(e.kind), strs(("ptr_write", "ptr mut T", "u64")));
    assert_eq!(air.instructions.len(), 4);
}

#[test]
fn pointer_arithmetic_and_conversions() {
    let mut air = Air::new(Type::Unit);
    let span = Span::new(0, 0, 1);
    let o = finish_ptr_offset(&mut air, 3, arg(0, Type::PtrMut(2)), arg(1, Type::I32), span).unwrap();
    assert_eq!(o, AnalysisResult::new(0, Type::PtrMut(2)));
    let e = finish_ptr_offset(&mut air, 3, arg(0, Type::Bool), arg(1, Type::I32), span).unwrap_err();
    assert_eq!(mismatch(e.kind), strs(("ptr_offset", "ptr const T or ptr mut T", "bool")));
    let e = finish_ptr_offset(&mut air, 3, arg(0, Type::PtrConst(0)), arg(1, Type::Bool), span).unwrap_err();
    assert_eq!(mismatch(e.kind), strs(("ptr_offset", "integer offset", "bool")));
    assert_eq!(finish_ptr_offset(&mut air, 3, arg(0, Type::Error), arg(1, Type::U8), span).unwrap().ty, Type::Error);

    assert_eq!(finish_ptr_to_int(&mut air, 4, arg(0, Type::PtrConst(1)), span).unwrap().ty, Type::U64);
    let e = finish_ptr_to_int(&mut air, 4, arg(0, Type::U64), span).unwrap_err();
    assert_eq!(mismatch(e.kind), strs(("ptr_to_int", "ptr const T or ptr mut T", "u64")));

    assert_eq!(finish_int_to_ptr(&mut air, 5, arg(0, Type::U64), Type::PtrMut(1), span).unwrap().ty, Type::PtrMut(1));
    let e = finish_int_to_ptr(&mut air, 5, arg(0, Type::I64), Type::PtrMut(1), span).unwrap_err();
    assert_eq!(mismatch(e.kind), strs(("int_to_ptr", "u64", "i64")));
    let e = finish_int_to_ptr(&mut air, 5, arg(0, Type::U64), Type::PtrConst(1), span).unwrap_err();
    assert_eq!(mismatch(e.kind), strs(("int_to_ptr", "ptr mut T", "<ptr const>")));
    assert_eq!(air.instructions.len(), 4);
}

#[test]
fn syscall_arguments_are_u64() {
    let mut air = Air::new(Type::Unit);
    let span = Span::new(0, 0, 1);
    let args = [arg(0, Type::U64), arg(1, Type::U64), arg(2, Type::Never)];
    let r = finish_syscall(&mut air, 9, &args, span).unwrap();
    assert_eq!(r, AnalysisResult::new(0, Type::I64));
    assert_eq!(air.extra, vec![0, 1, 2]);
    assert_eq!(air.instructions[0].data, AirInstData::Intrinsic { name: 9, args_start: 0, args_len: 3 });
    let bad = [arg(0, Type::U64), arg(1, Type::U64), arg(2, Type::I32), arg(3, Type::Bool)];
    let e = finish_syscall(&mut air, 9, &bad, span).unwrap_err();
    assert_eq!(mismatch(e.kind), strs(("syscall", "u64 for argument 2", "i32")));
    assert_eq!(air.instructions.len(), 1);
}
