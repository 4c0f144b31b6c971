use std::collections::HashMap;

use lasso::{Key, ThreadedRodeo};
use rue_air::air::{Air, AirInstData};
use rue_air::context::{AnalysisContext, AnalysisResult};
use rue_air::diag::{ErrorKind, PreviewFeature, PreviewFeatures};
use rue_air::intrinsics::{
    check_intrinsic_arity, emit_assert, emit_panic, emit_random, finish_cast, finish_dbg, finish_int_cast,
    parse_intrinsic_name, IntrinsicKind, ParseTarget,
};
use rue_air::rir::Rir;
use rue_air::sema::Sema;
use rue_air::types::{Span, Type};

fn intern(rodeo: &mut ThreadedRodeo, s: &str) -> u32 {
    rodeo.get_or_intern(s).into_usize() as u32
}

fn mismatch(kind: ErrorKind) -> (String, String, String) {
    match kind {
        ErrorKind::IntrinsicTypeMismatch { name, expected, found } => (name, expected, found),
        other => panic!("unexpected error {:?}", other),
    }
}

fn strs(t: (&str, &str, &str)) -> (String, String, String) {
    (t.0.to_string(), t.1.to_string(), t.2.to_string())
}

#[test]
fn intrinsic_names_are_recognized() {
    let rir = Rir::new();
    let mut rodeo = ThreadedRodeo::new();
    let names = ["dbg", "intCast", "parse_u64", "raw_mut", "target_os", "frobnicate"];
    let syms: Vec<u32> = names.iter().map(|n| intern(&mut rodeo, n)).collect();
    let sema = Sema::new(&rir, rodeo, PreviewFeatures::new());
    let span = Span::new(0, 0, 4);
    assert_eq!(sema.classify_intrinsic(syms[0], span).unwrap(), IntrinsicKind::Dbg);
    assert_eq!(sema.classify_intrinsic(syms[1], span).unwrap(), IntrinsicKind::IntCast);
    assert_eq!(sema.classify_intrinsic(syms[2], span).unwrap(), IntrinsicKind::Parse(ParseTarget::U64));
    assert_eq!(sema.classify_intrinsic(syms[3], span).unwrap(), IntrinsicKind::RawMut);
    assert_eq!(sema.classify_intrinsic(syms[4], span).unwrap(), IntrinsicKind::TargetOs);
    let e = sema.classify_intrinsic(syms[5], span).unwrap_err();
    assert_eq!((e.kind, e.span), (ErrorKind::UnknownIntrinsic("frobnicate".to_string()), span));
}

#[test]
fn intrinsic_argument_counts() {
    let span = Span::new(0, 0, 4);
    let count_error = |k: IntrinsicKind, n: usize| match check_intrinsic_arity(k, n, span) {
        Ok(()) => None,
        Err(e) => match e.kind {
            ErrorKind::IntrinsicWrongArgCount { name, expected, found } => Some((name, expected, found)),
            other => panic!("unexpected error {:?}", other),
        },
    };
    assert_eq!(count_error(IntrinsicKind::Dbg, 1), None);
    assert_eq!(count_error(IntrinsicKind::Dbg, 2), Some(("dbg".to_string(), 1, 2)));
    assert_eq!(count_error(IntrinsicKind::Panic, 0), None);
    assert_eq!(count_error(IntrinsicKind::Panic, 2), Some(("panic".to_string(), 1, 2)));
    assert_eq!(count_error(IntrinsicKind::Assert, 1), None);
    assert_eq!(count_error(IntrinsicKind::Assert, 2), Some(("assert".to_string(), 1, 2)));
    assert_eq!(count_error(IntrinsicKind::Assert, 0), Some(("assert".to_string(), 1, 0)));
    assert_eq!(count_error(IntrinsicKind::Syscall, 7), None);
    assert_eq!(count_error(IntrinsicKind::Syscall, 8), Some(("syscall".to_string(), 7, 8)));
    assert_eq!(count_error(IntrinsicKind::RandomU32, 1), Some(("random_u32".to_string(), 0, 1)));
    assert_eq!(count_error(IntrinsicKind::PtrWrite, 1), Some(("ptr_write".to_string(), 2, 1)));
    assert_eq!(count_error(IntrinsicKind::Raw, 0), Some(("raw".to_string(), 1, 0)));
    assert_eq!(count_error(IntrinsicKind::RawMut, 2), Some(("raw_mut".to_string(), 1, 2)));
    assert_eq!(count_error(IntrinsicKind::Parse(ParseTarget::I64), 0), Some(("parse_i64".to_string(), 1, 0)));
    assert_eq!(parse_intrinsic_name(ParseTarget::U32), "parse_u32");
}

#[test]
fn dbg_prints_values_of_printable_types() {
    let mut air = Air::new(Type::Unit);
    let span = Span::new(0, 0, 7);
    let r = finish_dbg(&mut air, 3, AnalysisResult::new(9, Type::Bool), span).unwrap();
    assert_eq!((r.air_ref, r.ty), (0, Type::Unit));
    assert_eq!(air.extra, vec![9]);
    assert_eq!(air.instructions[0].data, AirInstData::Intrinsic { name: 3, args_start: 0, args_len: 1 });
    let e = finish_dbg(&mut air, 3, AnalysisResult::new(9, Type::Unit), span).unwrap_err();
    assert_eq!(mismatch(e.kind), strs(("dbg", "integer, bool, struct, enum, or array", "()")));
    assert_eq!(air.instructions.len(), 1);
}

#[test]
fn casts_convert_between_integers() {
    let mut air = Air::new(Type::Unit);
    let span = Span::new(0, 0, 7);
    let arg = AnalysisResult::new(4, Type::I32);
    // Same type: the argument itself.
    let r = finish_cast(&mut air, Type::I32, arg, span).unwrap();
    assert_eq!((r.air_ref, r.ty), (4, Type::I32));
    assert!(air.instructions.is_empty());
    let r = finish_cast(&mut air, Type::U8, arg, span).unwrap();
    assert_eq!((r.air_ref, r.ty), (0, Type::U8));
    assert_eq!(air.instructions[0].data, AirInstData::IntCast { value: 4, from_ty: Type::I32 });
    let e = finish_cast(&mut air, Type::U8, AnalysisResult::new(4, Type::Bool), span).unwrap_err();
    assert_eq!(mismatch(e.kind), strs(("cast", "integer type", "bool")));
    let e = finish_cast(&mut air, Type::Bool, arg, span).unwrap_err();
    assert_eq!(mismatch(e.kind), strs(("cast", "integer target type", "bool")));

    let mut resolved = HashMap::new();
    resolved.insert(10, Type::U16);
    resolved.insert(11, Type::Error);
    resolved.insert(12, Type::Bool);
    let ctx = AnalysisContext::new(HashMap::new(), resolved, Type::Unit);
    let r = finish_int_cast(&mut air, &ctx, 10, arg, span).unwrap();
    assert_eq!((r.air_ref, r.ty), (1, Type::U16));
    assert_eq!(air.instructions[1].data, AirInstData::IntCast { value: 4, from_ty: Type::I32 });
    assert_eq!(finish_int_cast(&mut air, &ctx, 11, arg, span).unwrap_err().kind, ErrorKind::TypeAnnotationRequired);
    assert_eq!(finish_int_cast(&mut air, &ctx, 99, arg, span).unwrap_err().kind, ErrorKind::TypeAnnotationRequired);
    let e = finish_int_cast(&mut air, &ctx, 12, arg, span).unwrap_err();
    assert_eq!(mismatch(e.kind), strs(("intCast", "integer", "bool")));
    let e = finish_int_cast(&mut air, &ctx, 10, AnalysisResult::new(4, Type::Unit), span).unwrap_err();
    assert_eq!(mismatch(e.kind), strs(("intCast", "integer", "()")));
}

#[test]
fn panics_asserts_and_random_numbers() {
    let mut air = Air::new(Type::Unit);
    let span = Span::new(0, 0, 7);
    let r = emit_panic(&mut air, 5, None, span);
    assert_eq!((r.air_ref, r.ty), (0, Type::Never));
    assert_eq!(air.instructions[0].data, AirInstData::UnitConst);
    let r = emit_panic(&mut air, 5, Some(AnalysisResult::new(2, Type::Struct(0))), span);
    assert_eq!((r.air_ref, r.ty), (1, Type::Never));
    assert_eq!(air.instructions[1].data, AirInstData::Intrinsic { name: 5, args_start: 0, args_len: 1 });
    let r = emit_assert(&mut air, 6, AnalysisResult::new(7, Type::Bool), span);
    assert_eq!((r.air_ref, r.ty), (2, Type::Unit));
    assert_eq!(air.extra, vec![2, 7]);
    assert_eq!(air.instructions[2].data, AirInstData::Intrinsic { name: 6, args_start: 1, args_len: 1 });
    let r = emit_random(&mut air, 9, true, span);
    assert_eq!((r.air_ref, r.ty), (3, Type::U64));
    assert_eq!(air.instructions[3].data, AirInstData::Intrinsic { name: 9, args_start: 0, args_len: 0 });
}

#[test]
fn parsing_reads_strings() {
    let rir = Rir::new();
    let mut rodeo = ThreadedRodeo::new();
    let parse = intern(&mut rodeo, "parse_i32");
    let mut sema = Sema::new(&rir, rodeo, PreviewFeatures::new());
    sema.builtin_string_id = Some(2);
    let mut air = Air::new(Type::Unit);
    let span = Span::new(0, 0, 7);
    let r = sema.finish_parse(&mut air, parse, ParseTarget::I32, AnalysisResult::new(1, Type::Struct(2)), span).unwrap();
    assert_eq!((r.air_ref, r.ty), (0, Type::I32));
    assert_eq!(air.extra, vec![1]);
    let e = sema.finish_parse(&mut air, parse, ParseTarget::I32, AnalysisResult::new(1, Type::I32), span).unwrap_err();
    assert_eq!(mismatch(e.kind), strs(("@parse_i32", "String", "i32")));
    let r = sema.emit_read_line(&mut air, parse, span);
    assert_eq!((r.air_ref, r.ty), (1, Type::Struct(2)));
}

#[test]
fn type_sizes_and_alignments() {
    let mut air = Air::new(Type::Unit);
    let span = Span::new(0, 0, 7);
    let r = rue_air::intrinsics::emit_type_intrinsic(&mut air, "size_of", 3, span).unwrap();
    assert_eq!((r.air_ref, r.ty), (0, Type::I32));
    assert_eq!(air.instructions[0].data, AirInstData::IntConst(24));
    rue_air::intrinsics::emit_type_intrinsic(&mut air, "align_of", 0, span).unwrap();
    assert_eq!(air.instructions[1].data, AirInstData::IntConst(1));
    rue_air::intrinsics::emit_type_intrinsic(&mut air, "align_of", 2, span).unwrap();
    assert_eq!(air.instructions[2].data, AirInstData::IntConst(8));
    assert_eq!(
        rue_air::intrinsics::emit_type_intrinsic(&mut air, "len_of", 2, span).unwrap_err().kind,
        ErrorKind::UnknownIntrinsic("len_of".to_string())
    );
}

#[test]
fn target_architecture_and_os() {
    let rir = Rir::new();
    let mut sema = Sema::new(&rir, ThreadedRodeo::new(), PreviewFeatures::new());
    sema.builtin_arch_id = Some(4);
    sema.builtin_os_id = Some(5);
    let mut air = Air::new(Type::Unit);
    let span = Span::new(0, 0, 7);
    let r = sema.emit_target_arch(&mut air, rue_air::intrinsics::HostArch::Aarch64, span);
    assert_eq!((r.air_ref, r.ty), (0, Type::Enum(4)));
    assert_eq!(air.instructions[0].data, AirInstData::EnumVariant { enum_id: 4, variant_index: 1 });
    let r = sema.emit_target_os(&mut air, rue_air::intrinsics::HostOs::Linux, span);
    assert_eq!((r.air_ref, r.ty), (1, Type::Enum(5)));
    assert_eq!(air.instructions[1].data, AirInstData::EnumVariant { enum_id: 5, variant_index: 0 });
}

#[test]
fn test_preview_gate_needs_its_preview_feature() {
    let rir = Rir::new();
    let span = Span::new(0, 2, 22);
    let sema = Sema::new(&rir, ThreadedRodeo::new(), PreviewFeatures::new());
    let mut air = Air::new(Type::Unit);
    let e = sema.analyze_test_preview_gate(&mut air, 1, span).unwrap_err();
    assert_eq!(
        e.kind,
        ErrorKind::PreviewFeatureRequired {
            feature: PreviewFeature::TestInfra,
            what: "@test_preview_gate() intrinsic".to_string(),
        }
    );
    assert_eq!(e.help.as_deref(), Some("use `--preview test_infra` to enable this feature"));
    assert!(air.instructions.is_empty());

    let mut features = PreviewFeatures::new();
    features.insert(PreviewFeature::TestInfra);
    features.insert(PreviewFeature::TestInfra);
    assert_eq!(features.enabled.len(), 1);
    let sema = Sema::new(&rir, ThreadedRodeo::new(), features);
    let e = sema.analyze_test_preview_gate(&mut air, 1, span).unwrap_err();
    assert_eq!(e.kind, ErrorKind::IntrinsicWrongArgCount { name: "test_preview_gate".to_string(), expected: 0, found: 1 });
    let r = sema.analyze_test_preview_gate(&mut air, 0, span).unwrap();
    assert_eq!((r.air_ref, r.ty), (0, Type::Unit));
    assert_eq!(air.instructions[0].data, AirInstData::UnitConst);
    assert!(sema.require_preview(PreviewFeature::TestInfra, "x", span).is_ok());
    assert!(sema.require_preview(PreviewFeature::Comptime, "comptime parameters", span).is_err());
}
