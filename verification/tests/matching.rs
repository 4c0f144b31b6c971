use lasso::{Key, ThreadedRodeo};
use rue_air::air::{Air, AirInstData, AirPattern};
use rue_air::context::{AnalysisResult, CompileWarning, WarningKind};
use rue_air::diag::{ErrorKind, PreviewFeatures};
use rue_air::matching::{add_arm, begin_match, decimal_i64, MatchState};
use rue_air::rir::{Pattern, Rir};
use rue_air::sema::Sema;
use rue_air::types::{EnumDef, Span, Type};

fn intern(rodeo: &mut ThreadedRodeo, s: &str) -> u32 {
    rodeo.get_or_intern(s).into_usize() as u32
}

fn sp(at: u32) -> Span {
    Span::new(0, at, at + 1)
}

fn unreachable(w: &CompileWarning) -> (String, Span, String, Span) {
    match &w.kind {
        WarningKind::UnreachablePattern(p) => {
            let (label, at) = w.label.clone().unwrap();
            (p.clone(), w.span, label, at)
        }
        other => panic!("unexpected warning {:?}", other),
    }
}

fn color_sema<'a>(rir: &'a Rir) -> (Sema<'a>, u32, u32, u32, u32) {
    let mut rodeo = ThreadedRodeo::new();
    let color = intern(&mut rodeo, "Color");
    let red = intern(&mut rodeo, "Red");
    let green = intern(&mut rodeo, "Green");
    let blue = intern(&mut rodeo, "Blue");
    let mut sema = Sema::new(rir, rodeo, PreviewFeatures::new());
    sema.type_pool.enums.push(EnumDef {
        name: "Color".to_string(),
        variants: vec!["Red".to_string(), "Green".to_string()],
        is_pub: true,
        file_id: 0,
    });
    sema.enums.insert(color, 0);
    (sema, color, red, green, blue)
}

#[test]
fn what_can_be_matched() {
    let span = sp(0);
    assert_eq!(begin_match(Type::Unit, 1, span).err().unwrap().kind, ErrorKind::InvalidMatchType("()".to_string()));
    assert_eq!(begin_match(Type::I32, 0, span).err().unwrap().kind, ErrorKind::EmptyMatch);
    let s = begin_match(Type::Enum(3), 2, span).ok().unwrap();
    assert_eq!(s.scrutinee_type, Type::Enum(3));
    assert!(s.arms.is_empty());
}

#[test]
fn integer_matches_need_a_wildcard() {
    let rir = Rir::new();
    let sema = Sema::new(&rir, ThreadedRodeo::new(), PreviewFeatures::new());
    let mut warnings: Vec<CompileWarning> = Vec::new();
    let mut s: MatchState = begin_match(Type::I64, 4, sp(0)).ok().unwrap();
    assert_eq!(sema.match_pattern(&mut s, &mut warnings, Pattern::Int(-7, sp(1))).unwrap(), AirPattern::Int(-7));
    add_arm(&mut s, AirPattern::Int(-7), AnalysisResult::new(10, Type::Bool), sp(2)).unwrap();
    // The same value again is unreachable.
    sema.match_pattern(&mut s, &mut warnings, Pattern::Int(-7, sp(3))).unwrap();
    assert_eq!(unreachable(&warnings[0]), ("-7".to_string(), sp(3), "first occurrence of this pattern".to_string(), sp(1)));
    add_arm(&mut s, AirPattern::Int(-7), AnalysisResult::new(11, Type::Never), sp(4)).unwrap();
    // Without a wildcard the match is not exhaustive.
    let mut air = Air::new(Type::Unit);
    assert_eq!(sema.finish_match(&mut air, &s, 9, sp(0)).unwrap_err().kind, ErrorKind::NonExhaustiveMatch);
    // A bool pattern does not fit an integer.
    let mut other = begin_match(Type::I64, 1, sp(0)).ok().unwrap();
    let e = sema.match_pattern(&mut other, &mut warnings, Pattern::Bool(true, sp(5))).unwrap_err();
    assert_eq!(e.kind, ErrorKind::TypeMismatch { expected: "i64".to_string(), found: "bool".to_string() });
    assert_eq!(e.span, sp(5));

    sema.match_pattern(&mut s, &mut warnings, Pattern::Wildcard(sp(6))).unwrap();
    add_arm(&mut s, AirPattern::Wildcard, AnalysisResult::new(12, Type::Bool), sp(7)).unwrap();
    // Anything after the wildcard is unreachable.
    sema.match_pattern(&mut s, &mut warnings, Pattern::Int(3, sp(8))).unwrap();
    assert_eq!(unreachable(&warnings[1]), ("3".to_string(), sp(8), "previous wildcard pattern here".to_string(), sp(6)));
    assert_eq!(warnings.len(), 2);
    // An arm of another type is an error at the arm's value.
    let e = add_arm(&mut s, AirPattern::Int(3), AnalysisResult::new(13, Type::I32), sp(9)).unwrap_err();
    assert_eq!(e.kind, ErrorKind::TypeMismatch { expected: "bool".to_string(), found: "i32".to_string() });
    assert_eq!(e.span, sp(9));

    let r = sema.finish_match(&mut air, &s, 9, sp(0)).unwrap();
    assert_eq!((r.air_ref, r.ty), (0, Type::Bool));
    assert_eq!(air.instructions[0].data, AirInstData::Match { scrutinee: 9, arms_start: 0, arms_len: 3 });
    let minus_seven = (-7i64) as u64;
    assert_eq!(
        air.extra,
        vec![1, minus_seven as u32, (minus_seven >> 32) as u32, 10, 1, minus_seven as u32, (minus_seven >> 32) as u32, 11, 0, 12]
    );
}

#[test]
fn bool_matches_cover_both_values() {
    let rir = Rir::new();
    let sema = Sema::new(&rir, ThreadedRodeo::new(), PreviewFeatures::new());
    let mut warnings: Vec<CompileWarning> = Vec::new();
    let mut s = begin_match(Type::Bool, 3, sp(0)).ok().unwrap();
    sema.match_pattern(&mut s, &mut warnings, Pattern::Bool(true, sp(1))).unwrap();
    add_arm(&mut s, AirPattern::Bool(true), AnalysisResult::new(1, Type::Unit), sp(2)).unwrap();
    let mut air = Air::new(Type::Unit);
    assert_eq!(sema.finish_match(&mut air, &s, 0, sp(0)).unwrap_err().kind, ErrorKind::NonExhaustiveMatch);
    sema.match_pattern(&mut s, &mut warnings, Pattern::Bool(true, sp(3))).unwrap();
    assert_eq!(unreachable(&warnings[0]).0, "true");
    sema.match_pattern(&mut s, &mut warnings, Pattern::Bool(false, sp(4))).unwrap();
    add_arm(&mut s, AirPattern::Bool(false), AnalysisResult::new(2, Type::Unit), sp(5)).unwrap();
    let e = sema.match_pattern(&mut s, &mut warnings, Pattern::Int(1, sp(6))).unwrap_err();
    assert_eq!(e.kind, ErrorKind::TypeMismatch { expected: "bool".to_string(), found: "integer".to_string() });
    let r = sema.finish_match(&mut air, &s, 0, sp(0)).unwrap();
    assert_eq!(r.ty, Type::Unit);
    assert_eq!(air.extra, vec![2, 1, 1, 2, 0, 2]);
}

#[test]
fn enum_matches_cover_every_variant() {
    let rir = Rir::new();
    let (sema, color, red, green, blue) = color_sema(&rir);
    let mut warnings: Vec<CompileWarning> = Vec::new();
    let mut s = begin_match(Type::Enum(0), 2, sp(0)).ok().unwrap();
    let p = sema.match_pattern(&mut s, &mut warnings, Pattern::Path { enum_sym: color, variant: green, span: sp(1) }).unwrap();
    assert_eq!(p, AirPattern::EnumVariant { enum_id: 0, variant_index: 1 });
    add_arm(&mut s, p, AnalysisResult::new(1, Type::U8), sp(2)).unwrap();
    let mut air = Air::new(Type::Unit);
    assert_eq!(sema.finish_match(&mut air, &s, 0, sp(0)).unwrap_err().kind, ErrorKind::NonExhaustiveMatch);
    let e = sema.match_pattern(&mut s, &mut warnings, Pattern::Path { enum_sym: color, variant: blue, span: sp(3) }).unwrap_err();
    assert_eq!(e.kind, ErrorKind::UnknownVariant { enum_name: "Color".to_string(), variant_name: "Blue".to_string() });
    let e = sema.match_pattern(&mut s, &mut warnings, Pattern::Path { enum_sym: red, variant: red, span: sp(3) }).unwrap_err();
    assert_eq!(e.kind, ErrorKind::UnknownEnumType("Red".to_string()));
    let p = sema.match_pattern(&mut s, &mut warnings, Pattern::Path { enum_sym: color, variant: red, span: sp(4) }).unwrap();
    add_arm(&mut s, p, AnalysisResult::new(2, Type::U8), sp(5)).unwrap();
    let r = sema.finish_match(&mut air, &s, 0, sp(0)).unwrap();
    assert_eq!(r.ty, Type::U8);
    assert_eq!(air.extra, vec![3, 0, 1, 1, 3, 0, 0, 2]);
    // An enum pattern does not fit an integer scrutinee.
    let mut ints = begin_match(Type::U8, 1, sp(0)).ok().unwrap();
    let e = sema.match_pattern(&mut ints, &mut warnings, Pattern::Path { enum_sym: color, variant: red, span: sp(6) }).unwrap_err();
    assert_eq!(e.kind, ErrorKind::TypeMismatch { expected: "u8".to_string(), found: "Color".to_string() });
    assert_eq!(sema.type_pool.enums[0].find_variant("Green"), Some(1));
    assert!(warnings.is_empty());
}

#[test]
fn signed_integers_print_with_their_sign() {
    assert_eq!(decimal_i64(-42), "-42");
    assert_eq!(decimal_i64(i64::MIN), "-9223372036854775808");
    assert_eq!(decimal_i64(17), "17");
}

#[test]
fn enum_variants_by_name() {
    let rir = Rir::new();
    let (sema, color, red, green, blue) = color_sema(&rir);
    let mut air = Air::new(Type::Unit);
    let span = sp(3);
    let r = sema.analyze_enum_variant(&mut air, None, color, green, span).unwrap();
    assert_eq!((r.air_ref, r.ty), (0, Type::Enum(0)));
    assert_eq!(air.instructions[0].data, AirInstData::EnumVariant { enum_id: 0, variant_index: 1 });
    // Through a module: the enum is public, so it can be named.
    let r = sema.analyze_enum_variant(&mut air, Some(0), color, red, span).unwrap();
    assert_eq!(air.instructions[r.air_ref as usize].data, AirInstData::EnumVariant { enum_id: 0, variant_index: 0 });
    assert_eq!(
        sema.analyze_enum_variant(&mut air, None, color, blue, span).unwrap_err().kind,
        ErrorKind::UnknownVariant { enum_name: "Color".to_string(), variant_name: "Blue".to_string() }
    );
    assert_eq!(
        sema.analyze_enum_variant(&mut air, None, blue, red, span).unwrap_err().kind,
        ErrorKind::UnknownEnumType("Blue".to_string())
    );
    assert_eq!(air.instructions.len(), 2);
}
