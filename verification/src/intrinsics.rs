//! Intrinsics: `@name(args)` calls that the compiler itself implements.
//!
//! An intrinsic is recognized by its name; each takes a fixed range of
//! arguments, checked before any argument is analyzed. Once the arguments
//! are analyzed, their types are checked and the call is emitted.
use vstd::prelude::*;

use crate::air::{Air, AirInst, AirInstData};
use crate::context::{AnalysisContext, AnalysisResult};
use crate::diag::{CompileError, ErrorKind, PreviewFeature};
use crate::interner::interned;
use crate::paths::str_eq;
use crate::sema::Sema;
use crate::typing::appended;
use crate::types::{name_of_type, AirRef, Span, Sym, Type};

verus! {

/// The integer type a `@parse_*` intrinsic reads.
#[derive(Clone, Copy, Debug, PartialEq, Eq, Structural)]
pub enum ParseTarget {
    I32,
    I64,
    U32,
    U64,
}

/// The intrinsics.
#[derive(Clone, Copy, Debug, PartialEq, Eq, Structural)]
pub enum IntrinsicKind {
    Dbg,
    IntCast,
    TestPreviewGate,
    ReadLine,
    Parse(ParseTarget),
    Cast,
    Panic,
    Assert,
    Import,
    RandomU32,
    RandomU64,
    PtrRead,
    PtrWrite,
    PtrOffset,
    PtrToInt,
    IntToPtr,
    Raw,
    RawMut,
    Syscall,
    TargetArch,
    TargetOs,
}

/// The intrinsic spelled `name`, if any.
pub open spec fn intrinsic_of(name: Seq<char>) -> Option<IntrinsicKind> {
    if name == "dbg"@ {
        Some(IntrinsicKind::Dbg)
    } else if name == "intCast"@ {
        Some(IntrinsicKind::IntCast)
    } else if name == "test_preview_gate"@ {
        Some(IntrinsicKind::TestPreviewGate)
    } else if name == "read_line"@ {
        Some(IntrinsicKind::ReadLine)
    } else if name == "parse_i32"@ {
        Some(IntrinsicKind::Parse(ParseTarget::I32))
    } else if name == "parse_i64"@ {
        Some(IntrinsicKind::Parse(ParseTarget::I64))
    } else if name == "parse_u32"@ {
        Some(IntrinsicKind::Parse(ParseTarget::U32))
    } else if name == "parse_u64"@ {
        Some(IntrinsicKind::Parse(ParseTarget::U64))
    } else if name == "cast"@ {
        Some(IntrinsicKind::Cast)
    } else if name == "panic"@ {
        Some(IntrinsicKind::Panic)
    } else if name == "assert"@ {
        Some(IntrinsicKind::Assert)
    } else if name == "import"@ {
        Some(IntrinsicKind::Import)
    } else if name == "random_u32"@ {
        Some(IntrinsicKind::RandomU32)
    } else if name == "random_u64"@ {
        Some(IntrinsicKind::RandomU64)
    } else if name == "ptr_read"@ {
        Some(IntrinsicKind::PtrRead)
    } else if name == "ptr_write"@ {
        Some(IntrinsicKind::PtrWrite)
    } else if name == "ptr_offset"@ {
        Some(IntrinsicKind::PtrOffset)
    } else if name == "ptr_to_int"@ {
        Some(IntrinsicKind::PtrToInt)
    } else if name == "int_to_ptr"@ {
        Some(IntrinsicKind::IntToPtr)
    } else if name == "raw"@ {
        Some(IntrinsicKind::Raw)
    } else if name == "raw_mut"@ {
        Some(IntrinsicKind::RawMut)
    } else if name == "syscall"@ {
        Some(IntrinsicKind::Syscall)
    } else if name == "target_arch"@ {
        Some(IntrinsicKind::TargetArch)
    } else if name == "target_os"@ {
        Some(IntrinsicKind::TargetOs)
    } else {
        None
    }
}

/// The fewest and the most arguments an intrinsic takes.
pub open spec fn arity_bounds(k: IntrinsicKind) -> (nat, nat) {
    match k {
        IntrinsicKind::Panic => (0, 1),
        IntrinsicKind::Syscall => (1, 7),
        IntrinsicKind::PtrWrite | IntrinsicKind::PtrOffset => (2, 2),
        IntrinsicKind::TestPreviewGate | IntrinsicKind::ReadLine | IntrinsicKind::RandomU32
        | IntrinsicKind::RandomU64 | IntrinsicKind::TargetArch | IntrinsicKind::TargetOs => (0, 0),
        _ => (1, 1),
    }
}

/// The name an arity error gives an intrinsic.
pub open spec fn arity_name(k: IntrinsicKind) -> Seq<char> {
    match k {
        IntrinsicKind::Dbg => "dbg"@,
        IntrinsicKind::IntCast => "intCast"@,
        IntrinsicKind::TestPreviewGate => "test_preview_gate"@,
        IntrinsicKind::ReadLine => "read_line"@,
        IntrinsicKind::Parse(t) => parse_name(t),
        IntrinsicKind::Cast => "cast"@,
        IntrinsicKind::Panic => "panic"@,
        IntrinsicKind::Assert => "assert"@,
        IntrinsicKind::Import => "import"@,
        IntrinsicKind::RandomU32 => "random_u32"@,
        IntrinsicKind::RandomU64 => "random_u64"@,
        IntrinsicKind::PtrRead => "ptr_read"@,
        IntrinsicKind::PtrWrite => "ptr_write"@,
        IntrinsicKind::PtrOffset => "ptr_offset"@,
        IntrinsicKind::PtrToInt => "ptr_to_int"@,
        IntrinsicKind::IntToPtr => "int_to_ptr"@,
        IntrinsicKind::Raw => "raw"@,
        IntrinsicKind::RawMut => "raw_mut"@,
        IntrinsicKind::Syscall => "syscall"@,
        IntrinsicKind::TargetArch => "target_arch"@,
        IntrinsicKind::TargetOs => "target_os"@,
    }
}

/// The number of arguments an arity error says an intrinsic expects.
pub open spec fn arity_expected(k: IntrinsicKind) -> nat {
    match k {
        IntrinsicKind::Panic => 1,
        _ => arity_bounds(k).1,
    }
}

/// The name of a `@parse_*` intrinsic.
pub open spec fn parse_name(t: ParseTarget) -> Seq<char> {
    match t {
        ParseTarget::I32 => "parse_i32"@,
        ParseTarget::I64 => "parse_i64"@,
        ParseTarget::U32 => "parse_u32"@,
        ParseTarget::U64 => "parse_u64"@,
    }
}

/// The type a `@parse_*` intrinsic returns.
pub open spec fn parse_type(t: ParseTarget) -> Type {
    match t {
        ParseTarget::I32 => Type::I32,
        ParseTarget::I64 => Type::I64,
        ParseTarget::U32 => Type::U32,
        ParseTarget::U64 => Type::U64,
    }
}

/// The types `@dbg` can print.
pub open spec fn printable(t: Type) -> bool {
    t.spec_is_integer() || t is Bool || t is Struct || t is Enum || t is Array || t is Error || t is Never
}

/// An integer, or a type standing for an error already reported or for no value.
pub open spec fn integer_or_absorbing(t: Type) -> bool {
    t.spec_is_integer() || t is Error || t is Never
}

/// `e` is an intrinsic type mismatch at `span`.
pub open spec fn reports_intrinsic_mismatch(
    e: CompileError,
    span: Span,
    name: Seq<char>,
    expected: Seq<char>,
    found: Seq<char>,
) -> bool {
    &&& e.span == span
    &&& e.kind matches ErrorKind::IntrinsicTypeMismatch { name: n, expected: x, found: f } && n@ == name && x@
        == expected && f@ == found
}

/// `after` is `before` with one argument list and one instruction appended.
pub open spec fn appended_call(before: Air, after: Air, args: Seq<u32>, inst: AirInst) -> bool {
    &&& after.extra@ == before.extra@ + args
    &&& after.instructions@ == before.instructions@.push(inst)
    &&& after.return_type == before.return_type
}

fn arity_rule(k: IntrinsicKind) -> (r: (usize, usize, usize, String))
    ensures
        r.0 == arity_bounds(k).0,
        r.1 == arity_bounds(k).1,
        r.2 == arity_expected(k),
        r.3@ == arity_name(k),
{
    match k {
        IntrinsicKind::Dbg => (1, 1, 1, "dbg".to_string()),
        IntrinsicKind::IntCast => (1, 1, 1, "intCast".to_string()),
        IntrinsicKind::TestPreviewGate => (0, 0, 0, "test_preview_gate".to_string()),
        IntrinsicKind::ReadLine => (0, 0, 0, "read_line".to_string()),
        IntrinsicKind::Parse(t) => (1, 1, 1, parse_intrinsic_name(t)),
        IntrinsicKind::Cast => (1, 1, 1, "cast".to_string()),
        IntrinsicKind::Panic => (0, 1, 1, "panic".to_string()),
        IntrinsicKind::Assert => (1, 1, 1, "assert".to_string()),
        IntrinsicKind::Import => (1, 1, 1, "import".to_string()),
        IntrinsicKind::RandomU32 => (0, 0, 0, "random_u32".to_string()),
        IntrinsicKind::RandomU64 => (0, 0, 0, "random_u64".to_string()),
        IntrinsicKind::PtrRead => (1, 1, 1, "ptr_read".to_string()),
        IntrinsicKind::PtrWrite => (2, 2, 2, "ptr_write".to_string()),
        IntrinsicKind::PtrOffset => (2, 2, 2, "ptr_offset".to_string()),
        IntrinsicKind::PtrToInt => (1, 1, 1, "ptr_to_int".to_string()),
        IntrinsicKind::IntToPtr => (1, 1, 1, "int_to_ptr".to_string()),
        IntrinsicKind::Raw => (1, 1, 1, "raw".to_string()),
        IntrinsicKind::RawMut => (1, 1, 1, "raw_mut".to_string()),
        IntrinsicKind::Syscall => (1, 7, 7, "syscall".to_string()),
        IntrinsicKind::TargetArch => (0, 0, 0, "target_arch".to_string()),
        IntrinsicKind::TargetOs => (0, 0, 0, "target_os".to_string()),
    }
}

/// The name of a `@parse_*` intrinsic.
pub fn parse_intrinsic_name(t: ParseTarget) -> (s: String)
    ensures
        s@ == parse_name(t),
{
    match t {
        ParseTarget::I32 => "parse_i32".to_string(),
        ParseTarget::I64 => "parse_i64".to_string(),
        ParseTarget::U32 => "parse_u32".to_string(),
        ParseTarget::U64 => "parse_u64".to_string(),
    }
}

/// Check the number of arguments of an intrinsic call, before any is
/// analyzed. (`@test_preview_gate` is gated on its preview feature first.)
pub fn check_intrinsic_arity(k: IntrinsicKind, count: usize, span: Span) -> (r: Result<(), CompileError>)
    ensures
        arity_bounds(k).0 <= count <= arity_bounds(k).1 ==> r is Ok,
        !(arity_bounds(k).0 <= count <= arity_bounds(k).1) ==> (r matches Err(e) && e.span == span && (
        e.kind matches ErrorKind::IntrinsicWrongArgCount { name, expected, found } && name@ == arity_name(k)
            && expected == arity_expected(k) && found == count)),
{
    let (min, max, expected, name) = arity_rule(k);
    if count < min || count > max {
        return Err(CompileError::new(ErrorKind::IntrinsicWrongArgCount { name, expected, found: count }, span));
    }
    Ok(())
}

/// A type mismatch of an intrinsic's argument.
pub(crate) fn intrinsic_mismatch(name: &str, expected: &str, found: Type, span: Span) -> (e: CompileError)
    ensures
        reports_intrinsic_mismatch(e, span, name@, expected@, name_of_type(found)),
{
    CompileError::new(
        ErrorKind::IntrinsicTypeMismatch {
            name: name.to_string(),
            expected: expected.to_string(),
            found: found.name(),
        },
        span,
    )
}

/// Append an intrinsic call whose arguments are `args`.
pub(crate) fn emit_call(air: &mut Air, name: Sym, args: &[u32], ty: Type, span: Span) -> (r: AnalysisResult)
    requires
        old(air).instructions@.len() < u32::MAX,
        old(air).extra@.len() + args@.len() <= u32::MAX,
    ensures
        r == (AnalysisResult { air_ref: old(air).instructions@.len() as u32, ty }),
        appended_call(
            *old(air),
            *final(air),
            args@,
            AirInst {
                data: AirInstData::Intrinsic {
                    name,
                    args_start: old(air).extra@.len() as u32,
                    args_len: args@.len() as u32,
                },
                ty,
                span,
            },
        ),
{
    let args_start = air.add_extra(args);
    let air_ref = air.add_inst(
        AirInst { data: AirInstData::Intrinsic { name, args_start, args_len: args.len() as u32 }, ty, span },
    );
    AnalysisResult::new(air_ref, ty)
}

impl<'a> Sema<'a> {
    /// Which intrinsic `@name` calls; an unknown name is an error.
    pub fn classify_intrinsic(&self, name: Sym, span: Span) -> (r: Result<IntrinsicKind, CompileError>)
        requires
            interned(self.interner).contains_key(name),
        ensures
            ({
                let text = interned(self.interner)[name];
                match intrinsic_of(text) {
                    Some(k) => r == Ok::<IntrinsicKind, CompileError>(k),
                    None => r matches Err(e) && e.span == span && (e.kind matches ErrorKind::UnknownIntrinsic(n)
                        && n@ == text),
                }
            }),
    {
        let s = self.resolve(name);
        let k = if str_eq(s, "dbg") {
            IntrinsicKind::Dbg
        } else if str_eq(s, "intCast") {
            IntrinsicKind::IntCast
        } else if str_eq(s, "test_preview_gate") {
            IntrinsicKind::TestPreviewGate
        } else if str_eq(s, "read_line") {
            IntrinsicKind::ReadLine
        } else if str_eq(s, "parse_i32") {
            IntrinsicKind::Parse(ParseTarget::I32)
        } else if str_eq(s, "parse_i64") {
            IntrinsicKind::Parse(ParseTarget::I64)
        } else if str_eq(s, "parse_u32") {
            IntrinsicKind::Parse(ParseTarget::U32)
        } else if str_eq(s, "parse_u64") {
            IntrinsicKind::Parse(ParseTarget::U64)
        } else if str_eq(s, "cast") {
            IntrinsicKind::Cast
        } else if str_eq(s, "panic") {
            IntrinsicKind::Panic
        } else if str_eq(s, "assert") {
            IntrinsicKind::Assert
        } else if str_eq(s, "import") {
            IntrinsicKind::Import
        } else if str_eq(s, "random_u32") {
            IntrinsicKind::RandomU32
        } else if str_eq(s, "random_u64") {
            IntrinsicKind::RandomU64
        } else if str_eq(s, "ptr_read") {
            IntrinsicKind::PtrRead
        } else if str_eq(s, "ptr_write") {
            IntrinsicKind::PtrWrite
        } else if str_eq(s, "ptr_offset") {
            IntrinsicKind::PtrOffset
        } else if str_eq(s, "ptr_to_int") {
            IntrinsicKind::PtrToInt
        } else if str_eq(s, "int_to_ptr") {
            IntrinsicKind::IntToPtr
        } else if str_eq(s, "raw") {
            IntrinsicKind::Raw
        } else if str_eq(s, "raw_mut") {
            IntrinsicKind::RawMut
        } else if str_eq(s, "syscall") {
            IntrinsicKind::Syscall
        } else if str_eq(s, "target_arch") {
            IntrinsicKind::TargetArch
        } else if str_eq(s, "target_os") {
            IntrinsicKind::TargetOs
        } else {
            return Err(CompileError::new(ErrorKind::UnknownIntrinsic(s.to_string()), span));
        };
        Ok(k)
    }

    /// Analyze `@test_preview_gate()`: the `test_infra` preview feature must
    /// be enabled (checked first), the call takes no arguments, and it is a
    /// unit value.
    pub fn analyze_test_preview_gate(&self, air: &mut Air, arg_count: usize, span: Span) -> (r: Result<
        AnalysisResult,
        CompileError,
    >)
        requires
            old(air).instructions@.len() < u32::MAX,
        ensures
            !self.preview_features.enabled@.contains(PreviewFeature::TestInfra) ==> {
                &&& *final(air) == *old(air)
                &&& r matches Err(e) && e.span == span && (e.kind matches ErrorKind::PreviewFeatureRequired {
                    feature,
                    what,
                } && feature == PreviewFeature::TestInfra && what@ == "@test_preview_gate() intrinsic"@)
            },
            self.preview_features.enabled@.contains(PreviewFeature::TestInfra) && arg_count != 0 ==> {
                &&& *final(air) == *old(air)
                &&& r matches Err(e) && e.span == span && (e.kind matches ErrorKind::IntrinsicWrongArgCount {
                    name,
                    expected,
                    found,
                } && name@ == "test_preview_gate"@ && expected == 0 && found == arg_count)
            },
            self.preview_features.enabled@.contains(PreviewFeature::TestInfra) && arg_count == 0 ==> {
                &&& r == Ok::<AnalysisResult, CompileError>(
                    AnalysisResult { air_ref: old(air).instructions@.len() as u32, ty: Type::Unit },
                )
                &&& appended(*old(air), *final(air), AirInst { data: AirInstData::UnitConst, ty: Type::Unit, span })
            },
    {
        match self.require_preview(PreviewFeature::TestInfra, "@test_preview_gate() intrinsic", span) {
            Ok(()) => {},
            Err(e) => {
                return Err(e);
            },
        }
        match check_intrinsic_arity(IntrinsicKind::TestPreviewGate, arg_count, span) {
            Ok(()) => {},
            Err(e) => {
                return Err(e);
            },
        }
        let air_ref = air.add_inst(AirInst { data: AirInstData::UnitConst, ty: Type::Unit, span });
        Ok(AnalysisResult::new(air_ref, Type::Unit))
    }

    /// Finish `@read_line()`: it returns the builtin `String`.
    pub fn emit_read_line(&self, air: &mut Air, name: Sym, span: Span) -> (r: AnalysisResult)
        requires
            self.builtin_string_id is Some,
            old(air).instructions@.len() < u32::MAX,
        ensures
            r == (AnalysisResult {
                air_ref: old(air).instructions@.len() as u32,
                ty: Type::Struct(self.builtin_string_id->0),
            }),
            appended(
                *old(air),
                *final(air),
                AirInst {
                    data: AirInstData::Intrinsic { name, args_start: 0, args_len: 0 },
                    ty: Type::Struct(self.builtin_string_id->0),
                    span,
                },
            ),
    {
        let ty = self.builtin_string_type();
        let air_ref = air.add_inst(
            AirInst { data: AirInstData::Intrinsic { name, args_start: 0, args_len: 0 }, ty, span },
        );
        AnalysisResult::new(air_ref, ty)
    }

    /// Finish `@parse_i32(s)` and its kin once the argument is analyzed
    /// (without consuming it): the argument must be a `String`.
    pub fn finish_parse(&self, air: &mut Air, name: Sym, target: ParseTarget, arg: AnalysisResult, span: Span) -> (r:
        Result<AnalysisResult, CompileError>)
        requires
            old(air).instructions@.len() < u32::MAX,
            old(air).extra@.len() < u32::MAX,
        ensures
            if arg.ty matches Type::Struct(id) && self.builtin_string_id == Some(id) {
                &&& r == Ok::<AnalysisResult, CompileError>(
                    AnalysisResult { air_ref: old(air).instructions@.len() as u32, ty: parse_type(target) },
                )
                &&& appended_call(
                    *old(air),
                    *final(air),
                    seq![arg.air_ref],
                    AirInst {
                        data: AirInstData::Intrinsic { name, args_start: old(air).extra@.len() as u32, args_len: 1 },
                        ty: parse_type(target),
                        span,
                    },
                )
            } else {
                &&& *final(air) == *old(air)
                &&& r matches Err(e) && reports_intrinsic_mismatch(
                    e,
                    span,
                    "@"@ + parse_name(target),
                    "String"@,
                    name_of_type(arg.ty),
                )
            },
    {
        if !self.is_builtin_string(arg.ty) {
            let shown = String::from_str("@").concat(parse_intrinsic_name(target).as_str());
            return Err(intrinsic_mismatch(shown.as_str(), "String", arg.ty, span));
        }
        let ty = match target {
            ParseTarget::I32 => Type::I32,
            ParseTarget::I64 => Type::I64,
            ParseTarget::U32 => Type::U32,
            ParseTarget::U64 => Type::U64,
        };
        let args = [arg.air_ref];
        assert(args@ == seq![arg.air_ref]);
        Ok(emit_call(air, name, &args, ty, span))
    }
}

/// Finish `@dbg(x)` once its argument is analyzed: integers, `bool`,
/// structs, enums and arrays can be printed.
pub fn finish_dbg(air: &mut Air, name: Sym, arg: AnalysisResult, span: Span) -> (r: Result<
    AnalysisResult,
    CompileError,
>)
    requires
        old(air).instructions@.len() < u32::MAX,
        old(air).extra@.len() < u32::MAX,
    ensures
        printable(arg.ty) ==> {
            &&& r == Ok::<AnalysisResult, CompileError>(
                AnalysisResult { air_ref: old(air).instructions@.len() as u32, ty: Type::Unit },
            )
            &&& appended_call(
                *old(air),
                *final(air),
                seq![arg.air_ref],
                AirInst {
                    data: AirInstData::Intrinsic { name, args_start: old(air).extra@.len() as u32, args_len: 1 },
                    ty: Type::Unit,
                    span,
                },
            )
        },
        !printable(arg.ty) ==> {
            &&& *final(air) == *old(air)
            &&& r matches Err(e) && reports_intrinsic_mismatch(
                e,
                span,
                "dbg"@,
                "integer, bool, struct, enum, or array"@,
                name_of_type(arg.ty),
            )
        },
{
    let t = arg.ty;
    let ok = t.is_integer() || match t {
        Type::Bool | Type::Struct(_) | Type::Enum(_) | Type::Array(_) | Type::Error | Type::Never => true,
        _ => false,
    };
    if !ok {
        return Err(intrinsic_mismatch("dbg", "integer, bool, struct, enum, or array", t, span));
    }
    let args = [arg.air_ref];
    assert(args@ == seq![arg.air_ref]);
    Ok(emit_call(air, name, &args, Type::Unit, span))
}

/// Finish `@cast(x)` once its argument is analyzed, `target` being the
/// type inference gave the call: both must be integers (or types standing
/// for an error or no value). A cast to the same type, or of an error or
/// no value, is the argument itself.
pub fn finish_cast(air: &mut Air, target: Type, arg: AnalysisResult, span: Span) -> (r: Result<
    AnalysisResult,
    CompileError,
>)
    requires
        old(air).instructions@.len() < u32::MAX,
    ensures
        !integer_or_absorbing(arg.ty) ==> {
            &&& *final(air) == *old(air)
            &&& r matches Err(e) && reports_intrinsic_mismatch(
                e,
                span,
                "cast"@,
                "integer type"@,
                name_of_type(arg.ty),
            )
        },
        integer_or_absorbing(arg.ty) && !integer_or_absorbing(target) ==> {
            &&& *final(air) == *old(air)
            &&& r matches Err(e) && reports_intrinsic_mismatch(
                e,
                span,
                "cast"@,
                "integer target type"@,
                name_of_type(target),
            )
        },
        integer_or_absorbing(arg.ty) && integer_or_absorbing(target) && (arg.ty == target || arg.ty is Error
            || arg.ty is Never) ==> {
            &&& *final(air) == *old(air)
            &&& r == Ok::<AnalysisResult, CompileError>(arg)
        },
        integer_or_absorbing(arg.ty) && integer_or_absorbing(target) && !(arg.ty == target || arg.ty is Error
            || arg.ty is Never) ==> {
            &&& r == Ok::<AnalysisResult, CompileError>(
                AnalysisResult { air_ref: old(air).instructions@.len() as u32, ty: target },
            )
            &&& appended(
                *old(air),
                *final(air),
                AirInst { data: AirInstData::IntCast { value: arg.air_ref, from_ty: arg.ty }, ty: target, span },
            )
        },
{
    let source = arg.ty;
    if !source.is_integer() && !source.is_error() && !source.is_never() {
        return Err(intrinsic_mismatch("cast", "integer type", source, span));
    }
    if !target.is_integer() && !target.is_error() && !target.is_never() {
        return Err(intrinsic_mismatch("cast", "integer target type", target, span));
    }
    if source == target || source.is_error() || source.is_never() {
        return Ok(arg);
    }
    let air_ref = air.add_inst(
        AirInst { data: AirInstData::IntCast { value: arg.air_ref, from_ty: source }, ty: target, span },
    );
    Ok(AnalysisResult::new(air_ref, target))
}

/// Finish `@intCast(x)` once its argument is analyzed: the argument must
/// be an integer, and inference must have given the call an integer type.
pub fn finish_int_cast(
    air: &mut Air,
    ctx: &AnalysisContext,
    inst_ref: u32,
    arg: AnalysisResult,
    span: Span,
) -> (r: Result<AnalysisResult, CompileError>)
    requires
        old(air).instructions@.len() < u32::MAX,
    ensures
        ({
            let resolved = ctx.resolved_types@.get(inst_ref);
            if !arg.ty.spec_is_integer() {
                &&& *final(air) == *old(air)
                &&& r matches Err(e) && reports_intrinsic_mismatch(
                    e,
                    span,
                    "intCast"@,
                    "integer"@,
                    name_of_type(arg.ty),
                )
            } else if resolved matches Some(t) && t.spec_is_integer() {
                &&& r == Ok::<AnalysisResult, CompileError>(
                    AnalysisResult { air_ref: old(air).instructions@.len() as u32, ty: resolved->0 },
                )
                &&& appended(
                    *old(air),
                    *final(air),
                    AirInst {
                        data: AirInstData::IntCast { value: arg.air_ref, from_ty: arg.ty },
                        ty: resolved->0,
                        span,
                    },
                )
            } else if resolved is None || resolved == Some(Type::Error) {
                &&& *final(air) == *old(air)
                &&& r matches Err(e) && e.span == span && e.kind == ErrorKind::TypeAnnotationRequired
            } else {
                &&& *final(air) == *old(air)
                &&& r matches Err(e) && reports_intrinsic_mismatch(
                    e,
                    span,
                    "intCast"@,
                    "integer"@,
                    name_of_type(resolved->0),
                )
            }
        }),
{
    let from_ty = arg.ty;
    if !from_ty.is_integer() {
        return Err(intrinsic_mismatch("intCast", "integer", from_ty, span));
    }
    let target = match ctx.resolved_types.get(&inst_ref) {
        Some(t) => *t,
        None => {
            return Err(CompileError::new(ErrorKind::TypeAnnotationRequired, span));
        },
    };
    if !target.is_integer() {
        if target.is_error() {
            return Err(CompileError::new(ErrorKind::TypeAnnotationRequired, span));
        }
        return Err(intrinsic_mismatch("intCast", "integer", target, span));
    }
    let air_ref = air.add_inst(
        AirInst { data: AirInstData::IntCast { value: arg.air_ref, from_ty }, ty: target, span },
    );
    Ok(AnalysisResult::new(air_ref, target))
}

/// Finish `@panic()` or `@panic(message)`: it produces no value.
pub fn emit_panic(air: &mut Air, name: Sym, message: Option<AnalysisResult>, span: Span) -> (r: AnalysisResult)
    requires
        old(air).instructions@.len() < u32::MAX,
        old(air).extra@.len() < u32::MAX,
    ensures
        r == (AnalysisResult { air_ref: old(air).instructions@.len() as u32, ty: Type::Never }),
        match message {
            None => appended(*old(air), *final(air), AirInst { data: AirInstData::UnitConst, ty: Type::Never, span }),
            Some(m) => appended_call(
                *old(air),
                *final(air),
                seq![m.air_ref],
                AirInst {
                    data: AirInstData::Intrinsic { name, args_start: old(air).extra@.len() as u32, args_len: 1 },
                    ty: Type::Never,
                    span,
                },
            ),
        },
{
    match message {
        None => {
            let air_ref = air.add_inst(AirInst { data: AirInstData::UnitConst, ty: Type::Never, span });
            AnalysisResult::new(air_ref, Type::Never)
        },
        Some(m) => {
            let args = [m.air_ref];
            assert(args@ == seq![m.air_ref]);
            emit_call(air, name, &args, Type::Never, span)
        },
    }
}

/// Finish `@assert(cond)` once the condition is analyzed: the call has unit type.
pub fn emit_assert(air: &mut Air, name: Sym, cond: AnalysisResult, span: Span) -> (r: AnalysisResult)
    requires
        old(air).instructions@.len() < u32::MAX,
        old(air).extra@.len() < u32::MAX,
    ensures
        r == (AnalysisResult { air_ref: old(air).instructions@.len() as u32, ty: Type::Unit }),
        appended_call(
            *old(air),
            *final(air),
            seq![cond.air_ref],
            AirInst {
                data: AirInstData::Intrinsic { name, args_start: old(air).extra@.len() as u32, args_len: 1 },
                ty: Type::Unit,
                span,
            },
        ),
{
    let args = [cond.air_ref];
    assert(args@ == seq![cond.air_ref]);
    emit_call(air, name, &args, Type::Unit, span)
}

/// Finish `@random_u32()` or `@random_u64()`.
pub fn emit_random(air: &mut Air, name: Sym, wide: bool, span: Span) -> (r: AnalysisResult)
    requires
        old(air).instructions@.len() < u32::MAX,
    ensures
        ({
            let ty = if wide { Type::U64 } else { Type::U32 };
            &&& r == (AnalysisResult { air_ref: old(air).instructions@.len() as u32, ty })
            &&& appended(
                *old(air),
                *final(air),
                AirInst { data: AirInstData::Intrinsic { name, args_start: 0, args_len: 0 }, ty, span },
            )
        }),
{
    let ty = if wide {
        Type::U64
    } else {
        Type::U32
    };
    let air_ref = air.add_inst(AirInst { data: AirInstData::Intrinsic { name, args_start: 0, args_len: 0 }, ty, span });
    AnalysisResult::new(air_ref, ty)
}

/// The value of `@size_of(T)` or `@align_of(T)` (named `name`) for a type
/// that takes `slot_count` ABI slots of 8 bytes: its size in bytes, or its
/// alignment (1 for a zero-sized type, else 8). Other names are unknown.
pub open spec fn type_intrinsic_value(name: Seq<char>, slot_count: u64) -> Option<int> {
    if name == "size_of"@ {
        Some(slot_count * 8)
    } else if name == "align_of"@ {
        Some(if slot_count == 0 {
            1
        } else {
            8
        })
    } else {
        None
    }
}

/// Finish `@size_of(T)` or `@align_of(T)` once `T` is resolved and its ABI
/// slot count known: the value is an `i32` constant.
pub fn emit_type_intrinsic(air: &mut Air, name: &str, slot_count: u64, span: Span) -> (r: Result<
    AnalysisResult,
    CompileError,
>)
    requires
        slot_count * 8 <= u64::MAX,
        old(air).instructions@.len() < u32::MAX,
    ensures
        match type_intrinsic_value(name@, slot_count) {
            None => *final(air) == *old(air) && (r matches Err(e) && e.span == span && (
            e.kind matches ErrorKind::UnknownIntrinsic(n) && n@ == name@)),
            Some(v) => {
                &&& r == Ok::<AnalysisResult, CompileError>(
                    AnalysisResult { air_ref: old(air).instructions@.len() as u32, ty: Type::I32 },
                )
                &&& appended(
                    *old(air),
                    *final(air),
                    AirInst { data: AirInstData::IntConst(v as u64), ty: Type::I32, span },
                )
            },
        },
{
    let value: u64 = if str_eq(name, "size_of") {
        slot_count * 8
    } else if str_eq(name, "align_of") {
        if slot_count == 0 {
            1
        } else {
            8
        }
    } else {
        return Err(CompileError::new(ErrorKind::UnknownIntrinsic(name.to_string()), span));
    };
    let air_ref = air.add_inst(AirInst { data: AirInstData::IntConst(value), ty: Type::I32, span });
    Ok(AnalysisResult::new(air_ref, Type::I32))
}

/// The architectures code is compiled for.
#[derive(Clone, Copy, Debug, PartialEq, Eq, Structural)]
pub enum HostArch {
    X86_64,
    Aarch64,
}

/// The operating systems code is compiled for.
#[derive(Clone, Copy, Debug, PartialEq, Eq, Structural)]
pub enum HostOs {
    Linux,
    Macos,
}

impl<'a> Sema<'a> {
    /// Finish `@target_arch()`: the variant of the builtin `Arch` enum for
    /// the architecture compiled for (the host's).
    pub fn emit_target_arch(&self, air: &mut Air, host: HostArch, span: Span) -> (r: AnalysisResult)
        requires
            self.builtin_arch_id is Some,
            old(air).instructions@.len() < u32::MAX,
        ensures
            ({
                let id = self.builtin_arch_id->0;
                let variant: u32 = match host {
                    HostArch::X86_64 => 0,
                    HostArch::Aarch64 => 1,
                };
                &&& r == (AnalysisResult { air_ref: old(air).instructions@.len() as u32, ty: Type::Enum(id) })
                &&& appended(
                    *old(air),
                    *final(air),
                    AirInst {
                        data: AirInstData::EnumVariant { enum_id: id, variant_index: variant },
                        ty: Type::Enum(id),
                        span,
                    },
                )
            }),
    {
        let id = match self.builtin_arch_id {
            Some(id) => id,
            None => 0,
        };
        let variant: u32 = match host {
            HostArch::X86_64 => 0,
            HostArch::Aarch64 => 1,
        };
        let ty = Type::Enum(id);
        let air_ref = air.add_inst(
            AirInst { data: AirInstData::EnumVariant { enum_id: id, variant_index: variant }, ty, span },
        );
        AnalysisResult::new(air_ref, ty)
    }

    /// Finish `@target_os()`: the variant of the builtin `Os` enum for the
    /// operating system compiled for (the host's).
    pub fn emit_target_os(&self, air: &mut Air, host: HostOs, span: Span) -> (r: AnalysisResult)
        requires
            self.builtin_os_id is Some,
            old(air).instructions@.len() < u32::MAX,
        ensures
            ({
                let id = self.builtin_os_id->0;
                let variant: u32 = match host {
                    HostOs::Linux => 0,
                    HostOs::Macos => 1,
                };
                &&& r == (AnalysisResult { air_ref: old(air).instructions@.len() as u32, ty: Type::Enum(id) })
                &&& appended(
                    *old(air),
                    *final(air),
                    AirInst {
                        data: AirInstData::EnumVariant { enum_id: id, variant_index: variant },
                        ty: Type::Enum(id),
                        span,
                    },
                )
            }),
    {
        let id = match self.builtin_os_id {
            Some(id) => id,
            None => 0,
        };
        let variant: u32 = match host {
            HostOs::Linux => 0,
            HostOs::Macos => 1,
        };
        let ty = Type::Enum(id);
        let air_ref = air.add_inst(
            AirInst { data: AirInstData::EnumVariant { enum_id: id, variant_index: variant }, ty, span },
        );
        AnalysisResult::new(air_ref, ty)
    }
}

/// `@parse_<t>` returns the integer type its name ends in: the name is
/// `parse_` followed by the name of the type it returns, and that type is
/// an integer type (`@parse_u32` gives a `u32`).
pub proof fn law_parse_returns_the_type_it_names(t: ParseTarget)
    ensures
        parse_name(t) == "parse_"@ + name_of_type(parse_type(t)),
        parse_type(t).spec_is_integer(),
{
    reveal_strlit("parse_");
    reveal_strlit("parse_i32");
    reveal_strlit("parse_i64");
    reveal_strlit("parse_u32");
    reveal_strlit("parse_u64");
    reveal_strlit("i32");
    reveal_strlit("i64");
    reveal_strlit("u32");
    reveal_strlit("u64");
    assert(parse_name(t) =~= "parse_"@ + name_of_type(parse_type(t)));
}

/// Each intrinsic is found again by the name it is reported under: the
/// name an arity error gives an intrinsic spells that intrinsic.
pub proof fn law_intrinsic_names_round_trip(k: IntrinsicKind)
    ensures
        intrinsic_of(arity_name(k)) == Some(k),
{
    reveal_strlit("dbg");
    reveal_strlit("intCast");
    reveal_strlit("test_preview_gate");
    reveal_strlit("read_line");
    reveal_strlit("parse_i32");
    reveal_strlit("parse_i64");
    reveal_strlit("parse_u32");
    reveal_strlit("parse_u64");
    reveal_strlit("cast");
    reveal_strlit("panic");
    reveal_strlit("assert");
    reveal_strlit("import");
    reveal_strlit("random_u32");
    reveal_strlit("random_u64");
    reveal_strlit("ptr_read");
    reveal_strlit("ptr_write");
    reveal_strlit("ptr_offset");
    reveal_strlit("ptr_to_int");
    reveal_strlit("int_to_ptr");
    reveal_strlit("raw");
    reveal_strlit("raw_mut");
    reveal_strlit("syscall");
    reveal_strlit("target_arch");
    reveal_strlit("target_os");
    assert("dbg"@[0] != "raw"@[0]);
    assert("intCast"@[0] != "raw_mut"@[0]);
    assert("intCast"@[0] != "syscall"@[0]);
    assert("read_line"@[0] != "parse_i32"@[0]);
    assert("read_line"@[0] != "parse_i64"@[0]);
    assert("read_line"@[0] != "parse_u32"@[0]);
    assert("read_line"@[0] != "parse_u64"@[0]);
    assert("read_line"@[0] != "ptr_write"@[0]);
    assert("read_line"@[0] != "target_os"@[0]);
    assert("parse_i32"@[7] != "parse_i64"@[7]);
    assert("parse_i32"@[6] != "parse_u32"@[6]);
    assert("parse_i32"@[6] != "parse_u64"@[6]);
    assert("parse_i32"@[1] != "ptr_write"@[1]);
    assert("parse_i32"@[0] != "target_os"@[0]);
    assert("parse_i64"@[6] != "parse_u32"@[6]);
    assert("parse_i64"@[6] != "parse_u64"@[6]);
    assert("parse_i64"@[1] != "ptr_write"@[1]);
    assert("parse_i64"@[0] != "target_os"@[0]);
    assert("parse_u32"@[7] != "parse_u64"@[7]);
    assert("parse_u32"@[1] != "ptr_write"@[1]);
    assert("parse_u32"@[0] != "target_os"@[0]);
    assert("parse_u64"@[1] != "ptr_write"@[1]);
    assert("parse_u64"@[0] != "target_os"@[0]);
    assert("assert"@[0] != "import"@[0]);
    assert("random_u32"@[8] != "random_u64"@[8]);
    assert("random_u32"@[0] != "ptr_offset"@[0]);
    assert("random_u32"@[0] != "ptr_to_int"@[0]);
    assert("random_u32"@[0] != "int_to_ptr"@[0]);
    assert("random_u64"@[0] != "ptr_offset"@[0]);
    assert("random_u64"@[0] != "ptr_to_int"@[0]);
    assert("random_u64"@[0] != "int_to_ptr"@[0]);
    assert("ptr_write"@[0] != "target_os"@[0]);
    assert("ptr_offset"@[4] != "ptr_to_int"@[4]);
    assert("ptr_offset"@[0] != "int_to_ptr"@[0]);
    assert("ptr_to_int"@[0] != "int_to_ptr"@[0]);
    assert("raw_mut"@[0] != "syscall"@[0]);
    assert("dbg"@.len() == 3);
    assert("intCast"@.len() == 7);
    assert("test_preview_gate"@.len() == 17);
    assert("read_line"@.len() == 9);
    assert("parse_i32"@.len() == 9);
    assert("parse_i64"@.len() == 9);
    assert("parse_u32"@.len() == 9);
    assert("parse_u64"@.len() == 9);
    assert("cast"@.len() == 4);
    assert("panic"@.len() == 5);
    assert("assert"@.len() == 6);
    assert("import"@.len() == 6);
    assert("random_u32"@.len() == 10);
    assert("random_u64"@.len() == 10);
    assert("ptr_read"@.len() == 8);
    assert("ptr_write"@.len() == 9);
    assert("ptr_offset"@.len() == 10);
    assert("ptr_to_int"@.len() == 10);
    assert("int_to_ptr"@.len() == 10);
    assert("raw"@.len() == 3);
    assert("raw_mut"@.len() == 7);
    assert("syscall"@.len() == 7);
    assert("target_arch"@.len() == 11);
    assert("target_os"@.len() == 9);
    match k {
        IntrinsicKind::Parse(t) => {
            lemma_parse_names_found(t);
            assert(arity_name(k) == parse_name(t));
            assert(intrinsic_of(parse_name(t)) == Some(k));
        },
        IntrinsicKind::Dbg => assert(intrinsic_of("dbg"@) == Some(IntrinsicKind::Dbg)),
        IntrinsicKind::IntCast => assert(intrinsic_of("intCast"@) == Some(IntrinsicKind::IntCast)),
        IntrinsicKind::TestPreviewGate => assert(intrinsic_of("test_preview_gate"@) == Some(IntrinsicKind::TestPreviewGate)),
        IntrinsicKind::ReadLine => assert(intrinsic_of("read_line"@) == Some(IntrinsicKind::ReadLine)),
        IntrinsicKind::Cast => {
            assert("cast"@ != "dbg"@);
            assert("cast"@ != "intCast"@);
            assert("test_preview_gate"@.len() == 17 && "cast"@.len() == 4);
            assert("cast"@ != "test_preview_gate"@);
            assert("cast"@ != "read_line"@);
            assert("cast"@ != "parse_i32"@);
            assert("cast"@ != "parse_i64"@);
            assert("cast"@ != "parse_u32"@);
            assert("cast"@ != "parse_u64"@);
            assert(intrinsic_of("cast"@) == Some(IntrinsicKind::Cast));
        },
        IntrinsicKind::Panic => {
            assert("panic"@ != "dbg"@);
            assert("panic"@ != "intCast"@);
            assert("test_preview_gate"@.len() == 17 && "panic"@.len() == 5);
            assert("panic"@ != "test_preview_gate"@);
            assert("panic"@ != "read_line"@);
            assert("panic"@ != "parse_i32"@);
            assert("panic"@ != "parse_i64"@);
            assert("panic"@ != "parse_u32"@);
            assert("panic"@ != "parse_u64"@);
            assert("panic"@ != "cast"@);
            assert(intrinsic_of("panic"@) == Some(IntrinsicKind::Panic));
        },
        IntrinsicKind::Assert => assert(intrinsic_of("assert"@) == Some(IntrinsicKind::Assert)),
        IntrinsicKind::Import => assert(intrinsic_of("import"@) == Some(IntrinsicKind::Import)),
        IntrinsicKind::RandomU32 => assert(intrinsic_of("random_u32"@) == Some(IntrinsicKind::RandomU32)),
        IntrinsicKind::RandomU64 => assert(intrinsic_of("random_u64"@) == Some(IntrinsicKind::RandomU64)),
        IntrinsicKind::PtrRead => assert(intrinsic_of("ptr_read"@) == Some(IntrinsicKind::PtrRead)),
        IntrinsicKind::PtrWrite => assert(intrinsic_of("ptr_write"@) == Some(IntrinsicKind::PtrWrite)),
        IntrinsicKind::PtrOffset => assert(intrinsic_of("ptr_offset"@) == Some(IntrinsicKind::PtrOffset)),
        IntrinsicKind::PtrToInt => assert(intrinsic_of("ptr_to_int"@) == Some(IntrinsicKind::PtrToInt)),
        IntrinsicKind::IntToPtr => assert(intrinsic_of("int_to_ptr"@) == Some(IntrinsicKind::IntToPtr)),
        IntrinsicKind::Raw => assert(intrinsic_of("raw"@) == Some(IntrinsicKind::Raw)),
        IntrinsicKind::RawMut => assert(intrinsic_of("raw_mut"@) == Some(IntrinsicKind::RawMut)),
        IntrinsicKind::Syscall => assert(intrinsic_of("syscall"@) == Some(IntrinsicKind::Syscall)),
        IntrinsicKind::TargetArch => assert(intrinsic_of("target_arch"@) == Some(IntrinsicKind::TargetArch)),
        IntrinsicKind::TargetOs => assert(intrinsic_of("target_os"@) == Some(IntrinsicKind::TargetOs)),
    }
}


/// The name of each `@parse_*` intrinsic spells it.
proof fn lemma_parse_names_found(t: ParseTarget)
    ensures
        intrinsic_of(parse_name(t)) == Some(IntrinsicKind::Parse(t)),
{
    reveal_strlit("dbg");
    reveal_strlit("intCast");
    reveal_strlit("test_preview_gate");
    reveal_strlit("read_line");
    reveal_strlit("parse_i32");
    reveal_strlit("parse_i64");
    reveal_strlit("parse_u32");
    reveal_strlit("parse_u64");
    assert("read_line"@[0] == 'r' && "parse_i32"@[0] == 'p' && "parse_i64"@[0] == 'p' && "parse_u32"@[0] == 'p'
        && "parse_u64"@[0] == 'p');
    assert("parse_i32"@[6] != "parse_u32"@[6] && "parse_i64"@[6] != "parse_u32"@[6]);
    assert("parse_i32"@[6] != "parse_u64"@[6] && "parse_i64"@[6] != "parse_u64"@[6]);
    assert("parse_u32"@[7] != "parse_u64"@[7] && "parse_i32"@[7] != "parse_i64"@[7]);
    match t {
                ParseTarget::I32 => {
                    assert("parse_i32"@ != "dbg"@);
                    assert("parse_i32"@ != "intCast"@);
                    assert("parse_i32"@ != "test_preview_gate"@);
                    assert("parse_i32"@ != "read_line"@);
                    assert(parse_name(t) == "parse_i32"@);
                    assert(intrinsic_of("parse_i32"@) == Some(IntrinsicKind::Parse(ParseTarget::I32)));
                },
                ParseTarget::I64 => {
                    assert("parse_i64"@ != "dbg"@);
                    assert("parse_i64"@ != "intCast"@);
                    assert("parse_i64"@ != "test_preview_gate"@);
                    assert("parse_i64"@ != "read_line"@);
                    assert("parse_i64"@ != "parse_i32"@);
                    assert(parse_name(t) == "parse_i64"@);
                    assert(intrinsic_of("parse_i64"@) == Some(IntrinsicKind::Parse(ParseTarget::I64)));
                },
                ParseTarget::U32 => {
                    assert("parse_u32"@ != "dbg"@);
                    assert("parse_u32"@ != "intCast"@);
                    assert("parse_u32"@ != "test_preview_gate"@);
                    assert("parse_u32"@ != "read_line"@);
                    assert("parse_u32"@ != "parse_i32"@);
                    assert("parse_u32"@ != "parse_i64"@);
                    assert(parse_name(t) == "parse_u32"@);
                    assert(intrinsic_of("parse_u32"@) == Some(IntrinsicKind::Parse(ParseTarget::U32)));
                },
                ParseTarget::U64 => {
                    assert("parse_u64"@ != "dbg"@);
                    assert("parse_u64"@ != "intCast"@);
                    assert("parse_u64"@ != "test_preview_gate"@);
                    assert("parse_u64"@ != "read_line"@);
                    assert("parse_u64"@ != "parse_i32"@);
                    assert("parse_u64"@ != "parse_i64"@);
                    assert("parse_u64"@ != "parse_u32"@);
                    assert(parse_name(t) == "parse_u64"@);
                    assert(intrinsic_of("parse_u64"@) == Some(IntrinsicKind::Parse(ParseTarget::U64)));
                },
            }
}

/// How many arguments each intrinsic takes: `@assert`, `@dbg`, `@cast`,
/// `@intCast`, `@import`, `@parse_*` and the one-pointer intrinsics exactly
/// one; `@ptr_write` and `@ptr_offset` two; `@panic` none or a message;
/// `@syscall` a number and up to six arguments; the rest none. An arity
/// error states a count the intrinsic accepts.
pub proof fn law_intrinsic_arities(k: IntrinsicKind)
    ensures
        (k is Assert || k is Dbg || k is Cast || k is IntCast || k is Import || k is Parse || k is PtrRead
            || k is PtrToInt || k is IntToPtr || k is Raw || k is RawMut) ==> arity_bounds(k) == (1nat, 1nat),
        (k is PtrWrite || k is PtrOffset) ==> arity_bounds(k) == (2nat, 2nat),
        k is Panic ==> arity_bounds(k) == (0nat, 1nat),
        k is Syscall ==> arity_bounds(k) == (1nat, 7nat),
        (k is RandomU32 || k is RandomU64 || k is TargetArch || k is TargetOs || k is ReadLine || k is TestPreviewGate)
            ==> arity_bounds(k) == (0nat, 0nat),
        arity_bounds(k).0 <= arity_expected(k) <= arity_bounds(k).1,
{
}

} // verus!
