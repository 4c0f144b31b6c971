//! The raw-pointer intrinsics and `@syscall`: once their arguments are
//! analyzed, the argument types are checked and the call is emitted.
use vstd::prelude::*;

use crate::air::{Air, AirInst, AirInstData};
use crate::context::AnalysisResult;
use crate::diag::{CompileError, ErrorKind};
use crate::intrinsics::{appended_call, emit_call, integer_or_absorbing, intrinsic_mismatch, reports_intrinsic_mismatch};
use crate::paths::{digit_char, digit_str};
use crate::types::{name_of_type, Span, Sym, Type, TypePool};

verus! {

/// A type standing for an error already reported or for no value.
pub open spec fn absorbing(t: Type) -> bool {
    t is Error || t is Never
}

/// A raw pointer type.
pub open spec fn is_ptr(t: Type) -> bool {
    t is PtrConst || t is PtrMut
}

/// A pointer type of `t`, if any, is in the pool.
pub open spec fn ptr_known(pool: &TypePool, t: Type) -> bool {
    is_ptr(t) ==> pool.pointee(t) is Some
}

/// The intrinsic call that a finisher appends, with its arguments at the
/// end of the argument table.
pub open spec fn call_inst(air: Air, name: Sym, args_len: nat, ty: Type, span: Span) -> AirInst {
    AirInst {
        data: AirInstData::Intrinsic { name, args_start: air.extra@.len() as u32, args_len: args_len as u32 },
        ty,
        span,
    }
}

/// `r` is the result of the call appended to `air`.
pub open spec fn call_result(air: Air, ty: Type) -> AnalysisResult {
    AnalysisResult { air_ref: air.instructions@.len() as u32, ty }
}

/// Whether `t` is a raw pointer type.
fn type_is_ptr(t: Type) -> (r: bool)
    ensures
        r == is_ptr(t),
{
    match t {
        Type::PtrConst(_) | Type::PtrMut(_) => true,
        _ => false,
    }
}

/// Whether `t` stands for an error already reported or for no value.
fn type_is_absorbing(t: Type) -> (r: bool)
    ensures
        r == absorbing(t),
{
    t.is_error() || t.is_never()
}

/// The pointee of a pointer type known to the pool.
fn pointee_of(pool: &TypePool, t: Type) -> (r: Option<Type>)
    ensures
        r == pool.pointee(t),
{
    match t {
        Type::PtrConst(id) => if (id as usize) < pool.ptr_consts.len() {
            Some(pool.ptr_consts[id as usize])
        } else {
            None
        },
        Type::PtrMut(id) => if (id as usize) < pool.ptr_muts.len() {
            Some(pool.ptr_muts[id as usize])
        } else {
            None
        },
        _ => None,
    }
}

/// Finish `@ptr_read(p)` once `p` is analyzed: `p` must be a pointer, and
/// the call reads a value of its pointee type.
pub fn finish_ptr_read(air: &mut Air, pool: &TypePool, name: Sym, ptr: AnalysisResult, span: Span) -> (r: Result<
    AnalysisResult,
    CompileError,
>)
    requires
        ptr_known(pool, ptr.ty),
        old(air).instructions@.len() < u32::MAX,
        old(air).extra@.len() < u32::MAX,
    ensures
        match pool.pointee(ptr.ty) {
            Some(p) => {
                &&& r == Ok::<AnalysisResult, CompileError>(call_result(*old(air), p))
                &&& appended_call(*old(air), *final(air), seq![ptr.air_ref], call_inst(*old(air), name, 1, p, span))
            },
            None => {
                &&& *final(air) == *old(air)
                &&& r matches Err(e) && reports_intrinsic_mismatch(
                    e,
                    span,
                    "ptr_read"@,
                    "ptr const T or ptr mut T"@,
                    name_of_type(ptr.ty),
                )
            },
        },
{
    match pointee_of(pool, ptr.ty) {
        Some(p) => {
            let args = [ptr.air_ref];
            assert(args@ == seq![ptr.air_ref]);
            Ok(emit_call(air, name, &args, p, span))
        },
        None => Err(intrinsic_mismatch("ptr_read", "ptr const T or ptr mut T", ptr.ty, span)),
    }
}

/// Finish `@ptr_write(p, v)` once both are analyzed: `p` must be a `ptr mut`
/// pointer and `v` of its pointee type (or stand for an error or no value).
/// The call has unit type.
pub fn finish_ptr_write(
    air: &mut Air,
    pool: &TypePool,
    name: Sym,
    ptr: AnalysisResult,
    value: AnalysisResult,
    span: Span,
) -> (r: Result<AnalysisResult, CompileError>)
    requires
        ptr_known(pool, ptr.ty),
        old(air).instructions@.len() < u32::MAX,
        old(air).extra@.len() + 2 <= u32::MAX,
    ensures
        match ptr.ty {
            Type::PtrMut(_) => {
                let p = pool.pointee(ptr.ty)->0;
                if value.ty != p && !absorbing(value.ty) {
                    &&& *final(air) == *old(air)
                    &&& r matches Err(e) && e.span == span && (e.kind matches ErrorKind::TypeMismatch {
                        expected,
                        found,
                    } && expected@ == name_of_type(p) && found@ == name_of_type(value.ty))
                } else {
                    &&& r == Ok::<AnalysisResult, CompileError>(call_result(*old(air), Type::Unit))
                    &&& appended_call(
                        *old(air),
                        *final(air),
                        seq![ptr.air_ref, value.air_ref],
                        call_inst(*old(air), name, 2, Type::Unit, span),
                    )
                }
            },
            Type::PtrConst(_) => {
                &&& *final(air) == *old(air)
                &&& r matches Err(e) && reports_intrinsic_mismatch(
                    e,
                    span,
                    "ptr_write"@,
                    "ptr mut T (cannot write through ptr const)"@,
                    name_of_type(ptr.ty),
                )
            },
            _ => {
                &&& *final(air) == *old(air)
                &&& r matches Err(e) && reports_intrinsic_mismatch(
                    e,
                    span,
                    "ptr_write"@,
                    "ptr mut T"@,
                    name_of_type(ptr.ty),
                )
            },
        },
{
    let p = match ptr.ty {
        Type::PtrMut(_) => match pointee_of(pool, ptr.ty) {
            Some(p) => p,
            None => {
                return Err(intrinsic_mismatch("ptr_write", "ptr mut T", ptr.ty, span));
            },
        },
        Type::PtrConst(_) => {
            return Err(
                intrinsic_mismatch("ptr_write", "ptr mut T (cannot write through ptr const)", ptr.ty, span),
            );
        },
        _ => {
            return Err(intrinsic_mismatch("ptr_write", "ptr mut T", ptr.ty, span));
        },
    };
    if value.ty != p && !type_is_absorbing(value.ty) {
        return Err(CompileError::new(ErrorKind::TypeMismatch { expected: p.name(), found: value.ty.name() }, span));
    }
    let args = [ptr.air_ref, value.air_ref];
    assert(args@ == seq![ptr.air_ref, value.air_ref]);
    Ok(emit_call(air, name, &args, Type::Unit, span))
}

/// Finish `@ptr_offset(p, n)` once both are analyzed: `p` must be a
/// pointer and `n` an integer (either may stand for an error or no value).
/// The result has the pointer's type.
pub fn finish_ptr_offset(air: &mut Air, name: Sym, ptr: AnalysisResult, offset: AnalysisResult, span: Span) -> (r:
    Result<AnalysisResult, CompileError>)
    requires
        old(air).instructions@.len() < u32::MAX,
        old(air).extra@.len() + 2 <= u32::MAX,
    ensures
        if !is_ptr(ptr.ty) && !absorbing(ptr.ty) {
            &&& *final(air) == *old(air)
            &&& r matches Err(e) && reports_intrinsic_mismatch(
                e,
                span,
                "ptr_offset"@,
                "ptr const T or ptr mut T"@,
                name_of_type(ptr.ty),
            )
        } else if !integer_or_absorbing(offset.ty) {
            &&& *final(air) == *old(air)
            &&& r matches Err(e) && reports_intrinsic_mismatch(
                e,
                span,
                "ptr_offset"@,
                "integer offset"@,
                name_of_type(offset.ty),
            )
        } else {
            &&& r == Ok::<AnalysisResult, CompileError>(call_result(*old(air), ptr.ty))
            &&& appended_call(
                *old(air),
                *final(air),
                seq![ptr.air_ref, offset.air_ref],
                call_inst(*old(air), name, 2, ptr.ty, span),
            )
        },
{
    if !type_is_ptr(ptr.ty) && !type_is_absorbing(ptr.ty) {
        return Err(intrinsic_mismatch("ptr_offset", "ptr const T or ptr mut T", ptr.ty, span));
    }
    if !offset.ty.is_integer() && !type_is_absorbing(offset.ty) {
        return Err(intrinsic_mismatch("ptr_offset", "integer offset", offset.ty, span));
    }
    let args = [ptr.air_ref, offset.air_ref];
    assert(args@ == seq![ptr.air_ref, offset.air_ref]);
    Ok(emit_call(air, name, &args, ptr.ty, span))
}

/// Finish `@ptr_to_int(p)` once `p` is analyzed: `p` must be a pointer (or
/// stand for an error or no value); the result is a `u64`.
pub fn finish_ptr_to_int(air: &mut Air, name: Sym, ptr: AnalysisResult, span: Span) -> (r: Result<
    AnalysisResult,
    CompileError,
>)
    requires
        old(air).instructions@.len() < u32::MAX,
        old(air).extra@.len() < u32::MAX,
    ensures
        if !is_ptr(ptr.ty) && !absorbing(ptr.ty) {
            &&& *final(air) == *old(air)
            &&& r matches Err(e) && reports_intrinsic_mismatch(
                e,
                span,
                "ptr_to_int"@,
                "ptr const T or ptr mut T"@,
                name_of_type(ptr.ty),
            )
        } else {
            &&& r == Ok::<AnalysisResult, CompileError>(call_result(*old(air), Type::U64))
            &&& appended_call(*old(air), *final(air), seq![ptr.air_ref], call_inst(*old(air), name, 1, Type::U64, span))
        },
{
    if !type_is_ptr(ptr.ty) && !type_is_absorbing(ptr.ty) {
        return Err(intrinsic_mismatch("ptr_to_int", "ptr const T or ptr mut T", ptr.ty, span));
    }
    let args = [ptr.air_ref];
    assert(args@ == seq![ptr.air_ref]);
    Ok(emit_call(air, name, &args, Type::U64, span))
}

/// Finish `@int_to_ptr(a)` once `a` is analyzed, `result_type` being the
/// type inference gave the call: `a` must be a `u64` and the result a
/// `ptr mut` pointer (either may stand for an error or no value).
pub fn finish_int_to_ptr(air: &mut Air, name: Sym, addr: AnalysisResult, result_type: Type, span: Span) -> (r:
    Result<AnalysisResult, CompileError>)
    requires
        old(air).instructions@.len() < u32::MAX,
        old(air).extra@.len() < u32::MAX,
    ensures
        if addr.ty != Type::U64 && !absorbing(addr.ty) {
            &&& *final(air) == *old(air)
            &&& r matches Err(e) && reports_intrinsic_mismatch(e, span, "int_to_ptr"@, "u64"@, name_of_type(addr.ty))
        } else if !(result_type is PtrMut) && !absorbing(result_type) {
            &&& *final(air) == *old(air)
            &&& r matches Err(e) && reports_intrinsic_mismatch(
                e,
                span,
                "int_to_ptr"@,
                "ptr mut T"@,
                name_of_type(result_type),
            )
        } else {
            &&& r == Ok::<AnalysisResult, CompileError>(call_result(*old(air), result_type))
            &&& appended_call(
                *old(air),
                *final(air),
                seq![addr.air_ref],
                call_inst(*old(air), name, 1, result_type, span),
            )
        },
{
    if addr.ty != Type::U64 && !type_is_absorbing(addr.ty) {
        return Err(intrinsic_mismatch("int_to_ptr", "u64", addr.ty, span));
    }
    let is_ptr_mut = match result_type {
        Type::PtrMut(_) => true,
        _ => false,
    };
    if !is_ptr_mut && !type_is_absorbing(result_type) {
        return Err(intrinsic_mismatch("int_to_ptr", "ptr mut T", result_type, span));
    }
    let args = [addr.air_ref];
    assert(args@ == seq![addr.air_ref]);
    Ok(emit_call(air, name, &args, result_type, span))
}

/// Finish `@raw(x)` or `@raw_mut(x)` once `x` is analyzed: the call takes
/// the address of `x`, a pointer (mutable for `@raw_mut`) to `x`'s type,
/// which the pool creates if it does not hold it yet.
pub fn finish_raw(
    air: &mut Air,
    pool: &mut TypePool,
    name: Sym,
    is_mut: bool,
    arg: AnalysisResult,
    span: Span,
) -> (r: AnalysisResult)
    requires
        old(air).instructions@.len() < u32::MAX,
        old(air).extra@.len() < u32::MAX,
        is_mut ==> old(pool).ptr_muts@.len() < u32::MAX,
        !is_mut ==> old(pool).ptr_consts@.len() < u32::MAX,
    ensures
        if is_mut { r.ty is PtrMut } else { r.ty is PtrConst },
        final(pool).pointee(r.ty) == Some(arg.ty),
        final(pool).structs == old(pool).structs,
        final(pool).enums == old(pool).enums,
        final(pool).arrays == old(pool).arrays,
        r == call_result(*old(air), r.ty),
        appended_call(*old(air), *final(air), seq![arg.air_ref], call_inst(*old(air), name, 1, r.ty, span)),
{
    let t = pool.intern_ptr(arg.ty, is_mut);
    let args = [arg.air_ref];
    assert(args@ == seq![arg.air_ref]);
    emit_call(air, name, &args, t, span)
}

/// The text naming the `i`-th argument of `@syscall` in a type mismatch.
pub open spec fn syscall_arg_expected(i: int) -> Seq<char> {
    "u64 for argument "@.push(digit_char(i))
}

/// An argument of `@syscall` must be a `u64` (or stand for an error or no value).
pub open spec fn syscall_arg_ok(t: Type) -> bool {
    t == Type::U64 || absorbing(t)
}

/// The first argument of `@syscall` that is not a `u64`, if any.
pub open spec fn first_bad_syscall_arg(args: Seq<AnalysisResult>) -> Option<int> {
    if exists|i: int| 0 <= i < args.len() && !syscall_arg_ok(#[trigger] args[i].ty) {
        Some(choose|i: int|
            0 <= i < args.len() && !syscall_arg_ok(#[trigger] args[i].ty) && forall|j: int|
                0 <= j < i ==> syscall_arg_ok(#[trigger] args[j].ty))
    } else {
        None
    }
}

/// Finish `@syscall(n, args..)` once its (one to seven) arguments are
/// analyzed: each must be a `u64`, and the first that is not is reported;
/// the call returns an `i64`.
pub fn finish_syscall(air: &mut Air, name: Sym, args: &[AnalysisResult], span: Span) -> (r: Result<
    AnalysisResult,
    CompileError,
>)
    requires
        1 <= args@.len() <= 7,
        old(air).instructions@.len() < u32::MAX,
        old(air).extra@.len() + 7 <= u32::MAX,
    ensures
        match first_bad_syscall_arg(args@) {
            Some(i) => {
                &&& *final(air) == *old(air)
                &&& r matches Err(e) && reports_intrinsic_mismatch(
                    e,
                    span,
                    "syscall"@,
                    syscall_arg_expected(i),
                    name_of_type(args@[i].ty),
                )
            },
            None => {
                &&& r == Ok::<AnalysisResult, CompileError>(call_result(*old(air), Type::I64))
                &&& appended_call(
                    *old(air),
                    *final(air),
                    args@.map_values(|a: AnalysisResult| a.air_ref),
                    call_inst(*old(air), name, args@.len(), Type::I64, span),
                )
            },
        },
{
    let mut refs: Vec<u32> = Vec::new();
    let mut i: usize = 0;
    while i < args.len()
        invariant
            i <= args@.len(),
            args@.len() <= 7,
            forall|j: int| 0 <= j < i ==> syscall_arg_ok(#[trigger] args@[j].ty),
            refs@ == args@.take(i as int).map_values(|a: AnalysisResult| a.air_ref),
        decreases args@.len() - i,
    {
        let t = args[i].ty;
        if t != Type::U64 && !type_is_absorbing(t) {
            let expected = String::from_str("u64 for argument ").concat(digit_str(i as u64));
            proof {
                reveal_strlit("u64 for argument ");
                assert(expected@ =~= syscall_arg_expected(i as int));
                let k = i as int;
                assert(!syscall_arg_ok(args@[k].ty));
                let c = choose|c: int|
                    0 <= c < args@.len() && !syscall_arg_ok(#[trigger] args@[c].ty) && forall|j: int|
                        0 <= j < c ==> syscall_arg_ok(#[trigger] args@[j].ty);
                assert(c == k) by {
                    if c < k {
                        assert(syscall_arg_ok(args@[c].ty));
                    }
                    if c > k {
                        assert(syscall_arg_ok(args@[k].ty));
                    }
                }
            }
            return Err(
                CompileError::new(
                    ErrorKind::IntrinsicTypeMismatch {
                        name: "syscall".to_string(),
                        expected: expected,
                        found: t.name(),
                    },
                    span,
                ),
            );
        }
        proof {
            assert(args@.take(i + 1).map_values(|a: AnalysisResult| a.air_ref) =~= args@.take(
                i as int,
            ).map_values(|a: AnalysisResult| a.air_ref).push(args@[i as int].air_ref));
        }
        refs.push(args[i].air_ref);
        i = i + 1;
    }
    proof {
        assert(args@.take(args@.len() as int) =~= args@);
    }
    Ok(emit_call(air, name, refs.as_slice(), Type::I64, span))
}

} // verus!
