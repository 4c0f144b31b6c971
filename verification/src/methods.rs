//! Method calls `receiver.method(args)`: on a module (a call of the
//! module's function), on a built-in type (a call of the runtime function
//! that implements the method), or on a struct with a method of that name.
use vstd::prelude::*;

use crate::air::{Air, AirInst, AirInstData};
use crate::builtins::{
    first_method, first_named, BuiltinAssociatedFn, BuiltinMethod, BuiltinParamType, BuiltinReturnType,
    BuiltinTypeDef, ReceiverMode,
};
use crate::calls::{root_variable, violation_at};
use crate::context::{same_except_references, AnalysisContext, AnalysisResult, ParamMode};
use crate::diag::{CompileError, ErrorKind};
use crate::interner::{intern, interned};
use crate::invocation::reports_first_violation;
use crate::rir::{CallArg, InstData, InstRef};
use crate::sema::{method_key, method_table_key, MethodInfo, Sema};
use crate::typing::appended;
use crate::types::{name_of_type, AirRef, Span, Sym, Type};
use crate::variables::AssignTarget;

verus! {

/// What the type of an associated function call `Type::f(..)` is.
#[derive(Clone, Copy, Debug)]
pub enum AssocFnOwner {
    /// A built-in type
    Builtin { struct_id: u32 },
    /// A struct with an associated function (taking no `self`) of that name
    User { struct_id: u32, info: MethodInfo },
}

/// The position of the first associated function named `name` of a
/// built-in type, if any.
pub open spec fn first_assoc_fn(fns: Seq<BuiltinAssociatedFn>, name: Seq<char>) -> Option<int>
    decreases fns.len(),
{
    if fns.len() == 0 {
        None
    } else {
        match first_assoc_fn(fns.drop_last(), name) {
            Some(i) => Some(i),
            None => if fns.last().name@ == name {
                Some(fns.len() - 1)
            } else {
                None
            },
        }
    }
}

proof fn lemma_first_assoc_fn_prefix(fns: Seq<BuiltinAssociatedFn>, n: int, name: Seq<char>)
    requires
        0 <= n <= fns.len(),
        first_assoc_fn(fns.take(n), name) is Some,
    ensures
        first_assoc_fn(fns, name) == first_assoc_fn(fns.take(n), name),
    decreases fns.len(),
{
    if n < fns.len() {
        assert(fns.drop_last().take(n) =~= fns.take(n));
        lemma_first_assoc_fn_prefix(fns.drop_last(), n, name);
    } else {
        assert(fns.take(n) =~= fns);
    }
}

/// The first associated function of a built-in type with the given name.
pub fn find_associated_fn<'b>(def: &'b BuiltinTypeDef, name: &str) -> (r: Option<&'b BuiltinAssociatedFn>)
    ensures
        match first_assoc_fn(def.associated_fns@, name@) {
            Some(i) => r == Some(&def.associated_fns@[i]),
            None => r is None,
        },
{
    let mut i: usize = 0;
    while i < def.associated_fns.len()
        invariant
            i <= def.associated_fns@.len(),
            first_assoc_fn(def.associated_fns@.take(i as int), name@) is None,
        decreases def.associated_fns@.len() - i,
    {
        proof {
            assert(def.associated_fns@.take(i + 1).drop_last() =~= def.associated_fns@.take(i as int));
        }
        if crate::paths::str_eq(def.associated_fns[i].name.as_str(), name) {
            proof {
                lemma_first_assoc_fn_prefix(def.associated_fns@, i as int + 1, name@);
            }
            return Some(&def.associated_fns[i]);
        }
        i = i + 1;
    }
    assert(def.associated_fns@.take(i as int) =~= def.associated_fns@);
    None
}

/// What a method call's receiver is.
#[derive(Clone, Copy, Debug)]
pub enum MethodReceiver {
    /// A module: the call is of the module's function
    Module,
    /// A value of a built-in type
    Builtin { struct_id: u32 },
    /// A struct value with a method of that name
    User { struct_id: u32, info: MethodInfo },
}

/// The type a built-in method's parameter stands for, for the built-in
/// type `struct_id`.
pub open spec fn builtin_param_type(p: BuiltinParamType, struct_id: u32) -> Type {
    match p {
        BuiltinParamType::U64 => Type::U64,
        BuiltinParamType::U8 => Type::U8,
        BuiltinParamType::Bool => Type::Bool,
        BuiltinParamType::SelfType => Type::Struct(struct_id),
    }
}

/// The type a built-in method returns, for the built-in type `struct_id`.
pub open spec fn builtin_return_type(r: BuiltinReturnType, struct_id: u32) -> Type {
    match r {
        BuiltinReturnType::Unit => Type::Unit,
        BuiltinReturnType::U64 => Type::U64,
        BuiltinReturnType::U8 => Type::U8,
        BuiltinReturnType::Bool => Type::Bool,
        BuiltinReturnType::SelfType => Type::Struct(struct_id),
    }
}

/// The type a built-in method returns.
pub fn builtin_return(r: BuiltinReturnType, struct_id: u32) -> (t: Type)
    ensures
        t == builtin_return_type(r, struct_id),
{
    match r {
        BuiltinReturnType::Unit => Type::Unit,
        BuiltinReturnType::U64 => Type::U64,
        BuiltinReturnType::U8 => Type::U8,
        BuiltinReturnType::Bool => Type::Bool,
        BuiltinReturnType::SelfType => Type::Struct(struct_id),
    }
}

/// The store that writes a mutated `String` back to its variable.
pub fn emit_string_store(air: &mut Air, call: AirRef, storage: AssignTarget, span: Span) -> (r: AnalysisResult)
    requires
        old(air).instructions@.len() < u32::MAX,
    ensures
        r == (AnalysisResult { air_ref: old(air).instructions@.len() as u32, ty: Type::Unit }),
        appended(
            *old(air),
            *final(air),
            AirInst {
                data: match storage {
                    AssignTarget::Local { slot } => AirInstData::Store { slot, value: call },
                    AssignTarget::Param { abi_slot } => AirInstData::ParamStore { param_slot: abi_slot, value: call },
                },
                ty: Type::Unit,
                span,
            },
        ),
{
    let data = match storage {
        AssignTarget::Local { slot } => AirInstData::Store { slot, value: call },
        AssignTarget::Param { abi_slot } => AirInstData::ParamStore { param_slot: abi_slot, value: call },
    };
    let air_ref = air.add_inst(AirInst { data, ty: Type::Unit, span });
    AnalysisResult::new(air_ref, Type::Unit)
}

impl<'a> Sema<'a> {
    /// Where a `String` mutated by a method (such as `push_str`) is written
    /// back, checked before the receiver is analyzed: the receiver must be
    /// a mutable local or an `inout` parameter, named directly.
    pub fn string_receiver_storage(&self, ctx: &AnalysisContext, receiver: InstRef, span: Span) -> (r: Result<
        AssignTarget,
        CompileError,
    >)
        requires
            receiver < self.rir.instructions@.len(),
            self.rir.instructions@[receiver as int].data matches InstData::VarRef { name } ==> interned(
                self.interner,
            ).contains_key(name),
        ensures
            match self.rir.instructions@[receiver as int].data {
                InstData::VarRef { name } => {
                    let text = interned(self.interner)[name];
                    if ctx.params@.contains_key(name) {
                        let p = ctx.params@[name];
                        match p.mode {
                            ParamMode::Inout => r == Ok::<AssignTarget, CompileError>(
                                AssignTarget::Param { abi_slot: p.abi_slot },
                            ),
                            ParamMode::Borrow => r matches Err(e) && e.span == span && (
                            e.kind matches ErrorKind::MutateBorrowedValue { variable } && variable@ == text),
                            _ => r matches Err(e) && e.span == span && (e.kind matches ErrorKind::AssignToImmutable(n)
                                && n@ == text),
                        }
                    } else if ctx.locals@.contains_key(name) {
                        let l = ctx.locals@[name];
                        if l.is_mut {
                            r == Ok::<AssignTarget, CompileError>(AssignTarget::Local { slot: l.slot })
                        } else {
                            r matches Err(e) && e.span == span && (e.kind matches ErrorKind::AssignToImmutable(n) && n@
                                == text)
                        }
                    } else {
                        r matches Err(e) && e.span == span && (e.kind matches ErrorKind::UndefinedVariable(n) && n@
                            == text)
                    }
                },
                _ => r matches Err(e) && e.span == span && e.kind == ErrorKind::InvalidAssignmentTarget,
            },
    {
        match self.rir.get(receiver).data {
            InstData::VarRef { name } => {
                let text = self.resolve(name);
                match ctx.params.get(&name) {
                    Some(p) => {
                        return match p.mode {
                            ParamMode::Inout => Ok(AssignTarget::Param { abi_slot: p.abi_slot }),
                            ParamMode::Borrow => Err(
                                CompileError::new(ErrorKind::MutateBorrowedValue { variable: text.to_string() }, span),
                            ),
                            _ => Err(CompileError::new(ErrorKind::AssignToImmutable(text.to_string()), span)),
                        };
                    },
                    None => {},
                }
                match ctx.locals.get(&name) {
                    Some(l) => {
                        if !l.is_mut {
                            return Err(CompileError::new(ErrorKind::AssignToImmutable(text.to_string()), span));
                        }
                        Ok(AssignTarget::Local { slot: l.slot })
                    },
                    None => Err(CompileError::new(ErrorKind::UndefinedVariable(text.to_string()), span)),
                }
            },
            _ => Err(CompileError::new(ErrorKind::InvalidAssignmentTarget, span)),
        }
    }

    /// What a method call's receiver is, once the receiver is analyzed: a
    /// module, a built-in type, or a struct with a method (taking `self`)
    /// of that name. A call of a struct's method is recorded in the context
    /// (for lazy analysis).
    pub fn method_receiver(
        &self,
        ctx: &mut AnalysisContext,
        builtins: &[BuiltinTypeDef],
        receiver_ty: Type,
        method: Sym,
        span: Span,
    ) -> (r: Result<MethodReceiver, CompileError>)
        requires
            interned(self.interner).contains_key(method),
            receiver_ty matches Type::Struct(id) ==> id < self.type_pool.structs@.len(),
        ensures
            final(ctx).referenced_methods@ == (match r {
                Ok(MethodReceiver::User { struct_id, .. }) => old(ctx).referenced_methods@.insert(
                    method_key(struct_id, method),
                ),
                _ => old(ctx).referenced_methods@,
            }),
            final(ctx).referenced_functions == old(ctx).referenced_functions,
            same_except_references(old(ctx), final(ctx)),
            ({
                let text = interned(self.interner)[method];
                match receiver_ty {
                    Type::Module(_) => r matches Ok(MethodReceiver::Module),
                    Type::Struct(id) => {
                        let def = self.type_pool.structs@[id as int];
                        if def.is_builtin && first_named(builtins@, def.name@) is Some {
                            r matches Ok(MethodReceiver::Builtin { struct_id }) && struct_id == id
                        } else if !self.methods@.contains_key(method_key(id, method)) {
                            r matches Err(e) && e.span == span && (e.kind matches ErrorKind::UndefinedMethod {
                                owner,
                                method_name,
                            } && owner@ == def.name@ && method_name@ == text)
                        } else if !self.methods@[method_key(id, method)].has_self {
                            r matches Err(e) && e.span == span && (e.kind matches ErrorKind::AssocFnCalledAsMethod {
                                owner,
                                function_name,
                            } && owner@ == def.name@ && function_name@ == text)
                        } else {
                            r matches Ok(MethodReceiver::User { struct_id, info }) && struct_id == id && info
                                == self.methods@[method_key(id, method)]
                        }
                    },
                    _ => r matches Err(e) && e.span == span && (e.kind matches ErrorKind::MethodCallOnNonStruct {
                        found,
                        method_name,
                    } && found@ == name_of_type(receiver_ty) && method_name@ == text),
                }
            }),
    {
        let text = self.resolve(method);
        let id = match receiver_ty {
            Type::Module(_) => {
                return Ok(MethodReceiver::Module);
            },
            Type::Struct(id) => id,
            _ => {
                return Err(
                    CompileError::new(
                        ErrorKind::MethodCallOnNonStruct { found: receiver_ty.name(), method_name: text.to_string() },
                        span,
                    ),
                );
            },
        };
        if self.get_builtin_type_def(id, builtins).is_some() {
            return Ok(MethodReceiver::Builtin { struct_id: id });
        }
        let def = &self.type_pool.structs[id as usize];
        let info = match self.methods.get(&method_table_key(id, method)) {
            Some(info) => *info,
            None => {
                return Err(
                    CompileError::new(
                        ErrorKind::UndefinedMethod { owner: def.name.clone(), method_name: text.to_string() },
                        span,
                    ),
                );
            },
        };
        if !info.has_self {
            return Err(
                CompileError::new(
                    ErrorKind::AssocFnCalledAsMethod { owner: def.name.clone(), function_name: text.to_string() },
                    span,
                ),
            );
        }
        // Track this method as referenced (for lazy analysis)
        ctx.record_method_reference(method_table_key(id, method));
        Ok(MethodReceiver::User { struct_id: id, info })
    }

    /// Check the arguments of a call of a struct's method or associated
    /// function before they are analyzed: as many as its parameters (after
    /// `self`), and `inout` and `borrow` arguments exclusive.
    pub fn check_method_args(&self, info: MethodInfo, args: &[CallArg], span: Span) -> (r: Result<(), CompileError>)
        requires
            self.rir.wf(),
            forall|i: int| 0 <= i < args@.len() ==> #[trigger] args@[i].value < self.rir.instructions@.len(),
            forall|i: int| 0 <= i < args@.len() ==> (#[trigger] root_variable(self.rir, args@[i].value) matches Some(v)
                ==> interned(self.interner).contains_key(v)),
        ensures
            args@.len() != info.params.len ==> (r matches Err(e) && e.span == span && e.kind == (
            ErrorKind::WrongArgumentCount { expected: info.params.len as usize, found: args@.len() as usize })),
            args@.len() == info.params.len ==> if forall|i: int|
                0 <= i < args@.len() ==> #[trigger] violation_at(self.rir, args@, i) is None {
                r is Ok
            } else {
                r matches Err(e) && reports_first_violation(self.rir, args@, e, span, interned(self.interner))
            },
    {
        if args.len() != info.params.len as usize {
            return Err(
                CompileError::new(
                    ErrorKind::WrongArgumentCount { expected: info.params.len as usize, found: args.len() },
                    span,
                ),
            );
        }
        self.check_exclusive_access(args, span)
    }

    /// The name a struct's method is called by: `Type.method`.
    pub fn method_call_name(&mut self, struct_id: u32, method: Sym) -> (k: Sym)
        requires
            struct_id < old(self).type_pool.structs@.len(),
            interned(old(self).interner).contains_key(method),
            interned(old(self).interner).dom().finite(),
            interned(old(self).interner).dom().len() + 2 < u32::MAX,
        ensures
            ({
                let text = old(self).type_pool.structs@[struct_id as int].name@ + "."@ + interned(
                    old(self).interner,
                )[method];
                &&& interned(final(self).interner) == interned(old(self).interner).insert(k, text)
                &&& interned(old(self).interner).contains_key(k) ==> interned(old(self).interner)[k] == text
            }),
            final(self).rir == old(self).rir,
            final(self).type_pool == old(self).type_pool,
            final(self).functions == old(self).functions,
            final(self).methods == old(self).methods,
            final(self).structs == old(self).structs,
            final(self).enums == old(self).enums,
            final(self).builtin_string_id == old(self).builtin_string_id,
    {
        let name = String::from_str(self.type_pool.structs[struct_id as usize].name.as_str()).concat(".").concat(
            self.resolve(method),
        );
        intern(&mut self.interner, name.as_str())
    }

    /// The name a built-in method's runtime function is called by.
    pub fn runtime_fn_name(&mut self, method: &BuiltinMethod) -> (k: Sym)
        requires
            interned(old(self).interner).dom().finite(),
            interned(old(self).interner).dom().len() + 2 < u32::MAX,
        ensures
            interned(final(self).interner) == interned(old(self).interner).insert(k, method.runtime_fn@),
            interned(old(self).interner).contains_key(k) ==> interned(old(self).interner)[k] == method.runtime_fn@,
            final(self).rir == old(self).rir,
            final(self).type_pool == old(self).type_pool,
            final(self).functions == old(self).functions,
            final(self).methods == old(self).methods,
            final(self).structs == old(self).structs,
            final(self).enums == old(self).enums,
            final(self).builtin_string_id == old(self).builtin_string_id,
    {
        intern(&mut self.interner, method.runtime_fn.as_str())
    }

    /// Begin a call of a built-in type's method, once the receiver is
    /// analyzed: the method must exist and take as many arguments. A method
    /// that borrows or mutates its receiver does not move the receiver's
    /// variable (which analyzing the receiver may have recorded).
    pub fn begin_builtin_method<'b>(
        &self,
        ctx: &mut AnalysisContext,
        def: &'b BuiltinTypeDef,
        method_name: &str,
        receiver_var: Option<Sym>,
        arg_count: usize,
        span: Span,
    ) -> (r: Result<&'b BuiltinMethod, CompileError>)
        ensures
            final(ctx).locals == old(ctx).locals,
            final(ctx).params == old(ctx).params,
            final(ctx).used_locals == old(ctx).used_locals,
            final(ctx).scope_stack == old(ctx).scope_stack,
            final(ctx).warnings == old(ctx).warnings,
            match first_method(def.methods@, method_name@) {
                None => {
                    &&& final(ctx).moved_vars == old(ctx).moved_vars
                    &&& r matches Err(e) && e.span == span && (e.kind matches ErrorKind::UndefinedMethod {
                        owner,
                        method_name: m,
                    } && owner@ == def.name@ && m@ == method_name@)
                },
                Some(j) => {
                    let m = def.methods@[j];
                    &&& if m.receiver_mode != ReceiverMode::ByValue && receiver_var is Some {
                        final(ctx).moved_vars@ == old(ctx).moved_vars@.remove(receiver_var->0)
                    } else {
                        final(ctx).moved_vars@ == old(ctx).moved_vars@
                    }
                    &&& if arg_count != m.params@.len() {
                        r matches Err(e) && e.span == span && e.kind == (ErrorKind::WrongArgumentCount {
                            expected: m.params@.len() as usize,
                            found: arg_count,
                        })
                    } else {
                        r == Ok::<&BuiltinMethod, CompileError>(&def.methods@[j])
                    }
                },
            },
    {
        let method = match def.find_method(method_name) {
            Some(m) => m,
            None => {
                return Err(
                    CompileError::new(
                        ErrorKind::UndefinedMethod { owner: def.name.clone(), method_name: method_name.to_string() },
                        span,
                    ),
                );
            },
        };
        match method.receiver_mode {
            ReceiverMode::ByRef | ReceiverMode::ByMutRef => match receiver_var {
                Some(v) => {
                    ctx.moved_vars.remove(&v);
                },
                None => {},
            },
            ReceiverMode::ByValue => {},
        }
        if arg_count != method.params.len() {
            return Err(
                CompileError::new(
                    ErrorKind::WrongArgumentCount { expected: method.params.len(), found: arg_count },
                    span,
                ),
            );
        }
        Ok(method)
    }

    /// Check an analyzed argument of a built-in method against its
    /// parameter: the types must agree, except that an error type is
    /// accepted, and so is the built-in `String` for a parameter of the
    /// method's own type.
    pub fn check_builtin_arg(&self, param: BuiltinParamType, struct_id: u32, arg_ty: Type, span: Span) -> (r: Result<
        (),
        CompileError,
    >)
        ensures
            ({
                let expected = builtin_param_type(param, struct_id);
                let string_for_self = param == BuiltinParamType::SelfType && (arg_ty matches Type::Struct(id)
                    && self.builtin_string_id == Some(id));
                let accepted = arg_ty == expected || arg_ty is Error || string_for_self;
                if accepted {
                    r is Ok
                } else {
                    r matches Err(e) && e.span == span && (e.kind matches ErrorKind::TypeMismatch { expected: x, found }
                        && x@ == name_of_type(expected) && found@ == name_of_type(arg_ty))
                }
            }),
    {
        let expected = match param {
            BuiltinParamType::U64 => Type::U64,
            BuiltinParamType::U8 => Type::U8,
            BuiltinParamType::Bool => Type::Bool,
            BuiltinParamType::SelfType => Type::Struct(struct_id),
        };
        let self_param = match param {
            BuiltinParamType::SelfType => true,
            _ => false,
        };
        if arg_ty != expected && !arg_ty.is_error() && !(self.is_builtin_string(arg_ty) && self_param) {
            return Err(
                CompileError::new(ErrorKind::TypeMismatch { expected: expected.name(), found: arg_ty.name() }, span),
            );
        }
        Ok(())
    }
}

impl<'a> Sema<'a> {
    /// What the type of an associated function call `Type::f(..)` names: a
    /// type bound at compile time, else a struct; a built-in type, or a
    /// struct with an associated function (taking no `self`) of that name.
    pub fn assoc_fn_owner(
        &self,
        builtins: &[BuiltinTypeDef],
        ctx: &AnalysisContext,
        type_sym: Sym,
        function: Sym,
        span: Span,
    ) -> (r: Result<AssocFnOwner, CompileError>)
        requires
            interned(self.interner).contains_key(type_sym),
            interned(self.interner).contains_key(function),
            forall|k: Sym| #[trigger] self.structs@.contains_key(k) ==> self.structs@[k] < self.type_pool.structs@.len(),
            forall|k: Sym| #[trigger]
                ctx.comptime_type_vars@.contains_key(k) ==> (ctx.comptime_type_vars@[k] matches Type::Struct(id)
                    ==> id < self.type_pool.structs@.len()),
        ensures
            ({
                let names = interned(self.interner);
                let text = names[type_sym];
                let fname = names[function];
                let resolved: Option<u32> = if ctx.comptime_type_vars@.contains_key(type_sym) {
                    match ctx.comptime_type_vars@[type_sym] {
                        Type::Struct(id) => Some(id),
                        _ => None,
                    }
                } else if self.structs@.contains_key(type_sym) {
                    Some(self.structs@[type_sym])
                } else {
                    None
                };
                match resolved {
                    None => if ctx.comptime_type_vars@.contains_key(type_sym) {
                        r matches Err(e) && e.span == span && (e.kind matches ErrorKind::TypeMismatch { expected, found }
                            && expected@ == "struct type"@ && found@ == name_of_type(ctx.comptime_type_vars@[type_sym]))
                    } else {
                        r matches Err(e) && e.span == span && (e.kind matches ErrorKind::UnknownType(n) && n@ == text)
                    },
                    Some(id) => {
                        let def = self.type_pool.structs@[id as int];
                        let key = method_key(id, function);
                        if def.is_builtin && first_named(builtins@, def.name@) is Some {
                            r matches Ok(AssocFnOwner::Builtin { struct_id }) && struct_id == id
                        } else if !self.methods@.contains_key(key) {
                            r matches Err(e) && e.span == span && (e.kind matches ErrorKind::UndefinedAssocFn {
                                owner,
                                function_name,
                            } && owner@ == text && function_name@ == fname)
                        } else if self.methods@[key].has_self {
                            r matches Err(e) && e.span == span && (e.kind matches ErrorKind::MethodCalledAsAssocFn {
                                owner,
                                method_name,
                            } && owner@ == text && method_name@ == fname)
                        } else {
                            r matches Ok(AssocFnOwner::User { struct_id, info }) && struct_id == id && info
                                == self.methods@[key]
                        }
                    },
                }
            }),
    {
        let text = self.resolve(type_sym);
        let id = match ctx.comptime_type_vars.get(&type_sym) {
            Some(ty) => match *ty {
                Type::Struct(id) => id,
                _ => {
                    return Err(
                        CompileError::new(
                            ErrorKind::TypeMismatch { expected: "struct type".to_string(), found: ty.name() },
                            span,
                        ),
                    );
                },
            },
            None => match self.structs.get(&type_sym) {
                Some(id) => *id,
                None => {
                    return Err(CompileError::new(ErrorKind::UnknownType(text.to_string()), span));
                },
            },
        };
        if self.get_builtin_type_def(id, builtins).is_some() {
            return Ok(AssocFnOwner::Builtin { struct_id: id });
        }
        let fname = self.resolve(function);
        let info = match self.methods.get(&method_table_key(id, function)) {
            Some(info) => *info,
            None => {
                return Err(
                    CompileError::new(
                        ErrorKind::UndefinedAssocFn { owner: text.to_string(), function_name: fname.to_string() },
                        span,
                    ),
                );
            },
        };
        if info.has_self {
            return Err(
                CompileError::new(
                    ErrorKind::MethodCalledAsAssocFn { owner: text.to_string(), method_name: fname.to_string() },
                    span,
                ),
            );
        }
        Ok(AssocFnOwner::User { struct_id: id, info })
    }

    /// The name a struct's associated function is called by: `Type::f`,
    /// with the struct's own name (an anonymous struct's internal one).
    pub fn assoc_fn_call_name(&mut self, struct_id: u32, function: Sym) -> (k: Sym)
        requires
            struct_id < old(self).type_pool.structs@.len(),
            interned(old(self).interner).contains_key(function),
            interned(old(self).interner).dom().finite(),
            interned(old(self).interner).dom().len() + 2 < u32::MAX,
        ensures
            ({
                let text = old(self).type_pool.structs@[struct_id as int].name@ + "::"@ + interned(
                    old(self).interner,
                )[function];
                &&& interned(final(self).interner) == interned(old(self).interner).insert(k, text)
                &&& interned(old(self).interner).contains_key(k) ==> interned(old(self).interner)[k] == text
            }),
            final(self).rir == old(self).rir,
            final(self).type_pool == old(self).type_pool,
            final(self).functions == old(self).functions,
            final(self).methods == old(self).methods,
            final(self).structs == old(self).structs,
            final(self).enums == old(self).enums,
            final(self).builtin_string_id == old(self).builtin_string_id,
    {
        let name = String::from_str(self.type_pool.structs[struct_id as usize].name.as_str()).concat("::").concat(
            self.resolve(function),
        );
        intern(&mut self.interner, name.as_str())
    }
}

/// Begin a call of a built-in type's associated function: it must exist
/// and take as many arguments.
pub fn begin_builtin_assoc_fn<'b>(def: &'b BuiltinTypeDef, function_name: &str, arg_count: usize, span: Span) -> (r:
    Result<&'b BuiltinAssociatedFn, CompileError>)
    ensures
        match first_assoc_fn(def.associated_fns@, function_name@) {
            None => r matches Err(e) && e.span == span && (e.kind matches ErrorKind::UndefinedAssocFn {
                owner,
                function_name: f,
            } && owner@ == def.name@ && f@ == function_name@),
            Some(j) => {
                let f = def.associated_fns@[j];
                if arg_count != f.params@.len() {
                    r matches Err(e) && e.span == span && e.kind == (ErrorKind::WrongArgumentCount {
                        expected: f.params@.len() as usize,
                        found: arg_count,
                    })
                } else {
                    r == Ok::<&BuiltinAssociatedFn, CompileError>(&def.associated_fns@[j])
                }
            },
        },
{
    let f = match find_associated_fn(def, function_name) {
        Some(f) => f,
        None => {
            return Err(
                CompileError::new(
                    ErrorKind::UndefinedAssocFn { owner: def.name.clone(), function_name: function_name.to_string() },
                    span,
                ),
            );
        },
    };
    if arg_count != f.params.len() {
        return Err(
            CompileError::new(ErrorKind::WrongArgumentCount { expected: f.params.len(), found: arg_count }, span),
        );
    }
    Ok(f)
}

/// Check an analyzed argument of a built-in associated function against
/// its parameter: the types must agree, except that an error type is accepted.
pub fn check_builtin_assoc_arg(param: BuiltinParamType, struct_id: u32, arg_ty: Type, span: Span) -> (r: Result<
    (),
    CompileError,
>)
    ensures
        ({
            let expected = builtin_param_type(param, struct_id);
            if arg_ty == expected || arg_ty is Error {
                r is Ok
            } else {
                r matches Err(e) && e.span == span && (e.kind matches ErrorKind::TypeMismatch { expected: x, found }
                    && x@ == name_of_type(expected) && found@ == name_of_type(arg_ty))
            }
        }),
{
    let expected = match param {
        BuiltinParamType::U64 => Type::U64,
        BuiltinParamType::U8 => Type::U8,
        BuiltinParamType::Bool => Type::Bool,
        BuiltinParamType::SelfType => Type::Struct(struct_id),
    };
    if arg_ty != expected && !arg_ty.is_error() {
        return Err(CompileError::new(ErrorKind::TypeMismatch { expected: expected.name(), found: arg_ty.name() }, span));
    }
    Ok(())
}

} // verus!
