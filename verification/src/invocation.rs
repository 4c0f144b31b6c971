//! Calls of functions: the checks a call must pass before its arguments
//! are analyzed, what analyzing an `inout` or `borrow` argument leaves
//! behind, and the call that is emitted.
use vstd::prelude::*;

use crate::air::{Air, AirArgMode, AirInst, AirInstData};
use crate::calls::{reports, root_variable, violation_at};
use crate::consteval::{const_value, try_evaluate_const_in_rir};
use crate::context::{same_except_references, AnalysisContext, AnalysisResult, ParamMode};
use crate::diag::{CompileError, ErrorKind};
use crate::interner::interned;
use crate::rir::{ArgMode, CallArg, Rir};
use crate::sema::{accessible, FunctionInfo, ParamArena, ParamRange, Sema};
use crate::types::{AirRef, Span, Sym, Type};

verus! {

/// An argument is not marked as its parameter asks: an `inout` parameter
/// needs `inout`, a `borrow` parameter needs `borrow`.
pub open spec fn mode_mismatch(m: ParamMode, a: ArgMode) -> bool {
    (m == ParamMode::Inout && a != ArgMode::Inout) || (m == ParamMode::Borrow && a != ArgMode::Borrow)
}

/// The `i`-th argument is not marked as its parameter asks.
pub open spec fn mode_bad_at(arena: &ParamArena, params: ParamRange, args: Seq<CallArg>, i: int) -> bool {
    mode_mismatch(arena.modes@[params.start + i], args[i].mode)
}

/// The first argument not marked as its parameter asks, if any.
pub open spec fn first_mode_error(arena: &ParamArena, params: ParamRange, args: Seq<CallArg>) -> Option<int> {
    if exists|i: int| 0 <= i < args.len() && #[trigger] mode_bad_at(arena, params, args, i) {
        Some(
            choose|i: int|
                0 <= i < args.len() && #[trigger] mode_bad_at(arena, params, args, i) && forall|j: int|
                    0 <= j < i ==> !#[trigger] mode_bad_at(arena, params, args, j),
        )
    } else {
        None
    }
}

/// The `i`-th argument is for a `comptime` parameter and is not a constant.
pub open spec fn comptime_bad_at(rir: &Rir, arena: &ParamArena, params: ParamRange, args: Seq<CallArg>, i: int) -> bool {
    arena.comptime@[params.start + i] && const_value(rir, args[i].value) is None
}

/// The first argument for a `comptime` parameter that is not a constant, if any.
pub open spec fn first_comptime_error(rir: &Rir, arena: &ParamArena, params: ParamRange, args: Seq<CallArg>) -> Option<
    int,
> {
    if exists|i: int| 0 <= i < args.len() && #[trigger] comptime_bad_at(rir, arena, params, args, i) {
        Some(
            choose|i: int|
                0 <= i < args.len() && #[trigger] comptime_bad_at(rir, arena, params, args, i) && forall|j: int|
                    0 <= j < i ==> !#[trigger] comptime_bad_at(rir, arena, params, args, j),
        )
    } else {
        None
    }
}

/// `e` reports the first argument that breaks the exclusivity rules.
pub open spec fn reports_first_violation(rir: &Rir, args: Seq<CallArg>, e: CompileError, call_span: Span, names: Map<
    Sym,
    Seq<char>,
>) -> bool {
    exists|i: int|
        0 <= i < args.len() && #[trigger] violation_at(rir, args, i) is Some && (forall|j: int|
            0 <= j < i ==> #[trigger] violation_at(rir, args, j) is None) && reports(
            e,
            violation_at(rir, args, i)->0,
            rir.instructions@[args[i].value as int].span,
            call_span,
            names,
        )
}

/// The help given for a `comptime` parameter that got no constant.
pub open spec fn comptime_help(param: Seq<char>) -> Seq<char> {
    "parameter '"@ + param + "' is declared as 'comptime' and requires a compile-time known value"@
}

proof fn lemma_first_mode_error(arena: &ParamArena, params: ParamRange, args: Seq<CallArg>, k: int)
    requires
        0 <= k < args.len(),
        mode_bad_at(arena, params, args, k),
        forall|j: int| 0 <= j < k ==> !#[trigger] mode_bad_at(arena, params, args, j),
    ensures
        first_mode_error(arena, params, args) == Some(k),
{
    let w = choose|w: int|
        0 <= w < args.len() && #[trigger] mode_bad_at(arena, params, args, w) && forall|j: int|
            0 <= j < w ==> !#[trigger] mode_bad_at(arena, params, args, j);
    assert(0 <= w < args.len() && mode_bad_at(arena, params, args, w) && forall|j: int|
        0 <= j < w ==> !#[trigger] mode_bad_at(arena, params, args, j));
}

proof fn lemma_first_comptime_error(rir: &Rir, arena: &ParamArena, params: ParamRange, args: Seq<CallArg>, k: int)
    requires
        0 <= k < args.len(),
        comptime_bad_at(rir, arena, params, args, k),
        forall|j: int| 0 <= j < k ==> !#[trigger] comptime_bad_at(rir, arena, params, args, j),
    ensures
        first_comptime_error(rir, arena, params, args) == Some(k),
{
    let w = choose|w: int|
        0 <= w < args.len() && #[trigger] comptime_bad_at(rir, arena, params, args, w) && forall|j: int|
            0 <= j < w ==> !#[trigger] comptime_bad_at(rir, arena, params, args, j);
    assert(0 <= w < args.len() && comptime_bad_at(rir, arena, params, args, w) && forall|j: int|
        0 <= j < w ==> !#[trigger] comptime_bad_at(rir, arena, params, args, j));
}

/// The word an argument's passing mode is encoded as in a call.
pub open spec fn mode_code(m: AirArgMode) -> u32 {
    match m {
        AirArgMode::Normal => 0,
        AirArgMode::Inout => 1,
        AirArgMode::Borrow => 2,
    }
}

/// The words a call's arguments are encoded as: each value, then its mode.
pub open spec fn encode_call_args(args: Seq<(AirRef, AirArgMode)>) -> Seq<u32>
    decreases args.len(),
{
    if args.len() == 0 {
        Seq::empty()
    } else {
        encode_call_args(args.drop_last()) + seq![args.last().0, mode_code(args.last().1)]
    }
}

impl<'a> Sema<'a> {
    /// Check a call `name(args)` before its arguments are analyzed: the
    /// function must exist and take as many arguments; `inout` and `borrow`
    /// arguments must be exclusive; each argument must be marked as its
    /// parameter asks; and each argument for a `comptime` parameter must be
    /// a constant. Returns the function. A call of a known function is
    /// recorded in the context (for lazy analysis), whatever else is wrong
    /// with it.
    #[verifier::rlimit(60)]
    pub fn check_call(&self, ctx: &mut AnalysisContext, name: Sym, args: &[CallArg], span: Span) -> (r: Result<
        FunctionInfo,
        CompileError,
    >)
        requires
            self.rir.wf(),
            interned(self.interner).contains_key(name),
            forall|i: int| 0 <= i < args@.len() ==> #[trigger] args@[i].value < self.rir.instructions@.len(),
            forall|i: int| 0 <= i < args@.len() ==> (#[trigger] root_variable(self.rir, args@[i].value) matches Some(v)
                ==> interned(self.interner).contains_key(v)),
            self.param_arena.wf(),
            self.functions@.contains_key(name) ==> ({
                let p = self.functions@[name].params;
                &&& self.param_arena.holds(p)
                &&& forall|j: int|
                    p.start <= j < p.start + p.len ==> interned(self.interner).contains_key(
                        #[trigger] self.param_arena.names@[j],
                    )
            }),
        ensures
            final(ctx).referenced_functions@ == (if self.functions@.contains_key(name) {
                old(ctx).referenced_functions@.insert(name)
            } else {
                old(ctx).referenced_functions@
            }),
            final(ctx).referenced_methods == old(ctx).referenced_methods,
            same_except_references(old(ctx), final(ctx)),
            ({
                let names = interned(self.interner);
                if !self.functions@.contains_key(name) {
                    r matches Err(e) && e.span == span && (e.kind matches ErrorKind::UndefinedFunction(n) && n@
                        == names[name])
                } else {
                    let info = self.functions@[name];
                    let p = info.params;
                    if args@.len() != p.len {
                        r matches Err(e) && e.span == span && e.kind == (ErrorKind::WrongArgumentCount {
                            expected: p.len as usize,
                            found: args@.len() as usize,
                        })
                    } else if !(forall|i: int| 0 <= i < args@.len() ==> #[trigger] violation_at(self.rir, args@, i) is None) {
                        r matches Err(e) && reports_first_violation(self.rir, args@, e, span, names)
                    } else {
                        match first_mode_error(&self.param_arena, p, args@) {
                            Some(i) => r matches Err(e) && e.span == self.rir.instructions@[args@[i].value as int].span
                                && e.kind == if self.param_arena.modes@[p.start + i] == ParamMode::Inout {
                                ErrorKind::InoutKeywordMissing
                            } else {
                                ErrorKind::BorrowKeywordMissing
                            },
                            None => match first_comptime_error(self.rir, &self.param_arena, p, args@) {
                                Some(i) => {
                                    let pn = names[self.param_arena.names@[p.start + i]];
                                    r matches Err(e) && e.span == self.rir.instructions@[args@[i].value as int].span
                                        && (e.kind matches ErrorKind::ComptimeArgNotConst { param_name } && param_name@
                                        == pn) && (e.help matches Some(h) && h@ == comptime_help(pn))
                                },
                                None => r == Ok::<FunctionInfo, CompileError>(info),
                            },
                        }
                    }
                }
            }),
    {
        let info = match self.functions.get(&name) {
            Some(info) => *info,
            None => {
                return Err(CompileError::new(ErrorKind::UndefinedFunction(self.resolve(name).to_string()), span));
            },
        };
        // Track this function as referenced (for lazy analysis)
        ctx.record_function_reference(name);
        let p = info.params;
        if args.len() != p.len as usize {
            return Err(
                CompileError::new(ErrorKind::WrongArgumentCount { expected: p.len as usize, found: args.len() }, span),
            );
        }
        match self.check_exclusive_access(args, span) {
            Ok(()) => {},
            Err(e) => {
                return Err(e);
            },
        }
        // Argument modes
        let mut i: usize = 0;
        while i < args.len()
            invariant
                ctx.referenced_functions@ == old(ctx).referenced_functions@.insert(name),
                ctx.referenced_methods == old(ctx).referenced_methods,
                same_except_references(old(ctx), ctx),
                i <= args@.len(),
                args@.len() == p.len,
                self.functions@.contains_key(name),
                info == self.functions@[name],
                p == info.params,
                forall|k: int| 0 <= k < args@.len() ==> #[trigger] violation_at(self.rir, args@, k) is None,
                self.param_arena.wf(),
                self.param_arena.holds(p),
                self.rir.wf(),
                forall|k: int| 0 <= k < args@.len() ==> #[trigger] args@[k].value < self.rir.instructions@.len(),
                forall|j: int| 0 <= j < i ==> !#[trigger] mode_bad_at(&self.param_arena, p, args@, j),
            decreases args@.len() - i,
        {
            let arena_len = self.param_arena.modes.len();
            let at = (p.start as usize) + i;
            let mode = self.param_arena.modes[at];
            let arg_mode = args[i].mode;
            let missing = match mode {
                ParamMode::Inout => match arg_mode {
                    ArgMode::Inout => None,
                    _ => Some(ErrorKind::InoutKeywordMissing),
                },
                ParamMode::Borrow => match arg_mode {
                    ArgMode::Borrow => None,
                    _ => Some(ErrorKind::BorrowKeywordMissing),
                },
                _ => None,
            };
            match missing {
                Some(kind) => {
                    proof {
                        lemma_first_mode_error(&self.param_arena, p, args@, i as int);
                    }
                    return Err(CompileError::new(kind, self.rir.get(args[i].value).span));
                },
                None => {},
            }
            i = i + 1;
        }
        // Arguments for comptime parameters must be constants
        let mut i: usize = 0;
        while i < args.len()
            invariant
                ctx.referenced_functions@ == old(ctx).referenced_functions@.insert(name),
                ctx.referenced_methods == old(ctx).referenced_methods,
                same_except_references(old(ctx), ctx),
                i <= args@.len(),
                args@.len() == p.len,
                self.functions@.contains_key(name),
                info == self.functions@[name],
                p == info.params,
                forall|k: int| 0 <= k < args@.len() ==> #[trigger] violation_at(self.rir, args@, k) is None,
                first_mode_error(&self.param_arena, p, args@) is None,
                self.param_arena.wf(),
                self.param_arena.holds(p),
                self.rir.wf(),
                forall|k: int| 0 <= k < args@.len() ==> #[trigger] args@[k].value < self.rir.instructions@.len(),
                forall|j: int|
                    p.start <= j < p.start + p.len ==> interned(self.interner).contains_key(
                        #[trigger] self.param_arena.names@[j],
                    ),
                forall|j: int| 0 <= j < i ==> !#[trigger] comptime_bad_at(self.rir, &self.param_arena, p, args@, j),
            decreases args@.len() - i,
        {
            let arena_len = self.param_arena.modes.len();
            let at = (p.start as usize) + i;
            if self.param_arena.comptime[at] {
                if try_evaluate_const_in_rir(self.rir, args[i].value).is_none() {
                    proof {
                        lemma_first_comptime_error(self.rir, &self.param_arena, p, args@, i as int);
                    }
                    let param_name = self.resolve(self.param_arena.names[at]);
                    let help = String::from_str("parameter '").concat(param_name).concat(
                        "' is declared as 'comptime' and requires a compile-time known value",
                    );
                    return Err(
                        CompileError::new(
                            ErrorKind::ComptimeArgNotConst { param_name: param_name.to_string() },
                            self.rir.get(args[i].value).span,
                        ).with_help(help),
                    );
                }
            }
            i = i + 1;
        }
        Ok(info)
    }

    /// Check a call `module.f(args)` of a module's function before its
    /// arguments are analyzed: the function must exist and be visible from
    /// the call's file, take as many arguments, and each argument must be
    /// marked as its parameter asks. Returns the function. A call of a
    /// known function is recorded in the context (for lazy analysis).
    pub fn check_module_member_call(&self, ctx: &mut AnalysisContext, function: Sym, args: &[CallArg], span: Span) -> (r: Result<
        FunctionInfo,
        CompileError,
    >)
        requires
            self.rir.wf(),
            interned(self.interner).contains_key(function),
            forall|i: int| 0 <= i < args@.len() ==> #[trigger] args@[i].value < self.rir.instructions@.len(),
            self.param_arena.wf(),
            self.functions@.contains_key(function) ==> self.param_arena.holds(self.functions@[function].params),
        ensures
            final(ctx).referenced_functions@ == (if self.functions@.contains_key(function) {
                old(ctx).referenced_functions@.insert(function)
            } else {
                old(ctx).referenced_functions@
            }),
            final(ctx).referenced_methods == old(ctx).referenced_methods,
            same_except_references(old(ctx), final(ctx)),
            ({
                let text = interned(self.interner)[function];
                if !self.functions@.contains_key(function) {
                    r matches Err(e) && e.span == span && (e.kind matches ErrorKind::UndefinedFunction(n) && n@ == text)
                } else {
                    let info = self.functions@[function];
                    let p = info.params;
                    if !accessible(self.file_paths@, span.file_id, info.file_id, info.is_pub) {
                        r matches Err(e) && e.span == span && (e.kind matches ErrorKind::PrivateMemberAccess {
                            item_kind,
                            name,
                        } && item_kind@ == "function"@ && name@ == text)
                    } else if args@.len() != p.len {
                        r matches Err(e) && e.span == span && e.kind == (ErrorKind::WrongArgumentCount {
                            expected: p.len as usize,
                            found: args@.len() as usize,
                        })
                    } else {
                        match first_mode_error(&self.param_arena, p, args@) {
                            Some(i) => r matches Err(e) && e.span == self.rir.instructions@[args@[i].value as int].span
                                && e.kind == if self.param_arena.modes@[p.start + i] == ParamMode::Inout {
                                ErrorKind::InoutKeywordMissing
                            } else {
                                ErrorKind::BorrowKeywordMissing
                            },
                            None => r == Ok::<FunctionInfo, CompileError>(info),
                        }
                    }
                }
            }),
    {
        let text = self.resolve(function);
        let info = match self.functions.get(&function) {
            Some(info) => *info,
            None => {
                return Err(CompileError::new(ErrorKind::UndefinedFunction(text.to_string()), span));
            },
        };
        // Track this function as referenced (for lazy analysis)
        ctx.record_function_reference(function);
        if !self.is_accessible(span.file_id, info.file_id, info.is_pub) {
            return Err(
                CompileError::new(
                    ErrorKind::PrivateMemberAccess { item_kind: "function".to_string(), name: text.to_string() },
                    span,
                ),
            );
        }
        let p = info.params;
        if args.len() != p.len as usize {
            return Err(
                CompileError::new(ErrorKind::WrongArgumentCount { expected: p.len as usize, found: args.len() }, span),
            );
        }
        let mut i: usize = 0;
        while i < args.len()
            invariant
                ctx.referenced_functions@ == old(ctx).referenced_functions@.insert(function),
                ctx.referenced_methods == old(ctx).referenced_methods,
                same_except_references(old(ctx), ctx),
                i <= args@.len(),
                args@.len() == p.len,
                self.functions@.contains_key(function),
                info == self.functions@[function],
                p == info.params,
                accessible(self.file_paths@, span.file_id, info.file_id, info.is_pub),
                self.param_arena.wf(),
                self.param_arena.holds(p),
                self.rir.wf(),
                forall|k: int| 0 <= k < args@.len() ==> #[trigger] args@[k].value < self.rir.instructions@.len(),
                forall|j: int| 0 <= j < i ==> !#[trigger] mode_bad_at(&self.param_arena, p, args@, j),
            decreases args@.len() - i,
        {
            let arena_len = self.param_arena.modes.len();
            let at = (p.start as usize) + i;
            let missing = match self.param_arena.modes[at] {
                ParamMode::Inout => match args[i].mode {
                    ArgMode::Inout => None,
                    _ => Some(ErrorKind::InoutKeywordMissing),
                },
                ParamMode::Borrow => match args[i].mode {
                    ArgMode::Borrow => None,
                    _ => Some(ErrorKind::BorrowKeywordMissing),
                },
                _ => None,
            };
            match missing {
                Some(kind) => {
                    proof {
                        lemma_first_mode_error(&self.param_arena, p, args@, i as int);
                    }
                    return Err(CompileError::new(kind, self.rir.get(args[i].value).span));
                },
                None => {},
            }
            i = i + 1;
        }
        Ok(info)
    }

    /// After an `inout` or `borrow` argument is analyzed, its variable is
    /// not moved: the call only borrows it. Other arguments leave the
    /// context as their analysis left it.
    pub fn release_borrowed_arg(&self, ctx: &mut AnalysisContext, arg: CallArg)
        requires
            self.rir.wf(),
            arg.value < self.rir.instructions@.len(),
        ensures
            ({
                let root = root_variable(self.rir, arg.value);
                if arg.mode != ArgMode::Normal && root is Some {
                    final(ctx).moved_vars@ == old(ctx).moved_vars@.remove(root->0)
                } else {
                    final(ctx).moved_vars@ == old(ctx).moved_vars@
                }
            }),
            final(ctx).locals == old(ctx).locals,
            final(ctx).params == old(ctx).params,
            final(ctx).used_locals == old(ctx).used_locals,
            final(ctx).scope_stack == old(ctx).scope_stack,
            final(ctx).warnings == old(ctx).warnings,
            final(ctx).loop_depth == old(ctx).loop_depth,
            final(ctx).next_slot == old(ctx).next_slot,
            final(ctx).return_type == old(ctx).return_type,
    {
        if arg.is_inout() || arg.is_borrow() {
            match self.extract_root_variable(arg.value) {
                Some(v) => {
                    ctx.moved_vars.remove(&v);
                },
                None => {},
            }
        }
    }
}

/// Emit a call once its arguments are analyzed: each argument's value and
/// mode go to the extra array in order.
pub fn emit_call(air: &mut Air, name: Sym, args: &Vec<(AirRef, AirArgMode)>, return_type: Type, span: Span) -> (r:
    AnalysisResult)
    requires
        old(air).instructions@.len() < u32::MAX,
        old(air).extra@.len() + 2 * args@.len() <= u32::MAX,
    ensures
        r == (AnalysisResult { air_ref: old(air).instructions@.len() as u32, ty: return_type }),
        final(air).extra@ == old(air).extra@ + encode_call_args(args@),
        final(air).instructions@ == old(air).instructions@.push(
            AirInst {
                data: AirInstData::Call {
                    name,
                    args_start: old(air).extra@.len() as u32,
                    args_len: args@.len() as u32,
                },
                ty: return_type,
                span,
            },
        ),
        final(air).return_type == old(air).return_type,
{
    let mut words: Vec<u32> = Vec::new();
    let mut i: usize = 0;
    while i < args.len()
        invariant
            i <= args@.len(),
            old(air).extra@.len() + 2 * args@.len() <= u32::MAX,
            words@ == encode_call_args(args@.take(i as int)),
            words@.len() == 2 * i,
        decreases args@.len() - i,
    {
        let (value, mode) = args[i];
        let code: u32 = match mode {
            AirArgMode::Normal => 0,
            AirArgMode::Inout => 1,
            AirArgMode::Borrow => 2,
        };
        words.push(value);
        words.push(code);
        proof {
            assert(args@.take(i + 1).drop_last() =~= args@.take(i as int));
        }
        i = i + 1;
    }
    assert(args@.take(i as int) =~= args@);
    let args_start = air.add_extra(words.as_slice());
    let air_ref = air.add_inst(
        AirInst { data: AirInstData::Call { name, args_start, args_len: args.len() as u32 }, ty: return_type, span },
    );
    AnalysisResult::new(air_ref, return_type)
}

} // verus!
