//! Checks made when a scope ends: unused variables and unconsumed linear values.
use vstd::prelude::*;

use crate::context::{AnalysisContext, CompileWarning, LocalVar, ScopeEntry, WarningKind, frames};
use crate::diag::{CompileError, ErrorKind};
use crate::interner::interned;
use crate::moves::VariableMoveState;
use crate::sema::Sema;
use crate::types::{Span, Sym};

verus! {

/// The abstract content of a warning: whether it is about an unused
/// variable, its message text, span and help text.
pub open spec fn warning_view(w: CompileWarning) -> (bool, Seq<char>, Span, Option<Seq<char>>) {
    let help = match w.help {
        Some(h) => Some(h@),
        None => None,
    };
    match w.kind {
        WarningKind::UnusedVariable(name) => (true, name@, w.span, help),
        WarningKind::UnreachablePattern(p) => (false, p@, w.span, help),
    }
}

/// The abstract warnings of a list.
pub open spec fn warnings_view(ws: Seq<CompileWarning>) -> Seq<(bool, Seq<char>, Span, Option<Seq<char>>)> {
    ws.map_values(|w: CompileWarning| warning_view(w))
}

/// The help text suggested for an unused variable.
pub open spec fn unused_help(name: Seq<char>) -> Seq<char> {
    "if this is intentional, prefix it with an underscore: `_"@ + name + "`"@
}

/// An entry of the current scope is an unused variable to warn about: it is
/// not read, still bound, its name does not start with `_`, and it is not
/// marked `@allow(unused_variable)`.
pub open spec fn warns_unused(
    sym: Sym,
    locals: Map<Sym, LocalVar>,
    used: Set<Sym>,
    names: Map<Sym, Seq<char>>,
) -> bool {
    &&& !used.contains(sym)
    &&& locals.contains_key(sym)
    &&& !(names[sym].len() > 0 && names[sym][0] == '_')
    &&& !locals[sym].allow_unused
}

/// The unused-variable warnings for scope entries, in order.
pub open spec fn unused_warnings(
    entries: Seq<ScopeEntry>,
    locals: Map<Sym, LocalVar>,
    used: Set<Sym>,
    names: Map<Sym, Seq<char>>,
) -> Seq<(bool, Seq<char>, Span, Option<Seq<char>>)>
    decreases entries.len(),
{
    if entries.len() == 0 {
        Seq::empty()
    } else {
        let rest = unused_warnings(entries.drop_last(), locals, used, names);
        let sym = entries.last().0;
        if warns_unused(sym, locals, used, names) {
            rest.push((true, names[sym], locals[sym].span, Some(unused_help(names[sym]))))
        } else {
            rest
        }
    }
}

/// A scope entry holds a linear value that was not consumed (fully moved).
pub open spec fn unconsumed_linear(
    sema: &Sema,
    sym: Sym,
    locals: Map<Sym, LocalVar>,
    moved: Map<Sym, VariableMoveState>,
) -> bool {
    &&& locals.contains_key(sym)
    &&& sema.type_pool.is_linear(locals[sym].ty)
    &&& !(moved.contains_key(sym) && moved[sym]@.full is Some)
}

/// No entry of a scope holds an unconsumed linear value.
pub open spec fn no_unconsumed(
    sema: &Sema,
    entries: Seq<ScopeEntry>,
    locals: Map<Sym, LocalVar>,
    moved: Map<Sym, VariableMoveState>,
) -> bool {
    forall|i: int| 0 <= i < entries.len() ==> !#[trigger] unconsumed_linear(sema, entries[i].0, locals, moved)
}

/// `e` reports the first entry of a scope that holds an unconsumed linear
/// value, at the variable's declaration.
pub open spec fn reports_unconsumed(
    sema: &Sema,
    entries: Seq<ScopeEntry>,
    locals: Map<Sym, LocalVar>,
    moved: Map<Sym, VariableMoveState>,
    e: CompileError,
) -> bool {
    exists|i: int|
        0 <= i < entries.len() && #[trigger] unconsumed_linear(sema, entries[i].0, locals, moved) && (forall|j: int|
            0 <= j < i ==> !#[trigger] unconsumed_linear(sema, entries[j].0, locals, moved))
            && e.span == locals[entries[i].0].span && match e.kind {
            ErrorKind::LinearValueNotConsumed(name) => name@ == interned(sema.interner)[entries[i].0],
            _ => false,
        }
}

/// All symbols of the current scope are held by the interner.
pub open spec fn scope_names_interned(sema: &Sema, ctx: &AnalysisContext) -> bool {
    ctx.scope_stack@.len() > 0 ==> forall|i: int|
        0 <= i < ctx.scope_stack@.last()@.len() ==> #[trigger] interned(sema.interner).contains_key(
            ctx.scope_stack@.last()@[i].0,
        )
}

impl<'a> Sema<'a> {
    /// Check for unused local variables in the current scope (before popping it),
    /// adding a warning for each to the context.
    pub fn check_unused_locals_in_current_scope(&self, ctx: &mut AnalysisContext)
        requires
            scope_names_interned(self, old(ctx)),
        ensures
            final(ctx).params == old(ctx).params,
            final(ctx).next_slot == old(ctx).next_slot,
            final(ctx).loop_depth == old(ctx).loop_depth,
            final(ctx).return_type == old(ctx).return_type,
            final(ctx).resolved_types == old(ctx).resolved_types,
            final(ctx).comptime_type_vars == old(ctx).comptime_type_vars,
            final(ctx).scope_stack@ == old(ctx).scope_stack@,
            final(ctx).locals@ == old(ctx).locals@,
            final(ctx).used_locals@ == old(ctx).used_locals@,
            final(ctx).moved_vars@ == old(ctx).moved_vars@,
            old(ctx).scope_stack@.len() == 0 ==> final(ctx).warnings@ == old(ctx).warnings@,
            old(ctx).scope_stack@.len() > 0 ==> warnings_view(final(ctx).warnings@) == warnings_view(
                old(ctx).warnings@,
            ) + unused_warnings(
                old(ctx).scope_stack@.last()@,
                old(ctx).locals@,
                old(ctx).used_locals@,
                interned(self.interner),
            ),
            final(ctx).warnings@.take(old(ctx).warnings@.len() as int) == old(ctx).warnings@,
            forall|i: int|
                old(ctx).warnings@.len() <= i < final(ctx).warnings@.len() ==> (
                #[trigger] final(ctx).warnings@[i]).label is None && final(ctx).warnings@[i].note is None,
    {
        let depth = ctx.scope_stack.len();
        if depth == 0 {
            return;
        }
        let ghost entries = ctx.scope_stack@.last()@;
        let n = ctx.scope_stack[depth - 1].len();
        let mut i: usize = 0;
        while i < n
            invariant
                ctx.params == old(ctx).params,
                ctx.next_slot == old(ctx).next_slot,
                ctx.loop_depth == old(ctx).loop_depth,
                ctx.return_type == old(ctx).return_type,
                ctx.resolved_types == old(ctx).resolved_types,
                ctx.comptime_type_vars == old(ctx).comptime_type_vars,
                depth == ctx.scope_stack@.len(),
                depth > 0,
                entries == ctx.scope_stack@[depth - 1]@,
                n == entries.len(),
                i <= n,
                ctx.scope_stack@ == old(ctx).scope_stack@,
                ctx.locals@ == old(ctx).locals@,
                ctx.used_locals@ == old(ctx).used_locals@,
                ctx.moved_vars@ == old(ctx).moved_vars@,
                scope_names_interned(self, old(ctx)),
                warnings_view(ctx.warnings@) == warnings_view(old(ctx).warnings@) + unused_warnings(
                    entries.take(i as int),
                    old(ctx).locals@,
                    old(ctx).used_locals@,
                    interned(self.interner),
                ),
                ctx.warnings@.take(old(ctx).warnings@.len() as int) == old(ctx).warnings@,
                ctx.warnings@.len() >= old(ctx).warnings@.len(),
                forall|j: int|
                    old(ctx).warnings@.len() <= j < ctx.warnings@.len() ==> (
                    #[trigger] ctx.warnings@[j]).label is None && ctx.warnings@[j].note is None,
            decreases n - i,
        {
            let symbol = ctx.scope_stack[depth - 1][i].0;
            proof {
                assert(entries.take(i + 1).drop_last() =~= entries.take(i as int));
                assert(interned(self.interner).contains_key(old(ctx).scope_stack@.last()@[i as int].0));
            }
            i = i + 1;
            // Skip if variable was used
            if ctx.used_locals.contains(&symbol) {
                continue;
            }
            // Get the local var info (it is still in the locals before the pop)
            let local = match ctx.locals.get(&symbol) {
                Some(l) => *l,
                None => continue,
            };
            let name = self.resolve(symbol);
            // Skip variables starting with underscore (intentionally unused)
            if name.unicode_len() > 0 && name.get_char(0) == '_' {
                continue;
            }
            // Skip if @allow(unused_variable) was applied
            if local.allow_unused {
                continue;
            }
            let help = String::from_str("if this is intentional, prefix it with an underscore: `_").concat(name).concat("`");
            let ghost before = ctx.warnings@;
            ctx.warnings.push(
                CompileWarning {
                    kind: WarningKind::UnusedVariable(name.to_string()),
                    span: local.span,
                    help: Some(help),
                    label: None,
                    note: None,
                },
            );
            assert(warnings_view(ctx.warnings@) =~= warnings_view(before).push(warning_view(ctx.warnings@.last())));
            assert(ctx.warnings@.take(old(ctx).warnings@.len() as int) =~= before.take(
                old(ctx).warnings@.len() as int,
            ));
        }
        assert(entries.take(n as int) =~= entries);
    }

    /// Check for unconsumed linear values in the current scope (before popping it).
    /// Linear values must be consumed (moved); letting one drop implicitly is an error.
    pub fn check_unconsumed_linear_values(&self, ctx: &AnalysisContext) -> (r: Result<(), CompileError>)
        requires
            scope_names_interned(self, ctx),
        ensures
            ctx.scope_stack@.len() == 0 ==> r is Ok,
            ctx.scope_stack@.len() > 0 ==> match r {
                Ok(_) => no_unconsumed(self, ctx.scope_stack@.last()@, ctx.locals@, ctx.moved_vars@),
                Err(e) => reports_unconsumed(self, ctx.scope_stack@.last()@, ctx.locals@, ctx.moved_vars@, e),
            },
    {
        let depth = ctx.scope_stack.len();
        if depth == 0 {
            return Ok(());
        }
        let ghost entries = ctx.scope_stack@.last()@;
        let n = ctx.scope_stack[depth - 1].len();
        let mut i: usize = 0;
        while i < n
            invariant
                depth == ctx.scope_stack@.len(),
                depth > 0,
                entries == ctx.scope_stack@[depth - 1]@,
                n == entries.len(),
                i <= n,
                scope_names_interned(self, ctx),
                forall|j: int|
                    0 <= j < i ==> !#[trigger] unconsumed_linear(
                        self,
                        entries[j].0,
                        ctx.locals@,
                        ctx.moved_vars@,
                    ),
            decreases n - i,
        {
            let symbol = ctx.scope_stack[depth - 1][i].0;
            let local = match ctx.locals.get(&symbol) {
                Some(l) => *l,
                None => {
                    i = i + 1;
                    continue;
                },
            };
            // Only check linear types
            if !self.is_type_linear(local.ty) {
                i = i + 1;
                continue;
            }
            // Check if this variable was moved (consumed)
            let was_consumed = match ctx.moved_vars.get(&symbol) {
                Some(state) => state.full_move().is_some(),
                None => false,
            };
            if !was_consumed {
                proof {
                    assert(interned(self.interner).contains_key(ctx.scope_stack@.last()@[i as int].0));
                    assert(unconsumed_linear(self, entries[i as int].0, ctx.locals@, ctx.moved_vars@));
                }
                let name = self.resolve(symbol);
                return Err(CompileError::new(ErrorKind::LinearValueNotConsumed(name.to_string()), local.span));
            }
            i = i + 1;
        }
        Ok(())
    }
}

} // verus!
