use vstd::prelude::*;

use std::collections::{HashMap, HashSet};

use crate::moves::{MoveStateView, VariableMoveState};
use crate::types::{AirRef, Span, Sym, Type};

verus! {

/// Information about a local variable.
#[derive(Clone, Copy, Debug, PartialEq, Eq, Structural)]
pub struct LocalVar {
    /// Slot index for this variable
    pub slot: u32,
    /// Type of the variable
    pub ty: Type,
    /// Whether the variable is mutable
    pub is_mut: bool,
    /// Span of the variable declaration (for unused variable warnings)
    pub span: Span,
    /// Whether @allow(unused_variable) was applied to this binding
    pub allow_unused: bool,
}

/// How a parameter is passed.
#[derive(Clone, Copy, Debug, PartialEq, Eq, Structural)]
pub enum ParamMode {
    Normal,
    Inout,
    Borrow,
    Comptime,
}

/// Information about a function parameter.
#[derive(Clone, Copy, Debug, PartialEq, Eq, Structural)]
pub struct ParamInfo {
    /// Starting ABI slot for this parameter (0-based).
    pub abi_slot: u32,
    /// Parameter type
    pub ty: Type,
    /// Parameter passing mode
    pub mode: ParamMode,
}

/// A warning produced by semantic analysis.
#[derive(Debug, PartialEq, Eq)]
pub enum WarningKind {
    /// A local variable was declared and never read.
    UnusedVariable(String),
    /// A match arm's pattern can never match: it is shown as written.
    UnreachablePattern(String),
}

/// A warning, the place it is about, and a suggestion.
#[derive(Debug)]
pub struct CompileWarning {
    pub kind: WarningKind,
    pub span: Span,
    pub help: Option<String>,
    /// A second place the warning is about, and what to say there
    pub label: Option<(String, Span)>,
    /// Why it is a warning
    pub note: Option<String>,
}

/// An entry of a scope: a symbol declared in the scope and the binding it shadowed.
pub type ScopeEntry = (Sym, Option<LocalVar>);

/// The binding of `k` in `m`, if any.
pub open spec fn binding(m: Map<Sym, LocalVar>, k: Sym) -> Option<LocalVar> {
    if m.contains_key(k) {
        Some(m[k])
    } else {
        None
    }
}

/// The bindings after undoing one scope entry: a shadowed binding is put
/// back, a new one is removed.
pub open spec fn undo_entry(m: Map<Sym, LocalVar>, e: ScopeEntry) -> Map<Sym, LocalVar> {
    match e.1 {
        Some(v) => m.insert(e.0, v),
        None => m.remove(e.0),
    }
}

/// The bindings after undoing the entries of a scope, the last recorded first,
/// so that every binding the scope shadowed comes back.
pub open spec fn restore_entries(m: Map<Sym, LocalVar>, es: Seq<ScopeEntry>) -> Map<Sym, LocalVar>
    decreases es.len(),
{
    if es.len() == 0 {
        m
    } else {
        restore_entries(undo_entry(m, es.last()), es.drop_last())
    }
}

/// The views of a stack of scopes.
pub open spec fn frames(stack: Seq<Vec<ScopeEntry>>) -> Seq<Seq<ScopeEntry>> {
    stack.map_values(|f: Vec<ScopeEntry>| f@)
}

/// The move state of `s` in a branch's map (nothing moved when absent).
pub open spec fn state_of(m: Map<Sym, VariableMoveState>, s: Sym) -> MoveStateView {
    if m.contains_key(s) {
        m[s]@
    } else {
        MoveStateView { full: None, partial: Map::empty() }
    }
}

/// The move state of `s` after two non-diverging branches: the union of both.
pub open spec fn merged_state(
    t: Map<Sym, VariableMoveState>,
    e: Map<Sym, VariableMoveState>,
    s: Sym,
) -> MoveStateView {
    MoveStateView::union(state_of(t, s), state_of(e, s))
}

/// Context for analyzing instructions within a function.
///
/// Bundles together the mutable state that is threaded through the analysis
/// of a function body.
pub struct AnalysisContext {
    /// Local variables in scope
    pub locals: HashMap<Sym, LocalVar>,
    /// Function parameters
    pub params: HashMap<Sym, ParamInfo>,
    /// Next available slot for local variables
    pub next_slot: u32,
    /// How many loops we're nested inside (for break/continue validation)
    pub loop_depth: u32,
    /// Local variables that have been read (for unused variable detection)
    pub used_locals: HashSet<Sym>,
    /// Return type of the current function (for explicit return validation)
    pub return_type: Type,
    /// Scope stack: each entry lists the symbols declared in that scope with
    /// the binding each one shadowed.
    pub scope_stack: Vec<Vec<ScopeEntry>>,
    /// Resolved types from type inference, by RIR instruction.
    pub resolved_types: HashMap<u32, Type>,
    /// Variables that have been moved (for affine type checking).
    pub moved_vars: HashMap<Sym, VariableMoveState>,
    /// Warnings collected during function analysis.
    pub warnings: Vec<CompileWarning>,
    /// The function's own string table: the string literals its code refers to
    pub local_strings: Vec<String>,
    /// Names bound to types at compile time (`let P = Point();`), with the type
    pub comptime_type_vars: HashMap<Sym, Type>,
    /// Functions the body calls (for lazy analysis)
    pub referenced_functions: HashSet<Sym>,
    /// Methods the body calls, by their method-table key (for lazy analysis)
    pub referenced_methods: HashSet<u64>,
}

/// Two contexts agree on everything but the record of referenced functions and methods.
pub open spec fn same_except_references(a: &AnalysisContext, b: &AnalysisContext) -> bool {
    &&& a.locals == b.locals
    &&& a.params == b.params
    &&& a.next_slot == b.next_slot
    &&& a.loop_depth == b.loop_depth
    &&& a.used_locals == b.used_locals
    &&& a.return_type == b.return_type
    &&& a.scope_stack == b.scope_stack
    &&& a.resolved_types == b.resolved_types
    &&& a.moved_vars == b.moved_vars
    &&& a.warnings == b.warnings
    &&& a.local_strings == b.local_strings
    &&& a.comptime_type_vars == b.comptime_type_vars
}

impl AnalysisContext {
    /// A context for a function with the given parameters, inferred types and return type.
    pub fn new(
        params: HashMap<Sym, ParamInfo>,
        resolved_types: HashMap<u32, Type>,
        return_type: Type,
    ) -> (r: Self)
        ensures
            r.locals@ == Map::<Sym, LocalVar>::empty(),
            r.params@ == params@,
            r.next_slot == 0,
            r.loop_depth == 0,
            r.used_locals@ == Set::<Sym>::empty(),
            r.return_type == return_type,
            r.scope_stack@.len() == 0,
            r.resolved_types@ == resolved_types@,
            r.moved_vars@ == Map::<Sym, VariableMoveState>::empty(),
            r.warnings@.len() == 0,
            r.local_strings@.len() == 0,
            r.comptime_type_vars@ == Map::<Sym, Type>::empty(),
            r.referenced_functions@ == Set::<Sym>::empty(),
            r.referenced_methods@ == Set::<u64>::empty(),
    {
        AnalysisContext {
            locals: HashMap::new(),
            params,
            next_slot: 0,
            loop_depth: 0,
            used_locals: HashSet::new(),
            return_type,
            scope_stack: Vec::new(),
            resolved_types,
            moved_vars: HashMap::new(),
            warnings: Vec::new(),
            local_strings: Vec::new(),
            comptime_type_vars: HashMap::new(),
            referenced_functions: HashSet::new(),
            referenced_methods: HashSet::new(),
        }
    }

    /// Record that the body calls the function `name`.
    pub fn record_function_reference(&mut self, name: Sym)
        ensures
            final(self).referenced_functions@ == old(self).referenced_functions@.insert(name),
            final(self).referenced_methods == old(self).referenced_methods,
            same_except_references(old(self), final(self)),
    {
        self.referenced_functions.insert(name);
    }

    /// Record that the body calls the method with the method-table key `key`.
    pub fn record_method_reference(&mut self, key: u64)
        ensures
            final(self).referenced_methods@ == old(self).referenced_methods@.insert(key),
            final(self).referenced_functions == old(self).referenced_functions,
            same_except_references(old(self), final(self)),
    {
        self.referenced_methods.insert(key);
    }

    /// Add a string literal to the function's string table and return its index there.
    pub fn add_local_string(&mut self, s: String) -> (id: u32)
        requires
            old(self).local_strings@.len() < u32::MAX,
        ensures
            id == old(self).local_strings@.len(),
            final(self).local_strings@ == old(self).local_strings@.push(s),
            final(self).locals == old(self).locals,
            final(self).params == old(self).params,
            final(self).next_slot == old(self).next_slot,
            final(self).loop_depth == old(self).loop_depth,
            final(self).used_locals == old(self).used_locals,
            final(self).return_type == old(self).return_type,
            final(self).scope_stack == old(self).scope_stack,
            final(self).resolved_types == old(self).resolved_types,
            final(self).moved_vars == old(self).moved_vars,
            final(self).warnings == old(self).warnings,
            final(self).referenced_functions == old(self).referenced_functions,
            final(self).referenced_methods == old(self).referenced_methods,
            final(self).comptime_type_vars == old(self).comptime_type_vars,
    {
        let id = self.local_strings.len() as u32;
        self.local_strings.push(s);
        id
    }

    /// Push a new scope onto the stack.
    pub fn push_scope(&mut self)
        ensures
            frames(final(self).scope_stack@) == frames(old(self).scope_stack@).push(Seq::empty()),
            final(self).loop_depth == old(self).loop_depth,
            final(self).next_slot == old(self).next_slot,
            final(self).return_type == old(self).return_type,
            final(self).locals@ == old(self).locals@,
            final(self).moved_vars@ == old(self).moved_vars@,
            final(self).used_locals@ == old(self).used_locals@,
            final(self).warnings@ == old(self).warnings@,
            final(self).params == old(self).params,
            final(self).resolved_types == old(self).resolved_types,
            final(self).local_strings == old(self).local_strings,
            final(self).comptime_type_vars == old(self).comptime_type_vars,
            final(self).referenced_functions == old(self).referenced_functions,
            final(self).referenced_methods == old(self).referenced_methods,
    {
        self.scope_stack.push(Vec::new());
    }

    /// Pop the current scope, restoring any shadowed variables and removing new ones.
    pub fn pop_scope(&mut self)
        ensures
            old(self).scope_stack@.len() == 0 ==> final(self).scope_stack@ == old(
                self,
            ).scope_stack@ && final(self).locals@ == old(self).locals@,
            old(self).scope_stack@.len() > 0 ==> frames(final(self).scope_stack@) == frames(
                old(self).scope_stack@,
            ).drop_last() && final(self).locals@ == restore_entries(
                old(self).locals@,
                old(self).scope_stack@.last()@,
            ),
            final(self).moved_vars@ == old(self).moved_vars@,
            final(self).used_locals@ == old(self).used_locals@,
            final(self).warnings@ == old(self).warnings@,
            final(self).loop_depth == old(self).loop_depth,
            final(self).next_slot == old(self).next_slot,
            final(self).return_type == old(self).return_type,
            final(self).params == old(self).params,
            final(self).resolved_types == old(self).resolved_types,
            final(self).local_strings == old(self).local_strings,
            final(self).comptime_type_vars == old(self).comptime_type_vars,
            final(self).referenced_functions == old(self).referenced_functions,
            final(self).referenced_methods == old(self).referenced_methods,
    {
        let ghost before = self.scope_stack@;
        if let Some(scope_entries) = self.scope_stack.pop() {
            let n = scope_entries.len();
            let mut i: usize = n;
            assert(scope_entries@.take(n as int) =~= scope_entries@);
            // Undo the entries from the last recorded to the first.
            while i > 0
                invariant
                    i <= n,
                    n == scope_entries@.len(),
                    scope_entries@ == before.last()@,
                    before == old(self).scope_stack@,
                    frames(self.scope_stack@) == frames(before).drop_last(),
                    self.moved_vars@ == old(self).moved_vars@,
                    self.used_locals@ == old(self).used_locals@,
                    self.warnings@ == old(self).warnings@,
                    self.loop_depth == old(self).loop_depth,
                    self.next_slot == old(self).next_slot,
                    self.return_type == old(self).return_type,
                    self.params == old(self).params,
                    self.resolved_types == old(self).resolved_types,
                    self.local_strings == old(self).local_strings,
                    self.comptime_type_vars == old(self).comptime_type_vars,
                    self.referenced_functions == old(self).referenced_functions,
                    self.referenced_methods == old(self).referenced_methods,
                    restore_entries(self.locals@, scope_entries@.take(i as int)) == restore_entries(
                        old(self).locals@,
                        scope_entries@,
                    ),
                decreases i,
            {
                let (symbol, old_value) = scope_entries[i - 1];
                let ghost cur = self.locals@;
                proof {
                    let t = scope_entries@.take(i as int);
                    assert(t.drop_last() =~= scope_entries@.take(i - 1));
                }
                match old_value {
                    Some(old_var) => {
                        // Restore the shadowed variable
                        self.locals.insert(symbol, old_var);
                    },
                    None => {
                        // Remove the variable that was added in this scope
                        self.locals.remove(&symbol);
                    },
                }
                assert(self.locals@ =~= undo_entry(cur, scope_entries@[i - 1]));
                i = i - 1;
            }
            assert(scope_entries@.take(0) =~= Seq::<ScopeEntry>::empty());
        }
    }

    /// Merge move states from two branches.
    ///
    /// When one branch diverges, only the other branch's moves matter; when
    /// neither does, a variable is moved afterwards if it was moved in EITHER branch.
    pub fn merge_branch_moves(
        &mut self,
        then_moves: HashMap<Sym, VariableMoveState>,
        else_moves: HashMap<Sym, VariableMoveState>,
        then_diverges: bool,
        else_diverges: bool,
    )
        ensures
            then_diverges ==> final(self).moved_vars@ == (if else_diverges {
                then_moves@
            } else {
                else_moves@
            }),
            !then_diverges && else_diverges ==> final(self).moved_vars@ == then_moves@,
            !then_diverges && !else_diverges ==> forall|s: Sym|
                #[trigger] final(self).moved_vars@.contains_key(s) <==> ((then_moves@.contains_key(s)
                    || else_moves@.contains_key(s)) && !merged_state(then_moves@, else_moves@, s).is_empty()),
            !then_diverges && !else_diverges ==> forall|s: Sym|
                #[trigger] final(self).moved_vars@.contains_key(s) ==> final(self).moved_vars@[s]@
                    == merged_state(then_moves@, else_moves@, s),
            final(self).locals@ == old(self).locals@,
            final(self).scope_stack@ == old(self).scope_stack@,
            final(self).used_locals@ == old(self).used_locals@,
            final(self).warnings@ == old(self).warnings@,
            final(self).next_slot == old(self).next_slot,
            final(self).loop_depth == old(self).loop_depth,
            final(self).return_type == old(self).return_type,
            final(self).params == old(self).params,
            final(self).resolved_types == old(self).resolved_types,
            final(self).local_strings == old(self).local_strings,
            final(self).comptime_type_vars == old(self).comptime_type_vars,
            final(self).referenced_functions == old(self).referenced_functions,
            final(self).referenced_methods == old(self).referenced_methods,
    {
        if then_diverges {
            // Then-branch diverges (or both do): the code after the if-else
            // only runs after the else-branch, or not at all.
            if else_diverges {
                self.moved_vars = then_moves;
            } else {
                self.moved_vars = else_moves;
            }
            return;
        }
        if else_diverges {
            self.moved_vars = then_moves;
            return;
        }
        // Neither diverges - merge the moves (union).
        let mut merged: HashMap<Sym, VariableMoveState> = HashMap::new();
        // Include all moves from then-branch
        for (symbol, then_state) in it: then_moves.iter()
            invariant
                forall|s: Sym|
                    #[trigger] merged@.contains_key(s) <==> (exists|j: int|
                        0 <= j < it.index() && *it.seq()[j].0 == s) && !merged_state(
                        then_moves@,
                        else_moves@,
                        s,
                    ).is_empty(),
                forall|s: Sym|
                    #[trigger] merged@.contains_key(s) ==> merged@[s]@ == merged_state(
                        then_moves@,
                        else_moves@,
                        s,
                    ),
        {
            let ghost sym = *symbol;
            match else_moves.get(symbol) {
                Some(else_state) => {
                    // Variable has state in both branches - merge them
                    let merged_st = VariableMoveState::merge_union(then_state, else_state);
                    if !merged_st.is_empty() {
                        merged.insert(*symbol, merged_st);
                    }
                },
                None => {
                    // Variable only moved in then-branch
                    proof {
                        let v = then_state@;
                        assert(merged_state(then_moves@, else_moves@, sym).partial =~= v.partial);
                    }
                    if !then_state.is_empty() {
                        merged.insert(*symbol, then_state.duplicate());
                    }
                },
            }
        }
        // Include moves that only appear in else-branch
        for (symbol, else_state) in it2: else_moves.iter()
            invariant
                forall|s: Sym|
                    #[trigger] merged@.contains_key(s) <==> (then_moves@.contains_key(s) || exists|j: int|
                        0 <= j < it2.index() && *it2.seq()[j].0 == s) && !merged_state(
                        then_moves@,
                        else_moves@,
                        s,
                    ).is_empty(),
                forall|s: Sym|
                    #[trigger] merged@.contains_key(s) ==> merged@[s]@ == merged_state(
                        then_moves@,
                        else_moves@,
                        s,
                    ),
        {
            let ghost sym = *symbol;
            if !then_moves.contains_key(symbol) {
                proof {
                    let v = else_state@;
                    assert(merged_state(then_moves@, else_moves@, sym).partial =~= v.partial);
                }
                if !else_state.is_empty() {
                    merged.insert(*symbol, else_state.duplicate());
                }
            }
        }
        self.moved_vars = merged;
    }

    /// Insert a local variable, tracking it in the current scope for later cleanup.
    pub fn insert_local(&mut self, symbol: Sym, var: LocalVar)
        ensures
            final(self).locals@ == old(self).locals@.insert(symbol, var),
            old(self).scope_stack@.len() == 0 ==> final(self).scope_stack@ == old(
                self,
            ).scope_stack@,
            old(self).scope_stack@.len() > 0 ==> frames(final(self).scope_stack@) == frames(
                old(self).scope_stack@,
            ).drop_last().push(
                old(self).scope_stack@.last()@.push((symbol, binding(old(self).locals@, symbol))),
            ),
            final(self).moved_vars@ == old(self).moved_vars@.remove(symbol),
            final(self).used_locals@ == old(self).used_locals@,
            final(self).warnings@ == old(self).warnings@,
            final(self).next_slot == old(self).next_slot,
            final(self).loop_depth == old(self).loop_depth,
            final(self).return_type == old(self).return_type,
            final(self).params == old(self).params,
            final(self).resolved_types == old(self).resolved_types,
            final(self).comptime_type_vars == old(self).comptime_type_vars,
            final(self).referenced_functions == old(self).referenced_functions,
            final(self).referenced_methods == old(self).referenced_methods,
    {
        let old_value = self.locals.insert(symbol, var);
        // Track in the current scope (if any) for cleanup on pop
        let ghost before = self.scope_stack@;
        if let Some(mut current_scope) = self.scope_stack.pop() {
            current_scope.push((symbol, old_value));
            self.scope_stack.push(current_scope);
            assert(frames(self.scope_stack@) =~= frames(before).drop_last().push(
                before.last()@.push((symbol, binding(old(self).locals@, symbol))),
            ));
        }
        // A fresh binding carries no moved state from an earlier one.
        self.moved_vars.remove(&symbol);
    }
}

/// A copy of a map of move states.
pub fn copy_moves(m: &HashMap<Sym, VariableMoveState>) -> (r: HashMap<Sym, VariableMoveState>)
    ensures
        forall|s: Sym| #[trigger] r@.contains_key(s) <==> m@.contains_key(s),
        forall|s: Sym| #[trigger] r@.contains_key(s) ==> r@[s]@ == m@[s]@,
{
    let mut out: HashMap<Sym, VariableMoveState> = HashMap::new();
    for (symbol, state) in it: m.iter()
        invariant
            forall|s: Sym|
                #[trigger] out@.contains_key(s) <==> exists|j: int| 0 <= j < it.index() && *it.seq()[j].0 == s,
            forall|s: Sym| #[trigger] out@.contains_key(s) ==> out@[s]@ == m@[s]@,
    {
        out.insert(*symbol, state.duplicate());
    }
    out
}

/// Result of analyzing an instruction: the AIR reference and its synthesized type.
#[derive(Clone, Copy, Debug, PartialEq, Eq, Structural)]
pub struct AnalysisResult {
    /// Reference to the generated AIR instruction
    pub air_ref: AirRef,
    /// The synthesized type of this expression
    pub ty: Type,
}

impl AnalysisResult {
    pub fn new(air_ref: AirRef, ty: Type) -> (r: Self)
        ensures
            r.air_ref == air_ref,
            r.ty == ty,
    {
        Self { air_ref, ty }
    }
}

/// A value that can be computed at compile time.
#[derive(Clone, Copy, Debug, PartialEq, Eq, Structural)]
pub enum ConstValue {
    /// Integer value (signed to handle arithmetic correctly)
    Integer(i64),
    /// Boolean value
    Bool(bool),
    /// A type used as a value
    Type(Type),
    /// The unit value
    Unit,
}

impl ConstValue {
    /// Try to extract an integer value.
    pub fn as_integer(self) -> (r: Option<i64>)
        ensures
            r == (match self {
                ConstValue::Integer(n) => Some(n),
                _ => None::<i64>,
            }),
    {
        match self {
            ConstValue::Integer(n) => Some(n),
            _ => None,
        }
    }

    /// Try to extract a boolean value.
    pub fn as_bool(self) -> (r: Option<bool>)
        ensures
            r == (match self {
                ConstValue::Bool(b) => Some(b),
                _ => None::<bool>,
            }),
    {
        match self {
            ConstValue::Bool(b) => Some(b),
            _ => None,
        }
    }
}

} // verus!

verus! {

/// The bindings after inserting `xs`, in order, into `m0`.
pub open spec fn locals_after(m0: Map<Sym, LocalVar>, xs: Seq<(Sym, LocalVar)>) -> Map<Sym, LocalVar>
    decreases xs.len(),
{
    if xs.len() == 0 {
        m0
    } else {
        locals_after(m0, xs.drop_last()).insert(xs.last().0, xs.last().1)
    }
}

/// The scope entries recorded by inserting `xs`, in order, into `m0`
/// in a freshly pushed scope.
pub open spec fn frame_after(m0: Map<Sym, LocalVar>, xs: Seq<(Sym, LocalVar)>) -> Seq<ScopeEntry>
    decreases xs.len(),
{
    if xs.len() == 0 {
        Seq::empty()
    } else {
        frame_after(m0, xs.drop_last()).push(
            (xs.last().0, binding(locals_after(m0, xs.drop_last()), xs.last().0)),
        )
    }
}

/// Scope restoration: entering a scope, declaring variables in it (a name
/// may be declared more than once) and leaving it gives back exactly the
/// bindings from before, whether the declarations were new or shadowed outer
/// variables.
pub proof fn law_pop_scope_restores_bindings(m0: Map<Sym, LocalVar>, xs: Seq<(Sym, LocalVar)>)
    ensures
        restore_entries(locals_after(m0, xs), frame_after(m0, xs)) == m0,
    decreases xs.len(),
{
    if xs.len() > 0 {
        let p = xs.drop_last();
        let (s, v) = xs.last();
        law_pop_scope_restores_bindings(m0, p);
        let f = frame_after(m0, xs);
        assert(f.drop_last() =~= frame_after(m0, p));
        let lp = locals_after(m0, p);
        assert(undo_entry(lp.insert(s, v), f.last()) =~= lp);
    }
}

} // verus!

verus! {

/// In the move states of a scope, `path` of variable `s` is moved.
pub open spec fn var_path_moved(m: Map<Sym, VariableMoveState>, s: Sym, path: Seq<Sym>) -> bool {
    m.contains_key(s) && m[s]@.path_moved(path) is Some
}

/// The move states recorded by `merge_branch_moves` when neither branch diverges.
pub open spec fn is_branch_merge(
    merged: Map<Sym, VariableMoveState>,
    t: Map<Sym, VariableMoveState>,
    e: Map<Sym, VariableMoveState>,
) -> bool {
    &&& forall|s: Sym|
        #[trigger] merged.contains_key(s) <==> ((t.contains_key(s) || e.contains_key(s))
            && !merged_state(t, e, s).is_empty())
    &&& forall|s: Sym| #[trigger] merged.contains_key(s) ==> merged[s]@ == merged_state(t, e, s)
}

/// All move states of a map are valid.
pub open spec fn states_wf(m: Map<Sym, VariableMoveState>) -> bool {
    forall|s: Sym| #[trigger] m.contains_key(s) ==> m[s]@.wf()
}

/// After an if-else whose branches both complete, a variable (or field path)
/// is moved exactly when it was moved in either branch.
pub proof fn law_branch_merge_moved_in_either(
    merged: Map<Sym, VariableMoveState>,
    t: Map<Sym, VariableMoveState>,
    e: Map<Sym, VariableMoveState>,
    s: Sym,
    path: Seq<Sym>,
)
    requires
        states_wf(t),
        states_wf(e),
        is_branch_merge(merged, t, e),
    ensures
        var_path_moved(merged, s, path) <==> (var_path_moved(t, s, path) || var_path_moved(
            e,
            s,
            path,
        )),
{
    let empty = MoveStateView { full: None, partial: Map::empty() };
    let a = state_of(t, s);
    let b = state_of(e, s);
    crate::moves::law_union_moved_in_either_branch(a, b, path);
    let u = merged_state(t, e, s);
    if u.is_empty() {
        crate::moves::law_cleared_state_moves_nothing(u, path);
    }
    if !t.contains_key(s) {
        crate::moves::law_cleared_state_moves_nothing(empty, path);
    }
    if !e.contains_key(s) {
        crate::moves::law_cleared_state_moves_nothing(empty, path);
    }
    if !t.contains_key(s) && !e.contains_key(s) {
        assert(!merged.contains_key(s));
    }
    if merged.contains_key(s) {
        assert(merged[s]@ == u);
    }
}

} // verus!
