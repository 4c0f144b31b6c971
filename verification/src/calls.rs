//! Call arguments: exclusivity of `inout` and `borrow` access, and `@allow` directives.
use vstd::prelude::*;

use std::collections::HashSet;

use crate::diag::{CompileError, ErrorKind};
use crate::interner::{interned, lookup};
use crate::rir::{ArgMode, CallArg, Directive, InstData, InstRef, Rir};
use crate::sema::Sema;
use crate::types::{Span, Sym};

verus! {

/// The variable an expression refers to, through field and index accesses.
pub open spec fn root_variable(rir: &Rir, r: InstRef) -> Option<Sym>
    decreases r,
{
    if r >= rir.instructions@.len() {
        None
    } else {
        match rir.instructions@[r as int].data {
            InstData::VarRef { name } => Some(name),
            InstData::ParamRef { name } => Some(name),
            InstData::FieldGet { base, .. } => if base < r {
                root_variable(rir, base)
            } else {
                None
            },
            InstData::IndexGet { base, .. } => if base < r {
                root_variable(rir, base)
            } else {
                None
            },
            _ => None,
        }
    }
}

/// Accessing a field or an element of a value reaches the variable the
/// value is rooted in: `x.f`, `x[i]` and `x.f[i]` all name `x`; a variable
/// or parameter names itself; anything else (a literal, an operator, a
/// call) names no variable.
pub proof fn law_places_are_rooted_in_their_variable(rir: &Rir, r: InstRef)
    requires
        rir.wf(),
        r < rir.instructions@.len(),
    ensures
        match rir.instructions@[r as int].data {
            InstData::FieldGet { base, .. } => root_variable(rir, r) == root_variable(rir, base),
            InstData::IndexGet { base, .. } => root_variable(rir, r) == root_variable(rir, base),
            InstData::VarRef { name } => root_variable(rir, r) == Some(name),
            InstData::ParamRef { name } => root_variable(rir, r) == Some(name),
            InstData::IntConst(_) | InstData::BoolConst(_) | InstData::StringConst(_) | InstData::UnitConst
            | InstData::Call { .. } | InstData::Add { .. } | InstData::Block { .. } => root_variable(rir, r) is None,
            _ => true,
        },
{
    let ops = crate::rir::operands(rir.instructions@[r as int].data);
    assert(ops.len() > 0 ==> ops[0] < r);
}

/// An element `x[k]` (or a field `x.f`) of a variable can be passed
/// `inout`: it is a place rooted at `x`, so the argument breaks no rule
/// when no earlier argument passes `x` `inout` or `borrow`; and passing two
/// parts of the same variable `inout` is passing it twice.
pub proof fn law_inout_parts_of_a_variable(rir: &Rir, args: Seq<CallArg>, i: int, x: Sym)
    requires
        rir.wf(),
        0 <= i < args.len(),
        args[i].mode == ArgMode::Inout,
        args[i].value < rir.instructions@.len(),
        rir.instructions@[args[i].value as int].data matches InstData::IndexGet { base, .. } && base
            < rir.instructions@.len() && rir.instructions@[base as int].data == (InstData::VarRef { name: x }),
    ensures
        root_variable(rir, args[i].value) == Some(x),
        violation_at(rir, args, i) is None <==> !vars_passed(rir, args, i, ArgMode::Inout).contains(x)
            && !vars_passed(rir, args, i, ArgMode::Borrow).contains(x),
        forall|j: int|
            0 <= j < i && #[trigger] args[j].mode == ArgMode::Inout && root_variable(rir, args[j].value) == Some(x)
                ==> violation_at(rir, args, i) == Some(Violation::InoutTwice(x)),
{
    let v = args[i].value;
    let base = match rir.instructions@[v as int].data {
        InstData::IndexGet { base, .. } => base,
        _ => 0,
    };
    assert(crate::rir::operands(rir.instructions@[v as int].data)[0] == base);
    assert(root_variable(rir, base) == Some(x));
    assert forall|j: int|
        0 <= j < i && #[trigger] args[j].mode == ArgMode::Inout && root_variable(rir, args[j].value) == Some(x)
            implies violation_at(rir, args, i) == Some(Violation::InoutTwice(x)) by {
        assert(vars_passed(rir, args, i, ArgMode::Inout).contains(x));
    }
}

/// A breach of the exclusivity rules by one argument of a call.
pub ghost enum Violation {
    /// An `inout` argument that is not a variable.
    InoutNonLvalue,
    /// A `borrow` argument that is not a variable.
    BorrowNonLvalue,
    /// A variable passed `inout` a second time.
    InoutTwice(Sym),
    /// A variable passed both `inout` and `borrow`.
    BorrowInoutConflict(Sym),
}

/// The variables passed with `mode` among the first `n` arguments.
pub open spec fn vars_passed(rir: &Rir, args: Seq<CallArg>, n: int, mode: ArgMode) -> Set<Sym> {
    Set::new(
        |v: Sym|
            exists|j: int|
                0 <= j < n && #[trigger] args[j].mode == mode && root_variable(rir, args[j].value)
                    == Some(v),
    )
}

/// The breach that argument `i` makes, given the arguments before it.
pub open spec fn violation_at(rir: &Rir, args: Seq<CallArg>, i: int) -> Option<Violation> {
    let root = root_variable(rir, args[i].value);
    match args[i].mode {
        ArgMode::Inout => match root {
            None => Some(Violation::InoutNonLvalue),
            Some(v) => if vars_passed(rir, args, i, ArgMode::Inout).contains(v) {
                Some(Violation::InoutTwice(v))
            } else if vars_passed(rir, args, i, ArgMode::Borrow).contains(v) {
                Some(Violation::BorrowInoutConflict(v))
            } else {
                None
            },
        },
        ArgMode::Borrow => match root {
            None => Some(Violation::BorrowNonLvalue),
            Some(v) => if vars_passed(rir, args, i, ArgMode::Inout).contains(v) {
                Some(Violation::BorrowInoutConflict(v))
            } else {
                None
            },
        },
        ArgMode::Normal => None,
    }
}

/// The error reported for a breach.
pub open spec fn reports(e: CompileError, v: Violation, arg_span: Span, call_span: Span, names: Map<Sym, Seq<char>>) -> bool {
    match v {
        Violation::InoutNonLvalue => e.span == arg_span && e.kind is InoutNonLvalue,
        Violation::BorrowNonLvalue => e.span == arg_span && e.kind is BorrowNonLvalue,
        Violation::InoutTwice(x) => e.span == call_span && match e.kind {
            ErrorKind::InoutExclusiveAccess { variable } => variable@ == names[x],
            _ => false,
        },
        Violation::BorrowInoutConflict(x) => e.span == call_span && match e.kind {
            ErrorKind::BorrowInoutConflict { variable } => variable@ == names[x],
            _ => false,
        },
    }
}

/// The instruction is a comparison.
pub open spec fn is_comparison_data(d: InstData) -> bool {
    match d {
        InstData::Lt { .. } | InstData::Gt { .. } | InstData::Le { .. } | InstData::Ge { .. }
        | InstData::Eq { .. } | InstData::Ne { .. } => true,
        _ => false,
    }
}

impl<'a> Sema<'a> {
    /// Extract the root variable symbol from an expression, if it refers to a variable.
    ///
    /// Returns the symbol for a variable or parameter reference, looking through
    /// field and index accesses; `None` for expressions that are not places.
    pub fn extract_root_variable(&self, inst_ref: InstRef) -> (r: Option<Sym>)
        requires
            self.rir.wf(),
            inst_ref < self.rir.instructions@.len(),
        ensures
            r == root_variable(self.rir, inst_ref),
        decreases inst_ref,
    {
        let inst = self.rir.get(inst_ref);
        proof {
            let ops = crate::rir::operands(inst.data);
            assert forall|j: int| 0 <= j < ops.len() implies #[trigger] ops[j] < inst_ref by {}
        }
        match inst.data {
            InstData::VarRef { name } => Some(name),
            InstData::ParamRef { name } => Some(name),
            InstData::FieldGet { base, .. } => {
                assert(crate::rir::operands(inst.data)[0] == base);
                self.extract_root_variable(base)
            },
            InstData::IndexGet { base, .. } => {
                self.extract_root_variable(base)
            },
            _ => None,
        }
    }

    /// Check if an RIR instruction is a comparison operation (chained
    /// comparisons such as `a < b < c` are not allowed).
    pub fn is_comparison(&self, inst_ref: InstRef) -> (r: bool)
        requires
            inst_ref < self.rir.instructions@.len(),
        ensures
            r == is_comparison_data(self.rir.instructions@[inst_ref as int].data),
    {
        match self.rir.get(inst_ref).data {
            InstData::Lt { .. } | InstData::Gt { .. } | InstData::Le { .. } | InstData::Ge { .. }
            | InstData::Eq { .. } | InstData::Ne { .. } => true,
            _ => false,
        }
    }

    /// Check exclusivity rules for inout and borrow arguments of a call:
    /// a variable cannot be passed to two inout parameters, nor to both an
    /// inout and a borrow parameter; inout and borrow arguments must be variables.
    pub fn check_exclusive_access(&self, args: &[CallArg], call_span: Span) -> (r: Result<(), CompileError>)
        requires
            self.rir.wf(),
            forall|i: int| 0 <= i < args@.len() ==> #[trigger] args@[i].value < self.rir.instructions@.len(),
            forall|i: int| 0 <= i < args@.len() ==> (#[trigger] root_variable(self.rir, args@[i].value) matches Some(v)
                ==> interned(self.interner).contains_key(v)),
        ensures
            r is Ok <==> forall|i: int| 0 <= i < args@.len() ==> #[trigger] violation_at(self.rir, args@, i) is None,
            r matches Err(e) ==> exists|i: int|
                0 <= i < args@.len() && #[trigger] violation_at(self.rir, args@, i) is Some && (forall|j: int|
                    0 <= j < i ==> #[trigger] violation_at(self.rir, args@, j) is None) && reports(
                    e,
                    violation_at(self.rir, args@, i)->0,
                    self.rir.instructions@[args@[i].value as int].span,
                    call_span,
                    interned(self.interner),
                ),
    {
        let mut inout_vars: HashSet<Sym> = HashSet::new();
        let mut borrow_vars: HashSet<Sym> = HashSet::new();
        let mut i: usize = 0;
        while i < args.len()
            invariant
                i <= args@.len(),
                self.rir.wf(),
                forall|k: int| 0 <= k < args@.len() ==> #[trigger] args@[k].value < self.rir.instructions@.len(),
                forall|k: int| 0 <= k < args@.len() ==> (#[trigger] root_variable(self.rir, args@[k].value) matches Some(v)
                    ==> interned(self.interner).contains_key(v)),
                inout_vars@ == vars_passed(self.rir, args@, i as int, ArgMode::Inout),
                borrow_vars@ == vars_passed(self.rir, args@, i as int, ArgMode::Borrow),
                forall|j: int| 0 <= j < i ==> #[trigger] violation_at(self.rir, args@, j) is None,
            decreases args@.len() - i,
        {
            let arg = args[i];
            let maybe_var_symbol = self.extract_root_variable(arg.value);
            let ghost ii = i as int;
            // Check that inout/borrow arguments are lvalues
            if arg.is_inout() && maybe_var_symbol.is_none() {
                assert(violation_at(self.rir, args@, ii) == Some(Violation::InoutNonLvalue));
                return Err(CompileError::new(ErrorKind::InoutNonLvalue, self.rir.get(arg.value).span));
            }
            if arg.is_borrow() && maybe_var_symbol.is_none() {
                return Err(CompileError::new(ErrorKind::BorrowNonLvalue, self.rir.get(arg.value).span));
            }
            proof {
                assert(vars_passed(self.rir, args@, ii + 1, ArgMode::Inout) =~= if args@[ii].mode == ArgMode::Inout
                    && maybe_var_symbol is Some {
                    vars_passed(self.rir, args@, ii, ArgMode::Inout).insert(maybe_var_symbol->0)
                } else {
                    vars_passed(self.rir, args@, ii, ArgMode::Inout)
                });
                assert(vars_passed(self.rir, args@, ii + 1, ArgMode::Borrow) =~= if args@[ii].mode == ArgMode::Borrow
                    && maybe_var_symbol is Some {
                    vars_passed(self.rir, args@, ii, ArgMode::Borrow).insert(maybe_var_symbol->0)
                } else {
                    vars_passed(self.rir, args@, ii, ArgMode::Borrow)
                });
            }
            if let Some(var_symbol) = maybe_var_symbol {
                if arg.is_inout() {
                    // Check for duplicate inout access
                    if !inout_vars.insert(var_symbol) {
                        let var_name = self.resolve(var_symbol).to_string();
                        return Err(CompileError::new(ErrorKind::InoutExclusiveAccess { variable: var_name }, call_span));
                    }
                    // Check for borrow/inout conflict
                    if borrow_vars.contains(&var_symbol) {
                        let var_name = self.resolve(var_symbol).to_string();
                        return Err(CompileError::new(ErrorKind::BorrowInoutConflict { variable: var_name }, call_span));
                    }
                } else if arg.is_borrow() {
                    borrow_vars.insert(var_symbol);
                    // Check for borrow/inout conflict
                    if inout_vars.contains(&var_symbol) {
                        let var_name = self.resolve(var_symbol).to_string();
                        return Err(CompileError::new(ErrorKind::BorrowInoutConflict { variable: var_name }, call_span));
                    }
                }
            }
            i = i + 1;
        }
        Ok(())
    }

    /// Check if directives contain `@allow(warning_name)`.
    pub fn has_allow_directive(&self, directives: &[Directive], warning_name: &str) -> (r: bool)
        requires
            forall|i: int| 0 <= i < directives@.len() ==> interned(self.interner).contains_key(#[trigger] directives@[i].name),
            forall|i: int, j: int|
                0 <= i < directives@.len() && 0 <= j < directives@[i].args@.len() ==> interned(
                    self.interner,
                ).contains_key(#[trigger] directives@[i].args@[j]),
        ensures
            r == exists|i: int, j: int|
                0 <= i < directives@.len() && 0 <= j < directives@[i].args@.len() && interned(
                    self.interner,
                )[#[trigger] directives@[i].name] == "allow"@ && interned(self.interner)[#[trigger] directives@[i].args@[j]]
                    == warning_name@,
    {
        let allow_sym = lookup(&self.interner, "allow");
        let warning_sym = lookup(&self.interner, warning_name);
        let ghost names = interned(self.interner);
        let mut i: usize = 0;
        while i < directives.len()
            invariant
                i <= directives@.len(),
                names == interned(self.interner),
                allow_sym matches Some(k) ==> names.contains_key(k) && names[k] == "allow"@ && forall|q: Sym|
                    #[trigger] names.contains_key(q) && names[q] == "allow"@ ==> q == k,
                allow_sym is None ==> forall|q: Sym| #[trigger] names.contains_key(q) ==> names[q] != "allow"@,
                warning_sym matches Some(k) ==> names.contains_key(k) && names[k] == warning_name@ && forall|q: Sym|
                    #[trigger] names.contains_key(q) && names[q] == warning_name@ ==> q == k,
                warning_sym is None ==> forall|q: Sym| #[trigger] names.contains_key(q) ==> names[q] != warning_name@,
                forall|a: int| 0 <= a < directives@.len() ==> names.contains_key(#[trigger] directives@[a].name),
                forall|a: int, b: int|
                    0 <= a < directives@.len() && 0 <= b < directives@[a].args@.len() ==> names.contains_key(#[trigger] directives@[a].args@[b]),
                forall|a: int, b: int|
                    0 <= a < i && 0 <= b < directives@[a].args@.len() ==> !(names[#[trigger] directives@[a].name] == "allow"@
                        && names[#[trigger] directives@[a].args@[b]] == warning_name@),
            decreases directives@.len() - i,
        {
            let directive = &directives[i];
            if Some(directive.name) == allow_sym {
                let mut j: usize = 0;
                while j < directive.args.len()
                    invariant
                        j <= directive.args@.len(),
                        i < directives@.len(),
                        *directive == directives@[i as int],
                        allow_sym == Some(directive.name),
                        allow_sym matches Some(k) ==> names.contains_key(k) && names[k] == "allow"@,
                        names == interned(self.interner),
                        warning_sym matches Some(k) ==> names.contains_key(k) && names[k] == warning_name@ && forall|q: Sym|
                            #[trigger] names.contains_key(q) && names[q] == warning_name@ ==> q == k,
                        warning_sym is None ==> forall|q: Sym| #[trigger] names.contains_key(q) ==> names[q] != warning_name@,
                        forall|b: int| 0 <= b < directive.args@.len() ==> names.contains_key(#[trigger] directive.args@[b]),
                        forall|b: int| 0 <= b < j ==> names[#[trigger] directive.args@[b]] != warning_name@,
                    decreases directive.args@.len() - j,
                {
                    if Some(directive.args[j]) == warning_sym {
                        return true;
                    }
                    j = j + 1;
                }
            }
            i = i + 1;
        }
        false
    }
}

/// The law of exclusivity: when a call passes the check, no variable is
/// passed to two `inout` parameters, and no variable is passed both `inout`
/// and `borrow`.
pub proof fn law_exclusive_access(rir: &Rir, args: Seq<CallArg>, i: int, j: int)
    requires
        forall|k: int| 0 <= k < args.len() ==> #[trigger] violation_at(rir, args, k) is None,
        0 <= i < args.len(),
        0 <= j < args.len(),
        i != j,
        args[i].mode == ArgMode::Inout,
        args[j].mode != ArgMode::Normal,
    ensures
        root_variable(rir, args[i].value) != root_variable(rir, args[j].value),
{
    let (a, b) = if i < j { (i, j) } else { (j, i) };
    assert(violation_at(rir, args, b) is None);
    if root_variable(rir, args[i].value) == root_variable(rir, args[j].value) {
        let v = root_variable(rir, args[i].value)->0;
    }
}

} // verus!

verus! {

/// The variable a place expression starts from and the fields it then
/// selects, in order (`a.b.c` is `a` and `[b, c]`).
pub open spec fn field_path(rir: &Rir, r: InstRef) -> Option<(Sym, Seq<Sym>)>
    decreases r,
{
    if r >= rir.instructions@.len() {
        None
    } else {
        match rir.instructions@[r as int].data {
            InstData::VarRef { name } => Some((name, Seq::empty())),
            InstData::ParamRef { name } => Some((name, Seq::empty())),
            InstData::FieldGet { base, field } => if base < r {
                match field_path(rir, base) {
                    Some((root, path)) => Some((root, path.push(field))),
                    None => None,
                }
            } else {
                None
            },
            _ => None,
        }
    }
}

/// Extract the root variable and field path of a field access chain, for
/// tracking moves of individual fields.
pub fn extract_field_path_ctx(rir: &Rir, inst_ref: InstRef) -> (r: Option<(Sym, Vec<Sym>)>)
    requires
        rir.wf(),
        inst_ref < rir.instructions@.len(),
    ensures
        match r {
            Some((root, path)) => field_path(rir, inst_ref) == Some((root, path@)),
            None => field_path(rir, inst_ref) is None,
        },
    decreases inst_ref,
{
    let inst = rir.get(inst_ref);
    match inst.data {
        InstData::VarRef { name } => Some((name, Vec::new())),
        InstData::ParamRef { name } => Some((name, Vec::new())),
        InstData::FieldGet { base, field } => {
            assert(crate::rir::operands(inst.data)[0] == base);
            match extract_field_path_ctx(rir, base) {
                Some((root, path)) => {
                    let mut path = path;
                    path.push(field);
                    Some((root, path))
                },
                None => None,
            }
        },
        _ => None,
    }
}

/// The variable an argument names directly, if it is a variable or parameter reference.
pub fn extract_arg_var_name_ctx(rir: &Rir, inst_ref: InstRef) -> (r: Option<Sym>)
    requires
        inst_ref < rir.instructions@.len(),
    ensures
        r == (match rir.instructions@[inst_ref as int].data {
            InstData::VarRef { name } => Some(name),
            InstData::ParamRef { name } => Some(name),
            _ => None,
        }),
{
    match rir.get(inst_ref).data {
        InstData::VarRef { name } => Some(name),
        InstData::ParamRef { name } => Some(name),
        _ => None,
    }
}

/// The variable a field path starts from is the root variable of the place.
pub proof fn law_field_path_starts_at_root_variable(rir: &Rir, r: InstRef)
    requires
        rir.wf(),
    ensures
        field_path(rir, r) matches Some((root, _)) ==> root_variable(rir, r) == Some(root),
    decreases r,
{
    if r < rir.instructions@.len() {
        match rir.instructions@[r as int].data {
            InstData::FieldGet { base, .. } => {
                if base < r {
                    law_field_path_starts_at_root_variable(rir, base);
                }
            },
            _ => {},
        }
    }
}

} // verus!
