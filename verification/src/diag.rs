//! Errors reported by semantic analysis.
use vstd::prelude::*;

use crate::types::Span;

verus! {

/// What went wrong.
#[derive(Debug, PartialEq, Eq)]
pub enum ErrorKind {
    UnknownEnumType(String),
    PrivateMemberAccess { item_kind: String, name: String },
    IntrinsicWrongArgCount { name: String, expected: usize, found: usize },
    ImportRequiresStringLiteral,
    ModuleNotFound { path: String, candidates: Vec<String> },
    StdLibNotFound,
    LinearValueNotConsumed(String),
    InoutNonLvalue,
    BorrowNonLvalue,
    InoutExclusiveAccess { variable: String },
    BorrowInoutConflict { variable: String },
    InternalError(String),
    TypeMismatch { expected: String, found: String },
    LiteralOutOfRange { value: u64, ty: String },
    CannotNegateUnsigned(String),
    ChainedComparison,
    BreakOutsideLoop,
    ContinueOutsideLoop,
    UndefinedVariable(String),
    UseAfterMove(String),
    MoveOutOfBorrow { variable: String },
    AssignToImmutable(String),
    MutateBorrowedValue { variable: String },
    FieldAccessOnNonStruct { found: String },
    UnknownField { struct_name: String, field_name: String },
    UnknownType(String),
    DuplicateField { struct_name: String, field_name: String },
    MissingFields { struct_name: String, missing_fields: Vec<String> },
    InvalidAssignmentTarget,
    IndexOnNonArray { found: String },
    IndexOutOfBounds { index: i64, length: u64 },
    MoveOutOfIndex { element_type: String },
    ArrayLengthMismatch { expected: u64, found: u64 },
    IntrinsicTypeMismatch { name: String, expected: String, found: String },
    TypeAnnotationRequired,
    UnknownIntrinsic(String),
    InvalidMatchType(String),
    EmptyMatch,
    UnknownVariant { enum_name: String, variant_name: String },
    NonExhaustiveMatch,
    UndefinedFunction(String),
    WrongArgumentCount { expected: usize, found: usize },
    InoutKeywordMissing,
    BorrowKeywordMissing,
    ComptimeArgNotConst { param_name: String },
    MethodCallOnNonStruct { found: String, method_name: String },
    UndefinedMethod { owner: String, method_name: String },
    AssocFnCalledAsMethod { owner: String, function_name: String },
    UndefinedAssocFn { owner: String, function_name: String },
    MethodCalledAsAssocFn { owner: String, method_name: String },
    /// A language feature still in preview was used without being enabled.
    PreviewFeatureRequired { feature: PreviewFeature, what: String },
    /// The program has no `main` function to start lazy analysis from.
    NoMainFunction,
    /// A `comptime` block could not be evaluated, and why.
    ComptimeEvaluationFailed { reason: String },
}

/// A language feature that must be enabled with `--preview` before use.
#[derive(Clone, Copy, Debug, PartialEq, Eq, Structural)]
pub enum PreviewFeature {
    /// Methods on anonymous struct types
    AnonStructMethods,
    /// `comptime` parameters
    Comptime,
    /// Infrastructure for testing the preview mechanism itself
    TestInfra,
}

/// The name by which `--preview` enables a feature.
pub open spec fn preview_name(f: PreviewFeature) -> Seq<char> {
    match f {
        PreviewFeature::AnonStructMethods => "anon_struct_methods"@,
        PreviewFeature::Comptime => "comptime"@,
        PreviewFeature::TestInfra => "test_infra"@,
    }
}

impl PreviewFeature {
    /// The name by which `--preview` enables this feature.
    pub fn name(&self) -> (r: &'static str)
        ensures
            r@ == preview_name(*self),
    {
        proof {
            reveal_strlit("anon_struct_methods");
            reveal_strlit("comptime");
            reveal_strlit("test_infra");
        }
        match self {
            PreviewFeature::AnonStructMethods => "anon_struct_methods",
            PreviewFeature::Comptime => "comptime",
            PreviewFeature::TestInfra => "test_infra",
        }
    }
}

/// The set of preview features enabled for a compilation.
#[derive(Debug)]
pub struct PreviewFeatures {
    pub enabled: Vec<PreviewFeature>,
}

impl PreviewFeatures {
    /// No feature enabled.
    pub fn new() -> (r: Self)
        ensures
            r.enabled@.len() == 0,
    {
        PreviewFeatures { enabled: Vec::new() }
    }

    /// Enable a feature.
    pub fn insert(&mut self, f: PreviewFeature)
        ensures
            forall|g: PreviewFeature| #[trigger] final(self).enabled@.contains(g) <==> (old(self).enabled@.contains(g) || g == f),
    {
        if !self.contains(f) {
            self.enabled.push(f);
            proof {
                assert forall|g: PreviewFeature| #[trigger] self.enabled@.contains(g) <==> (old(self).enabled@.contains(g) || g == f) by {
                    if old(self).enabled@.contains(g) {
                        let j = choose|j: int| 0 <= j < old(self).enabled@.len() && old(self).enabled@[j] == g;
                        assert(self.enabled@[j] == g);
                    }
                    if g == f {
                        assert(self.enabled@[self.enabled@.len() - 1] == g);
                    }
                    if self.enabled@.contains(g) && g != f {
                        let j = choose|j: int| 0 <= j < self.enabled@.len() && self.enabled@[j] == g;
                        assert(old(self).enabled@[j] == g);
                    }
                }
            }
        }
    }

    /// Whether a feature is enabled.
    pub fn contains(&self, f: PreviewFeature) -> (r: bool)
        ensures
            r == self.enabled@.contains(f),
    {
        let mut i: usize = 0;
        while i < self.enabled.len()
            invariant
                i <= self.enabled@.len(),
                forall|j: int| 0 <= j < i ==> self.enabled@[j] != f,
            decreases self.enabled@.len() - i,
        {
            if self.enabled[i] == f {
                assert(self.enabled@[i as int] == f);
                return true;
            }
            i = i + 1;
        }
        false
    }
}

/// An error, the place it is about, and optional advice.
#[derive(Debug)]
pub struct CompileError {
    pub kind: ErrorKind,
    pub span: Span,
    /// How to fix it
    pub help: Option<String>,
    /// Why it is an error
    pub note: Option<String>,
    /// A second place the error is about, and what to say there
    pub label: Option<(String, Span)>,
}

impl CompileError {
    pub fn new(kind: ErrorKind, span: Span) -> (e: Self)
        ensures
            e.kind == kind,
            e.span == span,
            e.help is None,
            e.note is None,
            e.label is None,
    {
        CompileError { kind, span, help: None, note: None, label: None }
    }

    /// The same error with advice on how to fix it.
    pub fn with_help(self, help: String) -> (e: Self)
        ensures
            e.kind == self.kind,
            e.span == self.span,
            e.help == Some(help),
            e.note == self.note,
            e.label == self.label,
    {
        CompileError { kind: self.kind, span: self.span, help: Some(help), note: self.note, label: self.label }
    }

    /// The same error with a note on why it is one.
    pub fn with_note(self, note: String) -> (e: Self)
        ensures
            e.kind == self.kind,
            e.span == self.span,
            e.help == self.help,
            e.note == Some(note),
            e.label == self.label,
    {
        CompileError { kind: self.kind, span: self.span, help: self.help, note: Some(note), label: self.label }
    }

    /// The same error pointing at a second place.
    pub fn with_label(self, message: String, span: Span) -> (e: Self)
        ensures
            e.kind == self.kind,
            e.span == self.span,
            e.help == self.help,
            e.note == self.note,
            e.label == Some((message, span)),
    {
        CompileError { kind: self.kind, span: self.span, help: self.help, note: self.note, label: Some((message, span)) }
    }
}

/// The errors of several independent analyses, in the order they were found.
#[derive(Debug)]
pub struct CompileErrors {
    pub errors: Vec<CompileError>,
}

impl CompileErrors {
    /// No errors.
    pub fn new() -> (r: Self)
        ensures
            r.errors@.len() == 0,
    {
        CompileErrors { errors: Vec::new() }
    }

    /// Record one more error.
    pub fn push(&mut self, e: CompileError)
        ensures
            final(self).errors@ == old(self).errors@.push(e),
    {
        self.errors.push(e);
    }

    /// Whether no error was recorded.
    pub fn is_empty(&self) -> (r: bool)
        ensures
            r == (self.errors@.len() == 0),
    {
        self.errors.len() == 0
    }

    /// `value` when there is no error, else the errors.
    pub fn into_result_with<T>(self, value: T) -> (r: Result<T, CompileErrors>)
        ensures
            self.errors@.len() == 0 ==> r == Ok::<T, CompileErrors>(value),
            self.errors@.len() > 0 ==> r == Err::<T, CompileErrors>(self),
    {
        if self.is_empty() {
            Ok(value)
        } else {
            Err(self)
        }
    }
}

} // verus!
