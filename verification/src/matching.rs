//! `match` expressions: which types can be matched on, how each arm's
//! pattern is checked against the scrutinee, which arms can never match,
//! the type of the whole match, and whether the arms cover every value.
//!
//! A match is analyzed arm by arm: `begin_match` checks the scrutinee's
//! type, `match_pattern` checks an arm's pattern before its value is
//! analyzed, `add_arm` takes the analyzed value, and `finish_match` checks
//! exhaustiveness and emits the match.
use vstd::prelude::*;

use crate::air::{encode_arm, encode_arms, Air, AirInst, AirInstData, AirPattern};
use crate::context::{AnalysisResult, CompileWarning, WarningKind};
use crate::diag::{CompileError, ErrorKind};
use crate::interner::interned;
use crate::paths::{decimal, spec_decimal};
use crate::rir::{InstRef, Pattern};
use crate::sema::{accessible, Sema};
use crate::typing::appended;
use crate::types::{name_of_type, AirRef, EnumDef, Span, Sym, Type};

verus! {

/// The position of the first variant named `name`, if any.
pub open spec fn variant_index_of(variants: Seq<String>, name: Seq<char>) -> Option<int>
    decreases variants.len(),
{
    if variants.len() == 0 {
        None
    } else {
        match variant_index_of(variants.drop_last(), name) {
            Some(i) => Some(i),
            None => if variants.last()@ == name {
                Some(variants.len() - 1)
            } else {
                None
            },
        }
    }
}

/// A first variant found in a prefix is the first variant of the whole list.
proof fn lemma_variant_index_prefix(variants: Seq<String>, n: int, name: Seq<char>)
    requires
        0 <= n <= variants.len(),
        variant_index_of(variants.take(n), name) is Some,
    ensures
        variant_index_of(variants, name) == variant_index_of(variants.take(n), name),
    decreases variants.len(),
{
    if n < variants.len() {
        assert(variants.drop_last().take(n) =~= variants.take(n));
        lemma_variant_index_prefix(variants.drop_last(), n, name);
    } else {
        assert(variants.take(n) =~= variants);
    }
}

/// `variant_index_of` finds a variant of that name.
proof fn lemma_variant_index_of(variants: Seq<String>, name: Seq<char>)
    ensures
        variant_index_of(variants, name) matches Some(i) ==> 0 <= i < variants.len(),
    decreases variants.len(),
{
    if variants.len() > 0 {
        lemma_variant_index_of(variants.drop_last(), name);
    }
}

impl EnumDef {
    /// The position of the first variant with the given name.
    pub fn find_variant(&self, name: &str) -> (r: Option<usize>)
        ensures
            match variant_index_of(self.variants@, name@) {
                Some(i) => r == Some(i as usize),
                None => r is None,
            },
    {
        let mut i: usize = 0;
        while i < self.variants.len()
            invariant
                i <= self.variants@.len(),
                variant_index_of(self.variants@.take(i as int), name@) is None,
            decreases self.variants@.len() - i,
        {
            proof {
                assert(self.variants@.take(i + 1).drop_last() =~= self.variants@.take(i as int));
            }
            if crate::paths::str_eq(self.variants[i].as_str(), name) {
                proof {
                    lemma_variant_index_prefix(self.variants@, i as int + 1, name@);
                }
                return Some(i);
            }
            i = i + 1;
        }
        assert(self.variants@.take(i as int) =~= self.variants@);
        None
    }
}

/// The decimal text of a signed integer, as `i64::to_string` writes it: a
/// minus sign before the digits of a negative number.
pub open spec fn spec_decimal_i64(n: i64) -> Seq<char> {
    if n < 0 {
        "-"@ + spec_decimal((-(n as int)) as u64)
    } else {
        spec_decimal(n as u64)
    }
}

/// The decimal text of a signed integer.
pub fn decimal_i64(n: i64) -> (s: String)
    ensures
        s@ == spec_decimal_i64(n),
{
    if n < 0 {
        let magnitude: u64 = ((-(n + 1)) as u64) + 1;
        String::from_str("-").concat(decimal(magnitude).as_str())
    } else {
        decimal(n as u64)
    }
}

/// A pattern as a warning shows it.
pub open spec fn pattern_text(names: Map<Sym, Seq<char>>, p: Pattern) -> Seq<char> {
    match p {
        Pattern::Wildcard(_) => "_"@,
        Pattern::Int(n, _) => spec_decimal_i64(n),
        Pattern::Bool(b, _) => if b {
            "true"@
        } else {
            "false"@
        },
        Pattern::Path { enum_sym, variant, .. } => names[enum_sym] + "::"@ + names[variant],
    }
}

/// `w` warns that the pattern shown as `text` at `span` follows a wildcard
/// arm at `first`, and so never matches.
pub open spec fn shadowed_by_wildcard(w: CompileWarning, text: Seq<char>, span: Span, first: Span) -> bool {
    &&& w.kind matches WarningKind::UnreachablePattern(t) && t@ == text
    &&& w.span == span
    &&& w.help is None
    &&& w.label matches Some((l, s)) && l@ == "previous wildcard pattern here"@ && s == first
    &&& w.note matches Some(n) && n@
        == "this pattern will never be matched because the wildcard pattern above matches everything"@
}

/// `w` warns that the pattern shown as `text` at `span` repeats the one at
/// `first`, and so never matches.
pub open spec fn repeats_pattern(w: CompileWarning, text: Seq<char>, span: Span, first: Span) -> bool {
    &&& w.kind matches WarningKind::UnreachablePattern(t) && t@ == text
    &&& w.span == span
    &&& w.help is None
    &&& w.label matches Some((l, s)) && l@ == "first occurrence of this pattern"@ && s == first
    &&& w.note matches Some(n) && n@
        == "this pattern will never be matched because an earlier arm already matches the same value"@
}

/// Where the integer `n` was first matched, if it was.
pub open spec fn first_int_span(seen: Seq<(i64, Span)>, n: i64) -> Option<Span>
    decreases seen.len(),
{
    if seen.len() == 0 {
        None
    } else {
        match first_int_span(seen.drop_last(), n) {
            Some(s) => Some(s),
            None => if seen.last().0 == n {
                Some(seen.last().1)
            } else {
                None
            },
        }
    }
}

/// What is known of a match while its arms are checked.
pub struct MatchState {
    /// The type of the value matched on
    pub scrutinee_type: Type,
    /// The first wildcard arm, if any
    pub wildcard: Option<Span>,
    /// The first `true` arm, if any
    pub bool_true: Option<Span>,
    /// The first `false` arm, if any
    pub bool_false: Option<Span>,
    /// Each integer matched, with its first arm
    pub seen_ints: Vec<(i64, Span)>,
    /// The enum variants matched, each once
    pub covered_variants: Vec<u32>,
    /// The enum the variant patterns name
    pub pattern_enum: Option<u32>,
    /// The type of the arms so far
    pub result_type: Option<Type>,
    /// The analyzed arms: pattern and value
    pub arms: Vec<(AirPattern, AirRef)>,
}

impl MatchState {
    /// Each integer and each variant is recorded once.
    pub open spec fn wf(&self) -> bool {
        &&& forall|i: int, j: int|
            0 <= i < j < self.seen_ints@.len() ==> #[trigger] self.seen_ints@[i].0 != #[trigger] self.seen_ints@[j].0
        &&& self.covered_variants@.no_duplicates()
    }
}

/// The types a match can be on: integers, `bool` and enums.
pub open spec fn matchable(t: Type) -> bool {
    t.spec_is_integer() || t is Bool || t is Enum
}

/// The type of a match after an arm of type `body` joins arms of type
/// `prev`; `None` when the two disagree. A `Never` arm takes the other's
/// type, and an error type joins anything.
pub open spec fn joined_type(prev: Option<Type>, body: Type) -> Option<Type> {
    match prev {
        None => Some(body),
        Some(p) => if p is Never {
            Some(body)
        } else if body is Never {
            Some(p)
        } else if p != body && !(p is Error) && !(body is Error) {
            None
        } else {
            Some(p)
        },
    }
}

/// The arms of a match cover every value of its scrutinee: a wildcard,
/// both booleans, or every variant of the enum.
pub open spec fn exhaustive(state: &MatchState, variant_count: nat) -> bool {
    if state.scrutinee_type is Bool {
        state.wildcard is Some || (state.bool_true is Some && state.bool_false is Some)
    } else if state.pattern_enum is Some {
        state.wildcard is Some || state.covered_variants@.len() == variant_count
    } else {
        state.wildcard is Some
    }
}

/// Start a match on a value of type `scrutinee_type` with `arm_count` arms.
pub fn begin_match(scrutinee_type: Type, arm_count: usize, span: Span) -> (r: Result<MatchState, CompileError>)
    ensures
        !matchable(scrutinee_type) ==> (r matches Err(e) && e.span == span && (
        e.kind matches ErrorKind::InvalidMatchType(n) && n@ == name_of_type(scrutinee_type))),
        matchable(scrutinee_type) && arm_count == 0 ==> (r matches Err(e) && e.span == span && e.kind
            == ErrorKind::EmptyMatch),
        matchable(scrutinee_type) && arm_count > 0 ==> (r matches Ok(s) && s.wf() && s.scrutinee_type
            == scrutinee_type && s.wildcard is None && s.bool_true is None && s.bool_false is None
            && s.seen_ints@.len() == 0 && s.covered_variants@.len() == 0 && s.pattern_enum is None
            && s.result_type is None && s.arms@.len() == 0),
{
    let ok = scrutinee_type.is_integer() || match scrutinee_type {
        Type::Bool | Type::Enum(_) => true,
        _ => false,
    };
    if !ok {
        return Err(CompileError::new(ErrorKind::InvalidMatchType(scrutinee_type.name()), span));
    }
    if arm_count == 0 {
        return Err(CompileError::new(ErrorKind::EmptyMatch, span));
    }
    Ok(
        MatchState {
            scrutinee_type,
            wildcard: None,
            bool_true: None,
            bool_false: None,
            seen_ints: Vec::new(),
            covered_variants: Vec::new(),
            pattern_enum: None,
            result_type: None,
            arms: Vec::new(),
        },
    )
}

/// The warning for a pattern that follows a wildcard arm.
fn wildcard_warning(text: String, span: Span, first: Span) -> (w: CompileWarning)
    ensures
        shadowed_by_wildcard(w, text@, span, first),
{
    CompileWarning {
        kind: WarningKind::UnreachablePattern(text),
        span,
        help: None,
        label: Some(("previous wildcard pattern here".to_string(), first)),
        note: Some(
            "this pattern will never be matched because the wildcard pattern above matches everything".to_string(),
        ),
    }
}

/// The warning for a pattern that repeats an earlier arm's.
fn repeat_warning(text: String, span: Span, first: Span) -> (w: CompileWarning)
    ensures
        repeats_pattern(w, text@, span, first),
{
    CompileWarning {
        kind: WarningKind::UnreachablePattern(text),
        span,
        help: None,
        label: Some(("first occurrence of this pattern".to_string(), first)),
        note: Some(
            "this pattern will never be matched because an earlier arm already matches the same value".to_string(),
        ),
    }
}

/// Where the integer `n` was first matched.
fn find_int(seen: &Vec<(i64, Span)>, n: i64) -> (r: Option<Span>)
    ensures
        r == first_int_span(seen@, n),
{
    let mut i: usize = 0;
    while i < seen.len()
        invariant
            i <= seen@.len(),
            first_int_span(seen@.take(i as int), n) is None,
        decreases seen@.len() - i,
    {
        proof {
            assert(seen@.take(i + 1).drop_last() =~= seen@.take(i as int));
        }
        if seen[i].0 == n {
            proof {
                lemma_first_int_prefix(seen@, i + 1, n);
            }
            return Some(seen[i].1);
        }
        i = i + 1;
    }
    assert(seen@.take(i as int) =~= seen@);
    None
}

/// A first occurrence found in a prefix is the first occurrence overall.
proof fn lemma_first_int_prefix(seen: Seq<(i64, Span)>, n: int, v: i64)
    requires
        0 <= n <= seen.len(),
        first_int_span(seen.take(n), v) is Some,
    ensures
        first_int_span(seen, v) == first_int_span(seen.take(n), v),
    decreases seen.len(),
{
    if n < seen.len() {
        assert(seen.drop_last().take(n) =~= seen.take(n));
        lemma_first_int_prefix(seen.drop_last(), n, v);
    } else {
        assert(seen.take(n) =~= seen);
    }
}

/// An integer not found was not recorded.
proof fn lemma_first_int_none(seen: Seq<(i64, Span)>, v: i64)
    requires
        first_int_span(seen, v) is None,
    ensures
        forall|i: int| 0 <= i < seen.len() ==> (#[trigger] seen[i]).0 != v,
    decreases seen.len(),
{
    if seen.len() > 0 {
        lemma_first_int_none(seen.drop_last(), v);
        assert forall|i: int| 0 <= i < seen.len() implies (#[trigger] seen[i]).0 != v by {
            if i < seen.len() - 1 {
                assert(seen.drop_last()[i] == seen[i]);
            }
        }
    }
}

impl<'a> Sema<'a> {
    /// The text a warning shows for a pattern.
    fn pattern_string(&self, p: Pattern) -> (s: String)
        requires
            p matches Pattern::Path { enum_sym, variant, .. } ==> interned(self.interner).contains_key(enum_sym)
                && interned(self.interner).contains_key(variant),
        ensures
            s@ == pattern_text(interned(self.interner), p),
    {
        match p {
            Pattern::Wildcard(_) => "_".to_string(),
            Pattern::Int(n, _) => decimal_i64(n),
            Pattern::Bool(b, _) => if b {
                "true".to_string()
            } else {
                "false".to_string()
            },
            Pattern::Path { enum_sym, variant, .. } => String::from_str(self.resolve(enum_sym)).concat(
                "::",
            ).concat(self.resolve(variant)),
        }
    }

    /// Check an arm's pattern against the scrutinee before the arm's value
    /// is analyzed, and record what it matches. A pattern after a wildcard
    /// arm, or one matching a value an earlier arm already matched, is
    /// warned about; a pattern of another type than the scrutinee's is an
    /// error. Returns the analyzed pattern.
    #[verifier::rlimit(60)]
    pub fn match_pattern(&self, state: &mut MatchState, warnings: &mut Vec<CompileWarning>, p: Pattern) -> (r:
        Result<AirPattern, CompileError>)
        requires
            old(state).wf(),
            p matches Pattern::Path { enum_sym, variant, .. } ==> interned(self.interner).contains_key(enum_sym)
                && interned(self.interner).contains_key(variant),
            forall|k: Sym| #[trigger]
                self.enums@.contains_key(k) ==> self.enums@[k] < self.type_pool.enums@.len()
                    && self.type_pool.enums@[self.enums@[k] as int].variants@.len() <= u32::MAX,
        ensures
            final(state).wf(),
            final(state).scrutinee_type == old(state).scrutinee_type,
            final(state).result_type == old(state).result_type,
            final(state).arms == old(state).arms,
            ({
                let names = interned(self.interner);
                let scrut = old(state).scrutinee_type;
                let w0 = old(warnings)@;
                let ws = final(warnings)@;
                let span = p.spec_span();
                // A warning for an arm after a wildcard arm comes first.
                let shadow = old(state).wildcard;
                let w1 = if shadow is Some {
                    ws.len() >= w0.len() + 1 && ws.take(w0.len() + 1int).drop_last() == w0 && shadowed_by_wildcard(
                        ws[w0.len() as int],
                        pattern_text(names, p),
                        span,
                        shadow->0,
                    )
                } else {
                    ws.len() >= w0.len() && ws.take(w0.len() as int) == w0
                };
                let base = if shadow is Some {
                    w0.len() + 1int
                } else {
                    w0.len() as int
                };
                &&& w1
                &&& match p {
                    Pattern::Wildcard(_) => {
                        &&& r == Ok::<AirPattern, CompileError>(AirPattern::Wildcard)
                        &&& ws.len() == base
                        &&& final(state).wildcard == if shadow is Some {
                            shadow
                        } else {
                            Some(span)
                        }
                        &&& final(state).bool_true == old(state).bool_true
                        &&& final(state).bool_false == old(state).bool_false
                        &&& final(state).seen_ints@ == old(state).seen_ints@
                        &&& final(state).covered_variants@ == old(state).covered_variants@
                        &&& final(state).pattern_enum == old(state).pattern_enum
                    },
                    Pattern::Int(n, _) => {
                        &&& final(state).wildcard == old(state).wildcard
                        &&& final(state).bool_true == old(state).bool_true
                        &&& final(state).bool_false == old(state).bool_false
                        &&& final(state).covered_variants@ == old(state).covered_variants@
                        &&& final(state).pattern_enum == old(state).pattern_enum
                        &&& if !scrut.spec_is_integer() {
                            &&& ws.len() == base
                            &&& final(state).seen_ints@ == old(state).seen_ints@
                            &&& r matches Err(e) && e.span == span && (e.kind matches ErrorKind::TypeMismatch {
                                expected,
                                found,
                            } && expected@ == name_of_type(scrut) && found@ == "integer"@)
                        } else {
                            &&& r == Ok::<AirPattern, CompileError>(AirPattern::Int(n))
                            &&& match first_int_span(old(state).seen_ints@, n) {
                                Some(f) => {
                                    &&& final(state).seen_ints@ == old(state).seen_ints@
                                    &&& if shadow is None {
                                        ws.len() == base + 1 && repeats_pattern(
                                            ws[base],
                                            spec_decimal_i64(n),
                                            span,
                                            f,
                                        )
                                    } else {
                                        ws.len() == base
                                    }
                                },
                                None => {
                                    &&& ws.len() == base
                                    &&& final(state).seen_ints@ == old(state).seen_ints@.push((n, span))
                                },
                            }
                        }
                    },
                    Pattern::Bool(b, _) => {
                        let slot = if b {
                            old(state).bool_true
                        } else {
                            old(state).bool_false
                        };
                        &&& final(state).wildcard == old(state).wildcard
                        &&& final(state).seen_ints@ == old(state).seen_ints@
                        &&& final(state).covered_variants@ == old(state).covered_variants@
                        &&& final(state).pattern_enum == old(state).pattern_enum
                        &&& if !(scrut is Bool) {
                            &&& ws.len() == base
                            &&& final(state).bool_true == old(state).bool_true
                            &&& final(state).bool_false == old(state).bool_false
                            &&& r matches Err(e) && e.span == span && (e.kind matches ErrorKind::TypeMismatch {
                                expected,
                                found,
                            } && expected@ == name_of_type(scrut) && found@ == "bool"@)
                        } else {
                            &&& r == Ok::<AirPattern, CompileError>(AirPattern::Bool(b))
                            &&& match slot {
                                Some(f) => {
                                    &&& final(state).bool_true == old(state).bool_true
                                    &&& final(state).bool_false == old(state).bool_false
                                    &&& if shadow is None {
                                        ws.len() == base + 1 && repeats_pattern(
                                            ws[base],
                                            if b {
                                                "true"@
                                            } else {
                                                "false"@
                                            },
                                            span,
                                            f,
                                        )
                                    } else {
                                        ws.len() == base
                                    }
                                },
                                None => {
                                    &&& ws.len() == base
                                    &&& final(state).bool_true == if b {
                                        Some(span)
                                    } else {
                                        old(state).bool_true
                                    }
                                    &&& final(state).bool_false == if b {
                                        old(state).bool_false
                                    } else {
                                        Some(span)
                                    }
                                },
                            }
                        }
                    },
                    Pattern::Path { enum_sym, variant, .. } => {
                        &&& ws.len() == base
                        &&& final(state).wildcard == old(state).wildcard
                        &&& final(state).bool_true == old(state).bool_true
                        &&& final(state).bool_false == old(state).bool_false
                        &&& final(state).seen_ints@ == old(state).seen_ints@
                        &&& if !self.enums@.contains_key(enum_sym) {
                            &&& final(state).covered_variants@ == old(state).covered_variants@
                            &&& final(state).pattern_enum == old(state).pattern_enum
                            &&& r matches Err(e) && e.span == span && (e.kind matches ErrorKind::UnknownEnumType(n)
                                && n@ == names[enum_sym])
                        } else {
                            let id = self.enums@[enum_sym];
                            let def = self.type_pool.enums@[id as int];
                            if scrut != Type::Enum(id) {
                                &&& final(state).covered_variants@ == old(state).covered_variants@
                                &&& final(state).pattern_enum == old(state).pattern_enum
                                &&& r matches Err(e) && e.span == span && (e.kind matches ErrorKind::TypeMismatch {
                                    expected,
                                    found,
                                } && expected@ == name_of_type(scrut) && found@ == def.name@)
                            } else {
                                match variant_index_of(def.variants@, names[variant]) {
                                    None => {
                                        &&& final(state).covered_variants@ == old(state).covered_variants@
                                        &&& final(state).pattern_enum == old(state).pattern_enum
                                        &&& r matches Err(e) && e.span == span && (
                                        e.kind matches ErrorKind::UnknownVariant { enum_name, variant_name }
                                            && enum_name@ == def.name@ && variant_name@ == names[variant])
                                    },
                                    Some(i) => {
                                        &&& r == Ok::<AirPattern, CompileError>(
                                            AirPattern::EnumVariant { enum_id: id, variant_index: i as u32 },
                                        )
                                        &&& final(state).covered_variants@ == if old(
                                            state,
                                        ).covered_variants@.contains(i as u32) {
                                            old(state).covered_variants@
                                        } else {
                                            old(state).covered_variants@.push(i as u32)
                                        }
                                        &&& final(state).pattern_enum == Some(id)
                                    },
                                }
                            }
                        }
                    },
                }
            }),
    {
        let span = p.span();
        let ghost w0 = warnings@;
        match state.wildcard {
            Some(first) => {
                let text = self.pattern_string(p);
                warnings.push(wildcard_warning(text, span, first));
                assert(warnings@.take(w0.len() + 1int).drop_last() =~= w0);
            },
            None => {
                assert(warnings@.take(w0.len() as int) =~= w0);
            },
        }
        let ghost w1 = warnings@;
        let shadowed = state.wildcard.is_some();
        match p {
            Pattern::Wildcard(_) => {
                if state.wildcard.is_none() {
                    state.wildcard = Some(span);
                }
                Ok(AirPattern::Wildcard)
            },
            Pattern::Int(n, _) => {
                if !state.scrutinee_type.is_integer() {
                    return Err(
                        CompileError::new(
                            ErrorKind::TypeMismatch {
                                expected: state.scrutinee_type.name(),
                                found: "integer".to_string(),
                            },
                            span,
                        ),
                    );
                }
                match find_int(&state.seen_ints, n) {
                    Some(first) => {
                        if !shadowed {
                            warnings.push(repeat_warning(decimal_i64(n), span, first));
                            assert(warnings@.take(w1.len() as int) =~= w1);
                        }
                    },
                    None => {
                        proof {
                            lemma_first_int_none(state.seen_ints@, n);
                        }
                        state.seen_ints.push((n, span));
                    },
                }
                Ok(AirPattern::Int(n))
            },
            Pattern::Bool(b, _) => {
                match state.scrutinee_type {
                    Type::Bool => {},
                    _ => {
                        return Err(
                            CompileError::new(
                                ErrorKind::TypeMismatch {
                                    expected: state.scrutinee_type.name(),
                                    found: "bool".to_string(),
                                },
                                span,
                            ),
                        );
                    },
                }
                let slot = if b {
                    state.bool_true
                } else {
                    state.bool_false
                };
                match slot {
                    Some(first) => {
                        if !shadowed {
                            let text = if b {
                                "true".to_string()
                            } else {
                                "false".to_string()
                            };
                            warnings.push(repeat_warning(text, span, first));
                            assert(warnings@.take(w1.len() as int) =~= w1);
                        }
                    },
                    None => {
                        if b {
                            state.bool_true = Some(span);
                        } else {
                            state.bool_false = Some(span);
                        }
                    },
                }
                Ok(AirPattern::Bool(b))
            },
            Pattern::Path { enum_sym, variant, .. } => {
                let enum_id = match self.enums.get(&enum_sym) {
                    Some(id) => *id,
                    None => {
                        return Err(
                            CompileError::new(
                                ErrorKind::UnknownEnumType(self.resolve(enum_sym).to_string()),
                                span,
                            ),
                        );
                    },
                };
                let def = &self.type_pool.enums[enum_id as usize];
                if state.scrutinee_type != Type::Enum(enum_id) {
                    return Err(
                        CompileError::new(
                            ErrorKind::TypeMismatch { expected: state.scrutinee_type.name(), found: def.name.clone() },
                            span,
                        ),
                    );
                }
                let variant_name = self.resolve(variant);
                let index = match def.find_variant(variant_name) {
                    Some(i) => i,
                    None => {
                        return Err(
                            CompileError::new(
                                ErrorKind::UnknownVariant {
                                    enum_name: def.name.clone(),
                                    variant_name: variant_name.to_string(),
                                },
                                span,
                            ),
                        );
                    },
                };
                proof {
                    lemma_variant_index_of(def.variants@, variant_name@);
                }
                let index = index as u32;
                let mut covered = false;
                let mut k: usize = 0;
                while k < state.covered_variants.len()
                    invariant
                        k <= state.covered_variants@.len(),
                        covered <==> state.covered_variants@.take(k as int).contains(index),
                    decreases state.covered_variants@.len() - k,
                {
                    proof {
                        assert(state.covered_variants@.take(k + 1) =~= state.covered_variants@.take(k as int).push(
                            state.covered_variants@[k as int],
                        ));
                    }
                    if state.covered_variants[k] == index {
                        covered = true;
                    }
                    proof {
                        let prefix = state.covered_variants@.take(k as int);
                        let next = state.covered_variants@.take(k + 1);
                        assert(next[k as int] == state.covered_variants@[k as int]);
                        if next.contains(index) {
                            let j = choose|j: int| 0 <= j < next.len() && next[j] == index;
                        }
                        if prefix.contains(index) {
                            let j = choose|j: int| 0 <= j < prefix.len() && prefix[j] == index;
                        }
                    }
                    k = k + 1;
                }
                assert(state.covered_variants@.take(k as int) =~= state.covered_variants@);
                if !covered {
                    state.covered_variants.push(index);
                    proof {
                        assert forall|i: int, j: int|
                            0 <= i < j < state.covered_variants@.len() implies state.covered_variants@[i]
                            != state.covered_variants@[j] by {}
                    }
                }
                state.pattern_enum = Some(enum_id);
                Ok(AirPattern::EnumVariant { enum_id, variant_index: index })
            },
        }
    }

    /// Finish a match once every arm is added: the arms must cover every
    /// value of the scrutinee. The match has the arms' joined type (unit
    /// when there is none), and its arms are encoded into the extra array.
    pub fn finish_match(&self, air: &mut Air, state: &MatchState, scrutinee: AirRef, span: Span) -> (r: Result<
        AnalysisResult,
        CompileError,
    >)
        requires
            state.pattern_enum matches Some(id) ==> id < self.type_pool.enums@.len(),
            old(air).instructions@.len() < u32::MAX,
            old(air).extra@.len() + 4 * state.arms@.len() <= u32::MAX,
        ensures
            ({
                let count = match state.pattern_enum {
                    Some(id) => self.type_pool.enums@[id as int].variants@.len(),
                    None => 0,
                };
                let ty = match state.result_type {
                    Some(t) => t,
                    None => Type::Unit,
                };
                if !exhaustive(state, count) {
                    &&& *final(air) == *old(air)
                    &&& r matches Err(e) && e.span == span && e.kind == ErrorKind::NonExhaustiveMatch
                } else {
                    &&& r == Ok::<AnalysisResult, CompileError>(
                        AnalysisResult { air_ref: old(air).instructions@.len() as u32, ty },
                    )
                    &&& final(air).extra@ == old(air).extra@ + encode_arms(state.arms@)
                    &&& final(air).instructions@ == old(air).instructions@.push(
                        AirInst {
                            data: AirInstData::Match {
                                scrutinee,
                                arms_start: old(air).extra@.len() as u32,
                                arms_len: state.arms@.len() as u32,
                            },
                            ty,
                            span,
                        },
                    )
                    &&& final(air).return_type == old(air).return_type
                }
            }),
    {
        let has_wildcard = state.wildcard.is_some();
        let is_exhaustive = match state.scrutinee_type {
            Type::Bool => has_wildcard || (state.bool_true.is_some() && state.bool_false.is_some()),
            _ => match state.pattern_enum {
                Some(id) => has_wildcard || state.covered_variants.len() == self.type_pool.enums[id as usize].variants.len(),
                None => has_wildcard,
            },
        };
        if !is_exhaustive {
            return Err(CompileError::new(ErrorKind::NonExhaustiveMatch, span));
        }
        let ty = match state.result_type {
            Some(t) => t,
            None => Type::Unit,
        };
        let words = encode_match_arms(&state.arms);
        let arms_start = air.add_extra(words.as_slice());
        let air_ref = air.add_inst(
            AirInst {
                data: AirInstData::Match { scrutinee, arms_start, arms_len: state.arms.len() as u32 },
                ty,
                span,
            },
        );
        Ok(AnalysisResult::new(air_ref, ty))
    }
}

/// Add an analyzed arm: its value's type must agree with the other arms'
/// (see `joined_type`); where it does not, the error points at the value.
pub fn add_arm(state: &mut MatchState, pattern: AirPattern, body: AnalysisResult, body_span: Span) -> (r: Result<
    (),
    CompileError,
>)
    ensures
        final(state).scrutinee_type == old(state).scrutinee_type,
        final(state).wildcard == old(state).wildcard,
        final(state).bool_true == old(state).bool_true,
        final(state).bool_false == old(state).bool_false,
        final(state).seen_ints == old(state).seen_ints,
        final(state).covered_variants == old(state).covered_variants,
        final(state).pattern_enum == old(state).pattern_enum,
        match joined_type(old(state).result_type, body.ty) {
            Some(t) => {
                &&& r is Ok
                &&& final(state).result_type == Some(t)
                &&& final(state).arms@ == old(state).arms@.push((pattern, body.air_ref))
            },
            None => {
                &&& final(state).result_type == old(state).result_type
                &&& final(state).arms@ == old(state).arms@
                &&& r matches Err(e) && e.span == body_span && (e.kind matches ErrorKind::TypeMismatch {
                    expected,
                    found,
                } && expected@ == name_of_type(old(state).result_type->0) && found@ == name_of_type(body.ty))
            },
        },
{
    let body_ty = body.ty;
    let t = match state.result_type {
        None => body_ty,
        Some(prev) => {
            if prev.is_never() {
                body_ty
            } else if body_ty.is_never() {
                prev
            } else if prev != body_ty && !prev.is_error() && !body_ty.is_error() {
                return Err(
                    CompileError::new(
                        ErrorKind::TypeMismatch { expected: prev.name(), found: body_ty.name() },
                        body_span,
                    ),
                );
            } else {
                prev
            }
        },
    };
    state.result_type = Some(t);
    state.arms.push((pattern, body.air_ref));
    Ok(())
}

/// The words of one arm.
fn encode_one_arm(pattern: AirPattern, body: AirRef) -> (w: Vec<u32>)
    ensures
        w@ == encode_arm(pattern, body),
{
    match pattern {
        AirPattern::Wildcard => vec![0u32, body],
        AirPattern::Int(n) => {
            let bits = n as u64;
            vec![1u32, bits as u32, (bits >> 32u64) as u32, body]
        },
        AirPattern::Bool(b) => vec![2u32, if b {
            1u32
        } else {
            0u32
        }, body],
        AirPattern::EnumVariant { enum_id, variant_index } => vec![3u32, enum_id, variant_index, body],
    }
}

/// The words of a list of arms.
fn encode_match_arms(arms: &Vec<(AirPattern, AirRef)>) -> (w: Vec<u32>)
    requires
        4 * arms@.len() <= u32::MAX,
    ensures
        w@ == encode_arms(arms@),
        w@.len() <= 4 * arms@.len(),
{
    let mut out: Vec<u32> = Vec::new();
    let mut i: usize = 0;
    while i < arms.len()
        invariant
            i <= arms@.len(),
            4 * arms@.len() <= u32::MAX,
            out@ == encode_arms(arms@.take(i as int)),
            out@.len() <= 4 * i,
        decreases arms@.len() - i,
    {
        let (pattern, body) = arms[i];
        let words = encode_one_arm(pattern, body);
        let mut j: usize = 0;
        let ghost before = out@;
        while j < words.len()
            invariant
                j <= words@.len(),
                words@.len() <= 4,
                out@ == before + words@.take(j as int),
                before.len() <= 4 * i,
                i < arms@.len(),
                4 * arms@.len() <= u32::MAX,
            decreases words@.len() - j,
        {
            out.push(words[j]);
            j = j + 1;
        }
        proof {
            assert(arms@.take(i + 1).drop_last() =~= arms@.take(i as int));
        }
        i = i + 1;
    }
    assert(arms@.take(i as int) =~= arms@);
    out
}

/// A match with a wildcard arm covers every value.
pub proof fn law_wildcard_match_is_exhaustive(state: &MatchState, variant_count: nat)
    requires
        state.wildcard is Some,
    ensures
        exhaustive(state, variant_count),
{
}

/// A match on an enum whose arms name every variant of it covers every value.
pub proof fn law_all_variants_make_a_match_exhaustive(state: &MatchState, variant_count: nat)
    requires
        state.wf(),
        !(state.scrutinee_type is Bool),
        state.pattern_enum is Some,
        forall|i: int| 0 <= i < state.covered_variants@.len() ==> #[trigger] state.covered_variants@[i] < variant_count,
        variant_count <= u32::MAX,
        forall|v: u32| v < variant_count ==> #[trigger] state.covered_variants@.contains(v),
    ensures
        exhaustive(state, variant_count),
{
    let covered = state.covered_variants@;
    let as_ints = covered.map_values(|v: u32| v as int);
    assert(as_ints.no_duplicates()) by {
        assert forall|i: int, j: int| 0 <= i < as_ints.len() && 0 <= j < as_ints.len() && i != j implies as_ints[i]
            != as_ints[j] by {}
    }
    assert(as_ints.to_set() =~= vstd::set_lib::set_int_range(0, variant_count as int)) by {
        assert forall|v: int| #[trigger] as_ints.to_set().contains(v) implies 0 <= v < variant_count by {
            let i = choose|i: int| 0 <= i < as_ints.len() && as_ints[i] == v;
        }
        assert forall|v: int| 0 <= v < variant_count implies #[trigger] as_ints.to_set().contains(v) by {
            assert(covered.contains(v as u32));
            let i = choose|i: int| 0 <= i < covered.len() && covered[i] == v as u32;
            assert(as_ints[i] == v);
        }
    }
    as_ints.unique_seq_to_set();
    vstd::set_lib::lemma_int_range(0, variant_count as int);
}

impl<'a> Sema<'a> {
    /// Analyze `Enum::Variant`, or `module.Enum::Variant` when the enum is
    /// named through a module (which checks that the enum is visible).
    pub fn analyze_enum_variant(
        &self,
        air: &mut Air,
        module: Option<InstRef>,
        enum_sym: Sym,
        variant: Sym,
        span: Span,
    ) -> (r: Result<AnalysisResult, CompileError>)
        requires
            self.wf(),
            interned(self.interner).contains_key(enum_sym),
            interned(self.interner).contains_key(variant),
            forall|k: Sym| #[trigger]
                self.enums@.contains_key(k) ==> self.type_pool.enums@[self.enums@[k] as int].variants@.len()
                    <= u32::MAX,
            old(air).instructions@.len() < u32::MAX,
        ensures
            ({
                let names = interned(self.interner);
                if !self.enums@.contains_key(enum_sym) {
                    &&& *final(air) == *old(air)
                    &&& r matches Err(e) && e.span == span && (e.kind matches ErrorKind::UnknownEnumType(n) && n@
                        == names[enum_sym])
                } else {
                    let id = self.enums@[enum_sym];
                    let def = self.type_pool.enums@[id as int];
                    if module is Some && !accessible(self.file_paths@, span.file_id, def.file_id, def.is_pub) {
                        &&& *final(air) == *old(air)
                        &&& r matches Err(e) && e.span == span && (e.kind matches ErrorKind::PrivateMemberAccess {
                            item_kind,
                            name,
                        } && item_kind@ == "enum"@ && name@ == names[enum_sym])
                    } else {
                        match variant_index_of(def.variants@, names[variant]) {
                            None => {
                                &&& *final(air) == *old(air)
                                &&& r matches Err(e) && e.span == span && (e.kind matches ErrorKind::UnknownVariant {
                                    enum_name,
                                    variant_name,
                                } && enum_name@ == def.name@ && variant_name@ == names[variant])
                            },
                            Some(i) => {
                                &&& r == Ok::<AnalysisResult, CompileError>(
                                    AnalysisResult { air_ref: old(air).instructions@.len() as u32, ty: Type::Enum(id) },
                                )
                                &&& appended(
                                    *old(air),
                                    *final(air),
                                    AirInst {
                                        data: AirInstData::EnumVariant { enum_id: id, variant_index: i as u32 },
                                        ty: Type::Enum(id),
                                        span,
                                    },
                                )
                            },
                        }
                    }
                }
            }),
    {
        let enum_id = match module {
            Some(module_ref) => match self.resolve_enum_through_module(module_ref, enum_sym, span) {
                Ok(id) => id,
                Err(e) => {
                    return Err(e);
                },
            },
            None => match self.enums.get(&enum_sym) {
                Some(id) => *id,
                None => {
                    return Err(
                        CompileError::new(ErrorKind::UnknownEnumType(self.resolve(enum_sym).to_string()), span),
                    );
                },
            },
        };
        let def = &self.type_pool.enums[enum_id as usize];
        let variant_name = self.resolve(variant);
        let index = match def.find_variant(variant_name) {
            Some(i) => i,
            None => {
                return Err(
                    CompileError::new(
                        ErrorKind::UnknownVariant { enum_name: def.name.clone(), variant_name: variant_name.to_string() },
                        span,
                    ),
                );
            },
        };
        proof {
            lemma_variant_index_of(def.variants@, variant_name@);
        }
        let ty = Type::Enum(enum_id);
        let air_ref = air.add_inst(
            AirInst { data: AirInstData::EnumVariant { enum_id, variant_index: index as u32 }, ty, span },
        );
        Ok(AnalysisResult::new(air_ref, ty))
    }
}


/// How the arms of a match agree on a type: the first arm gives its type;
/// an arm agrees with arms of its own type; an arm that never produces a
/// value takes the others' type (and the others take its place when they
/// never produce one); two different types that stand for no error
/// disagree.
pub proof fn law_arm_types_join(p: Type, b: Type)
    ensures
        joined_type(None, b) == Some(b),
        joined_type(Some(b), b) == Some(b),
        joined_type(Some(p), Type::Never) == Some(p),
        joined_type(Some(Type::Never), b) == Some(b),
        p != b && !(p is Never) && !(b is Never) && !(p is Error) && !(b is Error) ==> joined_type(Some(p), b) is None,
        joined_type(Some(p), b) matches Some(t) ==> (t == p || t == b),
{
}

/// The variant a name finds is the first variant of that name; no variant
/// is found only when none has the name.
pub proof fn law_variant_lookup_finds_the_first(variants: Seq<String>, name: Seq<char>)
    ensures
        match variant_index_of(variants, name) {
            Some(i) => 0 <= i < variants.len() && variants[i]@ == name && forall|j: int|
                0 <= j < i ==> (#[trigger] variants[j])@ != name,
            None => forall|j: int| 0 <= j < variants.len() ==> (#[trigger] variants[j])@ != name,
        },
    decreases variants.len(),
{
    if variants.len() > 0 {
        law_variant_lookup_finds_the_first(variants.drop_last(), name);
        assert forall|j: int| 0 <= j < variants.len() - 1 implies variants.drop_last()[j] == variants[j] by {}
    }
}

/// When a match covers every value: a wildcard arm always does; on a
/// `bool`, arms for `true` and `false` do; on an enum, arms for all its
/// variants do; on an integer, only a wildcard does.
pub proof fn law_match_coverage(state: &MatchState, variant_count: nat)
    ensures
        state.wildcard is Some ==> exhaustive(state, variant_count),
        state.scrutinee_type is Bool && state.bool_true is Some && state.bool_false is Some ==> exhaustive(
            state,
            variant_count,
        ),
        state.scrutinee_type is Bool && state.wildcard is None && (state.bool_true is None || state.bool_false is None)
            ==> !exhaustive(state, variant_count),
        !(state.scrutinee_type is Bool) && state.pattern_enum is Some && state.covered_variants@.len() == variant_count
            ==> exhaustive(state, variant_count),
        state.scrutinee_type.spec_is_integer() && state.pattern_enum is None && state.wildcard is None ==> !exhaustive(
            state,
            variant_count,
        ),
{
}

} // verus!
