//! The output of semantic analysis, and the merging of per-function results
//! into it.
use vstd::prelude::*;

use crate::air::{Air, AirInst, AirInstData};
use crate::context::CompileWarning;
use crate::diag::{CompileError, CompileErrors};
use crate::types::TypePool;

verus! {

/// Result of analyzing a function.
#[derive(Debug)]
pub struct AnalyzedFunction {
    pub name: String,
    pub air: Air,
    /// Number of local variable slots needed
    pub num_locals: u32,
    /// Number of ABI slots used by parameters.
    /// For scalar types (i32, bool), each parameter uses 1 slot.
    /// For struct types, each field uses 1 slot (flattened ABI).
    pub num_param_slots: u32,
    /// Whether each parameter slot is passed as inout (by reference).
    /// Length matches num_param_slots - for struct params, all slots share
    /// the mode of the parameter they belong to.
    pub param_modes: Vec<bool>,
}

/// Output from semantic analysis: the analyzed functions, the string
/// literals their code refers to, and the warnings.
#[derive(Debug)]
pub struct SemaOutput {
    /// Analyzed functions with typed IR.
    pub functions: Vec<AnalyzedFunction>,
    /// String literals indexed by their AIR string_const index.
    pub strings: Vec<String>,
    /// Warnings collected during analysis.
    pub warnings: Vec<CompileWarning>,
    /// The struct, enum and array definitions.
    pub type_pool: TypePool,
}

/// The position a warning is sorted by: where its span starts.
pub open spec fn warning_key(w: CompileWarning) -> u32 {
    w.span.start
}

/// Position `i` of `after` comes before position `j` when ordered by key,
/// then by position before sorting (`perm` gives those positions).
pub open spec fn in_order(after: Seq<CompileWarning>, perm: Seq<int>, i: int, j: int) -> bool {
    ||| warning_key(after[i]) < warning_key(after[j])
    ||| warning_key(after[i]) == warning_key(after[j]) && perm[i] < perm[j]
}

/// `after` is `before` rearranged by `perm` (`after[i]` is `before[perm[i]]`)
/// so that warnings come by span start, and warnings with the same start
/// keep their relative order.
pub open spec fn is_stable_sort(before: Seq<CompileWarning>, after: Seq<CompileWarning>, perm: Seq<int>) -> bool {
    &&& after.len() == before.len()
    &&& perm.len() == before.len()
    &&& forall|i: int| 0 <= i < perm.len() ==> 0 <= #[trigger] perm[i] < before.len()
    &&& forall|i: int, j: int| 0 <= i < j < perm.len() ==> perm[i] != perm[j]
    &&& forall|i: int| 0 <= i < after.len() ==> #[trigger] after[i] == before[perm[i]]
    &&& forall|i: int, j: int| 0 <= i < j < after.len() ==> in_order(after, perm, i, j)
}

/// `after` is `before` sorted stably by span start.
pub open spec fn stably_sorted_by_start(before: Seq<CompileWarning>, after: Seq<CompileWarning>) -> bool {
    exists|perm: Seq<int>| is_stable_sort(before, after, perm)
}

/// Sort warnings by where their spans start, keeping the order of warnings
/// that start at the same place.
pub fn sort_warnings_by_start(warnings: Vec<CompileWarning>) -> (sorted: Vec<CompileWarning>)
    ensures
        stably_sorted_by_start(warnings@, sorted@),
{
    let ghost before = warnings@;
    let n = warnings.len();
    let mut rest = warnings;
    let mut out: Vec<CompileWarning> = Vec::new();
    let ghost mut perm: Seq<int> = Seq::empty();
    while rest.len() > 0
        invariant
            n == before.len(),
            rest@ == before.take(rest@.len() as int),
            rest@.len() <= n,
            out@.len() == n - rest@.len(),
            perm.len() == out@.len(),
            forall|i: int| 0 <= i < perm.len() ==> rest@.len() <= #[trigger] perm[i] < n,
            forall|i: int, j: int| 0 <= i < j < perm.len() ==> perm[i] != perm[j],
            forall|i: int| 0 <= i < out@.len() ==> #[trigger] out@[i] == before[perm[i]],
            forall|i: int, j: int| 0 <= i < j < out@.len() ==> in_order(out@, perm, i, j),
        decreases rest@.len(),
    {
        let ghost k = rest@.len() - 1;
        let w = match rest.pop() {
            Some(w) => w,
            None => {
                return out;
            },
        };
        let key = w.span.start;
        // The first warning that does not start before this one.
        let mut p: usize = 0;
        while p < out.len() && out[p].span.start < key
            invariant
                p <= out@.len(),
                forall|q: int| 0 <= q < p ==> warning_key(#[trigger] out@[q]) < key,
            decreases out@.len() - p,
        {
            p = p + 1;
        }
        proof {
            // Every later warning starts at or after this one.
            assert forall|q: int| p <= q < out@.len() implies warning_key(#[trigger] out@[q]) >= key by {
                if q > p {
                    assert(in_order(out@, perm, p as int, q));
                }
            }
        }
        let ghost old_out = out@;
        let ghost old_perm = perm;
        out.insert(p, w);
        proof {
            perm = perm.insert(p as int, k);
            assert forall|i: int| 0 <= i < perm.len() implies rest@.len() <= #[trigger] perm[i] < n by {}
            assert forall|i: int, j: int| 0 <= i < j < perm.len() implies perm[i] != perm[j] by {}
            assert forall|i: int| 0 <= i < out@.len() implies #[trigger] out@[i] == before[perm[i]] by {}
            assert forall|i: int, j: int| 0 <= i < j < out@.len() implies in_order(out@, perm, i, j) by {
                if i != p && j != p {
                    let oi = if i < p { i } else { i - 1 };
                    let oj = if j < p { j } else { j - 1 };
                    assert(in_order(old_out, old_perm, oi, oj));
                }
            }
        }
    }
    assert(is_stable_sort(before, out@, perm));
    out
}

/// The result of analyzing one function: the function, its warnings and its
/// own string table; or the error that stopped its analysis.
pub type FunctionResult = Result<(AnalyzedFunction, Vec<CompileWarning>, Vec<String>), CompileError>;

/// The successful results, in order.
pub open spec fn successes(rs: Seq<FunctionResult>) -> Seq<(AnalyzedFunction, Vec<CompileWarning>, Vec<String>)>
    decreases rs.len(),
{
    if rs.len() == 0 {
        Seq::empty()
    } else {
        let rest = successes(rs.drop_last());
        match rs.last() {
            Ok(t) => rest.push(t),
            Err(_) => rest,
        }
    }
}

/// The errors of the failed results, in order.
pub open spec fn failures(rs: Seq<FunctionResult>) -> Seq<CompileError>
    decreases rs.len(),
{
    if rs.len() == 0 {
        Seq::empty()
    } else {
        let rest = failures(rs.drop_last());
        match rs.last() {
            Ok(_) => rest,
            Err(e) => rest.push(e),
        }
    }
}

/// The sequences of `s`, one after the other.
pub open spec fn concat_all<A>(s: Seq<Seq<A>>) -> Seq<A>
    decreases s.len(),
{
    if s.len() == 0 {
        Seq::empty()
    } else {
        concat_all(s.drop_last()) + s.last()
    }
}

/// The texts of a list of strings.
pub open spec fn strings_view(v: Seq<String>) -> Seq<Seq<char>> {
    v.map_values(|s: String| s@)
}

/// The warnings of the successful results, in order.
pub open spec fn warnings_of(oks: Seq<(AnalyzedFunction, Vec<CompileWarning>, Vec<String>)>) -> Seq<CompileWarning> {
    concat_all(oks.map_values(|t: (AnalyzedFunction, Vec<CompileWarning>, Vec<String>)| t.1@))
}

/// The string tables of the successful results, one after the other.
pub open spec fn strings_of(oks: Seq<(AnalyzedFunction, Vec<CompileWarning>, Vec<String>)>) -> Seq<Seq<char>> {
    concat_all(oks.map_values(|t: (AnalyzedFunction, Vec<CompileWarning>, Vec<String>)| strings_view(t.2@)))
}

/// The texts of `s` without repetitions, each where it first occurs.
pub open spec fn dedup(s: Seq<Seq<char>>) -> Seq<Seq<char>>
    decreases s.len(),
{
    if s.len() == 0 {
        Seq::empty()
    } else {
        let r = dedup(s.drop_last());
        if r.contains(s.last()) {
            r
        } else {
            r.push(s.last())
        }
    }
}

/// A typed instruction after the merge: a string literal now refers to the
/// same text in the merged table; everything else is unchanged.
pub open spec fn inst_merged(before: AirInst, after: AirInst, local: Seq<Seq<char>>, global: Seq<Seq<char>>) -> bool {
    &&& after.ty == before.ty
    &&& after.span == before.span
    &&& match before.data {
        AirInstData::StringConst(id) => match after.data {
            AirInstData::StringConst(g) => g < global.len() && global[g as int] == local[id as int],
            _ => false,
        },
        _ => after.data == before.data,
    }
}

/// A function after the merge: when it has its own strings, its string
/// literals refer to the merged table; nothing else changes.
pub open spec fn function_merged(
    before: AnalyzedFunction,
    local: Seq<Seq<char>>,
    global: Seq<Seq<char>>,
    after: AnalyzedFunction,
) -> bool {
    if local.len() == 0 {
        after == before
    } else {
        &&& after.name == before.name
        &&& after.num_locals == before.num_locals
        &&& after.num_param_slots == before.num_param_slots
        &&& after.param_modes == before.param_modes
        &&& after.air.extra == before.air.extra
        &&& after.air.return_type == before.air.return_type
        &&& after.air.instructions@.len() == before.air.instructions@.len()
        &&& forall|i: int|
            0 <= i < after.air.instructions@.len() ==> inst_merged(
                before.air.instructions@[i],
                #[trigger] after.air.instructions@[i],
                local,
                global,
            )
    }
}

/// Each successful result's string literals refer to its own string table.
pub open spec fn string_ids_in_range(rs: Seq<FunctionResult>) -> bool {
    forall|i: int|
        0 <= i < rs.len() ==> match #[trigger] rs[i] {
            Ok(t) => t.2@.len() > 0 ==> t.0.air.string_ids_below(t.2@.len()),
            Err(_) => true,
        }
}

/// A deduplicated sequence is no longer than the sequence.
proof fn lemma_dedup_len(s: Seq<Seq<char>>)
    ensures
        dedup(s).len() <= s.len(),
    decreases s.len(),
{
    if s.len() > 0 {
        lemma_dedup_len(s.drop_last());
    }
}

/// The concatenation of a prefix is no longer than the whole concatenation.
proof fn lemma_concat_prefix_len<A>(s: Seq<Seq<A>>, f: int)
    requires
        0 <= f <= s.len(),
    ensures
        concat_all(s.take(f)).len() <= concat_all(s).len(),
    decreases s.len(),
{
    if f < s.len() {
        assert(s.take(f) =~= s.drop_last().take(f));
        lemma_concat_prefix_len(s.drop_last(), f);
    } else {
        assert(s.take(f) =~= s);
    }
}

/// Deduplicating `s` then `x` extends the deduplication of `s`.
proof fn lemma_dedup_push(s: Seq<Seq<char>>, x: Seq<char>)
    ensures
        dedup(s.push(x)) == (if dedup(s).contains(x) {
            dedup(s)
        } else {
            dedup(s).push(x)
        }),
{
    assert(s.push(x).drop_last() =~= s);
}

/// The successful results of results whose string ids are in range have them in range.
proof fn lemma_successes_in_range(rs: Seq<FunctionResult>)
    requires
        string_ids_in_range(rs),
    ensures
        forall|i: int|
            0 <= i < successes(rs).len() ==> (#[trigger] successes(rs)[i]).2@.len() > 0
                ==> successes(rs)[i].0.air.string_ids_below(successes(rs)[i].2@.len()),
    decreases rs.len(),
{
    if rs.len() > 0 {
        assert(string_ids_in_range(rs.drop_last())) by {
            assert forall|i: int| 0 <= i < rs.drop_last().len() implies match #[trigger] rs.drop_last()[i] {
                Ok(t) => t.2@.len() > 0 ==> t.0.air.string_ids_below(t.2@.len()),
                Err(_) => true,
            } by {}
        }
        lemma_successes_in_range(rs.drop_last());
        assert(match rs[rs.len() - 1] {
            Ok(t) => t.2@.len() > 0 ==> t.0.air.string_ids_below(t.2@.len()),
            Err(_) => true,
        });
    }
}

/// The index of string `s` in the merged table `global`, which is extended
/// with `s` when it does not hold it yet.
fn intern_string(global: &mut Vec<String>, s: &String) -> (id: u32)
    requires
        old(global)@.len() < u32::MAX,
    ensures
        strings_view(final(global)@) == (if strings_view(old(global)@).contains(s@) {
            strings_view(old(global)@)
        } else {
            strings_view(old(global)@).push(s@)
        }),
        id < final(global)@.len(),
        final(global)@[id as int]@ == s@,
{
    let mut i: usize = 0;
    while i < global.len()
        invariant
            i <= global@.len(),
            global@ == old(global)@,
            global@.len() < u32::MAX,
            forall|q: int| 0 <= q < i ==> (#[trigger] global@[q])@ != s@,
        decreases global@.len() - i,
    {
        if global[i] == *s {
            assert(strings_view(global@)[i as int] == s@);
            return i as u32;
        }
        i = i + 1;
    }
    assert(!strings_view(global@).contains(s@)) by {
        if strings_view(global@).contains(s@) {
            let q = choose|q: int| 0 <= q < strings_view(global@).len() && strings_view(global@)[q] == s@;
        }
    }
    let id = global.len() as u32;
    global.push(s.clone());
    id
}

/// What merging the per-function results `rs` gives: every error, in
/// order, when there is one; otherwise the functions in order with their
/// string literals renumbered into one table of distinct texts, and the
/// warnings stably sorted by where they start.
pub open spec fn merged(rs: Seq<FunctionResult>, type_pool: TypePool, r: Result<SemaOutput, CompileErrors>) -> bool {
    &&& r is Err <==> failures(rs).len() > 0
    &&& r matches Err(e) ==> e.errors@ == failures(rs)
    &&& r matches Ok(out) ==> {
        let oks = successes(rs);
        &&& out.type_pool == type_pool
        &&& strings_view(out.strings@) == dedup(strings_of(oks))
        &&& out.functions@.len() == oks.len()
        &&& forall|f: int|
            0 <= f < oks.len() ==> function_merged(
                oks[f].0,
                strings_view(oks[f].2@),
                strings_view(out.strings@),
                #[trigger] out.functions@[f],
            )
        &&& stably_sorted_by_start(warnings_of(oks), out.warnings@)
    }
}

/// Merge the results of analyzing functions independently.
///
/// Any error makes the whole result an error, listing every error in the
/// order of the results. Otherwise the functions come in order, their string
/// tables are merged into one where each text appears once (in the order the
/// texts first occur), their string literals are renumbered to refer to it,
/// and the warnings of all functions are sorted by where they start.
pub fn merge_function_results(results: Vec<FunctionResult>, type_pool: TypePool) -> (r: Result<
    SemaOutput,
    CompileErrors,
>)
    requires
        string_ids_in_range(results@),
        strings_of(successes(results@)).len() < u32::MAX,
    ensures
        merged(results@, type_pool, r),
{
    let ghost rs = results@;
    let n = results.len();
    let mut errors = CompileErrors::new();
    let mut functions_with_strings: Vec<(AnalyzedFunction, Vec<String>)> = Vec::new();
    let mut all_warnings: Vec<CompileWarning> = Vec::new();
    let mut pending = results;
    let mut k: usize = 0;
    // Collect successes and errors
    while pending.len() > 0
        invariant
            k <= rs.len(),
            n == rs.len(),
            pending@ == rs.skip(k as int),
            errors.errors@ == failures(rs.take(k as int)),
            functions_with_strings@.len() == successes(rs.take(k as int)).len(),
            forall|i: int|
                0 <= i < functions_with_strings@.len() ==> (#[trigger] functions_with_strings@[i]).0
                    == successes(rs.take(k as int))[i].0 && functions_with_strings@[i].1
                    == successes(rs.take(k as int))[i].2,
            all_warnings@ == warnings_of(successes(rs.take(k as int))),
        decreases pending@.len(),
    {
        let result = pending.remove(0);
        proof {
            assert(rs.take(k + 1).drop_last() =~= rs.take(k as int));
        }
        let ghost oks_before = successes(rs.take(k as int));
        match result {
            Ok((analyzed, warnings, local_strings)) => {
                let ghost t = (analyzed, warnings, local_strings);
                functions_with_strings.push((analyzed, local_strings));
                let mut w = warnings;
                all_warnings.append(&mut w);
                proof {
                    let oks = successes(rs.take(k + 1));
                    assert(oks.map_values(
                        |t: (AnalyzedFunction, Vec<CompileWarning>, Vec<String>)| t.1@,
                    ).drop_last() =~= oks_before.map_values(
                        |t: (AnalyzedFunction, Vec<CompileWarning>, Vec<String>)| t.1@,
                    ));
                    assert forall|i: int| 0 <= i < functions_with_strings@.len() implies (
                    #[trigger] functions_with_strings@[i]).0 == oks[i].0
                        && functions_with_strings@[i].1 == oks[i].2 by {}
                }
            },
            Err(e) => {
                errors.push(e);
            },
        }
        k = k + 1;
    }
    proof {
        assert(rs.take(k as int) =~= rs);
    }
    let ghost oks = successes(rs);
    let ghost fws = functions_with_strings@;
    let ghost locals = fws.map_values(|p: (AnalyzedFunction, Vec<String>)| strings_view(p.1@));
    proof {
        assert(locals =~= oks.map_values(
            |t: (AnalyzedFunction, Vec<CompileWarning>, Vec<String>)| strings_view(t.2@),
        ));
    }
    // Merge strings from all functions into a global table with deduplication
    let mut global_strings: Vec<String> = Vec::new();
    let mut functions: Vec<AnalyzedFunction> = Vec::new();
    let nf = functions_with_strings.len();
    let mut remaining = functions_with_strings;
    let mut f: usize = 0;
    proof {
        lemma_successes_in_range(rs);
        assert forall|i: int|
            0 <= i < fws.len() && (#[trigger] locals[i]).len() > 0 implies fws[i].0.air.string_ids_below(
            locals[i].len(),
        ) by {}
    }
    while remaining.len() > 0
        invariant
            f <= fws.len(),
            nf == fws.len(),
            remaining@ == fws.skip(f as int),
            locals == fws.map_values(|p: (AnalyzedFunction, Vec<String>)| strings_view(p.1@)),
            concat_all(locals).len() < u32::MAX,
            strings_view(global_strings@) == dedup(concat_all(locals.take(f as int))),
            functions@.len() == f,
            forall|i: int|
                0 <= i < f ==> function_merged(
                    fws[i].0,
                    locals[i],
                    strings_view(global_strings@),
                    #[trigger] functions@[i],
                ),
            forall|i: int|
                0 <= i < fws.len() ==> (#[trigger] locals[i]).len() > 0 ==> fws[i].0.air.string_ids_below(
                    locals[i].len(),
                ),
        decreases remaining@.len(),
    {
        let (mut analyzed, local_strings) = remaining.remove(0);
        let ghost g_before = strings_view(global_strings@);
        let ghost prefix = concat_all(locals.take(f as int));
        proof {
            assert(locals.take(f + 1).drop_last() =~= locals.take(f as int));
            lemma_concat_prefix_len(locals, f + 1);
        }
        if !local_strings.is_empty() {
            let mut local_to_global: Vec<u32> = Vec::new();
            let mut j: usize = 0;
            while j < local_strings.len()
                invariant
                    j <= local_strings@.len(),
                    strings_view(local_strings@) == locals[f as int],
                    prefix.len() + locals[f as int].len() < u32::MAX,
                    strings_view(global_strings@) == dedup(prefix + locals[f as int].take(j as int)),
                    g_before.len() <= global_strings@.len(),
                    strings_view(global_strings@).take(g_before.len() as int) == g_before,
                    local_to_global@.len() == j,
                    forall|q: int|
                        0 <= q < j ==> #[trigger] local_to_global@[q] < global_strings@.len()
                            && global_strings@[local_to_global@[q] as int]@ == local_strings@[q]@,
                decreases local_strings@.len() - j,
            {
                proof {
                    lemma_dedup_len(prefix + locals[f as int].take(j as int));
                    assert((prefix + locals[f as int].take(j + 1)) =~= (prefix + locals[f as int].take(
                        j as int,
                    )).push(local_strings@[j as int]@));
                    lemma_dedup_push(prefix + locals[f as int].take(j as int), local_strings@[j as int]@);
                }
                let ghost gv = global_strings@;
                let id = intern_string(&mut global_strings, &local_strings[j]);
                local_to_global.push(id);
                proof {
                    assert(strings_view(global_strings@).len() == global_strings@.len());
                    assert forall|q: int| 0 <= q < j + 1 implies #[trigger] local_to_global@[q]
                        < global_strings@.len() && global_strings@[local_to_global@[q] as int]@
                        == local_strings@[q]@ by {
                        if q < j {
                            let x = local_to_global@[q] as int;
                            assert(strings_view(global_strings@)[x] == global_strings@[x]@);
                        }
                    }
                }
                j = j + 1;
            }
            proof {
                assert(locals[f as int].take(j as int) =~= locals[f as int]);
            }
            let ghost before_air = analyzed.air.instructions@;
            analyzed.air.remap_string_ids(&local_to_global);
            proof {
                let gv = strings_view(global_strings@);
                assert forall|i: int| 0 <= i < analyzed.air.instructions@.len() implies inst_merged(
                    before_air[i],
                    #[trigger] analyzed.air.instructions@[i],
                    locals[f as int],
                    gv,
                ) by {
                    match before_air[i].data {
                        AirInstData::StringConst(id) => {
                        },
                        _ => {},
                    }
                }
            }
        }
        let ghost funcs_before = functions@;
        functions.push(analyzed);
        proof {
            let gv = strings_view(global_strings@);
            assert forall|i: int| 0 <= i < f + 1 implies function_merged(
                fws[i].0,
                locals[i],
                gv,
                #[trigger] functions@[i],
            ) by {
                if i < f {
                    if locals[i].len() > 0 {
                        assert forall|n: int| 0 <= n < functions@[i].air.instructions@.len() implies inst_merged(
                            fws[i].0.air.instructions@[n],
                            #[trigger] functions@[i].air.instructions@[n],
                            locals[i],
                            gv,
                        ) by {
                            assert(inst_merged(
                                fws[i].0.air.instructions@[n],
                                funcs_before[i].air.instructions@[n],
                                locals[i],
                                g_before,
                            ));
                            match fws[i].0.air.instructions@[n].data {
                                AirInstData::StringConst(id) => {
                                    match functions@[i].air.instructions@[n].data {
                                        AirInstData::StringConst(g) => {
                                        },
                                        _ => {},
                                    }
                                },
                                _ => {},
                            }
                        }
                    }
                }
            }
        }
        f = f + 1;
    }
    proof {
        assert(locals.take(f as int) =~= locals);
    }
    let warnings = sort_warnings_by_start(all_warnings);
    errors.into_result_with(SemaOutput { functions, strings: global_strings, warnings, type_pool })
}

} // verus!

verus! {

/// The merged string table holds each text once.
pub proof fn law_merged_strings_distinct(s: Seq<Seq<char>>)
    ensures
        forall|i: int, j: int| 0 <= i < j < dedup(s).len() ==> dedup(s)[i] != dedup(s)[j],
    decreases s.len(),
{
    if s.len() > 0 {
        let r = dedup(s.drop_last());
        law_merged_strings_distinct(s.drop_last());
        if !r.contains(s.last()) {
            assert forall|i: int, j: int| 0 <= i < j < dedup(s).len() implies dedup(s)[i] != dedup(s)[j] by {}
        }
    }
}

/// The merged string table holds exactly the texts of the functions' own tables.
pub proof fn law_merged_strings_complete(s: Seq<Seq<char>>)
    ensures
        forall|x: Seq<char>| dedup(s).contains(x) <==> s.contains(x),
    decreases s.len(),
{
    if s.len() > 0 {
        let p = s.drop_last();
        let r = dedup(p);
        let x0 = s.last();
        law_merged_strings_complete(p);
        assert forall|y: Seq<char>| s.contains(y) <==> (p.contains(y) || y == x0) by {
            if s.contains(y) && y != x0 {
                let i = choose|i: int| 0 <= i < s.len() && s[i] == y;
                assert(p[i] == y);
            }
            if p.contains(y) {
                let i = choose|i: int| 0 <= i < p.len() && p[i] == y;
            }
        }
        assert forall|y: Seq<char>| dedup(s).contains(y) <==> (r.contains(y) || y == x0) by {
            if !r.contains(x0) {
                let d = r.push(x0);
                if d.contains(y) && y != x0 {
                    let i = choose|i: int| 0 <= i < d.len() && d[i] == y;
                }
                if r.contains(y) {
                    let i = choose|i: int| 0 <= i < r.len() && r[i] == y;
                    assert(d[i] == y);
                }
                if y == x0 {
                    assert(d[r.len() as int] == y);
                }
            }
        }
    }
}

/// Sorted warnings come by where they start, and each warning of the input
/// is in the output.
pub proof fn law_sorted_warnings_ordered_and_complete(before: Seq<CompileWarning>, after: Seq<CompileWarning>)
    requires
        stably_sorted_by_start(before, after),
    ensures
        after.len() == before.len(),
        forall|i: int, j: int| 0 <= i < j < after.len() ==> warning_key(after[i]) <= warning_key(after[j]),
        forall|k: int| 0 <= k < before.len() ==> #[trigger] after.contains(before[k]),
{
    let perm = choose|perm: Seq<int>| is_stable_sort(before, after, perm);
    assert forall|i: int, j: int| 0 <= i < j < after.len() implies warning_key(after[i]) <= warning_key(after[j]) by {
        assert(in_order(after, perm, i, j));
    }
    // The positions `perm` takes are distinct and below n, so they are all of them.
    let n = before.len() as int;
    let taken = perm.to_set();
    assert(perm.no_duplicates()) by {
        assert forall|i: int, j: int| 0 <= i < perm.len() && 0 <= j < perm.len() && i != j implies perm[i] != perm[j] by {}
    }
    perm.unique_seq_to_set();
    let all = Set::new(|x: int| 0 <= x < n);
    assert(all =~= vstd::set_lib::set_int_range(0, n));
    vstd::set_lib::lemma_int_range(0, n);
    assert(taken.subset_of(all)) by {
        assert forall|x: int| taken.contains(x) implies all.contains(x) by {
            let i = choose|i: int| 0 <= i < perm.len() && perm[i] == x;
        }
    }
    vstd::seq_lib::seq_to_set_is_finite(perm);
    vstd::set_lib::lemma_subset_equality(taken, all);
    assert forall|k: int| 0 <= k < n implies #[trigger] after.contains(before[k]) by {
        assert(taken.contains(k));
        let i = choose|i: int| 0 <= i < perm.len() && perm[i] == k;
        assert(0 <= i < after.len() && after[i] == before[k]);
    }
}

} // verus!
