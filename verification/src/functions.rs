//! Analyzing whole functions: laying out the parameters, lowering the body
//! with a fresh context, and analyzing every function of a program in order.
use vstd::prelude::*;

use crate::air::{Air, AirInst, AirInstData};
use crate::context::{AnalysisContext, CompileWarning, ParamInfo, ParamMode};
use crate::diag::{CompileError, CompileErrors, ErrorKind};
use crate::dispatch::{can_analyze, sema_kept};
use crate::lazy::LazyItem;
use crate::output::{
    merge_function_results, merged, string_ids_in_range, strings_of, strings_view, successes, AnalyzedFunction, FunctionResult,
    SemaOutput,
};
use crate::rir::InstRef;
use crate::sema::{slot_count_in, Sema};
use crate::types::{Span, Sym, Type, TypePool};
use std::collections::HashMap;

verus! {

/// A function to analyze: its name, return type, parameters (name, type,
/// mode), body, and the types type inference gave its instructions.
pub struct FunctionJob {
    pub name: String,
    pub return_type: Type,
    pub params: Vec<(Sym, Type, ParamMode)>,
    pub body: InstRef,
    pub resolved_types: HashMap<u32, Type>,
}

/// `inout` and borrowed parameters are passed by reference.
pub open spec fn by_reference(mode: ParamMode) -> bool {
    mode == ParamMode::Inout || mode == ParamMode::Borrow
}

/// The ABI slots a parameter takes: one for a reference, else as many as
/// its type takes.
pub open spec fn param_slot_count(table: Seq<(Type, u32)>, ty: Type, mode: ParamMode) -> Option<u32> {
    if by_reference(mode) {
        Some(1u32)
    } else {
        slot_count_in(table, ty)
    }
}

/// The parameter table of a parameter list (a name repeated keeps its first
/// entry) and, for each ABI slot in order, whether it is passed by
/// reference; `None` when a parameter's type has no slot count or the slots
/// outgrow `u32`.
pub open spec fn params_layout(table: Seq<(Type, u32)>, ps: Seq<(Sym, Type, ParamMode)>) -> Option<
    (Map<Sym, ParamInfo>, Seq<bool>),
>
    decreases ps.len(),
{
    if ps.len() == 0 {
        Some((Map::empty(), Seq::empty()))
    } else {
        match params_layout(table, ps.drop_last()) {
            None => None,
            Some((m, modes)) => {
                let (name, ty, mode) = ps.last();
                match param_slot_count(table, ty, mode) {
                    None => None,
                    Some(k) => if modes.len() + k > u32::MAX {
                        None
                    } else {
                        Some(
                            (
                                if m.contains_key(name) {
                                    m
                                } else {
                                    m.insert(name, ParamInfo { abi_slot: modes.len() as u32, ty, mode })
                                },
                                modes + Seq::new(k as nat, |i: int| by_reference(mode)),
                            ),
                        )
                    },
                }
            },
        }
    }
}

/// A layout that fails for a prefix fails for the whole list.
proof fn lemma_layout_prefix_none(table: Seq<(Type, u32)>, ps: Seq<(Sym, Type, ParamMode)>, i: int)
    requires
        0 <= i <= ps.len(),
        params_layout(table, ps.take(i)) is None,
    ensures
        params_layout(table, ps) is None,
    decreases ps.len() - i,
{
    if i < ps.len() {
        assert(ps.take(i + 1).drop_last() =~= ps.take(i));
        lemma_layout_prefix_none(table, ps, i + 1);
    } else {
        assert(ps.take(i) =~= ps);
    }
}

/// Adding a result adds its strings, when it succeeded, to the strings of the successes.
pub proof fn lemma_successes_push(rs: Seq<FunctionResult>, x: FunctionResult)
    ensures
        strings_of(successes(rs.push(x))) == strings_of(successes(rs)) + match x {
            Ok(t) => strings_view(t.2@),
            Err(_) => Seq::<Seq<char>>::empty(),
        },
{
    assert(rs.push(x).drop_last() =~= rs);
    let oks = successes(rs);
    match x {
        Ok(t) => {
            let f = |u: (AnalyzedFunction, Vec<CompileWarning>, Vec<String>)| strings_view(u.2@);
            assert(oks.push(t).map_values(f) =~= oks.map_values(f).push(f(t)));
            assert(oks.push(t).map_values(f).drop_last() =~= oks.map_values(f));
        },
        Err(_) => {
            assert(strings_of(oks) + Seq::<Seq<char>>::empty() =~= strings_of(oks));
        },
    }
}

/// What an analyzed function is made of: the job's name and return type,
/// the parameter slots of its layout, and a body that ends with a return
/// of the function's type unless it diverges.
pub open spec fn function_shaped(table: Seq<(Type, u32)>, job: &FunctionJob, f: AnalyzedFunction) -> bool {
    &&& params_layout(table, job.params@) matches Some((_, modes)) && f.param_modes@ == modes
        && f.num_param_slots == modes.len()
    &&& f.name@ == job.name@
    &&& f.air.return_type == job.return_type
    &&& f.air.instructions@.len() > 0
    &&& {
        let last = f.air.instructions@.last();
        ||| last.data matches AirInstData::Ret(Some(v)) && v + 1 < f.air.instructions@.len() && last.ty
            == job.return_type
        ||| exists|i: int| 0 <= i < f.air.instructions@.len() && #[trigger] f.air.instructions@[i].ty == Type::Never
    }
}

/// What analyzing `job` gives: an internal error when its parameters cannot
/// be laid out, and a function of the job's shape when it succeeds.
pub open spec fn job_result(table: Seq<(Type, u32)>, job: &FunctionJob, r: FunctionResult) -> bool {
    &&& params_layout(table, job.params@) is None ==> (r matches Err(e) && e.kind is InternalError)
    &&& r matches Ok(t) ==> function_shaped(table, job, t.0)
}

/// The pool keeps its struct, enum and array definitions.
pub open spec fn pool_kept(before: TypePool, after: TypePool) -> bool {
    &&& after.structs == before.structs
    &&& after.enums == before.enums
    &&& after.arrays == before.arrays
}

impl<'a> Sema<'a> {
    /// Lay out the parameters of a function: the parameter table and, for
    /// each ABI slot, whether it is passed by reference.
    pub fn layout_params(&self, params: &Vec<(Sym, Type, ParamMode)>, span: Span) -> (r: Result<
        (HashMap<Sym, ParamInfo>, Vec<bool>),
        CompileError,
    >)
        ensures
            match params_layout(self.abi_slots@, params@) {
                Some((m, modes)) => (r matches Ok((pm, pmodes)) && pm@ == m && pmodes@ == modes),
                None => (r matches Err(e) && e.kind is InternalError && e.span == span),
            },
    {
        let mut table: HashMap<Sym, ParamInfo> = HashMap::new();
        let mut modes: Vec<bool> = Vec::new();
        let mut i: usize = 0;
        proof {
            assert(params@.take(0) =~= Seq::<(Sym, Type, ParamMode)>::empty());
        }
        while i < params.len()
            invariant
                i <= params@.len(),
                params_layout(self.abi_slots@, params@.take(i as int)) == Some((table@, modes@)),
            decreases params@.len() - i,
        {
            proof {
                assert(params@.take(i + 1).drop_last() =~= params@.take(i as int));
                assert(params@.take(i + 1).last() == params@[i as int]);
            }
            let (name, ty, mode) = params[i];
            let by_ref = match mode {
                ParamMode::Inout | ParamMode::Borrow => true,
                _ => false,
            };
            let k: u32 = if by_ref {
                1
            } else {
                match self.abi_slot_count(ty) {
                    Some(k) => k,
                    None => {
                        proof {
                            lemma_layout_prefix_none(self.abi_slots@, params@, i + 1);
                        }
                        return Err(
                            CompileError::new(
                                ErrorKind::InternalError("no ABI slot count for the type of a parameter".to_string()),
                                span,
                            ),
                        );
                    },
                }
            };
            if modes.len() > (u32::MAX - k) as usize {
                proof {
                    lemma_layout_prefix_none(self.abi_slots@, params@, i + 1);
                }
                return Err(
                    CompileError::new(ErrorKind::InternalError("too many parameter slots".to_string()), span),
                );
            }
            if !table.contains_key(&name) {
                table.insert(name, ParamInfo { abi_slot: modes.len() as u32, ty, mode });
            }
            let ghost before = modes@;
            let mut j: u32 = 0;
            while j < k
                invariant
                    j <= k,
                    modes@ == before + Seq::new(j as nat, |x: int| by_ref),
                decreases k - j,
            {
                modes.push(by_ref);
                j = j + 1;
                proof {
                    assert(modes@ =~= before + Seq::new(j as nat, |x: int| by_ref));
                }
            }
            proof {
                assert(by_ref == by_reference(mode));
                assert(modes@ =~= before + Seq::new(k as nat, |x: int| by_reference(mode)));
            }
            i = i + 1;
        }
        proof {
            assert(params@.take(params@.len() as int) =~= params@);
        }
        Ok((table, modes))
    }

    /// Analyze one function: lay out its parameters, lower its body with a
    /// fresh context, and end the body with a return of its value unless
    /// the body diverges.
    pub fn analyze_function(&mut self, job: &FunctionJob) -> (r: FunctionResult)
        requires
            can_analyze(old(self), job.body),
        ensures
            sema_kept(old(self), final(self)),
            final(self).wf(),
            job_result(old(self).abi_slots@, job, r),
    {
        self.analyze_function_with_references(job, LazyItem::Function(0)).0
    }

    /// Analyze one function as `analyze_function` does, and report, as the
    /// entry of `item` in the lazy work queue, the functions and methods its
    /// body was found to call.
    pub fn analyze_function_with_references(&mut self, job: &FunctionJob, item: LazyItem) -> (r: (
        FunctionResult,
        (LazyItem, Vec<LazyItem>),
    ))
        requires
            can_analyze(old(self), job.body),
        ensures
            sema_kept(old(self), final(self)),
            final(self).wf(),
            job_result(old(self).abi_slots@, job, r.0),
            r.1.0 == item,
    {
        let span = self.rir.get(job.body).span;
        let (params, param_modes) = match self.layout_params(&job.params, span) {
            Ok(p) => p,
            Err(e) => {
                return (Err(e), (item, Vec::new()));
            },
        };
        let num_param_slots = param_modes.len() as u32;
        let mut air = Air::new(job.return_type);
        let mut ctx = AnalysisContext::new(params, job.resolved_types.clone(), job.return_type);
        let analyzed = self.analyze_inst(&mut air, job.body, &mut ctx);
        let references = ctx.lazy_references(item);
        let body = match analyzed {
            Ok(b) => b,
            Err(e) => {
                return (Err(e), references);
            },
        };
        if body.ty != Type::Never {
            if air.instructions.len() >= 0xFFFF_FFF0 {
                return (
                    Err(
                        CompileError::new(
                            ErrorKind::InternalError("function too large to analyze".to_string()),
                            span,
                        ),
                    ),
                    references,
                );
            }
            air.add_inst(AirInst { data: AirInstData::Ret(Some(body.air_ref)), ty: job.return_type, span });
        } else {
            assert(air.instructions@[body.air_ref as int].ty == Type::Never);
        }
        let f = AnalyzedFunction {
            name: job.name.clone(),
            air,
            num_locals: ctx.next_slot,
            num_param_slots,
            param_modes,
        };
        (Ok((f, ctx.warnings, ctx.local_strings)), references)
    }

    /// Analyze every function body in order and merge the results: every
    /// error when any function fails, otherwise the functions with one
    /// string table and the warnings sorted by where they start.
    pub fn analyze_all_function_bodies_sequential(self, jobs: &Vec<FunctionJob>) -> (r: Result<
        SemaOutput,
        CompileErrors,
    >)
        requires
            self.wf(),
            forall|j: int| 0 <= j < jobs@.len() ==> can_analyze(&self, #[trigger] jobs@[j].body),
        ensures
            ({
                ||| exists|rs: Seq<FunctionResult>, tp: TypePool|
                    {
                        &&& rs.len() == jobs@.len()
                        &&& forall|j: int| 0 <= j < jobs@.len() ==> job_result(self.abi_slots@, &jobs@[j], #[trigger] rs[j])
                        &&& pool_kept(self.type_pool, tp)
                        &&& merged(rs, tp, r)
                    }
                ||| (r matches Err(e) && e.errors@.len() == 1 && e.errors@[0].kind is InternalError)
            }),
    {
        let mut sema = self;
        let ghost start = sema;
        let mut results: Vec<FunctionResult> = Vec::new();
        let mut total_strings: usize = 0;
        let mut i: usize = 0;
        while i < jobs.len()
            invariant
                i <= jobs@.len(),
                results@.len() == i,
                sema_kept(&start, &sema),
                sema.wf(),
                sema.abi_slots@ == start.abi_slots@,
                pool_kept(start.type_pool, sema.type_pool),
                forall|j: int| 0 <= j < jobs@.len() ==> can_analyze(&start, #[trigger] jobs@[j].body),
                forall|j: int| 0 <= j < i ==> job_result(start.abi_slots@, &jobs@[j], #[trigger] results@[j]),
                string_ids_in_range(results@),
                strings_of(successes(results@)).len() == total_strings,
                total_strings < u32::MAX,
            decreases jobs@.len() - i,
        {
            let span = sema.rir.get(jobs[i].body).span;
            let res = sema.analyze_function(&jobs[i]);
            let added: usize = match &res {
                Ok(t) => {
                    if !t.0.air.string_ids_within(t.2.len()) || t.2.len() >= 0xFFFF_FFFF - total_strings {
                        let mut errors = CompileErrors::new();
                        errors.push(
                            CompileError::new(ErrorKind::InternalError("inconsistent string table".to_string()), span),
                        );
                        return Err(errors);
                    }
                    t.2.len()
                },
                Err(_) => 0,
            };
            proof {
                lemma_successes_push(results@, res);
            }
            results.push(res);
            total_strings = total_strings + added;
            i = i + 1;
        }
        let tp = sema.type_pool;
        let r = merge_function_results(results, tp);
        r
    }
}

} // verus!
