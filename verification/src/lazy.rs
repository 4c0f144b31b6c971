//! Lazy analysis: only the functions reachable from `main` are analyzed.
//!
//! Analysis starts at `main`; analyzing a body records the functions and
//! methods it calls (`AnalysisContext::referenced_functions` and
//! `referenced_methods`), and each one so referenced is analyzed in turn,
//! once. Unreferenced code is neither analyzed nor reported on.
use vstd::prelude::*;
use vstd::std_specs::hash::{axiom_spec_hash_keys_iter, spec_hash_keys_iter};
use vstd::std_specs::iter::IteratorSpec;

use crate::context::AnalysisContext;
use crate::dispatch::{can_analyze, sema_kept};
use crate::functions::{job_result, lemma_successes_push, pool_kept, FunctionJob};
use crate::output::{merge_function_results, merged, string_ids_in_range, strings_of, successes, FunctionResult, SemaOutput};
use crate::types::{Type, TypePool};
use std::collections::HashMap;
use crate::diag::{CompileError, CompileErrors, ErrorKind};
use crate::interner::{interned, lookup};
use crate::sema::{FunctionInfo, MethodInfo, Sema};
use crate::types::{Span, Sym};

verus! {

broadcast use vstd::std_specs::hash::group_hash_axioms;

/// A function or method whose body lazy analysis may analyze; a method is
/// named by its method-table key.
#[derive(Clone, Copy, Debug, PartialEq, Eq, Structural)]
pub enum LazyItem {
    Function(Sym),
    Method(u64),
}

/// The function tables lazy analysis reads.
pub ghost struct LazyTables {
    pub functions: Map<Sym, FunctionInfo>,
    pub methods: Map<u64, MethodInfo>,
}

/// The item is a known function or method.
pub open spec fn known(t: LazyTables, x: LazyItem) -> bool {
    match x {
        LazyItem::Function(f) => t.functions.contains_key(f),
        LazyItem::Method(k) => t.methods.contains_key(k),
    }
}

/// A body that lazy analysis analyzes: a known method, or a known function
/// that is not generic (generic functions are analyzed when specialized).
pub open spec fn analyzable(t: LazyTables, x: LazyItem) -> bool {
    match x {
        LazyItem::Function(f) => t.functions.contains_key(f) && !t.functions[f].is_generic,
        LazyItem::Method(k) => t.methods.contains_key(k),
    }
}

/// `x`'s body, once analyzed, calls `y`: some entry of `refs` for `x` lists `y`.
pub open spec fn calls(refs: Seq<(LazyItem, Vec<LazyItem>)>, x: LazyItem, y: LazyItem) -> bool {
    exists|e: int| 0 <= e < refs.len() && refs[e].0 == x && #[trigger] refs[e].1@.contains(y)
}

/// The program has a function named `main`.
pub open spec fn has_main(names: Map<Sym, Seq<char>>, fns: Map<Sym, FunctionInfo>) -> bool {
    exists|k: Sym| #[trigger] names.contains_key(k) && names[k] == "main"@ && fns.contains_key(k)
}

/// The symbol of `main`.
pub open spec fn main_symbol(names: Map<Sym, Seq<char>>, fns: Map<Sym, FunctionInfo>) -> Sym {
    choose|k: Sym| #[trigger] names.contains_key(k) && names[k] == "main"@ && fns.contains_key(k)
}

/// The `i`-th item of `order` is called by an analyzed body before it.
pub open spec fn called_before(t: LazyTables, refs: Seq<(LazyItem, Vec<LazyItem>)>, order: Seq<LazyItem>, i: int) -> bool {
    exists|j: int| 0 <= j < i && analyzable(t, order[j]) && #[trigger] calls(refs, order[j], order[i])
}

/// `order` is the order in which lazy analysis visits functions and methods,
/// starting at `main`, given what each analyzed body calls:
/// - it starts with `main`, names each item at most once, and only known
///   functions and methods;
/// - every known item called by an analyzed body in it is in it;
/// - every item after `main` is called by an analyzed body before it.
///
/// So the items in `order` are exactly those reachable from `main` through
/// the calls of analyzed bodies: the least set that holds `main` and is
/// closed under those calls (`law_lazy_order_is_reachable_set`).
pub open spec fn is_lazy_order(
    t: LazyTables,
    refs: Seq<(LazyItem, Vec<LazyItem>)>,
    main: Sym,
    order: Seq<LazyItem>,
) -> bool {
    &&& order.len() > 0 && order[0] == LazyItem::Function(main)
    &&& order.no_duplicates()
    &&& forall|i: int| 0 <= i < order.len() ==> known(t, #[trigger] order[i])
    &&& forall|i: int, y: LazyItem|
        0 <= i < order.len() && analyzable(t, #[trigger] order[i]) && #[trigger] calls(refs, order[i], y)
            && known(t, y) ==> order.contains(y)
    &&& forall|i: int| 0 < i < order.len() ==> #[trigger] called_before(t, refs, order, i)
}

/// `s` holds `main` and every known item that an analyzed item of `s` calls.
pub open spec fn closed_from_main(
    t: LazyTables,
    refs: Seq<(LazyItem, Vec<LazyItem>)>,
    main: Sym,
    s: Set<LazyItem>,
) -> bool {
    &&& s.contains(LazyItem::Function(main))
    &&& forall|x: LazyItem, y: LazyItem|
        s.contains(x) && analyzable(t, x) && #[trigger] calls(refs, x, y) && known(t, y) ==> s.contains(y)
}

proof fn lemma_order_within(
    t: LazyTables,
    refs: Seq<(LazyItem, Vec<LazyItem>)>,
    main: Sym,
    order: Seq<LazyItem>,
    s: Set<LazyItem>,
    i: int,
)
    requires
        is_lazy_order(t, refs, main, order),
        closed_from_main(t, refs, main, s),
        0 <= i < order.len(),
    ensures
        s.contains(order[i]),
    decreases i,
{
    if i > 0 {
        assert(called_before(t, refs, order, i));
        let j = choose|j: int| 0 <= j < i && analyzable(t, order[j]) && #[trigger] calls(refs, order[j], order[i]);
        lemma_order_within(t, refs, main, order, s, j);
    }
}

/// Lazy analysis visits exactly the functions and methods reachable from
/// `main`: the items it visits form a set that holds `main` and is closed
/// under the calls of analyzed bodies, and they lie in every such set.
pub proof fn law_lazy_order_is_reachable_set(
    t: LazyTables,
    refs: Seq<(LazyItem, Vec<LazyItem>)>,
    main: Sym,
    order: Seq<LazyItem>,
    s: Set<LazyItem>,
)
    requires
        is_lazy_order(t, refs, main, order),
    ensures
        closed_from_main(t, refs, main, order.to_set()),
        closed_from_main(t, refs, main, s) ==> order.to_set().subset_of(s),
{
    assert(order.to_set().contains(order[0]));
    assert forall|x: LazyItem, y: LazyItem|
        order.to_set().contains(x) && analyzable(t, x) && #[trigger] calls(refs, x, y) && known(t, y) implies order.to_set().contains(y) by {
        let i = choose|i: int| 0 <= i < order.len() && order[i] == x;
        assert(analyzable(t, order[i]) && calls(refs, order[i], y));
        let w = choose|w: int| 0 <= w < order.len() && order[w] == y;
    }
    if closed_from_main(t, refs, main, s) {
        assert forall|x: LazyItem| order.to_set().contains(x) implies s.contains(x) by {
            let i = choose|i: int| 0 <= i < order.len() && order[i] == x;
            lemma_order_within(t, refs, main, order, s, i);
        }
    }
}

/// The functions and methods known to the tables, as items.
pub open spec fn known_items(t: LazyTables) -> Set<LazyItem> {
    Set::new(|x: LazyItem| known(t, x))
}

proof fn lemma_known_items_finite(t: LazyTables)
    requires
        t.functions.dom().finite(),
        t.methods.dom().finite(),
    ensures
        known_items(t).finite(),
{
    let fs = t.functions.dom().map(|f: Sym| LazyItem::Function(f));
    let ms = t.methods.dom().map(|k: u64| LazyItem::Method(k));
    t.functions.dom().lemma_map_finite(|f: Sym| LazyItem::Function(f));
    t.methods.dom().lemma_map_finite(|k: u64| LazyItem::Method(k));
    assert(known_items(t) =~= fs.union(ms)) by {
        assert forall|x: LazyItem| known_items(t).contains(x) implies fs.union(ms).contains(x) by {
            match x {
                LazyItem::Function(f) => {
                    assert(fs.contains(LazyItem::Function(f)));
                },
                LazyItem::Method(k) => {
                    assert(ms.contains(LazyItem::Method(k)));
                },
            }
        }
    }
}

/// A sequence without duplicates whose items lie in a finite set is no longer than the set.
proof fn lemma_distinct_within(s: Seq<LazyItem>, d: Set<LazyItem>)
    requires
        s.no_duplicates(),
        d.finite(),
        forall|i: int| 0 <= i < s.len() ==> d.contains(#[trigger] s[i]),
    ensures
        s.len() <= d.len(),
{
    s.unique_seq_to_set();
    assert(s.to_set().subset_of(d)) by {
        assert forall|x: LazyItem| #[trigger] s.to_set().contains(x) implies d.contains(x) by {
            let i = choose|i: int| 0 <= i < s.len() && s[i] == x;
        }
    }
    vstd::set_lib::lemma_len_subset(s.to_set(), d);
}

/// Whether `s` holds `x`.
fn holds(s: &Vec<LazyItem>, x: LazyItem) -> (r: bool)
    ensures
        r == s@.contains(x),
{
    let mut i: usize = 0;
    while i < s.len()
        invariant
            i <= s@.len(),
            forall|j: int| 0 <= j < i ==> s@[j] != x,
        decreases s@.len() - i,
    {
        if s[i] == x {
            assert(s@[i as int] == x);
            return true;
        }
        i = i + 1;
    }
    false
}

impl<'a> Sema<'a> {
    /// The tables lazy analysis reads.
    pub open spec fn lazy_tables(&self) -> LazyTables {
        LazyTables { functions: self.functions@, methods: self.methods@ }
    }

    /// Whether the item is a known function or method.
    fn is_known(&self, x: LazyItem) -> (r: bool)
        ensures
            r == known(self.lazy_tables(), x),
    {
        match x {
            LazyItem::Function(f) => self.functions.contains_key(&f),
            LazyItem::Method(k) => self.methods.contains_key(&k),
        }
    }

    /// Whether lazy analysis analyzes the item's body.
    fn is_analyzable(&self, x: LazyItem) -> (r: bool)
        ensures
            r == analyzable(self.lazy_tables(), x),
    {
        match x {
            LazyItem::Function(f) => match self.functions.get(&f) {
                Some(info) => !info.is_generic,
                None => false,
            },
            LazyItem::Method(k) => self.methods.contains_key(&k),
        }
    }

    /// The order in which lazy analysis visits functions and methods,
    /// starting at `main`, where `references` lists, for analyzed items,
    /// what their bodies call (an item may have several entries). Without a
    /// `main` function there is nothing to start from, which is an error (it
    /// has no place in the source).
    pub fn lazy_analysis_order(&self, references: &Vec<(LazyItem, Vec<LazyItem>)>) -> (r: Result<
        Vec<LazyItem>,
        CompileErrors,
    >)
        ensures
            !has_main(interned(self.interner), self.functions@) ==> (r matches Err(e) && e.errors@.len() == 1
                && e.errors@[0].kind == ErrorKind::NoMainFunction),
            has_main(interned(self.interner), self.functions@) ==> (r matches Ok(order) && is_lazy_order(
                self.lazy_tables(),
                references@,
                main_symbol(interned(self.interner), self.functions@),
                order@,
            )),
    {
        let ghost names = interned(self.interner);
        let ghost t = self.lazy_tables();
        let ghost refs = references@;
        proof {
            reveal_strlit("main");
        }
        let found = lookup(&self.interner, "main");
        let is_fn = match found {
            Some(k) => self.functions.contains_key(&k),
            None => false,
        };
        if !is_fn {
            proof {
                if has_main(names, t.functions) {
                    let k = main_symbol(names, t.functions);
                    assert(names.contains_key(k) && names[k] == "main"@);
                }
            }
            let mut errors = CompileErrors::new();
            errors.push(CompileError::new(ErrorKind::NoMainFunction, Span::new(0, 0, 0)));
            return Err(errors);
        }
        let main = found.unwrap();
        proof {
            assert(names.contains_key(main) && names[main] == "main"@ && t.functions.contains_key(main));
            assert(has_main(names, t.functions));
            assert(main_symbol(names, t.functions) == main);
            lemma_known_items_finite(t);
        }
        let mut order: Vec<LazyItem> = Vec::new();
        order.push(LazyItem::Function(main));
        let mut k: usize = 0;
        while k < order.len()
            invariant
                t == self.lazy_tables(),
                refs == references@,
                known_items(t).finite(),
                order@.len() > 0 && order@[0] == LazyItem::Function(main),
                k <= order@.len(),
                order@.no_duplicates(),
                forall|i: int| 0 <= i < order@.len() ==> known(t, #[trigger] order@[i]),
                forall|i: int, y: LazyItem|
                    0 <= i < k && analyzable(t, #[trigger] order@[i]) && #[trigger] calls(refs, order@[i], y)
                        && known(t, y) ==> order@.contains(y),
                forall|i: int| 0 < i < order@.len() ==> #[trigger] called_before(t, refs, order@, i),
            decreases known_items(t).len() - k,
        {
            proof {
                assert forall|i: int| 0 <= i < order@.len() implies known_items(t).contains(#[trigger] order@[i]) by {
                    assert(known(t, order@[i]));
                }
                lemma_distinct_within(order@, known_items(t));
            }
            let x = order[k];
            if self.is_analyzable(x) {
                let mut e: usize = 0;
                while e < references.len()
                    invariant
                        t == self.lazy_tables(),
                        refs == references@,
                        analyzable(t, x),
                        k < order@.len() && order@[k as int] == x,
                        e <= refs.len(),
                        order@.len() > 0 && order@[0] == LazyItem::Function(main),
                        order@.no_duplicates(),
                        forall|i: int| 0 <= i < order@.len() ==> known(t, #[trigger] order@[i]),
                        forall|i: int, y: LazyItem|
                            0 <= i < k && analyzable(t, #[trigger] order@[i]) && #[trigger] calls(refs, order@[i], y)
                                && known(t, y) ==> order@.contains(y),
                        forall|ee: int, y: LazyItem|
                            0 <= ee < e && refs[ee].0 == x && #[trigger] refs[ee].1@.contains(y) && known(t, y)
                                ==> order@.contains(y),
                        forall|i: int| 0 < i < order@.len() ==> #[trigger] called_before(t, refs, order@, i),
                    decreases refs.len() - e,
                {
                    if references[e].0 == x {
                        let gs = &references[e].1;
                        let mut j: usize = 0;
                        while j < gs.len()
                            invariant
                                t == self.lazy_tables(),
                                refs == references@,
                                e < refs.len() && refs[e as int].0 == x && refs[e as int].1 == *gs,
                                analyzable(t, x),
                                k < order@.len() && order@[k as int] == x,
                                j <= gs@.len(),
                                order@.len() > 0 && order@[0] == LazyItem::Function(main),
                                order@.no_duplicates(),
                                forall|i: int| 0 <= i < order@.len() ==> known(t, #[trigger] order@[i]),
                                forall|i: int, y: LazyItem|
                                    0 <= i < k && analyzable(t, #[trigger] order@[i]) && #[trigger] calls(
                                        refs,
                                        order@[i],
                                        y,
                                    ) && known(t, y) ==> order@.contains(y),
                                forall|ee: int, y: LazyItem|
                                    0 <= ee < e && refs[ee].0 == x && #[trigger] refs[ee].1@.contains(y) && known(
                                        t,
                                        y,
                                    ) ==> order@.contains(y),
                                forall|jj: int|
                                    0 <= jj < j && known(t, #[trigger] gs@[jj]) ==> order@.contains(gs@[jj]),
                                forall|i: int| 0 < i < order@.len() ==> #[trigger] called_before(t, refs, order@, i),
                            decreases gs@.len() - j,
                        {
                            let y = gs[j];
                            if self.is_known(y) && !holds(&order, y) {
                                let ghost before = order@;
                                order.push(y);
                                proof {
                                    assert(calls(refs, x, y)) by {
                                        assert(refs[e as int].1@[j as int] == y);
                                        assert(refs[e as int].1@.contains(y));
                                    }
                                    assert forall|i: int| 0 < i < order@.len() implies #[trigger] called_before(
                                        t,
                                        refs,
                                        order@,
                                        i,
                                    ) by {
                                        if i == before.len() {
                                            assert(order@[k as int] == x && order@[i] == y);
                                            assert(analyzable(t, order@[k as int]) && calls(
                                                refs,
                                                order@[k as int],
                                                order@[i],
                                            ));
                                        } else {
                                            assert(called_before(t, refs, before, i));
                                            let jj = choose|jj: int|
                                                0 <= jj < i && analyzable(t, before[jj]) && #[trigger] calls(
                                                    refs,
                                                    before[jj],
                                                    before[i],
                                                );
                                            assert(order@[jj] == before[jj] && order@[i] == before[i]);
                                            assert(analyzable(t, order@[jj]) && calls(refs, order@[jj], order@[i]));
                                        }
                                    }
                                    assert forall|a: int, b: int|
                                        0 <= a < order@.len() && 0 <= b < order@.len() && a != b implies order@[a]
                                        != order@[b] by {
                                        if a == before.len() as int {
                                            assert(order@[b] == before[b]);
                                            assert(before.contains(before[b]));
                                        } else if b == before.len() as int {
                                            assert(order@[a] == before[a]);
                                            assert(before.contains(before[a]));
                                        } else {
                                            assert(order@[a] == before[a] && order@[b] == before[b]);
                                        }
                                    }
                                    assert forall|i: int, z: LazyItem|
                                        0 <= i < k && analyzable(t, #[trigger] order@[i]) && #[trigger] calls(
                                            refs,
                                            order@[i],
                                            z,
                                        ) && known(t, z) implies order@.contains(z) by {
                                        assert(order@[i] == before[i]);
                                        assert(before.contains(z));
                                        let w = choose|w: int| 0 <= w < before.len() && before[w] == z;
                                        assert(order@[w] == z);
                                    }
                                    assert forall|ee: int, z: LazyItem|
                                        0 <= ee < e && refs[ee].0 == x && #[trigger] refs[ee].1@.contains(z) && known(
                                            t,
                                            z,
                                        ) implies order@.contains(z) by {
                                        assert(before.contains(z));
                                        let w = choose|w: int| 0 <= w < before.len() && before[w] == z;
                                        assert(order@[w] == z);
                                    }
                                    assert forall|jj: int|
                                        0 <= jj <= j && known(t, #[trigger] gs@[jj]) implies order@.contains(gs@[jj]) by {
                                        if jj < j {
                                            let w = choose|w: int| 0 <= w < before.len() && before[w] == gs@[jj];
                                            assert(order@[w] == gs@[jj]);
                                        } else {
                                            assert(order@[before.len() as int] == gs@[jj]);
                                        }
                                    }
                                }
                            }
                            j = j + 1;
                        }
                        proof {
                            assert forall|ee: int, z: LazyItem|
                                0 <= ee < e + 1 && refs[ee].0 == x && #[trigger] refs[ee].1@.contains(z) && known(t, z)
                                    implies order@.contains(z) by {
                                if ee == e as int {
                                    let w = choose|w: int| 0 <= w < gs@.len() && gs@[w] == z;
                                    assert(known(t, gs@[w]));
                                }
                            }
                        }
                    }
                    e = e + 1;
                }
                proof {
                    assert forall|i: int, y: LazyItem|
                        0 <= i < k + 1 && analyzable(t, #[trigger] order@[i]) && #[trigger] calls(refs, order@[i], y)
                            && known(t, y) implies order@.contains(y) by {
                        if i == k as int {
                            let ee = choose|ee: int| 0 <= ee < refs.len() && refs[ee].0 == x && #[trigger] refs[ee].1@.contains(y);
                        }
                    }
                }
            }
            k = k + 1;
        }
        Ok(order)
    }
}

impl AnalysisContext {
    /// The entry of the lazy work queue for `item`, whose body this context
    /// analyzed: the functions and methods the body calls.
    pub fn lazy_references(&self, item: LazyItem) -> (r: (LazyItem, Vec<LazyItem>))
        ensures
            r.0 == item,
            forall|f: Sym| #[trigger] r.1@.contains(LazyItem::Function(f)) <==> self.referenced_functions@.contains(f),
            forall|k: u64| #[trigger] r.1@.contains(LazyItem::Method(k)) <==> self.referenced_methods@.contains(k),
    {
        let ghost fkeys = spec_hash_keys_iter(&self.referenced_functions).remaining().unref();
        let ghost mkeys = spec_hash_keys_iter(&self.referenced_methods).remaining().unref();
        proof {
            axiom_spec_hash_keys_iter(&self.referenced_functions);
            axiom_spec_hash_keys_iter(&self.referenced_methods);
        }
        let mut out: Vec<LazyItem> = Vec::new();
        for f in it: self.referenced_functions.iter()
            invariant
                it.seq().unref() == fkeys,
                out@.len() == it.index(),
                forall|j: int| 0 <= j < out@.len() ==> #[trigger] out@[j] == LazyItem::Function(fkeys[j]),
        {
            proof {
                assert(*it.seq()[it.index() as int] == fkeys[it.index() as int]);
            }
            out.push(LazyItem::Function(*f));
        }
        let nf = out.len();
        for k in it2: self.referenced_methods.iter()
            invariant
                it2.seq().unref() == mkeys,
                nf <= out@.len(),
                nf == fkeys.len(),
                out@.len() == nf + it2.index(),
                forall|j: int| 0 <= j < nf ==> #[trigger] out@[j] == LazyItem::Function(fkeys[j]),
                forall|j: int| nf <= j < out@.len() ==> #[trigger] out@[j] == LazyItem::Method(mkeys[j - nf]),
        {
            proof {
                assert(*it2.seq()[it2.index() as int] == mkeys[it2.index() as int]);
            }
            out.push(LazyItem::Method(*k));
        }
        proof {
            assert(out@.len() == nf + mkeys.len());
            assert forall|f: Sym| #[trigger] out@.contains(LazyItem::Function(f)) <==> self.referenced_functions@.contains(f) by {
                if out@.contains(LazyItem::Function(f)) {
                    let w = choose|w: int| 0 <= w < out@.len() && out@[w] == LazyItem::Function(f);
                    if w >= nf {
                        assert(out@[w] == LazyItem::Method(mkeys[w - nf]));
                    }
                    assert(fkeys[w] == f);
                    assert(fkeys.contains(f));
                    assert(fkeys.to_set().contains(f));
                }
                if self.referenced_functions@.contains(f) {
                    assert(fkeys.to_set().contains(f));
                    let w = choose|w: int| 0 <= w < fkeys.len() && fkeys[w] == f;
                    assert(out@[w] == LazyItem::Function(f));
                }
            }
            assert forall|k: u64| #[trigger] out@.contains(LazyItem::Method(k)) <==> self.referenced_methods@.contains(k) by {
                if out@.contains(LazyItem::Method(k)) {
                    let w = choose|w: int| 0 <= w < out@.len() && out@[w] == LazyItem::Method(k);
                    if w < nf {
                        assert(out@[w] == LazyItem::Function(fkeys[w]));
                    }
                    assert(mkeys[w - nf] == k);
                    assert(mkeys.contains(k));
                    assert(mkeys.to_set().contains(k));
                }
                if self.referenced_methods@.contains(k) {
                    assert(mkeys.to_set().contains(k));
                    let w = choose|w: int| 0 <= w < mkeys.len() && mkeys[w] == k;
                    assert(out@[nf + w] == LazyItem::Method(k));
                }
            }
        }
        (item, out)
    }
}

/// The result of analyzing the body of the lazy work-queue entry `x`: the
/// function's job as `analyze_function` states it, or an internal error
/// when there is no job for it.
pub open spec fn lazy_result(
    table: Seq<(Type, u32)>,
    jobs: Map<Sym, FunctionJob>,
    x: LazyItem,
    r: FunctionResult,
) -> bool {
    match x {
        LazyItem::Function(f) => if jobs.contains_key(f) {
            job_result(table, &jobs[f], r)
        } else {
            r matches Err(e) && e.kind is InternalError
        },
        LazyItem::Method(_) => r matches Err(e) && e.kind is InternalError,
    }
}

/// The error for a reachable body that has no job.
fn no_job(x: LazyItem, span: Span) -> (r: FunctionResult)
    ensures
        r matches Err(e) && e.kind is InternalError,
{
    let m = match x {
        LazyItem::Function(_) => "no analysis job for a reachable function",
        LazyItem::Method(_) => "no analysis job for a reachable method",
    };
    Err(CompileError::new(ErrorKind::InternalError(m.to_string()), span))
}

/// What lazy analysis of the functions of `s`, with the jobs `jobs`, gives:
/// the output `out`, the work queue `queue` (each analyzed item with what
/// its body was found to call, in the order of analysis) and the visited
/// items `order`. Without `main`, the error that there is none. Otherwise
/// the visited items are the lazy order over the calls found, every
/// analyzable one of them was analyzed exactly once, and the output merges
/// the results of those analyses; or the output is an internal error about
/// the string tables.
pub open spec fn lazy_analyzed(
    s: &Sema,
    jobs: Map<Sym, FunctionJob>,
    out: Result<SemaOutput, CompileErrors>,
    queue: Seq<(LazyItem, Vec<LazyItem>)>,
    order: Seq<LazyItem>,
) -> bool {
    let t = s.lazy_tables();
    let names = interned(s.interner);
    &&& !has_main(names, t.functions) ==> (out matches Err(e) && e.errors@.len() == 1 && e.errors@[0].kind
        == ErrorKind::NoMainFunction)
    &&& has_main(names, t.functions) ==> {
        ||| {
            &&& is_lazy_order(t, queue, main_symbol(names, t.functions), order)
            &&& forall|i: int|
                0 <= i < order.len() && analyzable(t, #[trigger] order[i]) ==> exists|e: int|
                    0 <= e < queue.len() && queue[e].0 == order[i]
            &&& forall|a: int, b: int| 0 <= a < b < queue.len() ==> #[trigger] queue[a].0 != #[trigger] queue[b].0
            &&& lazy_merged(s, jobs, queue, out)
        }
        ||| (out matches Err(e) && e.errors@.len() == 1 && e.errors@[0].kind is InternalError)
    }
}

/// The output merges, for each entry of the work queue in order, a result
/// of analyzing that entry's body.
pub open spec fn lazy_merged(
    s: &Sema,
    jobs: Map<Sym, FunctionJob>,
    queue: Seq<(LazyItem, Vec<LazyItem>)>,
    out: Result<SemaOutput, CompileErrors>,
) -> bool {
    exists|rs: Seq<FunctionResult>, tp: TypePool|
        {
            &&& rs.len() == queue.len()
            &&& forall|e: int| 0 <= e < rs.len() ==> lazy_result(s.abi_slots@, jobs, queue[e].0, #[trigger] rs[e])
            &&& pool_kept(s.type_pool, tp)
            &&& #[trigger] merged(rs, tp, out)
        }
}

impl<'a> Sema<'a> {
    /// Lazy analysis: starting at `main`, analyze each function whose body
    /// is reached through the calls found while analyzing the bodies before
    /// it, once, and merge the results. Returns the merged output, the work
    /// queue (each analyzed item with what its body calls, in the order of
    /// analysis) and the order of the visited items.
    ///
    /// Without `main` this is the error `lazy_analysis_order` gives. Else the
    /// visited items are the lazy order over the calls found, every
    /// analyzable item among them was analyzed once, and the output merges
    /// the results of those analyses (or is an internal error about the
    /// string tables).
    #[verifier::rlimit(60)]
    #[verifier::loop_isolation(false)]
    pub fn analyze_function_bodies_lazy(self, jobs: &HashMap<Sym, FunctionJob>) -> (r: (
        Result<SemaOutput, CompileErrors>,
        Vec<(LazyItem, Vec<LazyItem>)>,
        Vec<LazyItem>,
    ))
        requires
            self.wf(),
            forall|f: Sym| #[trigger] jobs@.contains_key(f) ==> can_analyze(&self, jobs@[f].body),
        ensures
            lazy_analyzed(&self, jobs@, r.0, r.1@, r.2@),
    {
        let mut sema = self;
        let ghost start = sema;
        let ghost t = sema.lazy_tables();
        let ghost names = interned(sema.interner);
        let mut queue: Vec<(LazyItem, Vec<LazyItem>)> = Vec::new();
        let mut results: Vec<FunctionResult> = Vec::new();
        let mut total_strings: usize = 0;
        proof {
            lemma_known_items_finite(t);
        }
        loop
            invariant
                sema_kept(&start, &sema),
                sema.wf(),
                sema.lazy_tables() == t,
                t == start.lazy_tables(),
                interned(sema.interner) == names,
                names == interned(start.interner),
                pool_kept(start.type_pool, sema.type_pool),
                known_items(t).finite(),
                forall|f: Sym| #[trigger] jobs@.contains_key(f) ==> can_analyze(&start, jobs@[f].body),
                results@.len() == queue@.len(),
                forall|e: int| 0 <= e < queue@.len() ==> analyzable(t, #[trigger] queue@[e].0),
                forall|a: int, b: int| 0 <= a < b < queue@.len() ==> #[trigger] queue@[a].0 != #[trigger] queue@[b].0,
                forall|e: int|
                    0 <= e < results@.len() ==> lazy_result(start.abi_slots@, jobs@, queue@[e].0, #[trigger] results@[e]),
                string_ids_in_range(results@),
                strings_of(successes(results@)).len() == total_strings,
                total_strings < u32::MAX,
            decreases known_items(t).len() - queue@.len(),
        {
            proof {
                lemma_queue_within(t, queue@);
            }
            let order = match sema.lazy_analysis_order(&queue) {
                Ok(o) => o,
                Err(e) => {
                    return (Err(e), queue, Vec::new());
                },
            };
            let before_len = queue.len();
            let ghost refs0 = queue@;
            let mut k: usize = 0;
            while k < order.len()
                invariant
                    sema_kept(&start, &sema),
                    sema.wf(),
                    sema.lazy_tables() == t,
                    interned(sema.interner) == names,
                    pool_kept(start.type_pool, sema.type_pool),
                    forall|f: Sym| #[trigger] jobs@.contains_key(f) ==> can_analyze(&start, jobs@[f].body),
                    has_main(names, t.functions),
                    is_lazy_order(t, refs0, main_symbol(names, t.functions), order@),
                    k <= order@.len(),
                    before_len <= queue@.len(),
                    queue@.len() == before_len ==> queue@ == refs0,
                    refs0.len() == before_len,
                    results@.len() == queue@.len(),
                    forall|e: int| 0 <= e < queue@.len() ==> analyzable(t, #[trigger] queue@[e].0),
                    forall|a: int, b: int| 0 <= a < b < queue@.len() ==> #[trigger] queue@[a].0 != #[trigger] queue@[b].0,
                    forall|e: int|
                        0 <= e < results@.len() ==> lazy_result(start.abi_slots@, jobs@, queue@[e].0, #[trigger] results@[e]),
                    string_ids_in_range(results@),
                    strings_of(successes(results@)).len() == total_strings,
                    total_strings < u32::MAX,
                    forall|i: int|
                        0 <= i < k && analyzable(t, #[trigger] order@[i]) ==> exists|e: int|
                            0 <= e < queue@.len() && queue@[e].0 == order@[i],
                decreases order@.len() - k,
            {
                let x = order[k];
                if sema.is_analyzable(x) && !queued(&queue, x) {
                    let span = Span::new(0, 0, 0);
                    let (res, entry) = match x {
                        LazyItem::Function(f) => match jobs.get(&f) {
                            Some(job) => sema.analyze_function_with_references(job, x),
                            None => (no_job(x, span), (x, Vec::new())),
                        },
                        LazyItem::Method(_) => (no_job(x, span), (x, Vec::new())),
                    };
                    let added: usize = match &res {
                        Ok(t) => {
                            if !t.0.air.string_ids_within(t.2.len()) || t.2.len() >= 0xFFFF_FFFF - total_strings {
                                let mut errors = CompileErrors::new();
                                errors.push(
                                    CompileError::new(
                                        ErrorKind::InternalError("inconsistent string table".to_string()),
                                        span,
                                    ),
                                );
                                return (Err(errors), queue, order);
                            }
                            t.2.len()
                        },
                        Err(_) => 0,
                    };
                    proof {
                        lemma_successes_push(results@, res);
                    }
                    let ghost q_before = queue@;
                    results.push(res);
                    queue.push(entry);
                    total_strings = total_strings + added;
                    proof {
                        assert(queue@[queue@.len() - 1].0 == x);
                        assert forall|a: int, b: int| 0 <= a < b < queue@.len() implies #[trigger] queue@[a].0
                            != #[trigger] queue@[b].0 by {
                            if b == queue@.len() - 1 {
                                if queue@[a].0 == x {
                                    assert(q_before[a].0 == x);
                                }
                            } else {
                                assert(queue@[a] == q_before[a] && queue@[b] == q_before[b]);
                            }
                        }
                        assert forall|i: int|
                            0 <= i <= k && analyzable(t, #[trigger] order@[i]) implies exists|e: int|
                                0 <= e < queue@.len() && queue@[e].0 == order@[i] by {
                            if i == k as int {
                                assert(queue@[queue@.len() - 1].0 == order@[i]);
                            } else {
                                let e = choose|e: int| 0 <= e < q_before.len() && q_before[e].0 == order@[i];
                                assert(queue@[e] == q_before[e]);
                            }
                        }
                    }
                }
                k = k + 1;
            }
            proof {
                lemma_queue_within(t, queue@);
            }
            if queue.len() == before_len {
                let ghost q = queue@;
                let ghost rs = results@;
                let ghost tpg = sema.type_pool;
                proof {
                    assert(q == refs0);
                }
                let tp = sema.type_pool;
                let out = merge_function_results(results, tp);
                proof {
                    assert(rs.len() == q.len());
                    assert(forall|e: int| 0 <= e < rs.len() ==> lazy_result(self.abi_slots@, jobs@, q[e].0, #[trigger] rs[e]));
                    assert(pool_kept(self.type_pool, tpg));
                    assert(merged(rs, tpg, out));
                    assert(lazy_merged(&start, jobs@, q, out));
                    assert(lazy_analyzed(&start, jobs@, out, q, order@));
                }
                return (out, queue, order);
            }
        }
    }
}

/// A work queue with one entry for each of distinct analyzable items is no
/// longer than the set of known items.
proof fn lemma_queue_within(t: LazyTables, queue: Seq<(LazyItem, Vec<LazyItem>)>)
    requires
        known_items(t).finite(),
        forall|e: int| 0 <= e < queue.len() ==> analyzable(t, #[trigger] queue[e].0),
        forall|a: int, b: int| 0 <= a < b < queue.len() ==> #[trigger] queue[a].0 != #[trigger] queue[b].0,
    ensures
        queue.len() <= known_items(t).len(),
{
    let items = queue.map_values(|q: (LazyItem, Vec<LazyItem>)| q.0);
    assert(items.no_duplicates()) by {
        assert forall|a: int, b: int| 0 <= a < items.len() && 0 <= b < items.len() && a != b implies items[a]
            != items[b] by {
            if a < b {
                assert(queue[a].0 != queue[b].0);
            } else {
                assert(queue[b].0 != queue[a].0);
            }
        }
    }
    assert forall|i: int| 0 <= i < items.len() implies known_items(t).contains(#[trigger] items[i]) by {
        assert(analyzable(t, queue[i].0));
    }
    lemma_distinct_within(items, known_items(t));
}

/// When lazy analysis succeeds, the functions and methods it visits are
/// exactly those reachable from `main` through the calls found while
/// analyzing: they hold `main` and every known item an analyzed one calls,
/// they lie in every set that does, and each analyzable one was analyzed.
pub proof fn law_lazy_analysis_visits_reachable(
    s: &Sema,
    jobs: Map<Sym, FunctionJob>,
    out: Result<SemaOutput, CompileErrors>,
    queue: Seq<(LazyItem, Vec<LazyItem>)>,
    order: Seq<LazyItem>,
    other: Set<LazyItem>,
)
    requires
        lazy_analyzed(s, jobs, out, queue, order),
        out is Ok,
    ensures
        has_main(interned(s.interner), s.lazy_tables().functions),
        closed_from_main(
            s.lazy_tables(),
            queue,
            main_symbol(interned(s.interner), s.lazy_tables().functions),
            order.to_set(),
        ),
        closed_from_main(s.lazy_tables(), queue, main_symbol(interned(s.interner), s.lazy_tables().functions), other)
            ==> order.to_set().subset_of(other),
        forall|i: int|
            0 <= i < order.len() && analyzable(s.lazy_tables(), #[trigger] order[i]) ==> exists|e: int|
                0 <= e < queue.len() && queue[e].0 == order[i],
{
    law_lazy_order_is_reachable_set(
        s.lazy_tables(),
        queue,
        main_symbol(interned(s.interner), s.lazy_tables().functions),
        order,
        other,
    );
}

/// Whether the work queue has an entry for `x`.
fn queued(queue: &Vec<(LazyItem, Vec<LazyItem>)>, x: LazyItem) -> (r: bool)
    ensures
        r == exists|e: int| 0 <= e < queue@.len() && queue@[e].0 == x,
{
    let mut i: usize = 0;
    while i < queue.len()
        invariant
            i <= queue@.len(),
            forall|j: int| 0 <= j < i ==> queue@[j].0 != x,
        decreases queue@.len() - i,
    {
        if queue[i].0 == x {
            return true;
        }
        i = i + 1;
    }
    false
}

} // verus!
