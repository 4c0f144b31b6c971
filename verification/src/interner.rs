//! The string interner that names symbols, from the `lasso` crate.
use vstd::prelude::*;

use lasso::{Key, Spur, ThreadedRodeo};

use crate::types::Sym;

verus! {

/// The string interner type of the `lasso` crate.
#[verifier::external_type_specification]
#[verifier::external_body]
#[verifier::reject_recursive_types(K)]
#[verifier::reject_recursive_types(S)]
pub struct ExThreadedRodeo<K, S>(lasso::ThreadedRodeo<K, S>);

/// The key type of the `lasso` interner.
#[verifier::external_type_specification]
#[verifier::external_body]
pub struct ExSpur(lasso::Spur);

/// The strings held by an interner, by symbol: the symbol of a string is
/// the index that `lasso` gives its key (`Key::into_usize`).
pub uninterp spec fn interned(r: ThreadedRodeo) -> Map<Sym, Seq<char>>;

/// Interns `s` with `ThreadedRodeo::get_or_intern` and returns its symbol.
///
/// Claimed of `lasso` (threaded_rodeo.rs, `try_get_or_intern`): a string
/// already held keeps its symbol and nothing changes; otherwise the string is
/// stored under a symbol that held nothing before. The interner panics when
/// it runs out of keys (`u32::MAX - 1` strings for `Spur`), which `requires`
/// excludes; a failure to allocate the string's storage is not excluded.
#[verifier::external_body]
pub(crate) fn intern(r: &mut ThreadedRodeo, s: &str) -> (k: Sym)
    requires
        interned(*old(r)).dom().finite(),
        interned(*old(r)).dom().len() + 2 < u32::MAX,
    ensures
        interned(*final(r)) == interned(*old(r)).insert(k, s@),
        interned(*old(r)).contains_key(k) ==> interned(*old(r))[k] == s@,
        (exists|j: Sym| #[trigger] interned(*old(r)).contains_key(j) && interned(*old(r))[j] == s@)
            ==> interned(*old(r)).contains_key(k),
        interned(*final(r)).dom().finite(),
{
    r.get_or_intern(s).into_usize() as Sym
}

/// The string of a symbol, with `ThreadedRodeo::try_resolve`.
///
/// Claimed of `lasso`: the result is the string held under the symbol, or
/// `None` when the interner holds nothing under it. Symbol `u32::MAX` has no
/// `Spur` key: keys are made from indices below it, so nothing is held there.
#[verifier::external_body]
pub(crate) fn try_resolve(r: &ThreadedRodeo, k: Sym) -> (res: Option<&str>)
    ensures
        res matches Some(s) ==> interned(*r).contains_key(k) && s@ == interned(*r)[k],
        res is None ==> !interned(*r).contains_key(k),
{
    match Spur::try_from_usize(k as usize) {
        Some(key) => r.try_resolve(&key),
        None => None,
    }
}


/// The symbol of a string already held, with `ThreadedRodeo::get`.
///
/// Claimed of `lasso`: `Some(k)` when `k` holds the string (and, as the
/// interner keeps one key per string, no other symbol holds it), `None` when
/// no symbol holds it; nothing is interned.
#[verifier::external_body]
pub(crate) fn lookup(r: &ThreadedRodeo, s: &str) -> (res: Option<Sym>)
    ensures
        res matches Some(k) ==> interned(*r).contains_key(k) && interned(*r)[k] == s@,
        res matches Some(k) ==> forall|j: Sym|
            #[trigger] interned(*r).contains_key(j) && interned(*r)[j] == s@ ==> j == k,
        res is None ==> forall|k: Sym| #[trigger] interned(*r).contains_key(k) ==> interned(*r)[k] != s@,
{
    match r.get(s) {
        Some(k) => Some(k.into_usize() as Sym),
        None => None,
    }
}

/// A new, empty interner, with `ThreadedRodeo::new`.
///
/// Claimed of `lasso` (threaded_rodeo.rs, `new` through
/// `with_capacity_memory_limits_and_hasher`): the interner holds no string,
/// so no symbol names anything. A failure to allocate its storage is not
/// excluded.
#[verifier::external_body]
pub(crate) fn new_interner() -> (r: ThreadedRodeo)
    ensures
        interned(r).dom().finite(),
        forall|k: Sym| !#[trigger] interned(r).contains_key(k),
{
    ThreadedRodeo::new()
}

/// An interner that holds no string yet, ready for `intern`.
pub fn empty_interner() -> (r: ThreadedRodeo)
    ensures
        interned(r) == Map::<Sym, Seq<char>>::empty(),
        interned(r).dom().finite(),
        interned(r).dom().len() == 0,
{
    let r = new_interner();
    assert(interned(r).dom() =~= Set::<Sym>::empty());
    assert(interned(r) =~= Map::<Sym, Seq<char>>::empty());
    r
}

} // verus!
