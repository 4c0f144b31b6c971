//! Move state of a single variable, including partial (field-level) moves.
use vstd::prelude::*;

use crate::types::{Span, Sym};

verus! {

/// A path of field accesses from a root variable.
/// For example, `s.a.b` is represented as `[a, b]` with root `s`.
pub type FieldPath = Vec<Sym>;

/// The abstract content of a move state: the span of a full move, if any,
/// and the span at which each field path was moved.
pub ghost struct MoveStateView {
    pub full: Option<Span>,
    pub partial: Map<Seq<Sym>, Span>,
}

/// The map that a list of (path, span) entries stands for.
pub open spec fn entries_map(s: Seq<(Vec<Sym>, Span)>) -> Map<Seq<Sym>, Span>
    decreases s.len(),
{
    if s.len() == 0 {
        Map::empty()
    } else {
        entries_map(s.drop_last()).insert(s.last().0@, s.last().1)
    }
}

/// No field path occurs twice in a list of entries.
pub open spec fn entries_unique(s: Seq<(Vec<Sym>, Span)>) -> bool {
    forall|i: int, j: int|
        0 <= i < s.len() && 0 <= j < s.len() && i != j ==> #[trigger] s[i].0@ != #[trigger] s[j].0@
}

/// Every stored path names at least one field.
pub open spec fn entries_nonempty(s: Seq<(Vec<Sym>, Span)>) -> bool {
    forall|i: int| 0 <= i < s.len() ==> (#[trigger] s[i]).0@.len() > 0
}

/// With nonempty paths, the empty path is never in the map.
proof fn lemma_entries_wf(s: Seq<(Vec<Sym>, Span)>)
    requires
        entries_unique(s),
        entries_nonempty(s),
    ensures
        !entries_map(s).contains_key(Seq::empty()),
{
    lemma_entries_map(s);
    if entries_map(s).contains_key(Seq::empty()) {
        let i = choose|i: int| 0 <= i < s.len() && #[trigger] s[i].0@ == Seq::<Sym>::empty();
    }
}

/// With distinct paths, the map holds exactly the entries of the list.
pub proof fn lemma_entries_map(s: Seq<(Vec<Sym>, Span)>)
    requires
        entries_unique(s),
    ensures
        forall|i: int|
            0 <= i < s.len() ==> #[trigger] entries_map(s).contains_key(s[i].0@) && entries_map(
                s,
            )[s[i].0@] == s[i].1,
        forall|p: Seq<Sym>|
            #[trigger] entries_map(s).contains_key(p) ==> exists|i: int|
                0 <= i < s.len() && #[trigger] s[i].0@ == p,
        entries_map(s).dom().finite(),
        entries_map(s).dom().len() == s.len(),
    decreases s.len(),
{
    if s.len() > 0 {
        let t = s.drop_last();
        assert(entries_unique(t)) by {
            assert forall|i: int, j: int|
                0 <= i < t.len() && 0 <= j < t.len() && i != j implies #[trigger] t[i].0@
                != #[trigger] t[j].0@ by {}
        }
        lemma_entries_map(t);
        let last = s.last();
        assert(!entries_map(t).contains_key(last.0@)) by {
            if entries_map(t).contains_key(last.0@) {
                let i = choose|i: int| 0 <= i < t.len() && #[trigger] t[i].0@ == last.0@;
            }
        }
        assert forall|i: int| 0 <= i < s.len() implies #[trigger] entries_map(s).contains_key(
            s[i].0@,
        ) && entries_map(s)[s[i].0@] == s[i].1 by {
            if i < s.len() - 1 {
                assert(s[i] == t[i]);
            }
        }
        assert forall|p: Seq<Sym>| #[trigger] entries_map(s).contains_key(p) implies exists|i: int|
            0 <= i < s.len() && #[trigger] s[i].0@ == p by {
            if p != last.0@ {
                let i = choose|i: int| 0 <= i < t.len() && #[trigger] t[i].0@ == p;
            }
        }
    }
}


/// Replacing the span of an entry whose path is `p` sets `p` in the map.
proof fn lemma_entries_update(s: Seq<(Vec<Sym>, Span)>, i: int, e: (Vec<Sym>, Span))
    requires
        entries_unique(s),
        0 <= i < s.len(),
        e.0@ == s[i].0@,
    ensures
        entries_unique(s.update(i, e)),
        entries_map(s.update(i, e)) == entries_map(s).insert(e.0@, e.1),
{
    let t = s.update(i, e);
    assert(entries_unique(t)) by {
        assert forall|a: int, b: int|
            0 <= a < t.len() && 0 <= b < t.len() && a != b implies #[trigger] t[a].0@
            != #[trigger] t[b].0@ by {}
    }
    lemma_entries_map(s);
    lemma_entries_map(t);
    let m1 = entries_map(t);
    let m2 = entries_map(s).insert(e.0@, e.1);
    assert forall|k: Seq<Sym>| m1.contains_key(k) <==> m2.contains_key(k) by {
        if m1.contains_key(k) {
            let j = choose|j: int| 0 <= j < t.len() && #[trigger] t[j].0@ == k;
        }
        if m2.contains_key(k) && k != e.0@ {
            let j = choose|j: int| 0 <= j < s.len() && #[trigger] s[j].0@ == k;
            assert(t[j].0@ == k);
        }
        if k == e.0@ {
            assert(t[i].0@ == k);
        }
    }
    assert forall|k: Seq<Sym>| m1.contains_key(k) implies m1[k] == m2[k] by {
        let j = choose|j: int| 0 <= j < t.len() && #[trigger] t[j].0@ == k;
    }
}

/// Appending an entry with a fresh path inserts it into the map.
proof fn lemma_entries_push(s: Seq<(Vec<Sym>, Span)>, e: (Vec<Sym>, Span))
    requires
        entries_unique(s),
        forall|j: int| 0 <= j < s.len() ==> #[trigger] s[j].0@ != e.0@,
    ensures
        entries_unique(s.push(e)),
        entries_map(s.push(e)) == entries_map(s).insert(e.0@, e.1),
{
    let t = s.push(e);
    assert(t.drop_last() =~= s);
    assert forall|a: int, b: int|
        0 <= a < t.len() && 0 <= b < t.len() && a != b implies #[trigger] t[a].0@
        != #[trigger] t[b].0@ by {
        if a < s.len() && b < s.len() {
        } else if a < s.len() {
        }
    }
}

/// Tracks move state for a variable, including partial (field-level) moves.
pub struct VariableMoveState {
    /// If Some, the entire variable has been fully moved at this span.
    full_move: Option<Span>,
    /// Partial moves: each field path with the span where it was moved.
    partial_moves: Vec<(FieldPath, Span)>,
}

impl View for VariableMoveState {
    type V = MoveStateView;

    closed spec fn view(&self) -> MoveStateView {
        MoveStateView { full: self.full_move, partial: entries_map(self.partial_moves@) }
    }
}

impl MoveStateView {
    /// The span at which the first moved proper prefix of `path`, of length at least `k`, was moved.
    pub open spec fn moved_prefix_from(self, path: Seq<Sym>, k: nat) -> Option<Span>
        decreases path.len() - k,
    {
        if k >= path.len() {
            None
        } else if self.partial.contains_key(path.take(k as int)) {
            Some(self.partial[path.take(k as int)])
        } else {
            self.moved_prefix_from(path, k + 1)
        }
    }

    /// The move that makes `path` unusable: a full move, a move of the path
    /// itself, or a move of its shortest moved ancestor.
    pub open spec fn path_moved(self, path: Seq<Sym>) -> Option<Span> {
        match self.full {
            Some(s) => Some(s),
            None => if self.partial.contains_key(path) {
                Some(self.partial[path])
            } else {
                self.moved_prefix_from(path, 1)
            },
        }
    }

    /// Validity: the empty path is never recorded as a partial move
    /// (moving the empty path is a full move).
    pub open spec fn wf(self) -> bool {
        !self.partial.contains_key(Seq::<Sym>::empty())
    }

    /// Nothing is moved.
    pub open spec fn is_empty(self) -> bool {
        self.full is None && self.partial.dom() == Set::<Seq<Sym>>::empty()
    }

    /// The view after marking `path` as moved at `span`.
    pub open spec fn mark(self, path: Seq<Sym>, span: Span) -> MoveStateView {
        if path.len() == 0 {
            MoveStateView { full: Some(span), partial: Map::empty() }
        } else if self.full is None {
            MoveStateView { full: None, partial: self.partial.insert(path, span) }
        } else {
            self
        }
    }

    /// Union of two branches' move states: moved in either branch means moved.
    pub open spec fn union(b1: MoveStateView, b2: MoveStateView) -> MoveStateView {
        MoveStateView {
            full: match b1.full {
                Some(s) => Some(s),
                None => b2.full,
            },
            partial: b2.partial.union_prefer_right(b1.partial),
        }
    }
}

/// Compare a stored path with the first `len` symbols of `path`.
fn path_eq_prefix(stored: &Vec<Sym>, path: &[Sym], len: usize) -> (r: bool)
    requires
        len <= path@.len(),
    ensures
        r == (stored@ == path@.take(len as int)),
{
    if stored.len() != len {
        return false;
    }
    let mut i: usize = 0;
    while i < len
        invariant
            i <= len,
            len <= path@.len(),
            stored@.len() == len,
            forall|j: int| 0 <= j < i ==> stored@[j] == path@[j],
        decreases len - i,
    {
        if stored[i] != path[i] {
            return false;
        }
        i = i + 1;
    }
    assert(stored@ =~= path@.take(len as int));
    true
}

/// Copy the first `len` symbols of a path into a new vector.
fn copy_prefix(path: &[Sym], len: usize) -> (r: Vec<Sym>)
    requires
        len <= path@.len(),
    ensures
        r@ == path@.take(len as int),
{
    let mut out: Vec<Sym> = Vec::new();
    let mut i: usize = 0;
    while i < len
        invariant
            i <= len,
            len <= path@.len(),
            out@ == path@.take(i as int),
        decreases len - i,
    {
        out.push(path[i]);
        i = i + 1;
    }
    out
}

impl VariableMoveState {
    #[verifier::type_invariant]
    spec fn inv(self) -> bool {
        entries_unique(self.partial_moves@) && entries_nonempty(self.partial_moves@)
    }

    /// The abstract move state of a live value is valid.
    pub fn check_wf(&self)
        ensures
            self@.wf(),
    {
        proof {
            use_type_invariant(self);
            lemma_entries_wf(self.partial_moves@);
        }
    }

    /// A move state in which nothing is moved.
    pub fn new() -> (r: Self)
        ensures
            r@.is_empty(),
    {
        let r = VariableMoveState { full_move: None, partial_moves: Vec::new() };
        r
    }

    /// The span of the full move of the variable, if it was fully moved.
    pub fn full_move(&self) -> (r: Option<Span>)
        ensures
            r == self@.full,
    {
        self.full_move
    }

    /// The span at which the first `len` symbols of `path` were moved as a field path.
    fn find_partial(&self, path: &[Sym], len: usize) -> (r: Option<Span>)
        requires
            len <= path@.len(),
        ensures
            r == (if self@.partial.contains_key(path@.take(len as int)) {
                Some(self@.partial[path@.take(len as int)])
            } else {
                None
            }),
    {
        proof {
            use_type_invariant(self);
            lemma_entries_map(self.partial_moves@);
        }
        let n = self.partial_moves.len();
        let mut i: usize = 0;
        while i < n
            invariant
                i <= n,
                n == self.partial_moves@.len(),
                len <= path@.len(),
                forall|j: int|
                    0 <= j < i ==> #[trigger] self.partial_moves@[j].0@ != path@.take(len as int),
            decreases n - i,
        {
            if path_eq_prefix(&self.partial_moves[i].0, path, len) {
                proof {
                    use_type_invariant(self);
                    lemma_entries_map(self.partial_moves@);
                    let e = self.partial_moves@[i as int];
                }
                return Some(self.partial_moves[i].1);
            }
            i = i + 1;
        }
        proof {
            use_type_invariant(self);
            lemma_entries_map(self.partial_moves@);
            let p = path@.take(len as int);
            if entries_map(self.partial_moves@).contains_key(p) {
                let j = choose|j: int|
                    0 <= j < self.partial_moves@.len() && #[trigger] self.partial_moves@[j].0@ == p;
            }
        }
        None
    }

    /// Position of `path` among the stored partial moves.
    fn position_of(&self, path: &[Sym]) -> (r: Option<usize>)
        ensures
            match r {
                Some(i) => i < self.partial_moves@.len() && self.partial_moves@[i as int].0@
                    == path@,
                None => forall|j: int|
                    0 <= j < self.partial_moves@.len() ==> #[trigger] self.partial_moves@[j].0@
                        != path@,
            },
    {
        let n = self.partial_moves.len();
        let mut i: usize = 0;
        while i < n
            invariant
                i <= n,
                n == self.partial_moves@.len(),
                forall|j: int| 0 <= j < i ==> #[trigger] self.partial_moves@[j].0@ != path@,
            decreases n - i,
        {
            if path_eq_prefix(&self.partial_moves[i].0, path, path.len()) {
                return Some(i);
            }
            assert(path@.take(path@.len() as int) =~= path@);
            i = i + 1;
        }
        None
    }

    /// Record that `path` was moved at `span`, replacing an earlier span for it.
    fn insert_partial(&mut self, path: &[Sym], span: Span)
        requires
            path@.len() > 0,
        ensures
            final(self)@.full == old(self)@.full,
            final(self)@.partial == old(self)@.partial.insert(path@, span),
    {
        proof {
            use_type_invariant(&*self);
        }
        let copy = copy_prefix(path, path.len());
        assert(path@.take(path@.len() as int) =~= path@);
        let mut entries = self.copy_entries();
        match self.position_of(path) {
            Some(i) => {
                proof {
                    lemma_entries_update(entries@, i as int, (copy, span));
                }
                entries.set(i, (copy, span));
                assert(entries_nonempty(entries@)) by {
                    assert forall|a: int| 0 <= a < entries@.len() implies (
                    #[trigger] entries@[a]).0@.len() > 0 by {}
                }
            },
            None => {
                proof {
                    lemma_entries_push(entries@, (copy, span));
                }
                entries.push((copy, span));
                assert(entries_nonempty(entries@)) by {
                    assert forall|a: int| 0 <= a < entries@.len() implies (
                    #[trigger] entries@[a]).0@.len() > 0 by {}
                }
            },
        }
        self.partial_moves = entries;
    }

    /// Mark a field path as moved.
    pub fn mark_path_moved(&mut self, path: &[Sym], span: Span)
        ensures
            final(self)@ == old(self)@.mark(path@, span),
    {
        proof {
            use_type_invariant(&*self);
        }
        if path.len() == 0 {
            // Moving the whole variable clears the partial moves
            self.full_move = Some(span);
            self.partial_moves = Vec::new();
        } else {
            // Partial move - only if not already fully moved
            if self.full_move.is_none() {
                self.insert_partial(path, span);
            }
        }
    }

    /// Check if a field path is moved.
    /// Returns Some(span) if the path (or any ancestor) is moved.
    pub fn is_path_moved(&self, path: &[Sym]) -> (r: Option<Span>)
        ensures
            r == self@.path_moved(path@),
    {
        if let Some(span) = self.full_move {
            return Some(span);
        }
        assert(path@.take(path@.len() as int) =~= path@);
        if let Some(span) = self.find_partial(path, path.len()) {
            return Some(span);
        }
        // Check if any prefix (ancestor) of this path is moved
        let mut len: usize = 1;
        while len < path.len()
            invariant
                1 <= len,
                len <= path@.len() || path@.len() == 0,
                self@.full is None,
                !self@.partial.contains_key(path@),
                self@.moved_prefix_from(path@, 1) == self@.moved_prefix_from(path@, len as nat),
            decreases path@.len() - len,
        {
            if let Some(span) = self.find_partial(path, len) {
                return Some(span);
            }
            assert(self@.moved_prefix_from(path@, len as nat) == self@.moved_prefix_from(
                path@,
                (len + 1) as nat,
            ));
            len = len + 1;
        }
        None
    }

    /// The move site that the queries below report: the full move, if the
    /// variable was wholly moved, else the first partial move recorded.
    pub closed spec fn reported_site(&self) -> Option<Span> {
        match self.full_move {
            Some(s) => Some(s),
            None => if self.partial_moves@.len() > 0 {
                Some(self.partial_moves@[0].1)
            } else {
                None
            },
        }
    }

    /// Check if the variable is partially moved (some field is moved but not the whole var).
    /// Returns Some(span) of one of the partial moves.
    pub fn is_partially_moved(&self) -> (r: Option<Span>)
        ensures
            r == (if self@.full is Some {
                None
            } else {
                self.reported_site()
            }),
            r is Some <==> (self@.full is None && self@.partial.dom() != Set::<Seq<Sym>>::empty()),
            r matches Some(s) ==> exists|p: Seq<Sym>|
                #[trigger] self@.partial.contains_key(p) && self@.partial[p] == s,
    {
        if self.full_move.is_some() {
            return None;
        }
        self.first_partial()
    }

    /// Check if the entire variable (including all fields) is fully valid to use.
    /// Returns Some(span) if there's any move (full or partial) that would prevent use.
    pub fn is_any_part_moved(&self) -> (r: Option<Span>)
        ensures
            r == self.reported_site(),
            self@.full is Some ==> r == self@.full,
            self@.full is None ==> (r is Some <==> self@.partial.dom() != Set::<Seq<Sym>>::empty()),
            self@.full is None ==> (r matches Some(s) ==> exists|p: Seq<Sym>|
                #[trigger] self@.partial.contains_key(p) && self@.partial[p] == s),
    {
        if let Some(span) = self.full_move {
            return Some(span);
        }
        self.first_partial()
    }

    /// The span of some partial move, if there is one.
    fn first_partial(&self) -> (r: Option<Span>)
        ensures
            r == (if self.partial_moves@.len() > 0 {
                Some(self.partial_moves@[0].1)
            } else {
                None
            }),
            r is Some <==> self@.partial.dom() != Set::<Seq<Sym>>::empty(),
            r matches Some(s) ==> exists|p: Seq<Sym>|
                #[trigger] self@.partial.contains_key(p) && self@.partial[p] == s,
    {
        proof {
            use_type_invariant(self);
            lemma_entries_map(self.partial_moves@);
        }
        if self.partial_moves.len() > 0 {
            let e = &self.partial_moves[0];
            assert(self@.partial.contains_key(self.partial_moves@[0].0@));
            Some(e.1)
        } else {
            assert(self@.partial.dom() =~= Set::<Seq<Sym>>::empty());
            None
        }
    }

    /// Clear all move state (used when variable is reassigned).
    pub fn clear(&mut self)
        ensures
            final(self)@.is_empty(),
    {
        proof {
            use_type_invariant(&*self);
        }
        self.full_move = None;
        self.partial_moves = Vec::new();
    }

    /// Check if the variable has any move state.
    pub fn is_empty(&self) -> (r: bool)
        ensures
            r == self@.is_empty(),
    {
        proof {
            use_type_invariant(self);
            lemma_entries_map(self.partial_moves@);
        }
        self.full_move.is_none() && self.partial_moves.len() == 0
    }

    /// A copy of the stored partial-move entries.
    fn copy_entries(&self) -> (out: Vec<(FieldPath, Span)>)
        ensures
            out@.len() == self.partial_moves@.len(),
            forall|j: int|
                0 <= j < out@.len() ==> #[trigger] out@[j].0@ == self.partial_moves@[j].0@
                    && out@[j].1 == self.partial_moves@[j].1,
            entries_unique(out@),
            entries_nonempty(out@),
            entries_map(out@) == self@.partial,
    {
        proof {
            use_type_invariant(self);
        }
        let mut out: Vec<(FieldPath, Span)> = Vec::new();
        let n = self.partial_moves.len();
        let mut i: usize = 0;
        while i < n
            invariant
                i <= n,
                n == self.partial_moves@.len(),
                entries_unique(self.partial_moves@),
                out@.len() == i,
                forall|j: int|
                    0 <= j < i ==> #[trigger] out@[j].0@ == self.partial_moves@[j].0@ && out@[j].1
                        == self.partial_moves@[j].1,
                entries_map(out@) == entries_map(self.partial_moves@.take(i as int)),
            decreases n - i,
        {
            let e = &self.partial_moves[i];
            let p = copy_prefix(e.0.as_slice(), e.0.len());
            assert(e.0@.take(e.0@.len() as int) =~= e.0@);
            let ghost before = out@;
            out.push((p, e.1));
            proof {
                assert(out@.drop_last() =~= before);
                let t = self.partial_moves@.take(i + 1);
                assert(t.drop_last() =~= self.partial_moves@.take(i as int));
            }
            i = i + 1;
        }
        assert(self.partial_moves@.take(n as int) =~= self.partial_moves@);
        assert(entries_unique(out@)) by {
            assert forall|a: int, b: int|
                0 <= a < out@.len() && 0 <= b < out@.len() && a != b implies #[trigger] out@[a].0@
                != #[trigger] out@[b].0@ by {}
        }
        assert(entries_nonempty(out@)) by {
            assert forall|a: int| 0 <= a < out@.len() implies (#[trigger] out@[a]).0@.len() > 0 by {}
        }
        out
    }

    /// A copy of this move state.
    pub fn duplicate(&self) -> (r: Self)
        ensures
            r@ == self@,
    {
        let out = self.copy_entries();
        VariableMoveState { full_move: self.full_move, partial_moves: out }
    }

    /// Merge move states from two branches (union semantics).
    /// A variable is considered moved after a branch if it was moved in EITHER branch.
    pub fn merge_union(branch1: &Self, branch2: &Self) -> (r: Self)
        ensures
            r@ == MoveStateView::union(branch1@, branch2@),
    {
        proof {
            use_type_invariant(branch2);
        }
        // A full move in either branch is a full move (preferring branch1's span)
        let full_move = match branch1.full_move {
            Some(s) => Some(s),
            None => branch2.full_move,
        };
        let mut result = branch1.duplicate();
        proof {
            use_type_invariant(&result);
        }
        result.full_move = full_move;
        // A partial move is kept if it appears in EITHER branch
        let n = branch2.partial_moves.len();
        let mut i: usize = 0;
        while i < n
            invariant
                i <= n,
                n == branch2.partial_moves@.len(),
                entries_unique(branch2.partial_moves@),
                entries_nonempty(branch2.partial_moves@),
                result@.full == full_move,
                result@.partial == entries_map(branch2.partial_moves@.take(i as int)).union_prefer_right(
                    branch1@.partial,
                ),
            decreases n - i,
        {
            let e = &branch2.partial_moves[i];
            let ghost t = branch2.partial_moves@.take(i + 1);
            proof {
                assert(t.drop_last() =~= branch2.partial_moves@.take(i as int));
            }
            let present = result.find_partial(e.0.as_slice(), e.0.len());
            assert(e.0@.take(e.0@.len() as int) =~= e.0@);
            if present.is_none() {
                result.insert_partial(e.0.as_slice(), e.1);
            } else {
                proof {
                    // the path is not among the earlier entries of branch2, so it came from branch1
                    lemma_entries_map(branch2.partial_moves@.take(i as int));
                    let pre = branch2.partial_moves@.take(i as int);
                    if entries_map(pre).contains_key(e.0@) {
                        let j = choose|j: int| 0 <= j < pre.len() && #[trigger] pre[j].0@ == e.0@;
                    }
                }
            }
            i = i + 1;
        }
        assert(branch2.partial_moves@.take(n as int) =~= branch2.partial_moves@);
        result
    }
}

} // verus!

verus! {

/// A moved proper prefix of length at least `k` exists exactly when some
/// prefix `path.take(j)` with `k <= j < path.len()` is among the partial moves.
proof fn lemma_moved_prefix_from(v: MoveStateView, path: Seq<Sym>, k: nat)
    ensures
        v.moved_prefix_from(path, k) is Some <==> exists|j: int|
            k <= j < path.len() && #[trigger] v.partial.contains_key(path.take(j)),
    decreases path.len() - k,
{
    if k < path.len() {
        lemma_moved_prefix_from(v, path, k + 1);
        if !(v.partial.contains_key(path.take(k as int))) {
            if exists|j: int| k <= j < path.len() && #[trigger] v.partial.contains_key(path.take(j)) {
                let j = choose|j: int|
                    k <= j < path.len() && #[trigger] v.partial.contains_key(path.take(j));
            }
        }
    }
}

/// A field path is reported as moved exactly when the whole variable was
/// moved, or the path itself or one of its ancestors was moved.
pub proof fn law_path_moved_iff_ancestor_moved(v: MoveStateView, path: Seq<Sym>)
    requires
        v.wf(),
    ensures
        v.path_moved(path) is Some <==> (v.full is Some || exists|k: int|
            1 <= k <= path.len() && #[trigger] v.partial.contains_key(path.take(k))),
{
    lemma_moved_prefix_from(v, path, 1);
    assert(path.take(path.len() as int) =~= path);
    if v.full is None && v.partial.contains_key(path) {
        if path.len() == 0 {
            assert(path =~= Seq::<Sym>::empty());
        }
    }
    if v.full is None && !v.partial.contains_key(path) {
        if exists|k: int| 1 <= k <= path.len() && #[trigger] v.partial.contains_key(path.take(k)) {
            let k = choose|k: int| 1 <= k <= path.len() && #[trigger] v.partial.contains_key(path.take(k));
        }
    }
}

/// Adding an entry for a path longer than `r` changes no answer about `r`'s prefixes.
proof fn lemma_moved_prefix_from_unaffected(v: MoveStateView, p: Seq<Sym>, span: Span, r: Seq<Sym>, k: nat)
    requires
        r.len() < p.len(),
    ensures
        (MoveStateView { full: v.full, partial: v.partial.insert(p, span) }).moved_prefix_from(r, k)
            == v.moved_prefix_from(r, k),
    decreases r.len() - k,
{
    if k < r.len() {
        assert(r.take(k as int).len() != p.len());
        lemma_moved_prefix_from_unaffected(v, p, span, r, k + 1);
    }
}

/// Marking a path moved (while the variable is not wholly moved) reports
/// exactly that move for the path, and leaves every non-empty strict prefix
/// of the path as it was.
pub proof fn law_mark_moves_path_not_prefixes(v: MoveStateView, path: Seq<Sym>, span: Span, k: int)
    requires
        v.wf(),
        (v.full is None),
        path.len() > 0,
        1 <= k < path.len(),
    ensures
        v.mark(path, span).path_moved(path) == Some(span),
        v.mark(path, span).path_moved(path.take(k)) == v.path_moved(path.take(k)),
{
    let r = path.take(k);
    assert(r.len() != path.len());
    assert(r != path);
    lemma_moved_prefix_from_unaffected(v, path, span, r, 1);
}

/// After a path is marked as moved, it and every path through it are moved.
pub proof fn law_marked_path_and_descendants_moved(
    v: MoveStateView,
    path: Seq<Sym>,
    span: Span,
    q: Seq<Sym>,
)
    requires
        v.wf(),
        path.len() <= q.len(),
        q.take(path.len() as int) == path,
    ensures
        v.mark(path, span).path_moved(path) is Some,
        v.mark(path, span).path_moved(q) is Some,
{
    let w = v.mark(path, span);
    law_path_moved_iff_ancestor_moved(w, path);
    law_path_moved_iff_ancestor_moved(w, q);
    if path.len() > 0 && v.full is None {
        assert(path.take(path.len() as int) =~= path);
    }
}

/// Once cleared, no path of the variable is moved.
pub proof fn law_cleared_state_moves_nothing(v: MoveStateView, path: Seq<Sym>)
    requires
        v.is_empty(),
        v.wf(),
    ensures
        v.path_moved(path) is None,
{
    law_path_moved_iff_ancestor_moved(v, path);
    if exists|k: int| 1 <= k <= path.len() && #[trigger] v.partial.contains_key(path.take(k)) {
        let k = choose|k: int| 1 <= k <= path.len() && #[trigger] v.partial.contains_key(path.take(k));
    }
}

/// After merging two branches, a path is moved exactly when it was moved in
/// either branch.
pub proof fn law_union_moved_in_either_branch(b1: MoveStateView, b2: MoveStateView, path: Seq<Sym>)
    requires
        b1.wf(),
        b2.wf(),
    ensures
        MoveStateView::union(b1, b2).path_moved(path) is Some <==> (b1.path_moved(path) is Some
            || b2.path_moved(path) is Some),
{
    let u = MoveStateView::union(b1, b2);
    law_path_moved_iff_ancestor_moved(u, path);
    law_path_moved_iff_ancestor_moved(b1, path);
    law_path_moved_iff_ancestor_moved(b2, path);
    if exists|k: int| 1 <= k <= path.len() && #[trigger] u.partial.contains_key(path.take(k)) {
        let k = choose|k: int| 1 <= k <= path.len() && #[trigger] u.partial.contains_key(path.take(k));
    }
    if exists|k: int| 1 <= k <= path.len() && #[trigger] b1.partial.contains_key(path.take(k)) {
        let k = choose|k: int| 1 <= k <= path.len() && #[trigger] b1.partial.contains_key(path.take(k));
        assert(u.partial.contains_key(path.take(k)));
    }
    if exists|k: int| 1 <= k <= path.len() && #[trigger] b2.partial.contains_key(path.take(k)) {
        let k = choose|k: int| 1 <= k <= path.len() && #[trigger] b2.partial.contains_key(path.take(k));
        assert(u.partial.contains_key(path.take(k)));
    }
}

} // verus!
