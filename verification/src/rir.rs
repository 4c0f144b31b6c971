//! The untyped intermediate representation that semantic analysis reads.
//!
//! Instructions live in an arena and refer to their operands by index; an
//! operand always comes before the instruction that uses it. Variable-length
//! operand lists (block statements, intrinsic arguments) are stored in a
//! side table of raw instruction references.
use vstd::prelude::*;

use crate::types::{Span, Sym};

verus! {

/// A reference to an instruction: its index in the arena.
pub type InstRef = u32;

/// The instructions that semantic analysis reads.
#[derive(Clone, Copy, Debug, PartialEq, Eq, Structural)]
pub enum InstData {
    IntConst(u64),
    BoolConst(bool),
    StringConst(Sym),
    UnitConst,
    Neg { operand: InstRef },
    Not { operand: InstRef },
    BitNot { operand: InstRef },
    Add { lhs: InstRef, rhs: InstRef },
    Sub { lhs: InstRef, rhs: InstRef },
    Mul { lhs: InstRef, rhs: InstRef },
    Div { lhs: InstRef, rhs: InstRef },
    Mod { lhs: InstRef, rhs: InstRef },
    Eq { lhs: InstRef, rhs: InstRef },
    Ne { lhs: InstRef, rhs: InstRef },
    Lt { lhs: InstRef, rhs: InstRef },
    Gt { lhs: InstRef, rhs: InstRef },
    Le { lhs: InstRef, rhs: InstRef },
    Ge { lhs: InstRef, rhs: InstRef },
    And { lhs: InstRef, rhs: InstRef },
    Or { lhs: InstRef, rhs: InstRef },
    BitAnd { lhs: InstRef, rhs: InstRef },
    BitOr { lhs: InstRef, rhs: InstRef },
    BitXor { lhs: InstRef, rhs: InstRef },
    Shl { lhs: InstRef, rhs: InstRef },
    Shr { lhs: InstRef, rhs: InstRef },
    /// `comptime { expr }`
    Comptime { expr: InstRef },
    /// A block: its instructions are `extra[extra_start .. extra_start + len]`,
    /// the last one being the block's value.
    Block { extra_start: u32, len: u32 },
    /// A type used as a value, by name.
    TypeConst { name: Sym },
    /// A reference to a variable, by name.
    VarRef { name: Sym },
    /// A reference to a function parameter, by name.
    ParamRef { name: Sym },
    /// `base.field`
    FieldGet { base: InstRef, field: Sym },
    /// `base[index]`
    IndexGet { base: InstRef, index: InstRef },
    /// `@name(args)`: the arguments are `extra[args_start .. args_start + args_len]`.
    Intrinsic { name: Sym, args_start: u32, args_len: u32 },
    /// `if cond { then_block } else { else_block }`
    Branch { cond: InstRef, then_block: InstRef, else_block: Option<InstRef> },
    /// `while cond { body }`
    Loop { cond: InstRef, body: InstRef },
    /// `loop { body }`
    InfiniteLoop { body: InstRef },
    Break,
    Continue,
    /// `return` with an optional value
    Ret(Option<InstRef>),
    /// `let name = init;` (`let _ = init;` without a name); its directives
    /// are `directives[directives_start .. directives_start + directives_len]`.
    Alloc { name: Option<Sym>, is_mut: bool, init: InstRef, directives_start: u32, directives_len: u32 },
    /// `name = value;`
    Assign { name: Sym, value: InstRef },
    /// `name(args)`: the arguments are `call_args[args_start .. args_start + args_len]`.
    Call { name: Sym, args_start: u32, args_len: u32 },
    /// `name { field: value, .. }`: the fields, in source order, are
    /// `field_inits[fields_start .. fields_start + fields_len]`.
    StructInit { name: Sym, fields_start: u32, fields_len: u32 },
    /// `match scrutinee { pattern => value, .. }`: the arms are
    /// `match_arms[arms_start .. arms_start + arms_len]`.
    Match { scrutinee: InstRef, arms_start: u32, arms_len: u32 },
    /// `[elems]`: the elements are `extra[elems_start .. elems_start + elems_len]`.
    ArrayInit { elems_start: u32, elems_len: u32 },
    /// `base[index] = value;`
    IndexSet { base: InstRef, index: InstRef, value: InstRef },
    /// `Enum::Variant`, or `module.Enum::Variant` through a module value
    EnumVariant { module: Option<InstRef>, enum_sym: Sym, variant: Sym },
    /// `base.field = value;`
    FieldSet { base: InstRef, field: Sym, value: InstRef },
}

/// An instruction and where it came from.
#[derive(Clone, Copy, Debug, PartialEq, Eq, Structural)]
pub struct Inst {
    pub data: InstData,
    pub span: Span,
}

/// The pattern of a match arm, as written, and where.
#[derive(Clone, Copy, Debug, PartialEq, Eq, Structural)]
pub enum Pattern {
    /// `_`
    Wildcard(Span),
    /// An integer literal
    Int(i64, Span),
    /// `true` or `false`
    Bool(bool, Span),
    /// `Type::Variant`
    Path { enum_sym: Sym, variant: Sym, span: Span },
}

impl Pattern {
    /// Where the pattern was written.
    pub open spec fn spec_span(&self) -> Span {
        match *self {
            Pattern::Wildcard(s) => s,
            Pattern::Int(_, s) => s,
            Pattern::Bool(_, s) => s,
            Pattern::Path { span, .. } => span,
        }
    }

    /// Where the pattern was written.
    #[verifier::when_used_as_spec(spec_span)]
    pub fn span(&self) -> (s: Span)
        ensures
            s == self.spec_span(),
    {
        match self {
            Pattern::Wildcard(s) => *s,
            Pattern::Int(_, s) => *s,
            Pattern::Bool(_, s) => *s,
            Pattern::Path { span, .. } => *span,
        }
    }
}

/// How an argument is passed to a call.
#[derive(Clone, Copy, Debug, PartialEq, Eq, Structural)]
pub enum ArgMode {
    Normal,
    Inout,
    Borrow,
}

/// An argument of a call.
#[derive(Clone, Copy, Debug, PartialEq, Eq, Structural)]
pub struct CallArg {
    pub value: InstRef,
    pub mode: ArgMode,
}

impl CallArg {
    pub fn is_inout(&self) -> (r: bool)
        ensures
            r == (self.mode == ArgMode::Inout),
    {
        matches!(self.mode, ArgMode::Inout)
    }

    pub fn is_borrow(&self) -> (r: bool)
        ensures
            r == (self.mode == ArgMode::Borrow),
    {
        matches!(self.mode, ArgMode::Borrow)
    }
}

/// A directive such as `@allow(unused_variable)`: its name and arguments.
pub struct Directive {
    pub name: Sym,
    pub args: Vec<Sym>,
}

/// An arena of instructions and the side table of operand lists.
pub struct Rir {
    pub instructions: Vec<Inst>,
    pub extra: Vec<u32>,
    /// The directives written on `let` statements
    pub directives: Vec<Directive>,
    /// The arguments of calls
    pub call_args: Vec<CallArg>,
    /// The fields of struct literals: each field's name and value
    pub field_inits: Vec<(Sym, InstRef)>,
    /// The arms of matches: each arm's pattern and value
    pub match_arms: Vec<(Pattern, InstRef)>,
}

/// The direct operands of an instruction (not those in the side table).
pub open spec fn operands(d: InstData) -> Seq<InstRef> {
    match d {
        InstData::Neg { operand } => seq![operand],
        InstData::Not { operand } => seq![operand],
        InstData::BitNot { operand } => seq![operand],
        InstData::Add { lhs, rhs } => seq![lhs, rhs],
        InstData::Sub { lhs, rhs } => seq![lhs, rhs],
        InstData::Mul { lhs, rhs } => seq![lhs, rhs],
        InstData::Div { lhs, rhs } => seq![lhs, rhs],
        InstData::Mod { lhs, rhs } => seq![lhs, rhs],
        InstData::Eq { lhs, rhs } => seq![lhs, rhs],
        InstData::Ne { lhs, rhs } => seq![lhs, rhs],
        InstData::Lt { lhs, rhs } => seq![lhs, rhs],
        InstData::Gt { lhs, rhs } => seq![lhs, rhs],
        InstData::Le { lhs, rhs } => seq![lhs, rhs],
        InstData::Ge { lhs, rhs } => seq![lhs, rhs],
        InstData::And { lhs, rhs } => seq![lhs, rhs],
        InstData::Or { lhs, rhs } => seq![lhs, rhs],
        InstData::BitAnd { lhs, rhs } => seq![lhs, rhs],
        InstData::BitOr { lhs, rhs } => seq![lhs, rhs],
        InstData::BitXor { lhs, rhs } => seq![lhs, rhs],
        InstData::Shl { lhs, rhs } => seq![lhs, rhs],
        InstData::Shr { lhs, rhs } => seq![lhs, rhs],
        InstData::Comptime { expr } => seq![expr],
        InstData::FieldGet { base, .. } => seq![base],
        InstData::IndexGet { base, index } => seq![base, index],
        InstData::Branch { cond, then_block, else_block } => match else_block {
            Some(e) => seq![cond, then_block, e],
            None => seq![cond, then_block],
        },
        InstData::Loop { cond, body } => seq![cond, body],
        InstData::Match { scrutinee, .. } => seq![scrutinee],
        InstData::IndexSet { base, index, value } => seq![base, index, value],
        InstData::EnumVariant { module: Some(m), .. } => seq![m],
        InstData::FieldSet { base, value, .. } => seq![base, value],
        InstData::InfiniteLoop { body } => seq![body],
        InstData::Ret(Some(v)) => seq![v],
        InstData::Alloc { init, .. } => seq![init],
        InstData::Assign { value, .. } => seq![value],
        _ => Seq::empty(),
    }
}

/// The side-table range an instruction uses, as (start, len).
pub open spec fn extra_range(d: InstData) -> (int, int) {
    match d {
        InstData::Block { extra_start, len } => (extra_start as int, len as int),
        InstData::Intrinsic { args_start, args_len, .. } => (args_start as int, args_len as int),
        InstData::ArrayInit { elems_start, elems_len } => (elems_start as int, elems_len as int),
        _ => (0, 0),
    }
}

impl Rir {
    /// Well-formedness: every operand of an instruction, direct or in the
    /// side table, is an earlier instruction, and side-table ranges are in bounds.
    pub open spec fn wf(&self) -> bool {
        &&& self.instructions@.len() <= u32::MAX
        &&& forall|i: int, j: int|
            0 <= i < self.instructions@.len() && 0 <= j < operands(
                self.instructions@[i].data,
            ).len() ==> #[trigger] operands(self.instructions@[i].data)[j] < i
        &&& forall|i: int|
            0 <= i < self.instructions@.len() ==> {
                let (start, len) = #[trigger] extra_range(self.instructions@[i].data);
                &&& start + len <= self.extra@.len()
                &&& forall|k: int| start <= k < start + len ==> #[trigger] self.extra@[k] < i
            }
    }

    /// An empty arena.
    pub fn new() -> (r: Self)
        ensures
            r.wf(),
            r.instructions@.len() == 0,
            r.extra@.len() == 0,
    {
        Rir { instructions: Vec::new(), extra: Vec::new(), directives: Vec::new(), call_args: Vec::new(), field_inits: Vec::new(), match_arms: Vec::new() }
    }

    /// Number of instructions.
    pub fn len(&self) -> (n: usize)
        ensures
            n == self.instructions@.len(),
    {
        self.instructions.len()
    }

    /// The instruction at `r`.
    pub fn get(&self, r: InstRef) -> (inst: &Inst)
        requires
            r < self.instructions@.len(),
        ensures
            *inst == self.instructions@[r as int],
    {
        &self.instructions[r as usize]
    }

    /// Entry `k` of the side table.
    pub fn extra_at(&self, k: u32) -> (v: u32)
        requires
            k < self.extra@.len(),
        ensures
            v == self.extra@[k as int],
    {
        self.extra[k as usize]
    }

    /// The direct operands of an instruction, executable.
    fn operand_list(d: &InstData) -> (v: Vec<InstRef>)
        ensures
            v@ == operands(*d),
    {
        let v = match *d {
            InstData::Neg { operand } => vec![operand],
            InstData::Not { operand } => vec![operand],
            InstData::BitNot { operand } => vec![operand],
            InstData::Add { lhs, rhs } => vec![lhs, rhs],
            InstData::Sub { lhs, rhs } => vec![lhs, rhs],
            InstData::Mul { lhs, rhs } => vec![lhs, rhs],
            InstData::Div { lhs, rhs } => vec![lhs, rhs],
            InstData::Mod { lhs, rhs } => vec![lhs, rhs],
            InstData::Eq { lhs, rhs } => vec![lhs, rhs],
            InstData::Ne { lhs, rhs } => vec![lhs, rhs],
            InstData::Lt { lhs, rhs } => vec![lhs, rhs],
            InstData::Gt { lhs, rhs } => vec![lhs, rhs],
            InstData::Le { lhs, rhs } => vec![lhs, rhs],
            InstData::Ge { lhs, rhs } => vec![lhs, rhs],
            InstData::And { lhs, rhs } => vec![lhs, rhs],
            InstData::Or { lhs, rhs } => vec![lhs, rhs],
            InstData::BitAnd { lhs, rhs } => vec![lhs, rhs],
            InstData::BitOr { lhs, rhs } => vec![lhs, rhs],
            InstData::BitXor { lhs, rhs } => vec![lhs, rhs],
            InstData::Shl { lhs, rhs } => vec![lhs, rhs],
            InstData::Shr { lhs, rhs } => vec![lhs, rhs],
            InstData::Comptime { expr } => vec![expr],
            InstData::FieldGet { base, .. } => vec![base],
            InstData::IndexGet { base, index } => vec![base, index],
            InstData::Branch { cond, then_block, else_block } => match else_block {
                Some(e) => vec![cond, then_block, e],
                None => vec![cond, then_block],
            },
            InstData::Loop { cond, body } => vec![cond, body],
            InstData::Match { scrutinee, .. } => vec![scrutinee],
            InstData::IndexSet { base, index, value } => vec![base, index, value],
            InstData::EnumVariant { module: Some(m), .. } => vec![m],
            InstData::FieldSet { base, value, .. } => vec![base, value],
            InstData::InfiniteLoop { body } => vec![body],
            InstData::Ret(Some(v)) => vec![v],
            InstData::Alloc { init, .. } => vec![init],
            InstData::Assign { value, .. } => vec![value],
            _ => Vec::new(),
        };
        assert(v@ =~= operands(*d));
        v
    }

    /// Append an instruction. It is refused (`None`) when one of its operands
    /// is not an earlier instruction or its side-table range is out of bounds.
    pub fn add_inst(&mut self, inst: Inst) -> (r: Option<InstRef>)
        requires
            old(self).wf(),
        ensures
            final(self).wf(),
            r matches Some(k) ==> k == old(self).instructions@.len() && final(self).instructions@
                == old(self).instructions@.push(inst) && final(self).extra@ == old(self).extra@,
            r is None ==> final(self).instructions@ == old(self).instructions@ && final(self).extra@
                == old(self).extra@,
            r is Some <==> (old(self).instructions@.len() < u32::MAX && (forall|j: int|
                0 <= j < operands(inst.data).len() ==> #[trigger] operands(inst.data)[j]
                    < old(self).instructions@.len()) && ({
                let (start, len) = extra_range(inst.data);
                &&& start + len <= old(self).extra@.len()
                &&& forall|k: int|
                    start <= k < start + len ==> #[trigger] old(self).extra@[k]
                        < old(self).instructions@.len()
            })),
    {
        let n = self.instructions.len();
        if n >= u32::MAX as usize {
            return None;
        }
        let ops = Self::operand_list(&inst.data);
        let mut j: usize = 0;
        while j < ops.len()
            invariant
                j <= ops@.len(),
                ops@ == operands(inst.data),
                n == self.instructions@.len(),
                self.instructions@ == old(self).instructions@,
                self.extra@ == old(self).extra@,
                self.wf(),
                forall|q: int| 0 <= q < j ==> #[trigger] ops@[q] < n,
            decreases ops@.len() - j,
        {
            if ops[j] as usize >= n {
                return None;
            }
            j = j + 1;
        }
        let (start, len) = match inst.data {
            InstData::Block { extra_start, len } => (extra_start, len),
            InstData::Intrinsic { args_start, args_len, .. } => (args_start, args_len),
            InstData::ArrayInit { elems_start, elems_len } => (elems_start, elems_len),
            _ => (0u32, 0u32),
        };
        assert(extra_range(inst.data) == (start as int, len as int));
        if start as usize > self.extra.len() || len as usize > self.extra.len() - start as usize {
            return None;
        }
        let end: usize = start as usize + len as usize;
        let mut k: usize = start as usize;
        while k < end
            invariant
                end == start + len,
                self.instructions@ == old(self).instructions@,
                self.extra@ == old(self).extra@,
                self.wf(),
                forall|q: int| 0 <= q < ops@.len() ==> #[trigger] ops@[q] < n,
                ops@ == operands(inst.data),
                extra_range(inst.data) == (start as int, len as int),
                start <= k <= start + len,
                start + len <= self.extra@.len(),
                n == self.instructions@.len(),
                forall|q: int| start <= q < k ==> #[trigger] self.extra@[q] < n,
            decreases start + len - k,
        {
            if self.extra[k] as usize >= n {
                assert(old(self).extra@[k as int] >= old(self).instructions@.len());
                return None;
            }
            k = k + 1;
        }
        let ghost before = self.instructions@;
        self.instructions.push(inst);
        proof {
            assert forall|i: int, j: int|
                0 <= i < self.instructions@.len() && 0 <= j < operands(
                    self.instructions@[i].data,
                ).len() implies #[trigger] operands(self.instructions@[i].data)[j] < i by {
                if i < before.len() {
                    assert(self.instructions@[i] == before[i]);
                }
            }
            assert forall|i: int| 0 <= i < self.instructions@.len() implies {
                let (s, l) = #[trigger] extra_range(self.instructions@[i].data);
                &&& s + l <= self.extra@.len()
                &&& forall|q: int| s <= q < s + l ==> #[trigger] self.extra@[q] < i
            } by {
                if i < before.len() {
                    assert(self.instructions@[i] == before[i]);
                }
            }
        }
        Some(n as InstRef)
    }

    /// Append a list of instruction references to the side table and return
    /// where it starts; `None` when the table would outgrow `u32` indices.
    pub fn add_extra(&mut self, refs: &[u32]) -> (r: Option<u32>)
        requires
            old(self).wf(),
        ensures
            final(self).wf(),
            final(self).instructions@ == old(self).instructions@,
            r matches Some(start) ==> start == old(self).extra@.len() && final(self).extra@
                == old(self).extra@ + refs@,
            r is None ==> final(self).extra@ == old(self).extra@,
            r is Some <==> old(self).extra@.len() + refs@.len() <= u32::MAX,
    {
        if self.extra.len() > u32::MAX as usize || refs.len() > u32::MAX as usize - self.extra.len() {
            return None;
        }
        let start = self.extra.len();
        let ghost before = self.extra@;
        let mut i: usize = 0;
        while i < refs.len()
            invariant
                i <= refs@.len(),
                start == before.len(),
                self.extra@ == before + refs@.take(i as int),
                self.instructions@ == old(self).instructions@,
                before == old(self).extra@,
                before.len() + refs@.len() <= u32::MAX,
            decreases refs@.len() - i,
        {
            self.extra.push(refs[i]);
            i = i + 1;
            assert(self.extra@ =~= before + refs@.take(i as int));
        }
        assert(refs@.take(refs@.len() as int) =~= refs@);
        proof {
            assert forall|i: int| 0 <= i < self.instructions@.len() implies {
                let (s, l) = #[trigger] extra_range(self.instructions@[i].data);
                &&& s + l <= self.extra@.len()
                &&& forall|q: int| s <= q < s + l ==> #[trigger] self.extra@[q] < i
            } by {
                let (s, l) = extra_range(self.instructions@[i].data);
                assert forall|q: int| s <= q < s + l implies #[trigger] self.extra@[q] < i by {
                    assert(self.extra@[q] == before[q]);
                }
            }
        }
        Some(start as u32)
    }
}

} // verus!
