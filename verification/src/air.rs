//! The typed intermediate representation that semantic analysis produces.
//!
//! Like the untyped one it reads, it is an arena of instructions; each one
//! carries the type semantic analysis gave it. String literals are referred
//! to by index into a string table.
use vstd::prelude::*;

use crate::rir::ArgMode;
use crate::types::{AirRef, Span, Sym, Type};

verus! {

/// How an argument is passed to a call, after analysis.
#[derive(Clone, Copy, Debug, PartialEq, Eq, Structural)]
pub enum AirArgMode {
    Normal,
    Inout,
    Borrow,
}

/// The typed instructions.
#[derive(Clone, Copy, Debug, PartialEq, Eq, Structural)]
pub enum AirInstData {
    IntConst(u64),
    BoolConst(bool),
    /// A string literal: its index in the string table.
    StringConst(u32),
    UnitConst,
    /// A type used as a value at compile time.
    TypeConst(Type),
    Neg(AirRef),
    Not(AirRef),
    BitNot(AirRef),
    Add(AirRef, AirRef),
    Sub(AirRef, AirRef),
    Mul(AirRef, AirRef),
    Div(AirRef, AirRef),
    Mod(AirRef, AirRef),
    Eq(AirRef, AirRef),
    Ne(AirRef, AirRef),
    Lt(AirRef, AirRef),
    Gt(AirRef, AirRef),
    Le(AirRef, AirRef),
    Ge(AirRef, AirRef),
    And(AirRef, AirRef),
    Or(AirRef, AirRef),
    BitAnd(AirRef, AirRef),
    BitOr(AirRef, AirRef),
    BitXor(AirRef, AirRef),
    Shl(AirRef, AirRef),
    Shr(AirRef, AirRef),
    /// `return`, with the value returned if any.
    Ret(Option<AirRef>),
    /// `if cond { then } else { else }`; no else value for an `if` without `else`.
    Branch { cond: AirRef, then_value: AirRef, else_value: Option<AirRef> },
    /// `while cond { body }`
    Loop { cond: AirRef, body: AirRef },
    /// `loop { body }`
    InfiniteLoop { body: AirRef },
    Break,
    Continue,
    /// The value of a parameter, by its ABI slot.
    Param { index: u32 },
    /// The value of a local variable, by its slot.
    Load { slot: u32 },
    /// Store into a local variable's slot.
    Store { slot: u32, value: AirRef },
    /// Store into an `inout` parameter's slot.
    ParamStore { param_slot: u32, value: AirRef },
    /// A field of a struct value, by its position in the struct.
    FieldGet { base: AirRef, struct_id: u32, field_index: u32 },
    /// Store into a field of a local struct, by the field's slot.
    FieldSet { slot: u32, struct_id: u32, field_index: u32, value: AirRef },
    /// Store into a field of an `inout` struct parameter: the parameter's
    /// ABI slot and the field's slot offset within it.
    ParamFieldSet { param_slot: u32, inner_offset: u32, struct_id: u32, field_index: u32, value: AirRef },
    /// A struct literal: the field values, in declaration order, are
    /// `extra[fields_start .. fields_start + fields_len]`; the order in which
    /// they were written (their declaration positions) follows at
    /// `extra[source_order_start ..]`.
    StructInit { struct_id: u32, fields_start: u32, fields_len: u32, source_order_start: u32 },
    /// An element of an array value.
    IndexGet { base: AirRef, array_type: Type, index: AirRef },
    /// Store into an element of a local array, by the array's slot.
    IndexSet { slot: u32, array_type: Type, index: AirRef, value: AirRef },
    /// Store into an element of an `inout` array parameter, by its ABI slot.
    ParamIndexSet { param_slot: u32, array_type: Type, index: AirRef, value: AirRef },
    /// A variant of an enum, by its position.
    EnumVariant { enum_id: u32, variant_index: u32 },
    /// A match: the arms, each a pattern then the arm's value, are encoded
    /// at `extra[arms_start ..]` (see `encode_arm`).
    Match { scrutinee: AirRef, arms_start: u32, arms_len: u32 },
    /// A call of a function: each argument's value and mode are encoded at
    /// `extra[args_start ..]` (see `encode_call_args`).
    Call { name: Sym, args_start: u32, args_len: u32 },
    /// An integer converted from type `from_ty` to the instruction's type.
    IntCast { value: AirRef, from_ty: Type },
    /// An array literal: the elements are `extra[elems_start .. elems_start + elems_len]`.
    ArrayInit { elems_start: u32, elems_len: u32 },
    /// The start of a local variable's storage.
    StorageLive { slot: u32 },
    /// Initialize a local variable's slots with a value.
    Alloc { slot: u32, init: AirRef },
    /// A block: its statements are `extra[stmts_start .. stmts_start + stmts_len]`,
    /// followed by its value.
    Block { stmts_start: u32, stmts_len: u32, value: AirRef },
    /// An intrinsic call; the arguments are `extra[args_start .. args_start + args_len]`.
    Intrinsic { name: Sym, args_start: u32, args_len: u32 },
}

/// A pattern of a match arm, after analysis.
#[derive(Clone, Copy, Debug, PartialEq, Eq, Structural)]
pub enum AirPattern {
    Wildcard,
    Int(i64),
    Bool(bool),
    EnumVariant { enum_id: u32, variant_index: u32 },
}

/// The words a match arm is encoded as: a tag, the pattern's payload, then
/// the arm's value. An integer is written low word first.
pub open spec fn encode_arm(pattern: AirPattern, body: AirRef) -> Seq<u32> {
    match pattern {
        AirPattern::Wildcard => seq![0u32, body],
        AirPattern::Int(n) => seq![1u32, (n as u64) as u32, ((n as u64) >> 32u64) as u32, body],
        AirPattern::Bool(b) => seq![2u32, if b { 1u32 } else { 0u32 }, body],
        AirPattern::EnumVariant { enum_id, variant_index } => seq![3u32, enum_id, variant_index, body],
    }
}

/// The words a list of match arms is encoded as.
pub open spec fn encode_arms(arms: Seq<(AirPattern, AirRef)>) -> Seq<u32>
    decreases arms.len(),
{
    if arms.len() == 0 {
        Seq::empty()
    } else {
        encode_arms(arms.drop_last()) + encode_arm(arms.last().0, arms.last().1)
    }
}

/// A typed instruction and where it came from.
#[derive(Clone, Copy, Debug, PartialEq, Eq, Structural)]
pub struct AirInst {
    pub data: AirInstData,
    pub ty: Type,
    pub span: Span,
}

/// The typed body of one function.
#[derive(Debug)]
pub struct Air {
    pub instructions: Vec<AirInst>,
    pub extra: Vec<u32>,
    pub return_type: Type,
}

/// An instruction whose string literal index, if any, is replaced by its
/// entry in `table`.
pub open spec fn remap_string(inst: AirInst, table: Seq<u32>) -> AirInst {
    match inst.data {
        AirInstData::StringConst(id) => AirInst { data: AirInstData::StringConst(table[id as int]), ..inst },
        _ => inst,
    }
}

impl Air {
    /// An empty body for a function returning `return_type`.
    pub fn new(return_type: Type) -> (a: Self)
        ensures
            a.instructions@.len() == 0,
            a.extra@.len() == 0,
            a.return_type == return_type,
    {
        Air { instructions: Vec::new(), extra: Vec::new(), return_type }
    }

    /// Every string literal index is below `n`.
    pub open spec fn string_ids_below(&self, n: nat) -> bool {
        forall|i: int|
            0 <= i < self.instructions@.len() ==> match #[trigger] self.instructions@[i].data {
                AirInstData::StringConst(id) => id < n,
                _ => true,
            }
    }

    /// Whether every string literal refers to an index below `n`.
    pub fn string_ids_within(&self, n: usize) -> (r: bool)
        ensures
            r == self.string_ids_below(n as nat),
    {
        let mut i: usize = 0;
        while i < self.instructions.len()
            invariant
                i <= self.instructions@.len(),
                forall|j: int|
                    0 <= j < i ==> match #[trigger] self.instructions@[j].data {
                        AirInstData::StringConst(id) => id < n,
                        _ => true,
                    },
            decreases self.instructions@.len() - i,
        {
            match self.instructions[i].data {
                AirInstData::StringConst(id) => {
                    if id as usize >= n {
                        return false;
                    }
                },
                _ => {},
            }
            i = i + 1;
        }
        true
    }

    /// Number of instructions.
    pub fn len(&self) -> (n: usize)
        ensures
            n == self.instructions@.len(),
    {
        self.instructions.len()
    }

    /// Append an instruction and return its reference.
    pub fn add_inst(&mut self, inst: AirInst) -> (r: AirRef)
        requires
            old(self).instructions@.len() < u32::MAX,
        ensures
            r == old(self).instructions@.len(),
            final(self).instructions@ == old(self).instructions@.push(inst),
            final(self).extra == old(self).extra,
            final(self).return_type == old(self).return_type,
    {
        let r = self.instructions.len() as AirRef;
        self.instructions.push(inst);
        r
    }

    /// Append a list of instruction references to the side table and return
    /// where it starts.
    pub fn add_extra(&mut self, refs: &[u32]) -> (start: u32)
        requires
            old(self).extra@.len() + refs@.len() <= u32::MAX,
        ensures
            start == old(self).extra@.len(),
            final(self).extra@ == old(self).extra@ + refs@,
            final(self).instructions == old(self).instructions,
            final(self).return_type == old(self).return_type,
    {
        let start = self.extra.len() as u32;
        let ghost before = self.extra@;
        let mut i: usize = 0;
        while i < refs.len()
            invariant
                i <= refs@.len(),
                self.extra@ == before + refs@.take(i as int),
                self.instructions == old(self).instructions,
                self.return_type == old(self).return_type,
                before == old(self).extra@,
            decreases refs@.len() - i,
        {
            self.extra.push(refs[i]);
            i = i + 1;
            assert(self.extra@ =~= before + refs@.take(i as int));
        }
        assert(refs@.take(refs@.len() as int) =~= refs@);
        start
    }

    /// The instruction at `r`.
    pub fn get(&self, r: AirRef) -> (inst: &AirInst)
        requires
            r < self.instructions@.len(),
        ensures
            *inst == self.instructions@[r as int],
    {
        &self.instructions[r as usize]
    }

    /// Rewrite every string literal index through `table`, which maps the
    /// indices of a function's own string table to those of a merged one.
    pub fn remap_string_ids(&mut self, table: &Vec<u32>)
        requires
            old(self).string_ids_below(table@.len()),
        ensures
            final(self).instructions@.len() == old(self).instructions@.len(),
            forall|i: int|
                0 <= i < final(self).instructions@.len() ==> #[trigger] final(self).instructions@[i]
                    == remap_string(old(self).instructions@[i], table@),
            final(self).extra == old(self).extra,
            final(self).return_type == old(self).return_type,
    {
        let mut i: usize = 0;
        while i < self.instructions.len()
            invariant
                i <= self.instructions@.len(),
                self.instructions@.len() == old(self).instructions@.len(),
                old(self).string_ids_below(table@.len()),
                forall|j: int|
                    0 <= j < i ==> #[trigger] self.instructions@[j] == remap_string(
                        old(self).instructions@[j],
                        table@,
                    ),
                forall|j: int|
                    i <= j < self.instructions@.len() ==> #[trigger] self.instructions@[j]
                        == old(self).instructions@[j],
                self.extra == old(self).extra,
                self.return_type == old(self).return_type,
            decreases self.instructions@.len() - i,
        {
            let inst = self.instructions[i];
            match inst.data {
                AirInstData::StringConst(local_id) => {
                    assert(old(self).instructions@[i as int] == inst);
                    let global_id = table[local_id as usize];
                    self.instructions.set(
                        i,
                        AirInst { data: AirInstData::StringConst(global_id), ty: inst.ty, span: inst.span },
                    );
                },
                _ => {},
            }
            i = i + 1;
        }
    }
}

/// Convert an argument mode of the untyped representation to the typed one.
pub fn convert_arg_mode(mode: ArgMode) -> (r: AirArgMode)
    ensures
        r == (match mode {
            ArgMode::Normal => AirArgMode::Normal,
            ArgMode::Inout => AirArgMode::Inout,
            ArgMode::Borrow => AirArgMode::Borrow,
        }),
{
    match mode {
        ArgMode::Normal => AirArgMode::Normal,
        ArgMode::Inout => AirArgMode::Inout,
        ArgMode::Borrow => AirArgMode::Borrow,
    }
}

} // verus!
