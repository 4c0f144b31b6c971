//! Compile-time evaluation of constant expressions.
use vstd::prelude::*;

use std::collections::HashMap;

use crate::context::ConstValue;
use lasso::ThreadedRodeo;

use crate::interner::{interned, try_resolve};
use crate::paths::str_eq;
use crate::rir::{InstData, InstRef, Rir};
use crate::sema::Sema;
use crate::types::{Sym, Type};

verus! {

/// `v` fits in an `i64`.
pub open spec fn in_i64(v: int) -> bool {
    i64::MIN <= v <= i64::MAX
}

/// Absolute value.
pub open spec fn abs(v: int) -> int {
    if v < 0 {
        -v
    } else {
        v
    }
}

/// Quotient of `x` by `d` rounded toward zero (the quotient of Rust's `/`).
pub open spec fn trunc_div(x: int, d: int) -> int {
    if (x >= 0) == (d > 0) || x == 0 {
        abs(x) / abs(d)
    } else {
        -(abs(x) / abs(d))
    }
}

/// Remainder of `x` by `d`, with the sign of `x` (the remainder of Rust's `%`).
pub open spec fn trunc_rem(x: int, d: int) -> int {
    if x >= 0 {
        abs(x) % abs(d)
    } else {
        -(abs(x) % abs(d))
    }
}

/// An integer result, if it fits in an `i64`.
pub open spec fn int_result(v: int) -> Option<ConstValue> {
    if in_i64(v) {
        Some(ConstValue::Integer(v as i64))
    } else {
        None
    }
}

/// The factor by which a left shift by `r` multiplies: two to the power `r`.
#[verifier::opaque]
pub open spec fn shift_factor(r: int) -> int
    decreases r,
{
    if r <= 0 {
        1
    } else {
        2 * shift_factor(r - 1)
    }
}

/// Two to the power of a small shift amount.
fn small_shift_factor(r: i64) -> (f: i64)
    requires
        0 <= r < 8,
    ensures
        f == shift_factor(r as int),
{
    proof {
        reveal_with_fuel(shift_factor, 9);
    }
    if r == 0 {
        1
    } else if r == 1 {
        2
    } else if r == 2 {
        4
    } else if r == 3 {
        8
    } else if r == 4 {
        16
    } else if r == 5 {
        32
    } else if r == 6 {
        64
    } else {
        128
    }
}

/// The value of `l << r`. Only small shift amounts are folded, to avoid
/// type-width issues; a shift that overflows does not fold.
fn fold_shl(l: i64, r: i64) -> (res: Option<ConstValue>)
    ensures
        res == (if 0 <= r < 8 {
            int_result(l * shift_factor(r as int))
        } else {
            None
        }),
{
    if r < 0 || r >= 8 {
        None
    } else {
        match l.checked_mul(small_shift_factor(r)) {
            Some(v) => Some(ConstValue::Integer(v)),
            None => None,
        }
    }
}

/// The integers of two operand values, if both are integers.
pub open spec fn both_ints(a: Option<ConstValue>, b: Option<ConstValue>) -> Option<(i64, i64)> {
    match (a, b) {
        (Some(ConstValue::Integer(l)), Some(ConstValue::Integer(r))) => Some((l, r)),
        _ => None,
    }
}

/// The value of a comparison of two constants: integers with integers,
/// booleans with booleans.
pub open spec fn compare_eq(a: Option<ConstValue>, b: Option<ConstValue>, eq: bool) -> Option<ConstValue> {
    match (a, b) {
        (Some(ConstValue::Integer(l)), Some(ConstValue::Integer(r))) => Some(ConstValue::Bool((l == r) == eq)),
        (Some(ConstValue::Bool(l)), Some(ConstValue::Bool(r))) => Some(ConstValue::Bool((l == r) == eq)),
        _ => None,
    }
}

/// What names mean: the interned names, the struct and enum tables, and the
/// substitutions in force while evaluating the body of a generic function
/// (type parameters to types, comptime parameters to values).
pub ghost struct TypeEnv {
    pub names: Map<Sym, Seq<char>>,
    pub structs: Map<Sym, u32>,
    pub enums: Map<Sym, u32>,
    pub type_subst: Map<Sym, Type>,
    pub value_subst: Map<Sym, ConstValue>,
}

/// The primitive type a name denotes, if any.
pub open spec fn primitive_type(name: Seq<char>) -> Option<Type> {
    if name == "i8"@ {
        Some(Type::I8)
    } else if name == "i16"@ {
        Some(Type::I16)
    } else if name == "i32"@ {
        Some(Type::I32)
    } else if name == "i64"@ {
        Some(Type::I64)
    } else if name == "u8"@ {
        Some(Type::U8)
    } else if name == "u16"@ {
        Some(Type::U16)
    } else if name == "u32"@ {
        Some(Type::U32)
    } else if name == "u64"@ {
        Some(Type::U64)
    } else if name == "bool"@ {
        Some(Type::Bool)
    } else if name == "()"@ {
        Some(Type::Unit)
    } else if name == "!"@ {
        Some(Type::Never)
    } else {
        None
    }
}

/// The type a name denotes: a primitive type, else a struct, else an enum.
pub open spec fn named_type(env: TypeEnv, name: Sym) -> Option<Type> {
    let prim = if env.names.contains_key(name) {
        primitive_type(env.names[name])
    } else {
        None
    };
    if prim is Some {
        prim
    } else if env.structs.contains_key(name) {
        Some(Type::Struct(env.structs[name]))
    } else if env.enums.contains_key(name) {
        Some(Type::Enum(env.enums[name]))
    } else {
        None
    }
}

/// The compile-time value of instruction `r` using only the instructions.
pub open spec fn const_value(rir: &Rir, r: InstRef) -> Option<ConstValue> {
    const_value_in(rir, r, None)
}

/// The compile-time value of instruction `r`, or `None` when it needs
/// run-time information or its arithmetic would overflow or divide by zero.
/// With the meaning of type names at hand (`env`), type names evaluate to
/// their types and single-expression blocks to their expression.
pub open spec fn const_value_in(rir: &Rir, r: InstRef, env: Option<TypeEnv>) -> Option<ConstValue>
    decreases r,
{
    if r >= rir.instructions@.len() || !rir.wf() {
        None
    } else {
        let d = rir.instructions@[r as int].data;
        match d {
            InstData::IntConst(v) => if v <= i64::MAX {
                Some(ConstValue::Integer(v as i64))
            } else {
                None
            },
            InstData::BoolConst(b) => Some(ConstValue::Bool(b)),
            InstData::Neg { operand } => if operand < r {
                match const_value_in(rir, operand, env) {
                    Some(ConstValue::Integer(n)) => int_result(-n),
                    _ => None,
                }
            } else {
                None
            },
            InstData::Not { operand } => if operand < r {
                match const_value_in(rir, operand, env) {
                    Some(ConstValue::Bool(b)) => Some(ConstValue::Bool(!b)),
                    _ => None,
                }
            } else {
                None
            },
            InstData::BitNot { operand } => if operand < r {
                match const_value_in(rir, operand, env) {
                    Some(ConstValue::Integer(n)) => Some(ConstValue::Integer(!n)),
                    _ => None,
                }
            } else {
                None
            },
            InstData::Comptime { expr } => if expr < r {
                const_value_in(rir, expr, env)
            } else {
                None
            },
            InstData::TypeConst { name } => match env {
                None => Some(ConstValue::Type(Type::ComptimeType)),
                Some(e) => if e.type_subst.contains_key(name) {
                    Some(ConstValue::Type(e.type_subst[name]))
                } else {
                    match named_type(e, name) {
                        Some(t) => Some(ConstValue::Type(t)),
                        None => None,
                    }
                },
            },
            InstData::VarRef { name } => match env {
                None => None,
                Some(e) => if e.type_subst.contains_key(name) {
                    Some(ConstValue::Type(e.type_subst[name]))
                } else if e.value_subst.contains_key(name) {
                    Some(e.value_subst[name])
                } else {
                    match named_type(e, name) {
                        Some(t) => Some(ConstValue::Type(t)),
                        None => None,
                    }
                },
            },
            InstData::Block { extra_start, len } => match env {
                Some(_) => if len == 1 && (extra_start as int) < rir.extra@.len()
                    && rir.extra@[extra_start as int] < r {
                    const_value_in(rir, rir.extra@[extra_start as int], env)
                } else {
                    None
                },
                None => None,
            },
            InstData::FieldGet { .. } => None,
            InstData::IndexGet { .. } => None,
            _ => {
                let ops = crate::rir::operands(d);
                if ops.len() == 2 && ops[0] < r && ops[1] < r {
                    binary_value(d, const_value_in(rir, ops[0], env), const_value_in(rir, ops[1], env))
                } else {
                    None
                }
            },
        }
    }
}

/// The value of a binary instruction applied to its operands' values.
pub open spec fn binary_value(d: InstData, a: Option<ConstValue>, b: Option<ConstValue>) -> Option<
    ConstValue,
> {
    match d {
        InstData::Eq { .. } => compare_eq(a, b, true),
        InstData::Ne { .. } => compare_eq(a, b, false),
        InstData::And { .. } => match (a, b) {
            (Some(ConstValue::Bool(l)), Some(ConstValue::Bool(r))) => Some(ConstValue::Bool(l && r)),
            _ => None,
        },
        InstData::Or { .. } => match (a, b) {
            (Some(ConstValue::Bool(l)), Some(ConstValue::Bool(r))) => Some(ConstValue::Bool(l || r)),
            _ => None,
        },
        _ => match both_ints(a, b) {
            None => None,
            Some((l, r)) => match d {
                InstData::Add { .. } => int_result(l + r),
                InstData::Sub { .. } => int_result(l - r),
                InstData::Mul { .. } => int_result(l * r),
                InstData::Div { .. } => if r == 0 {
                    None
                } else {
                    int_result(trunc_div(l as int, r as int))
                },
                InstData::Mod { .. } => if r == 0 || (l == i64::MIN && r == -1) {
                    None
                } else {
                    int_result(trunc_rem(l as int, r as int))
                },
                InstData::Lt { .. } => Some(ConstValue::Bool(l < r)),
                InstData::Gt { .. } => Some(ConstValue::Bool(l > r)),
                InstData::Le { .. } => Some(ConstValue::Bool(l <= r)),
                InstData::Ge { .. } => Some(ConstValue::Bool(l >= r)),
                InstData::BitAnd { .. } => Some(ConstValue::Integer(l & r)),
                InstData::BitOr { .. } => Some(ConstValue::Integer(l | r)),
                InstData::BitXor { .. } => Some(ConstValue::Integer(l ^ r)),
                // Only small shift amounts are folded: the operand type is not known here.
                InstData::Shl { .. } => if 0 <= r < 8 {
                    int_result(l * shift_factor(r as int))
                } else {
                    None
                },
                InstData::Shr { .. } => if 0 <= r < 8 {
                    Some(ConstValue::Integer(l >> (r as u32)))
                } else {
                    None
                },
                _ => None,
            },
        },
    }
}

} // verus!

verus! {

/// What names mean: the interner that spells them, the struct and enum
/// tables of the analyzer, and the substitutions in force.
pub struct TypeNames<'b> {
    pub interner: &'b ThreadedRodeo,
    pub structs: &'b HashMap<Sym, u32>,
    pub enums: &'b HashMap<Sym, u32>,
    pub type_subst: &'b HashMap<Sym, Type>,
    pub value_subst: &'b HashMap<Sym, ConstValue>,
}

impl<'b> TypeNames<'b> {
    /// The tables as a type environment.
    pub open spec fn env(&self) -> TypeEnv {
        TypeEnv {
            names: interned(*self.interner),
            structs: self.structs@,
            enums: self.enums@,
            type_subst: self.type_subst@,
            value_subst: self.value_subst@,
        }
    }

    /// The primitive type a name spells, if any.
    fn primitive(name: &str) -> (t: Option<Type>)
        ensures
            t == primitive_type(name@),
    {
        if str_eq(name, "i8") {
            Some(Type::I8)
        } else if str_eq(name, "i16") {
            Some(Type::I16)
        } else if str_eq(name, "i32") {
            Some(Type::I32)
        } else if str_eq(name, "i64") {
            Some(Type::I64)
        } else if str_eq(name, "u8") {
            Some(Type::U8)
        } else if str_eq(name, "u16") {
            Some(Type::U16)
        } else if str_eq(name, "u32") {
            Some(Type::U32)
        } else if str_eq(name, "u64") {
            Some(Type::U64)
        } else if str_eq(name, "bool") {
            Some(Type::Bool)
        } else if str_eq(name, "()") {
            Some(Type::Unit)
        } else if str_eq(name, "!") {
            Some(Type::Never)
        } else {
            None
        }
    }

    /// The type a name denotes: a primitive type, else a struct, else an enum.
    pub fn named_type(&self, name: Sym) -> (t: Option<Type>)
        ensures
            t == named_type(self.env(), name),
    {
        let prim = match try_resolve(self.interner, name) {
            Some(s) => Self::primitive(s),
            None => None,
        };
        match prim {
            Some(t) => Some(t),
            None => match self.structs.get(&name) {
                Some(id) => Some(Type::Struct(*id)),
                None => match self.enums.get(&name) {
                    Some(id) => Some(Type::Enum(*id)),
                    None => None,
                },
            },
        }
    }
}

/// The type environment of optional type tables.
pub open spec fn env_view(env: Option<&TypeNames>) -> Option<TypeEnv> {
    match env {
        Some(n) => Some(n.env()),
        None => None,
    }
}

/// The integers of two operands, if both evaluate to integers.
fn eval_int_pair(rir: &Rir, env: Option<&TypeNames>, inst_ref: InstRef, lhs: InstRef, rhs: InstRef) -> (res: Option<(i64, i64)>)
    requires
        rir.wf(),
        inst_ref < rir.instructions@.len(),
        lhs < inst_ref,
        rhs < inst_ref,
    ensures
        res == both_ints(const_value_in(rir, lhs, env_view(env)), const_value_in(rir, rhs, env_view(env))),
    decreases inst_ref, 0nat,
{
    let l = match eval_const(rir, env, lhs) {
        Some(v) => match v.as_integer() {
            Some(n) => n,
            None => return None,
        },
        None => return None,
    };
    let r = match eval_const(rir, env, rhs) {
        Some(v) => match v.as_integer() {
            Some(n) => n,
            None => return None,
        },
        None => return None,
    };
    Some((l, r))
}

/// The booleans of two operands, if both evaluate to booleans.
fn eval_bool_pair(rir: &Rir, env: Option<&TypeNames>, inst_ref: InstRef, lhs: InstRef, rhs: InstRef) -> (res: Option<(bool, bool)>)
    requires
        rir.wf(),
        inst_ref < rir.instructions@.len(),
        lhs < inst_ref,
        rhs < inst_ref,
    ensures
        res == (match (const_value_in(rir, lhs, env_view(env)), const_value_in(rir, rhs, env_view(env))) {
            (Some(ConstValue::Bool(l)), Some(ConstValue::Bool(r))) => Some((l, r)),
            _ => None,
        }),
    decreases inst_ref, 0nat,
{
    let l = match eval_const(rir, env, lhs) {
        Some(v) => match v.as_bool() {
            Some(b) => b,
            None => return None,
        },
        None => return None,
    };
    let r = match eval_const(rir, env, rhs) {
        Some(v) => match v.as_bool() {
            Some(b) => b,
            None => return None,
        },
        None => return None,
    };
    Some((l, r))
}

/// Compare two operands for (in)equality: integers with integers, booleans with booleans.
fn eval_equality(rir: &Rir, env: Option<&TypeNames>, inst_ref: InstRef, lhs: InstRef, rhs: InstRef, eq: bool) -> (res: Option<
    ConstValue,
>)
    requires
        rir.wf(),
        inst_ref < rir.instructions@.len(),
        lhs < inst_ref,
        rhs < inst_ref,
    ensures
        res == compare_eq(const_value_in(rir, lhs, env_view(env)), const_value_in(rir, rhs, env_view(env)), eq),
    decreases inst_ref, 0nat,
{
    let l = match eval_const(rir, env, lhs) {
        Some(v) => v,
        None => return None,
    };
    let r = match eval_const(rir, env, rhs) {
        Some(v) => v,
        None => return None,
    };
    match (l, r) {
        (ConstValue::Integer(a), ConstValue::Integer(b)) => Some(ConstValue::Bool((a == b) == eq)),
        (ConstValue::Bool(a), ConstValue::Bool(b)) => Some(ConstValue::Bool((a == b) == eq)),
        _ => None,  // Mixed types
    }
}

/// The evaluator behind `try_evaluate_const_in_rir` and `Sema::try_evaluate_const`.
#[verifier::rlimit(40)]
fn eval_const(rir: &Rir, env: Option<&TypeNames>, inst_ref: InstRef) -> (res: Option<ConstValue>)
    requires
        rir.wf(),
        inst_ref < rir.instructions@.len(),
    ensures
        res == const_value_in(rir, inst_ref, env_view(env)),
    decreases inst_ref, 1nat,
{
    let inst = rir.get(inst_ref);
    proof {
        let ops = crate::rir::operands(inst.data);
        assert forall|j: int| 0 <= j < ops.len() implies #[trigger] ops[j] < inst_ref by {}
    }
    match inst.data {
        // Integer literals
        InstData::IntConst(value) => if value <= i64::MAX as u64 {
            Some(ConstValue::Integer(value as i64))
        } else {
            None
        },
        // Boolean literals
        InstData::BoolConst(value) => Some(ConstValue::Bool(value)),
        // Unary negation: -expr
        InstData::Neg { operand } => {
            match eval_const(rir, env, operand) {
                Some(ConstValue::Integer(n)) => if n == i64::MIN {
                    None
                } else {
                    Some(ConstValue::Integer(-n))
                },
                _ => None,
            }
        },
        // Logical NOT: !expr
        InstData::Not { operand } => {
            assert(crate::rir::operands(inst.data)[0] == operand);
            match eval_const(rir, env, operand) {
                Some(ConstValue::Bool(b)) => Some(ConstValue::Bool(!b)),
                _ => None,
            }
        },
        // Binary arithmetic operations
        InstData::Add { lhs, rhs } => {
            assert(crate::rir::operands(inst.data)[0] == lhs && crate::rir::operands(inst.data)[1] == rhs);
            match eval_int_pair(rir, env, inst_ref, lhs, rhs) {
                Some((l, r)) => match l.checked_add(r) {
                    Some(v) => Some(ConstValue::Integer(v)),
                    None => None,
                },
                None => None,
            }
        },
        InstData::Sub { lhs, rhs } => {
            match eval_int_pair(rir, env, inst_ref, lhs, rhs) {
                Some((l, r)) => match l.checked_sub(r) {
                    Some(v) => Some(ConstValue::Integer(v)),
                    None => None,
                },
                None => None,
            }
        },
        InstData::Mul { lhs, rhs } => {
            match eval_int_pair(rir, env, inst_ref, lhs, rhs) {
                Some((l, r)) => match l.checked_mul(r) {
                    Some(v) => Some(ConstValue::Integer(v)),
                    None => None,
                },
                None => None,
            }
        },
        InstData::Div { lhs, rhs } => {
            assert(crate::rir::operands(inst.data)[0] == lhs && crate::rir::operands(inst.data)[1] == rhs);
            match eval_int_pair(rir, env, inst_ref, lhs, rhs) {
                Some((l, r)) => if r == 0 {
                    None  // Division by zero - defer to runtime
                } else {
                    match l.checked_div(r) {
                        Some(v) => Some(ConstValue::Integer(v)),
                        None => None,
                    }
                },
                None => None,
            }
        },
        InstData::Mod { lhs, rhs } => {
            assert(crate::rir::operands(inst.data)[0] == lhs && crate::rir::operands(inst.data)[1] == rhs);
            match eval_int_pair(rir, env, inst_ref, lhs, rhs) {
                Some((l, r)) => if r == 0 {
                    None  // Modulo by zero - defer to runtime
                } else {
                    match l.checked_rem(r) {
                        Some(v) => Some(ConstValue::Integer(v)),
                        None => None,
                    }
                },
                None => None,
            }
        },
        // Comparison operations
        InstData::Eq { lhs, rhs } => {
            eval_equality(rir, env, inst_ref, lhs, rhs, true)
        },
        InstData::Ne { lhs, rhs } => {
            eval_equality(rir, env, inst_ref, lhs, rhs, false)
        },
        InstData::Lt { lhs, rhs } => {
            match eval_int_pair(rir, env, inst_ref, lhs, rhs) {
                Some((l, r)) => Some(ConstValue::Bool(l < r)),
                None => None,
            }
        },
        InstData::Gt { lhs, rhs } => {
            match eval_int_pair(rir, env, inst_ref, lhs, rhs) {
                Some((l, r)) => Some(ConstValue::Bool(l > r)),
                None => None,
            }
        },
        InstData::Le { lhs, rhs } => {
            match eval_int_pair(rir, env, inst_ref, lhs, rhs) {
                Some((l, r)) => Some(ConstValue::Bool(l <= r)),
                None => None,
            }
        },
        InstData::Ge { lhs, rhs } => {
            match eval_int_pair(rir, env, inst_ref, lhs, rhs) {
                Some((l, r)) => Some(ConstValue::Bool(l >= r)),
                None => None,
            }
        },
        // Logical operations
        InstData::And { lhs, rhs } => {
            match eval_bool_pair(rir, env, inst_ref, lhs, rhs) {
                Some((l, r)) => Some(ConstValue::Bool(l && r)),
                None => None,
            }
        },
        InstData::Or { lhs, rhs } => {
            match eval_bool_pair(rir, env, inst_ref, lhs, rhs) {
                Some((l, r)) => Some(ConstValue::Bool(l || r)),
                None => None,
            }
        },
        // Bitwise operations
        InstData::BitAnd { lhs, rhs } => {
            match eval_int_pair(rir, env, inst_ref, lhs, rhs) {
                Some((l, r)) => Some(ConstValue::Integer(l & r)),
                None => None,
            }
        },
        InstData::BitOr { lhs, rhs } => {
            match eval_int_pair(rir, env, inst_ref, lhs, rhs) {
                Some((l, r)) => Some(ConstValue::Integer(l | r)),
                None => None,
            }
        },
        InstData::BitXor { lhs, rhs } => {
            match eval_int_pair(rir, env, inst_ref, lhs, rhs) {
                Some((l, r)) => Some(ConstValue::Integer(l ^ r)),
                None => None,
            }
        },
        InstData::Shl { lhs, rhs } => {
            match eval_int_pair(rir, env, inst_ref, lhs, rhs) {
                Some((l, r)) => {
                    fold_shl(l, r)
                },
                None => None,
            }
        },
        InstData::Shr { lhs, rhs } => {
            match eval_int_pair(rir, env, inst_ref, lhs, rhs) {
                Some((l, r)) => {
                    if r < 0 || r >= 8 {
                        None
                    } else {
                        Some(ConstValue::Integer(l >> (r as u32)))
                    }
                },
                None => None,
            }
        },
        InstData::BitNot { operand } => {
            match eval_const(rir, env, operand) {
                Some(ConstValue::Integer(n)) => Some(ConstValue::Integer(!n)),
                _ => None,
            }
        },
        // Comptime blocks: evaluate the inner expression
        InstData::Comptime { expr } => {
            assert(crate::rir::operands(inst.data)[0] == expr);
            eval_const(rir, env, expr)
        },
        // Block: a single-expression block evaluates to its expression.
        InstData::Block { extra_start, len } => match env {
            Some(_) => if len == 1 {
                proof {
                    let (st, ln) = crate::rir::extra_range(rir.instructions@[inst_ref as int].data);
                    assert(rir.extra@[extra_start as int] < inst_ref);
                }
                let result_ref = rir.extra_at(extra_start);
                eval_const(rir, env, result_ref)
            } else {
                None  // Blocks with several instructions need a full interpreter
            },
            None => None,
        },
        // TypeConst: a type used as a value (e.g., `i32` in `identity(i32, 42)`).
        // Without the type tables only a placeholder type can be given.
        InstData::TypeConst { name } => match env {
            Some(names) => {
                // First check the substitution map
                match names.type_subst.get(&name) {
                    Some(t) => Some(ConstValue::Type(*t)),
                    None => match names.named_type(name) {
                        Some(t) => Some(ConstValue::Type(t)),
                        None => None,
                    },
                }
            },
            None => Some(ConstValue::Type(Type::ComptimeType)),
        },
        // VarRef: a variable reference that names a type (e.g., `Point` in
        // `fn make_type() -> type { Point }`).
        InstData::VarRef { name } => match env {
            Some(names) => {
                // A type parameter, then a comptime value parameter, then a type name
                match names.type_subst.get(&name) {
                    Some(t) => Some(ConstValue::Type(*t)),
                    None => match names.value_subst.get(&name) {
                        Some(v) => Some(*v),
                        None => match names.named_type(name) {
                            Some(t) => Some(ConstValue::Type(t)),
                            None => None,
                        },
                    },
                }
            },
            None => None,
        },
        // Everything else requires runtime evaluation
        _ => None,
    }
}

/// Try to evaluate an RIR expression as a compile-time constant.
///
/// Returns `Some(value)` if the expression can be fully evaluated at compile
/// time, or `None` if evaluation requires runtime information (e.g., variable
/// values, function calls) or would cause overflow/panic. Type names are not
/// resolved here: a type used as a value gives a placeholder type.
pub fn try_evaluate_const_in_rir(rir: &Rir, inst_ref: InstRef) -> (res: Option<ConstValue>)
    requires
        rir.wf(),
        inst_ref < rir.instructions@.len(),
    ensures
        res == const_value(rir, inst_ref),
{
    eval_const(rir, None, inst_ref)
}

impl<'a> Sema<'a> {
    /// The meaning of names in this analyzer, under the given substitutions.
    pub open spec fn type_env_with(
        &self,
        type_subst: Map<Sym, Type>,
        value_subst: Map<Sym, ConstValue>,
    ) -> TypeEnv {
        TypeEnv {
            names: interned(self.interner),
            structs: self.structs@,
            enums: self.enums@,
            type_subst,
            value_subst,
        }
    }

    /// The meaning of names in this analyzer, outside generic functions.
    pub open spec fn type_env(&self) -> TypeEnv {
        self.type_env_with(Map::empty(), Map::empty())
    }

    /// Try to evaluate an RIR instruction to a compile-time constant value.
    ///
    /// Returns `Some(value)` if the expression can be fully evaluated at
    /// compile time, or `None` if evaluation requires runtime information
    /// (e.g., variable values, function calls) or would cause overflow/panic.
    /// Type names evaluate to the types they denote.
    pub fn try_evaluate_const(&mut self, inst_ref: InstRef) -> (res: Option<ConstValue>)
        requires
            old(self).rir.wf(),
            inst_ref < old(self).rir.instructions@.len(),
        ensures
            *final(self) == *old(self),
            res == const_value_in(old(self).rir, inst_ref, Some(old(self).type_env())),
    {
        let no_types: HashMap<Sym, Type> = HashMap::new();
        let no_values: HashMap<Sym, ConstValue> = HashMap::new();
        let names = TypeNames {
            interner: &self.interner,
            structs: &self.structs,
            enums: &self.enums,
            type_subst: &no_types,
            value_subst: &no_values,
        };
        eval_const(self.rir, Some(&names), inst_ref)
    }

    /// Try to evaluate an RIR instruction to a compile-time constant value
    /// with the substitutions of a generic function's body: `type_subst`
    /// gives the types of its type parameters, `value_subst` the values of
    /// its comptime parameters. Names are looked up there first.
    pub fn try_evaluate_const_with_subst(
        &mut self,
        inst_ref: InstRef,
        type_subst: &HashMap<Sym, Type>,
        value_subst: &HashMap<Sym, ConstValue>,
    ) -> (res: Option<ConstValue>)
        requires
            old(self).rir.wf(),
            inst_ref < old(self).rir.instructions@.len(),
        ensures
            *final(self) == *old(self),
            res == const_value_in(
                old(self).rir,
                inst_ref,
                Some(old(self).type_env_with(type_subst@, value_subst@)),
            ),
    {
        let names = TypeNames {
            interner: &self.interner,
            structs: &self.structs,
            enums: &self.enums,
            type_subst,
            value_subst,
        };
        eval_const(self.rir, Some(&names), inst_ref)
    }

    /// Try to extract a constant integer value from an RIR index expression.
    ///
    /// This is used for compile-time bounds checking.
    pub fn try_get_const_index(&mut self, inst_ref: InstRef) -> (res: Option<i64>)
        requires
            old(self).rir.wf(),
            inst_ref < old(self).rir.instructions@.len(),
        ensures
            *final(self) == *old(self),
            res == (match const_value_in(old(self).rir, inst_ref, Some(old(self).type_env())) {
                Some(ConstValue::Integer(n)) => Some(n),
                _ => None,
            }),
    {
        match self.try_evaluate_const(inst_ref) {
            Some(v) => v.as_integer(),
            None => None,
        }
    }
}

/// The integer an index expression spells directly: a literal, or a negated
/// literal. Literals are read as `i64` the way `as` converts them.
pub open spec fn literal_index(rir: &Rir, index: InstRef) -> Option<i64> {
    match rir.instructions@[index as int].data {
        InstData::IntConst(v) => if v <= i64::MAX {
            Some(v as i64)
        } else {
            None
        },
        InstData::Neg { operand } => if operand < rir.instructions@.len() {
            match rir.instructions@[operand as int].data {
                InstData::IntConst(v) => if v <= 0x8000_0000_0000_0000u64 {
                    Some((-(v as int)) as i64)
                } else {
                    None
                },
                _ => None,
            }
        } else {
            None
        },
        _ => None,
    }
}

/// Try to extract a constant integer from an index expression written as a
/// literal or a negated literal: the value written, where it fits in `i64`.
pub fn try_get_const_index_ctx(rir: &Rir, index: InstRef) -> (res: Option<i64>)
    requires
        rir.wf(),
        index < rir.instructions@.len(),
    ensures
        res == literal_index(rir, index),
{
    let inst = rir.get(index);
    match inst.data {
        InstData::IntConst(value) => {
            if value <= 0x7fff_ffff_ffff_ffffu64 {
                Some(value as i64)
            } else {
                None
            }
        },
        InstData::Neg { operand } => {
            assert(crate::rir::operands(inst.data)[0] == operand);
            let inner = rir.get(operand);
            match inner.data {
                InstData::IntConst(value) => {
                    if value == 0x8000_0000_0000_0000u64 {
                        Some(i64::MIN)
                    } else if value < 0x8000_0000_0000_0000u64 {
                        let v = value as i64;
                        Some(-v)
                    } else {
                        None
                    }
                },
                _ => None,
            }
        },
        _ => None,
    }
}

} // verus!

verus! {

/// An integer or boolean value of the RIR-only evaluation: the value is a
/// plain scalar, not a type or unit.
pub open spec fn is_scalar(v: Option<ConstValue>) -> bool {
    v matches Some(ConstValue::Integer(_)) || v matches Some(ConstValue::Bool(_))
}

/// Knowing what names mean only adds to what can be evaluated: wherever
/// evaluation without the name tables finds an integer or a boolean,
/// evaluation with them finds the same value.
pub proof fn law_name_tables_extend_evaluation(rir: &Rir, r: InstRef, env: TypeEnv)
    requires
        rir.wf(),
        r < rir.instructions@.len(),
    ensures
        is_scalar(const_value(rir, r)) ==> const_value_in(rir, r, Some(env)) == const_value(rir, r),
    decreases r,
{
    let d = rir.instructions@[r as int].data;
    let ops = crate::rir::operands(d);
    assert forall|j: int| 0 <= j < ops.len() implies #[trigger] ops[j] < r by {}
    if ops.len() >= 1 {
        law_name_tables_extend_evaluation(rir, ops[0], env);
    }
    if ops.len() >= 2 {
        law_name_tables_extend_evaluation(rir, ops[1], env);
    }
}

} // verus!

