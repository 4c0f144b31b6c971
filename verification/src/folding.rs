//! Laws of constant folding: what the compile-time value of each operator
//! is, in terms of the values of its operands.
use vstd::prelude::*;

use crate::consteval::{abs, const_value_in, in_i64, primitive_type, shift_factor, trunc_div, trunc_rem, TypeEnv};
use crate::types::{name_of_type, Type};
use crate::context::ConstValue;
use crate::rir::{InstData, InstRef, Rir};

verus! {

/// The operands of a binary instruction `r` evaluate to the integers `a` and `b`.
pub open spec fn int_operands(rir: &Rir, env: Option<TypeEnv>, r: InstRef, a: i64, b: i64) -> bool {
    let ops = crate::rir::operands(rir.instructions@[r as int].data);
    &&& ops.len() == 2
    &&& const_value_in(rir, ops[0], env) == Some(ConstValue::Integer(a))
    &&& const_value_in(rir, ops[1], env) == Some(ConstValue::Integer(b))
}

/// The operands of a binary instruction `r` evaluate to the booleans `a` and `b`.
pub open spec fn bool_operands(rir: &Rir, env: Option<TypeEnv>, r: InstRef, a: bool, b: bool) -> bool {
    let ops = crate::rir::operands(rir.instructions@[r as int].data);
    &&& ops.len() == 2
    &&& const_value_in(rir, ops[0], env) == Some(ConstValue::Bool(a))
    &&& const_value_in(rir, ops[1], env) == Some(ConstValue::Bool(b))
}

/// A comparison of two integer constants is the comparison of the
/// integers: `<`, `>`, `<=` and `>=` are strict or not as written, and
/// `==` and `!=` compare the values.
pub proof fn law_const_integer_comparison(rir: &Rir, env: Option<TypeEnv>, r: InstRef, a: i64, b: i64)
    requires
        rir.wf(),
        r < rir.instructions@.len(),
        int_operands(rir, env, r, a, b),
    ensures
        ({
            let v = const_value_in(rir, r, env);
            match rir.instructions@[r as int].data {
                InstData::Lt { .. } => v == Some(ConstValue::Bool(a < b)),
                InstData::Gt { .. } => v == Some(ConstValue::Bool(a > b)),
                InstData::Le { .. } => v == Some(ConstValue::Bool(a <= b)),
                InstData::Ge { .. } => v == Some(ConstValue::Bool(a >= b)),
                InstData::Eq { .. } => v == Some(ConstValue::Bool(a == b)),
                InstData::Ne { .. } => v == Some(ConstValue::Bool(a != b)),
                _ => true,
            }
        }),
{
    let ops = crate::rir::operands(rir.instructions@[r as int].data);
    assert(ops[0] < r && ops[1] < r);
}

/// A value compared with itself: `x < x` and `x > x` are false, `x <= x`,
/// `x >= x` and `x == x` are true.
pub proof fn law_const_compare_with_itself(rir: &Rir, env: Option<TypeEnv>, r: InstRef, a: i64)
    requires
        rir.wf(),
        r < rir.instructions@.len(),
        int_operands(rir, env, r, a, a),
    ensures
        rir.instructions@[r as int].data is Gt ==> const_value_in(rir, r, env) == Some(ConstValue::Bool(false)),
        rir.instructions@[r as int].data is Lt ==> const_value_in(rir, r, env) == Some(ConstValue::Bool(false)),
        rir.instructions@[r as int].data is Le ==> const_value_in(rir, r, env) == Some(ConstValue::Bool(true)),
        rir.instructions@[r as int].data is Ge ==> const_value_in(rir, r, env) == Some(ConstValue::Bool(true)),
        rir.instructions@[r as int].data is Eq ==> const_value_in(rir, r, env) == Some(ConstValue::Bool(true)),
{
    law_const_integer_comparison(rir, env, r, a, a);
}

/// Boolean operators on boolean constants: `&&`, `||`, `==`, `!=`.
pub proof fn law_const_boolean_operators(rir: &Rir, env: Option<TypeEnv>, r: InstRef, a: bool, b: bool)
    requires
        rir.wf(),
        r < rir.instructions@.len(),
        bool_operands(rir, env, r, a, b),
    ensures
        ({
            let v = const_value_in(rir, r, env);
            match rir.instructions@[r as int].data {
                InstData::And { .. } => v == Some(ConstValue::Bool(a && b)),
                InstData::Or { .. } => v == Some(ConstValue::Bool(a || b)),
                InstData::Eq { .. } => v == Some(ConstValue::Bool(a == b)),
                InstData::Ne { .. } => v == Some(ConstValue::Bool(a != b)),
                InstData::Lt { .. } | InstData::Add { .. } | InstData::Mul { .. } => v is None,
                _ => true,
            }
        }),
{
    let ops = crate::rir::operands(rir.instructions@[r as int].data);
    assert(ops[0] < r && ops[1] < r);
}

/// `+`, `-` and `*` of integer constants are the sum, difference and
/// product when it fits in an `i64`, and no constant when it overflows.
pub proof fn law_const_integer_arithmetic(rir: &Rir, env: Option<TypeEnv>, r: InstRef, a: i64, b: i64)
    requires
        rir.wf(),
        r < rir.instructions@.len(),
        int_operands(rir, env, r, a, b),
    ensures
        ({
            let v = const_value_in(rir, r, env);
            let exact = |x: int|
                if i64::MIN <= x <= i64::MAX {
                    v == Some(ConstValue::Integer(x as i64))
                } else {
                    v is None
                };
            match rir.instructions@[r as int].data {
                InstData::Add { .. } => exact(a + b),
                InstData::Sub { .. } => exact(a - b),
                InstData::Mul { .. } => exact(a * b),
                InstData::BitAnd { .. } => v == Some(ConstValue::Integer(a & b)),
                InstData::BitOr { .. } => v == Some(ConstValue::Integer(a | b)),
                InstData::BitXor { .. } => v == Some(ConstValue::Integer(a ^ b)),
                InstData::And { .. } | InstData::Or { .. } => v is None,
                _ => true,
            }
        }),
{
    let ops = crate::rir::operands(rir.instructions@[r as int].data);
    assert(ops[0] < r && ops[1] < r);
}

/// Truncating division: `x == q * d + m` with `|m| < |d|` and `m` zero or of
/// the sign of `x`.
proof fn lemma_trunc_div_rem(x: int, d: int)
    requires
        d != 0,
    ensures
        trunc_div(x, d) * d + trunc_rem(x, d) == x,
        abs(trunc_rem(x, d)) < abs(d),
        trunc_rem(x, d) == 0 || (trunc_rem(x, d) < 0) == (x < 0),
        abs(trunc_div(x, d)) <= abs(x),
{
    let ax = abs(x);
    let ad = abs(d);
    let q = ax / ad;
    let m = ax % ad;
    vstd::arithmetic::div_mod::lemma_fundamental_div_mod(ax, ad);
    vstd::arithmetic::div_mod::lemma_mod_bound(ax, ad);
    assert(q <= ax) by {
        vstd::arithmetic::div_mod::lemma_div_is_ordered_by_denominator(ax, 1, ad);
    }
    assert(q >= 0) by {
        vstd::arithmetic::div_mod::lemma_div_pos_is_pos(ax, ad);
    }
    if d > 0 {
        assert(ad == d);
    } else {
        assert(ad == -d);
        assert(q * d == -(q * ad)) by (nonlinear_arith)
            requires
                ad == -d,
        ;
        assert((-q) * d == q * ad) by (nonlinear_arith)
            requires
                ad == -d,
        ;
    }
    if x >= 0 {
        assert(ax == x);
    } else {
        assert(ax == -x);
        assert((-q) * d == -(q * d)) by (nonlinear_arith);
    }
}

/// Division of integer constants truncates toward zero: the quotient `q`
/// of `a / b` leaves a remainder `a - q * b` smaller than `b` in size and
/// zero or of the sign of `a`. Division by zero has no value; otherwise
/// the quotient exists but for `i64::MIN / -1`, which overflows.
pub proof fn law_const_division(rir: &Rir, env: Option<TypeEnv>, r: InstRef, a: i64, b: i64)
    requires
        rir.wf(),
        r < rir.instructions@.len(),
        rir.instructions@[r as int].data is Div,
        int_operands(rir, env, r, a, b),
    ensures
        b == 0 ==> const_value_in(rir, r, env) is None,
        b != 0 && !(a == i64::MIN && b == -1) ==> const_value_in(rir, r, env) is Some,
        const_value_in(rir, r, env) matches Some(ConstValue::Integer(q)) ==> {
            let m = a - q * b;
            &&& -(b as int) < m < b || b < m < -(b as int)
            &&& m == 0 || (m < 0) == (a < 0)
        },
        const_value_in(rir, r, env) is Some ==> const_value_in(rir, r, env)->0 is Integer,
{
    let ops = crate::rir::operands(rir.instructions@[r as int].data);
    assert(ops[0] < r && ops[1] < r);
    if b != 0 {
        lemma_trunc_div_rem(a as int, b as int);
        let q = trunc_div(a as int, b as int);
        if !(a == i64::MIN && b == -1) {
            assert(in_i64(q)) by {
                if q == 0x8000_0000_0000_0000 {
                    assert(abs(a as int) == 0x8000_0000_0000_0000);
                    assert(a == i64::MIN);
                    assert(trunc_rem(a as int, b as int) == a - q * b);
                    assert(abs(b as int) == 1) by (nonlinear_arith)
                        requires
                            q == 0x8000_0000_0000_0000,
                            a == -0x8000_0000_0000_0000int,
                            abs(a - q * b) < abs(b as int),
                            abs(b as int) >= 1,
                            abs(b as int) == if b < 0 { -b } else { b as int },
                            abs(a - q * b) == if a - q * b < 0 { -(a - q * b) } else { a - q * b },
                    ;
                }
            }
        }
    }
}

/// The remainder of integer constants has the sign of the dividend: the
/// remainder `m` of `a % b` is smaller than `b` in size, zero or of the sign
/// of `a`, and `a - m` is a multiple of `b`. There is none for `b == 0` or
/// for `i64::MIN % -1`.
pub proof fn law_const_remainder(rir: &Rir, env: Option<TypeEnv>, r: InstRef, a: i64, b: i64)
    requires
        rir.wf(),
        r < rir.instructions@.len(),
        rir.instructions@[r as int].data is Mod,
        int_operands(rir, env, r, a, b),
    ensures
        b == 0 || (a == i64::MIN && b == -1) ==> const_value_in(rir, r, env) is None,
        b != 0 && !(a == i64::MIN && b == -1) ==> (const_value_in(rir, r, env) matches Some(ConstValue::Integer(m))
            && (-(b as int) < m < b || b < m < -(b as int)) && (m == 0 || (m < 0) == (a < 0)) && exists|q: int|
            a - m == #[trigger] (q * b)),
{
    let ops = crate::rir::operands(rir.instructions@[r as int].data);
    assert(ops[0] < r && ops[1] < r);
    if b != 0 && !(a == i64::MIN && b == -1) {
        lemma_trunc_div_rem(a as int, b as int);
        let q = trunc_div(a as int, b as int);
        let m = trunc_rem(a as int, b as int);
        assert(in_i64(m));
        assert(a - m == q * b);
    }
}

/// Unary operators on constants: `-a` is the negation when it fits, `!b`
/// the complement of a boolean, `!a` of an integer is `-a - 1` (two's
/// complement), and `comptime { e }` is the value of `e`.
pub proof fn law_const_unary(rir: &Rir, env: Option<TypeEnv>, r: InstRef)
    requires
        rir.wf(),
        r < rir.instructions@.len(),
    ensures
        ({
            let v = const_value_in(rir, r, env);
            match rir.instructions@[r as int].data {
                InstData::Neg { operand } => const_value_in(rir, operand, env) matches Some(ConstValue::Integer(a))
                    ==> if a == i64::MIN {
                    v is None
                } else {
                    v == Some(ConstValue::Integer((-a) as i64))
                },
                InstData::Not { operand } => const_value_in(rir, operand, env) matches Some(ConstValue::Bool(b))
                    ==> v == Some(ConstValue::Bool(!b)),
                InstData::BitNot { operand } => const_value_in(rir, operand, env) matches Some(ConstValue::Integer(a))
                    ==> (v matches Some(ConstValue::Integer(n)) && n == -a - 1),
                InstData::Comptime { expr } => v == const_value_in(rir, expr, env),
                _ => true,
            }
        }),
{
    let ops = crate::rir::operands(rir.instructions@[r as int].data);
    assert(ops.len() > 0 ==> ops[0] < r);
    match rir.instructions@[r as int].data {
        InstData::BitNot { operand } => {
            if let Some(ConstValue::Integer(a)) = const_value_in(rir, operand, env) {
                assert(!a == -a - 1) by (bit_vector);
            }
        },
        _ => {},
    }
}

/// Shifts of integer constants by a small amount `b` (0 to 7): `a << b` is
/// `a` times two to the `b` when that fits, and `a >> b` is `a` divided by
/// two to the `b`, rounding down.
pub proof fn law_const_shifts(rir: &Rir, env: Option<TypeEnv>, r: InstRef, a: i64, b: i64)
    requires
        rir.wf(),
        r < rir.instructions@.len(),
        int_operands(rir, env, r, a, b),
        0 <= b < 8,
    ensures
        ({
            let v = const_value_in(rir, r, env);
            let p = vstd::arithmetic::power2::pow2(b as nat) as int;
            match rir.instructions@[r as int].data {
                InstData::Shl { .. } => if i64::MIN <= a * p <= i64::MAX {
                    v == Some(ConstValue::Integer((a * p) as i64))
                } else {
                    v is None
                },
                InstData::Shr { .. } => (v matches Some(ConstValue::Integer(n)) && n as int == (a as int) / p),
                _ => true,
            }
        }),
{
    let ops = crate::rir::operands(rir.instructions@[r as int].data);
    assert(ops[0] < r && ops[1] < r);
    lemma_shift_factor_pow2(b as nat);
    vstd::arithmetic::power2::lemma2_to64();
    let bb = b as u32;
    assert(bb < 8);
    if b == 0 {
        assert(a >> 0u32 == a) by (bit_vector);
    } else if b == 1 {
        assert(a >> 1u32 == a / 2) by (bit_vector);
    } else if b == 2 {
        assert(a >> 2u32 == a / 4) by (bit_vector);
    } else if b == 3 {
        assert(a >> 3u32 == a / 8) by (bit_vector);
    } else if b == 4 {
        assert(a >> 4u32 == a / 16) by (bit_vector);
    } else if b == 5 {
        assert(a >> 5u32 == a / 32) by (bit_vector);
    } else if b == 6 {
        assert(a >> 6u32 == a / 64) by (bit_vector);
    } else {
        assert(a >> 7u32 == a / 128) by (bit_vector);
    }
}

/// The factor of a left shift is two to the power of the amount.
proof fn lemma_shift_factor_pow2(n: nat)
    requires
        n < 8,
    ensures
        shift_factor(n as int) == vstd::arithmetic::power2::pow2(n) as int,
{
    reveal_with_fuel(shift_factor, 9);
    vstd::arithmetic::power2::lemma2_to64();
}

/// The literal instructions: an integer literal is its value when that
/// fits in an `i64` (a larger one is no constant), a boolean literal is the
/// boolean.
pub proof fn law_const_literals(rir: &Rir, env: Option<TypeEnv>, r: InstRef)
    requires
        rir.wf(),
        r < rir.instructions@.len(),
    ensures
        rir.instructions@[r as int].data matches InstData::IntConst(v) ==> if v <= i64::MAX {
            const_value_in(rir, r, env) == Some(ConstValue::Integer(v as i64))
        } else {
            const_value_in(rir, r, env) is None
        },
        rir.instructions@[r as int].data matches InstData::BoolConst(b) ==> const_value_in(rir, r, env) == Some(
            ConstValue::Bool(b),
        ),
{
}

/// A primitive type is named by its own name: the type the name of `i32`
/// spells is `i32`, and so on for every integer type, `bool`, `()` and `!`.
pub proof fn law_primitive_names_round_trip(t: Type)
    requires
        t.spec_is_integer() || t is Bool || t is Unit || t is Never,
    ensures
        primitive_type(name_of_type(t)) == Some(t),
{
    reveal_strlit("i8");
    reveal_strlit("i16");
    reveal_strlit("i32");
    reveal_strlit("i64");
    reveal_strlit("u8");
    reveal_strlit("u16");
    reveal_strlit("u32");
    reveal_strlit("u64");
    reveal_strlit("bool");
    reveal_strlit("()");
    reveal_strlit("!");
    assert("i8"@.len() == 2);
    assert("i16"@.len() == 3);
    assert("i32"@.len() == 3);
    assert("i64"@.len() == 3);
    assert("u8"@.len() == 2);
    assert("u16"@.len() == 3);
    assert("u32"@.len() == 3);
    assert("u64"@.len() == 3);
    assert("bool"@.len() == 4);
    assert("()"@.len() == 2);
    assert("!"@.len() == 1);
    assert("i8"@[0] != "u8"@[0]);
    assert("i8"@[0] != "()"@[0]);
    assert("i16"@[1] != "i32"@[1]);
    assert("i16"@[1] != "i64"@[1]);
    assert("i16"@[0] != "u16"@[0]);
    assert("i16"@[0] != "u32"@[0]);
    assert("i16"@[0] != "u64"@[0]);
    assert("i32"@[1] != "i64"@[1]);
    assert("i32"@[0] != "u16"@[0]);
    assert("i32"@[0] != "u32"@[0]);
    assert("i32"@[0] != "u64"@[0]);
    assert("i64"@[0] != "u16"@[0]);
    assert("i64"@[0] != "u32"@[0]);
    assert("i64"@[0] != "u64"@[0]);
    assert("u8"@[0] != "()"@[0]);
    assert("u16"@[1] != "u32"@[1]);
    assert("u16"@[1] != "u64"@[1]);
    assert("u32"@[1] != "u64"@[1]);
}

} // verus!
