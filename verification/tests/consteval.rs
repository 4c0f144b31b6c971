use std::collections::HashMap;

use lasso::{Key, ThreadedRodeo};
use rue_air::diag::PreviewFeatures;
use rue_air::consteval::{try_evaluate_const_in_rir, try_get_const_index_ctx};
use rue_air::context::ConstValue;
use rue_air::rir::{Inst, InstData, Rir};
use rue_air::sema::Sema;
use rue_air::types::{Span, Type};

fn intern(rodeo: &mut ThreadedRodeo, s: &str) -> u32 {
    rodeo.get_or_intern(s).into_usize() as u32
}

fn push(rir: &mut Rir, data: InstData) -> u32 {
    rir.add_inst(Inst { data, span: Span::new(0, 0, 0) }).unwrap()
}

fn eval(rir: &Rir, r: u32) -> Option<ConstValue> {
    try_evaluate_const_in_rir(rir, r)
}

#[test]
fn integer_arithmetic_folds() {
    let mut rir = Rir::new();
    let a = push(&mut rir, InstData::IntConst(6));
    let b = push(&mut rir, InstData::IntConst(7));
    let mul = push(&mut rir, InstData::Mul { lhs: a, rhs: b });
    let sub = push(&mut rir, InstData::Sub { lhs: mul, rhs: a });
    assert_eq!(eval(&rir, mul), Some(ConstValue::Integer(42)));
    assert_eq!(eval(&rir, sub), Some(ConstValue::Integer(36)));
}

#[test]
fn division_truncates_toward_zero() {
    let mut rir = Rir::new();
    let seven = push(&mut rir, InstData::IntConst(7));
    let two = push(&mut rir, InstData::IntConst(2));
    let neg = push(&mut rir, InstData::Neg { operand: seven });
    let div = push(&mut rir, InstData::Div { lhs: neg, rhs: two });
    let rem = push(&mut rir, InstData::Mod { lhs: neg, rhs: two });
    assert_eq!(eval(&rir, div), Some(ConstValue::Integer(-3)));
    assert_eq!(eval(&rir, rem), Some(ConstValue::Integer(-1)));
}

#[test]
fn division_by_zero_is_deferred() {
    let mut rir = Rir::new();
    let a = push(&mut rir, InstData::IntConst(1));
    let z = push(&mut rir, InstData::IntConst(0));
    let div = push(&mut rir, InstData::Div { lhs: a, rhs: z });
    let rem = push(&mut rir, InstData::Mod { lhs: a, rhs: z });
    assert_eq!(eval(&rir, div), None);
    assert_eq!(eval(&rir, rem), None);
}

#[test]
fn overflow_is_deferred() {
    let mut rir = Rir::new();
    let max = push(&mut rir, InstData::IntConst(i64::MAX as u64));
    let one = push(&mut rir, InstData::IntConst(1));
    let add = push(&mut rir, InstData::Add { lhs: max, rhs: one });
    let too_big = push(&mut rir, InstData::IntConst(1u64 << 63));
    assert_eq!(eval(&rir, add), None);
    assert_eq!(eval(&rir, too_big), None);
    assert_eq!(eval(&rir, max), Some(ConstValue::Integer(i64::MAX)));
}

#[test]
fn comparisons_and_logic() {
    let mut rir = Rir::new();
    let a = push(&mut rir, InstData::IntConst(3));
    let b = push(&mut rir, InstData::IntConst(5));
    let lt = push(&mut rir, InstData::Lt { lhs: a, rhs: b });
    let ge = push(&mut rir, InstData::Ge { lhs: a, rhs: b });
    let and = push(&mut rir, InstData::And { lhs: lt, rhs: ge });
    let or = push(&mut rir, InstData::Or { lhs: lt, rhs: ge });
    let not = push(&mut rir, InstData::Not { operand: and });
    let eq_bool = push(&mut rir, InstData::Eq { lhs: lt, rhs: not });
    let mixed = push(&mut rir, InstData::Eq { lhs: a, rhs: lt });
    assert_eq!(eval(&rir, lt), Some(ConstValue::Bool(true)));
    assert_eq!(eval(&rir, ge), Some(ConstValue::Bool(false)));
    assert_eq!(eval(&rir, and), Some(ConstValue::Bool(false)));
    assert_eq!(eval(&rir, or), Some(ConstValue::Bool(true)));
    assert_eq!(eval(&rir, eq_bool), Some(ConstValue::Bool(true)));
    assert_eq!(eval(&rir, mixed), None);
}

#[test]
fn small_shifts_only() {
    let mut rir = Rir::new();
    let one = push(&mut rir, InstData::IntConst(1));
    let seven = push(&mut rir, InstData::IntConst(7));
    let eight = push(&mut rir, InstData::IntConst(8));
    let shl = push(&mut rir, InstData::Shl { lhs: one, rhs: seven });
    let shl_big = push(&mut rir, InstData::Shl { lhs: one, rhs: eight });
    let shr = push(&mut rir, InstData::Shr { lhs: shl, rhs: seven });
    let bits = push(&mut rir, InstData::BitXor { lhs: seven, rhs: eight });
    let inv = push(&mut rir, InstData::BitNot { operand: one });
    assert_eq!(eval(&rir, shl), Some(ConstValue::Integer(128)));
    assert_eq!(eval(&rir, shl_big), None);
    assert_eq!(eval(&rir, shr), Some(ConstValue::Integer(1)));
    assert_eq!(eval(&rir, bits), Some(ConstValue::Integer(15)));
    assert_eq!(eval(&rir, inv), Some(ConstValue::Integer(-2)));
}

#[test]
fn negating_min_overflows() {
    let mut rir = Rir::new();
    let max = push(&mut rir, InstData::IntConst(i64::MAX as u64));
    let neg = push(&mut rir, InstData::Neg { operand: max });
    let one = push(&mut rir, InstData::IntConst(1));
    let min = push(&mut rir, InstData::Sub { lhs: neg, rhs: one });
    let neg_min = push(&mut rir, InstData::Neg { operand: min });
    assert_eq!(eval(&rir, min), Some(ConstValue::Integer(i64::MIN)));
    assert_eq!(eval(&rir, neg_min), None);
}

#[test]
fn comptime_passes_through_and_runtime_values_do_not_fold() {
    let mut rir = Rir::new();
    let mut rodeo = ThreadedRodeo::new();
    let x = intern(&mut rodeo, "x");
    let five = push(&mut rir, InstData::IntConst(5));
    let ct = push(&mut rir, InstData::Comptime { expr: five });
    let var = push(&mut rir, InstData::VarRef { name: x });
    let add = push(&mut rir, InstData::Add { lhs: ct, rhs: var });
    assert_eq!(eval(&rir, ct), Some(ConstValue::Integer(5)));
    assert_eq!(eval(&rir, var), None);
    assert_eq!(eval(&rir, add), None);
}

#[test]
fn type_names_without_tables_are_placeholders() {
    let mut rir = Rir::new();
    let mut rodeo = ThreadedRodeo::new();
    let i32_sym = intern(&mut rodeo, "i32");
    let tc = push(&mut rir, InstData::TypeConst { name: i32_sym });
    assert_eq!(eval(&rir, tc), Some(ConstValue::Type(Type::ComptimeType)));
}

#[test]
fn sema_resolves_type_names() {
    let mut rir = Rir::new();
    let mut rodeo = ThreadedRodeo::new();
    let i32_sym = intern(&mut rodeo, "i32");
    let unit_sym = intern(&mut rodeo, "()");
    let point = intern(&mut rodeo, "Point");
    let color = intern(&mut rodeo, "Color");
    let other = intern(&mut rodeo, "other");
    let t_i32 = push(&mut rir, InstData::TypeConst { name: i32_sym });
    let t_unit = push(&mut rir, InstData::TypeConst { name: unit_sym });
    let t_point = push(&mut rir, InstData::VarRef { name: point });
    let t_color = push(&mut rir, InstData::TypeConst { name: color });
    let t_other = push(&mut rir, InstData::VarRef { name: other });
    let start = rir.add_extra(&[t_point]).unwrap();
    let block = push(&mut rir, InstData::Block { extra_start: start, len: 1 });
    let mut sema = Sema::new(&rir, rodeo, PreviewFeatures::new());
    sema.structs.insert(point, 3);
    sema.enums.insert(color, 1);
    assert_eq!(sema.try_evaluate_const(t_i32), Some(ConstValue::Type(Type::I32)));
    assert_eq!(sema.try_evaluate_const(t_unit), Some(ConstValue::Type(Type::Unit)));
    assert_eq!(sema.try_evaluate_const(t_point), Some(ConstValue::Type(Type::Struct(3))));
    assert_eq!(sema.try_evaluate_const(t_color), Some(ConstValue::Type(Type::Enum(1))));
    assert_eq!(sema.try_evaluate_const(t_other), None);
    assert_eq!(sema.try_evaluate_const(block), Some(ConstValue::Type(Type::Struct(3))));
    // Without the tables a single-expression block is not evaluated.
    assert_eq!(try_evaluate_const_in_rir(&rir, block), None);
}

#[test]
fn substitutions_come_first() {
    let mut rir = Rir::new();
    let mut rodeo = ThreadedRodeo::new();
    let t = intern(&mut rodeo, "T");
    let n = intern(&mut rodeo, "N");
    let i64_sym = intern(&mut rodeo, "i64");
    let var_t = push(&mut rir, InstData::VarRef { name: t });
    let var_n = push(&mut rir, InstData::VarRef { name: n });
    let two = push(&mut rir, InstData::IntConst(2));
    let mul = push(&mut rir, InstData::Mul { lhs: var_n, rhs: two });
    let tc = push(&mut rir, InstData::TypeConst { name: i64_sym });
    let mut sema = Sema::new(&rir, rodeo, PreviewFeatures::new());
    let mut types = HashMap::new();
    types.insert(t, Type::Bool);
    types.insert(i64_sym, Type::U8);
    let mut values = HashMap::new();
    values.insert(n, ConstValue::Integer(21));
    assert_eq!(sema.try_evaluate_const_with_subst(var_t, &types, &values), Some(ConstValue::Type(Type::Bool)));
    assert_eq!(sema.try_evaluate_const_with_subst(mul, &types, &values), Some(ConstValue::Integer(42)));
    assert_eq!(sema.try_evaluate_const_with_subst(tc, &types, &values), Some(ConstValue::Type(Type::U8)));
    assert_eq!(sema.try_evaluate_const(tc), Some(ConstValue::Type(Type::I64)));
    assert_eq!(sema.try_evaluate_const(mul), None);
}

#[test]
fn const_index_from_expressions() {
    let mut rir = Rir::new();
    let rodeo = ThreadedRodeo::new();
    let a = push(&mut rir, InstData::IntConst(4));
    let b = push(&mut rir, InstData::IntConst(3));
    let add = push(&mut rir, InstData::Add { lhs: a, rhs: b });
    let t = push(&mut rir, InstData::BoolConst(true));
    let neg = push(&mut rir, InstData::Neg { operand: b });
    let mut sema = Sema::new(&rir, rodeo, PreviewFeatures::new());
    assert_eq!(sema.try_get_const_index(add), Some(7));
    assert_eq!(sema.try_get_const_index(t), None);
    assert_eq!(try_get_const_index_ctx(&rir, a), Some(4));
    assert_eq!(try_get_const_index_ctx(&rir, neg), Some(-3));
    assert_eq!(try_get_const_index_ctx(&rir, add), None);
}

#[test]
fn left_shift_that_overflows_does_not_fold() {
    let mut rir = Rir::new();
    let big = push(&mut rir, InstData::IntConst(1 << 62));
    let one = push(&mut rir, InstData::IntConst(1));
    let three = push(&mut rir, InstData::IntConst(3));
    let shl = push(&mut rir, InstData::Shl { lhs: big, rhs: one });
    let neg = push(&mut rir, InstData::Neg { operand: big });
    let shl_neg = push(&mut rir, InstData::Shl { lhs: neg, rhs: one });
    let shl_small = push(&mut rir, InstData::Shl { lhs: three, rhs: three });
    assert_eq!(eval(&rir, shl), None);
    assert_eq!(eval(&rir, shl_neg), Some(ConstValue::Integer(i64::MIN)));
    assert_eq!(eval(&rir, shl_small), Some(ConstValue::Integer(24)));
}

#[test]
fn const_index_is_the_written_value_when_it_fits() {
    let mut rir = Rir::new();
    let max = push(&mut rir, InstData::IntConst(u64::MAX));
    let top = push(&mut rir, InstData::IntConst(1 << 63));
    let neg_top = push(&mut rir, InstData::Neg { operand: top });
    let neg_max = push(&mut rir, InstData::Neg { operand: max });
    let fits = push(&mut rir, InstData::IntConst(i64::MAX as u64));
    assert_eq!(try_get_const_index_ctx(&rir, max), None);
    assert_eq!(try_get_const_index_ctx(&rir, top), None);
    assert_eq!(try_get_const_index_ctx(&rir, neg_top), Some(i64::MIN));
    assert_eq!(try_get_const_index_ctx(&rir, neg_max), None);
    assert_eq!(try_get_const_index_ctx(&rir, fits), Some(i64::MAX));
}
