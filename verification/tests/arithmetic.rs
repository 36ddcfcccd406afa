use onilang::value::{arith_eval, Opcode, Value};

/// Same-type unsigned arithmetic gives the natural unsigned result.
#[test]
fn uint_plus_uint() {
    assert_eq!(arith_eval(Opcode::Add, Value::Uint(2), Value::Uint(3)), Some(Value::Uint(5)));
    assert_eq!(arith_eval(Opcode::Mul, Value::Uint(6), Value::Uint(7)), Some(Value::Uint(42)));
    assert_eq!(arith_eval(Opcode::Sub, Value::Uint(5), Value::Uint(3)), Some(Value::Uint(2)));
    assert_eq!(arith_eval(Opcode::Div, Value::Uint(7), Value::Uint(2)), Some(Value::Uint(3)));
}

/// A pair with a float is promoted to float: `Uint(2) + Float(3.0)` is
/// `Float(5.0)`, bit for bit.
#[test]
fn uint_plus_float_promotes() {
    let r = arith_eval(Opcode::Add, Value::Uint(2), Value::Float(3.0f64.to_bits()));
    assert_eq!(r, Some(Value::Float(5.0f64.to_bits())));
    let r = arith_eval(Opcode::Add, Value::Float(3.0f64.to_bits()), Value::Uint(2));
    assert_eq!(r, Some(Value::Float(5.0f64.to_bits())));
}

/// Signed values promote to float as well, and the other float operations
/// match the hardware's IEEE results.
#[test]
fn float_operations_match_ieee() {
    let f = |x: f64| Value::Float(x.to_bits());
    assert_eq!(arith_eval(Opcode::Add, f(0.1), f(0.2)), Some(f(0.1 + 0.2)));
    assert_eq!(arith_eval(Opcode::Sub, f(1.5), f(0.25)), Some(f(1.25)));
    assert_eq!(arith_eval(Opcode::Mul, f(1.5), f(2.0)), Some(f(3.0)));
    assert_eq!(arith_eval(Opcode::Div, f(1.0), f(4.0)), Some(f(0.25)));
    assert_eq!(arith_eval(Opcode::Add, Value::Int(-2), f(0.5)), Some(f(-1.5)));
    assert_eq!(arith_eval(Opcode::Mul, f(0.5), Value::Int(-4)), Some(f(-2.0)));
}

/// Division by an integer zero or by a float zero of either sign fails.
#[test]
fn division_by_zero_fails() {
    assert_eq!(arith_eval(Opcode::Div, Value::Uint(1), Value::Uint(0)), None);
    assert_eq!(arith_eval(Opcode::Div, Value::Int(1), Value::Int(0)), None);
    let z = Value::Float(0.0f64.to_bits());
    let nz = Value::Float((-0.0f64).to_bits());
    assert_eq!(arith_eval(Opcode::Div, Value::Float(1.0f64.to_bits()), z), None);
    assert_eq!(arith_eval(Opcode::Div, Value::Float(1.0f64.to_bits()), nz), None);
    assert_eq!(arith_eval(Opcode::Div, Value::Uint(1), z), None);
}

/// A mixed signed/unsigned pair promotes to signed, with the out-of-range
/// unsigned operand rejected.
#[test]
fn mixed_signs_promote_to_signed() {
    assert_eq!(arith_eval(Opcode::Add, Value::Int(-1), Value::Uint(3)), Some(Value::Int(2)));
    assert_eq!(arith_eval(Opcode::Add, Value::Uint(3), Value::Int(-1)), Some(Value::Int(2)));
    let big = i64::MAX as u64 + 1;
    assert_eq!(arith_eval(Opcode::Add, Value::Uint(big), Value::Int(0)), None);
    assert_eq!(arith_eval(Opcode::Add, Value::Int(0), Value::Uint(big)), None);
}

/// Overflow and underflow are failures, not wraparound.
#[test]
fn overflow_fails() {
    assert_eq!(arith_eval(Opcode::Add, Value::Uint(u64::MAX), Value::Uint(1)), None);
    assert_eq!(arith_eval(Opcode::Sub, Value::Uint(2), Value::Uint(3)), None);
    assert_eq!(arith_eval(Opcode::Mul, Value::Int(i64::MAX), Value::Int(2)), None);
    assert_eq!(arith_eval(Opcode::Add, Value::Int(i64::MAX), Value::Int(1)), None);
    assert_eq!(arith_eval(Opcode::Div, Value::Int(i64::MIN), Value::Int(-1)), None);
}

/// Signed division truncates toward zero.
#[test]
fn signed_division_truncates() {
    assert_eq!(arith_eval(Opcode::Div, Value::Int(-7), Value::Int(2)), Some(Value::Int(-3)));
    assert_eq!(arith_eval(Opcode::Div, Value::Int(7), Value::Int(-2)), Some(Value::Int(-3)));
    assert_eq!(arith_eval(Opcode::Div, Value::Int(-7), Value::Int(-2)), Some(Value::Int(3)));
}

/// A pairing the promotion rules do not cover fails.
#[test]
fn non_numeric_operands_fail() {
    assert_eq!(arith_eval(Opcode::Add, Value::Str(0), Value::Uint(1)), None);
    assert_eq!(arith_eval(Opcode::Add, Value::Undefined, Value::Uint(1)), None);
    assert_eq!(arith_eval(Opcode::Mul, Value::Object(0), Value::Object(0)), None);
}

/// Only the four arithmetic opcodes compute anything here.
#[test]
fn non_arithmetic_opcode_fails() {
    assert_eq!(arith_eval(Opcode::CallValue, Value::Uint(1), Value::Uint(1)), None);
}
