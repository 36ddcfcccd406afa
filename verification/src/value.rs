//! The runtime value model: the tagged union carried on the operand stack
//! and stored in bindings, the constant-pool entries, and the binding slot.
//!
//! Strings are always interned: a string value is a handle into the
//! session's [`crate::intern::Interner`]. Composite values are shared by
//! reference: an object value is an index into the machine's object heap and
//! a compiled-function value is an index into its function table, so copying
//! a value never copies the payload and mutation of a shared object is
//! visible through every reference to it. Floating-point values carry their
//! IEEE 754 binary64 bit pattern; arithmetic on them is delegated to the
//! operations in [`crate::float`].
use crate::float::{
    float_add, float_add_bits, float_div, float_div_bits, float_is_zero, float_mul,
    float_mul_bits, float_of_int, float_of_int_bits, float_of_uint, float_of_uint_bits,
    float_sub, float_sub_bits, float_zero_test,
};
use vstd::prelude::*;

verus! {

/// An interned-string handle: an index into the interner's string table.
/// Equal handles from one interner stand for equal text.
pub type Handle = u32;

/// A built-in operation of the machine, invocable like any other callable
/// value. The root scope is seeded with one binding per variant.
#[derive(Clone, Copy, PartialEq, Eq, Structural, Debug)]
pub enum NativeId {
    /// `print`: pops one value and appends its rendering to the machine's
    /// output.
    Print,
    /// `object`: allocates a fresh empty object on the heap and pushes a
    /// reference to it.
    ObjectNew,
}

/// A callable value: either a built-in operation or a compiled function,
/// the latter held as an index into the machine's function table so that
/// copying the value shares the compiled instructions.
#[derive(Clone, Copy, PartialEq, Eq, Structural, Debug)]
pub enum RuntimeFunc {
    Native(NativeId),
    Virtual(usize),
}

/// A runtime value.
#[derive(Clone, Copy, PartialEq, Eq, Structural, Debug)]
pub enum Value {
    Int(i64),
    Uint(u64),
    /// IEEE 754 binary64 bits.
    Float(u64),
    /// An interned string.
    Str(Handle),
    Func(RuntimeFunc),
    /// An index into the machine's object heap; the payload is shared, so
    /// field mutation through one reference is seen through all of them.
    Object(usize),
    /// The state of a declared but not yet assigned binding.
    Undefined,
}

/// An immutable literal in the constant pool, appended at compile time and
/// only read during execution.
#[derive(Clone, Copy, PartialEq, Eq, Structural, Debug)]
pub enum ConstValue {
    Int(i64),
    Uint(u64),
    /// IEEE 754 binary64 bits.
    Float(u64),
    /// An interned string literal.
    Str(Handle),
}

/// The runtime value a constant-pool entry denotes.
pub open spec fn value_of_const(c: ConstValue) -> Value {
    match c {
        ConstValue::Int(i) => Value::Int(i),
        ConstValue::Uint(u) => Value::Uint(u),
        ConstValue::Float(f) => Value::Float(f),
        ConstValue::Str(s) => Value::Str(s),
    }
}

impl From<ConstValue> for Value {
    fn from(c: ConstValue) -> (v: Value)
        ensures
            v == value_of_const(c),
    {
        match c {
            ConstValue::Int(i) => Value::Int(i),
            ConstValue::Uint(u) => Value::Uint(u),
            ConstValue::Float(f) => Value::Float(f),
            ConstValue::Str(s) => Value::Str(s),
        }
    }
}

impl vstd::std_specs::convert::FromSpecImpl<ConstValue> for Value {
    open spec fn obeys_from_spec() -> bool {
        true
    }

    open spec fn from_spec(c: ConstValue) -> Value {
        value_of_const(c)
    }
}

/// One instruction: an operation plus its operands (name handles,
/// constant-pool indices, instruction addresses, or none). A function's code
/// is an ordered sequence of these, addressed by the instruction pointer.
#[derive(Clone, Copy, PartialEq, Eq, Structural, Debug)]
pub enum Opcode {
    /// Declare a slot for the name in the current scope; the flag says
    /// whether the binding is mutable.
    Defslot(Handle, bool),
    /// Pop a value and write it into the nearest slot of the name.
    Assign(Handle),
    /// Push the value of the nearest slot of the name.
    Read(Handle),
    /// Pop an object reference and push the value of its named field.
    LoadField(Handle),
    /// Pop a value, then an object reference, and write the value into the
    /// named field; the object is shared, so every holder sees the write.
    StoreField(Handle),
    /// Resolve the name to a callable value and invoke it.
    Call(Handle),
    /// Pop a callable value and invoke it.
    CallValue,
    /// Push the constant-pool entry at the index.
    Const(usize),
    Add,
    Sub,
    Mul,
    Div,
    /// Set the instruction pointer to the address.
    Jump(usize),
    /// Pop a value; if it is an integer zero, set the instruction pointer to
    /// the address, otherwise fall through. Any non-integer value fails.
    JumpIfZero(usize),
}

/// The result of an arithmetic opcode on two popped operands, `a` pushed
/// before `b`. Same-type numeric pairs give the natural result in that type;
/// a mixed signed/unsigned pair is promoted to signed; a pair with a float
/// is promoted to float. `None` is the failure case: a non-arithmetic
/// opcode, a non-numeric operand, an out-of-range result or promotion, or
/// division by zero.
pub open spec fn arith_spec(op: Opcode, a: Value, b: Value) -> Option<Value> {
    match (a, b) {
        (Value::Int(x), Value::Int(y)) => arith_int_spec(op, x, y),
        (Value::Uint(x), Value::Uint(y)) => arith_uint_spec(op, x, y),
        (Value::Int(x), Value::Uint(y)) => if y <= i64::MAX as u64 {
            arith_int_spec(op, x, y as i64)
        } else {
            None
        },
        (Value::Uint(x), Value::Int(y)) => if x <= i64::MAX as u64 {
            arith_int_spec(op, x as i64, y)
        } else {
            None
        },
        (Value::Float(x), Value::Float(y)) => arith_float_spec(op, x, y),
        (Value::Float(x), Value::Uint(y)) => arith_float_spec(op, x, float_of_uint_bits(y)),
        (Value::Float(x), Value::Int(y)) => arith_float_spec(op, x, float_of_int_bits(y)),
        (Value::Uint(x), Value::Float(y)) => arith_float_spec(op, float_of_uint_bits(x), y),
        (Value::Int(x), Value::Float(y)) => arith_float_spec(op, float_of_int_bits(x), y),
        _ => None,
    }
}

/// Signed arithmetic: overflow and division by zero fail. Division
/// truncates toward zero.
pub open spec fn arith_int_spec(op: Opcode, x: i64, y: i64) -> Option<Value> {
    match op {
        Opcode::Add => match x.checked_add(y) {
            Some(r) => Some(Value::Int(r)),
            None => None,
        },
        Opcode::Sub => match x.checked_sub(y) {
            Some(r) => Some(Value::Int(r)),
            None => None,
        },
        Opcode::Mul => match x.checked_mul(y) {
            Some(r) => Some(Value::Int(r)),
            None => None,
        },
        Opcode::Div => match x.checked_div(y) {
            Some(r) => Some(Value::Int(r)),
            None => None,
        },
        _ => None,
    }
}

/// Unsigned arithmetic: overflow, underflow and division by zero fail.
pub open spec fn arith_uint_spec(op: Opcode, x: u64, y: u64) -> Option<Value> {
    match op {
        Opcode::Add => match x.checked_add(y) {
            Some(r) => Some(Value::Uint(r)),
            None => None,
        },
        Opcode::Sub => match x.checked_sub(y) {
            Some(r) => Some(Value::Uint(r)),
            None => None,
        },
        Opcode::Mul => match x.checked_mul(y) {
            Some(r) => Some(Value::Uint(r)),
            None => None,
        },
        Opcode::Div => match x.checked_div(y) {
            Some(r) => Some(Value::Uint(r)),
            None => None,
        },
        _ => None,
    }
}

/// Float arithmetic on binary64 bit patterns: total but for division by an
/// IEEE zero of either sign, which fails rather than producing a sentinel.
pub open spec fn arith_float_spec(op: Opcode, x: u64, y: u64) -> Option<Value> {
    match op {
        Opcode::Add => Some(Value::Float(float_add_bits(x, y))),
        Opcode::Sub => Some(Value::Float(float_sub_bits(x, y))),
        Opcode::Mul => Some(Value::Float(float_mul_bits(x, y))),
        Opcode::Div => if float_is_zero(y) {
            None
        } else {
            Some(Value::Float(float_div_bits(x, y)))
        },
        _ => None,
    }
}

/// Applies an arithmetic opcode to two operands, `a` the earlier-pushed one.
/// `None` reports the failure cases of [`arith_spec`].
pub fn arith_eval(op: Opcode, a: Value, b: Value) -> (r: Option<Value>)
    ensures
        r == arith_spec(op, a, b),
{
    match (a, b) {
        (Value::Int(x), Value::Int(y)) => arith_int_eval(op, x, y),
        (Value::Uint(x), Value::Uint(y)) => arith_uint_eval(op, x, y),
        (Value::Int(x), Value::Uint(y)) => if y <= i64::MAX as u64 {
            arith_int_eval(op, x, y as i64)
        } else {
            None
        },
        (Value::Uint(x), Value::Int(y)) => if x <= i64::MAX as u64 {
            arith_int_eval(op, x as i64, y)
        } else {
            None
        },
        (Value::Float(x), Value::Float(y)) => arith_float_eval(op, x, y),
        (Value::Float(x), Value::Uint(y)) => arith_float_eval(op, x, float_of_uint(y)),
        (Value::Float(x), Value::Int(y)) => arith_float_eval(op, x, float_of_int(y)),
        (Value::Uint(x), Value::Float(y)) => arith_float_eval(op, float_of_uint(x), y),
        (Value::Int(x), Value::Float(y)) => arith_float_eval(op, float_of_int(x), y),
        _ => None,
    }
}

fn arith_int_eval(op: Opcode, x: i64, y: i64) -> (r: Option<Value>)
    ensures
        r == arith_int_spec(op, x, y),
{
    let c: Option<i64> = match op {
        Opcode::Add => x.checked_add(y),
        Opcode::Sub => x.checked_sub(y),
        Opcode::Mul => x.checked_mul(y),
        Opcode::Div => x.checked_div(y),
        _ => { return None; },
    };
    match c {
        Some(r) => Some(Value::Int(r)),
        None => None,
    }
}

fn arith_uint_eval(op: Opcode, x: u64, y: u64) -> (r: Option<Value>)
    ensures
        r == arith_uint_spec(op, x, y),
{
    let c: Option<u64> = match op {
        Opcode::Add => x.checked_add(y),
        Opcode::Sub => x.checked_sub(y),
        Opcode::Mul => x.checked_mul(y),
        Opcode::Div => x.checked_div(y),
        _ => { return None; },
    };
    match c {
        Some(r) => Some(Value::Uint(r)),
        None => None,
    }
}

fn arith_float_eval(op: Opcode, x: u64, y: u64) -> (r: Option<Value>)
    ensures
        r == arith_float_spec(op, x, y),
{
    match op {
        Opcode::Add => Some(Value::Float(float_add(x, y))),
        Opcode::Sub => Some(Value::Float(float_sub(x, y))),
        Opcode::Mul => Some(Value::Float(float_mul(x, y))),
        Opcode::Div => if float_zero_test(y) {
            None
        } else {
            Some(Value::Float(float_div(x, y)))
        },
        _ => None,
    }
}

/// One declared name's storage cell: its value together with the binding
/// discipline flags. A slot is created holding [`Value::Undefined`];
/// `assigned` is set on the first write, and a slot whose binding is not
/// `mutable` refuses a second write.
#[derive(Clone, Copy, PartialEq, Eq, Structural, Debug)]
pub struct Slot {
    pub mutable: bool,
    pub assigned: bool,
    pub value: Value,
}

} // verus!
