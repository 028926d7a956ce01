//! The typed dispatch table of the binary operators: operator times
//! left-operand type times right-operand type. Combinations absent from
//! the table are fatal type errors naming both operand types. Work on
//! Float operands (and the Integer division, which always promotes to
//! Float) is handed to the host.

use vstd::prelude::*;
use crate::value::{BasicOperator, Value, ValueV, ValueKind, vv, kind_of, kind};
use crate::machine::{EvalError, ErrV, errv, Request, RequestV, reqv};

verus! {

/// What one operator application produces: a value, a fatal error, or a
/// request for the host.
pub enum OpOut {
    Val(Value),
    Fatal(EvalError),
    Host(Request),
}

/// The ghost mirror of an operator application's product.
pub enum OpOutV {
    Val(ValueV),
    Fatal(ErrV),
    Host(RequestV),
}

/// The mirror of an operator application's product.
pub open spec fn opoutv(o: OpOut) -> OpOutV {
    match o {
        OpOut::Val(v) => OpOutV::Val(vv(v)),
        OpOut::Fatal(e) => OpOutV::Fatal(errv(e)),
        OpOut::Host(r) => OpOutV::Host(reqv(r)),
    }
}

/// An integer result when it fits the 64-bit signed range, else overflow.
pub open spec fn m_int_result(v: int) -> OpOutV {
    if i64::MIN <= v <= i64::MAX {
        OpOutV::Val(ValueV::Integer(v as i64))
    } else {
        OpOutV::Fatal(ErrV::Overflow)
    }
}

/// Integer exponentiation, one checked multiplication at a time: the
/// partial products stay in range, or the whole power overflows.
pub open spec fn m_ipow(base: i64, e: nat) -> Option<i64>
    decreases e,
{
    if e == 0 {
        Some(1i64)
    } else {
        match m_ipow(base, (e - 1) as nat) {
            Option::None => Option::None,
            Option::Some(a) => {
                if i64::MIN <= a * base <= i64::MAX {
                    Some((a * base) as i64)
                } else {
                    Option::None
                }
            },
        }
    }
}

/// The Integer/Integer column of the dispatch table: arithmetic stays
/// Integer except Divide, which always promotes to Float and is handed to
/// the host once the zero divisor has been ruled out; comparisons yield
/// Bool; overflow, a zero divisor and a negative exponent are fatal.
pub open spec fn m_int_binop(op: BasicOperator, a: i64, b: i64) -> OpOutV {
    match op {
        BasicOperator::Add => m_int_result(a + b),
        BasicOperator::Sub => m_int_result(a - b),
        BasicOperator::Multiply => m_int_result(a * b),
        BasicOperator::Divide => {
            if b == 0 {
                OpOutV::Fatal(ErrV::DivisionByZero)
            } else {
                OpOutV::Host(RequestV::BinOp(BasicOperator::Divide, ValueV::Integer(a), ValueV::Integer(b)))
            }
        },
        BasicOperator::Modulo => {
            if b == 0 {
                OpOutV::Fatal(ErrV::ModuloByZero)
            } else {
                match i64::checked_rem(a, b) {
                    Option::Some(v) => OpOutV::Val(ValueV::Integer(v)),
                    Option::None => OpOutV::Fatal(ErrV::Overflow),
                }
            }
        },
        BasicOperator::Power => {
            if b < 0 {
                OpOutV::Fatal(ErrV::NegativeExponent)
            } else {
                match m_ipow(a, b as nat) {
                    Option::Some(v) => OpOutV::Val(ValueV::Integer(v)),
                    Option::None => OpOutV::Fatal(ErrV::Overflow),
                }
            }
        },
        BasicOperator::Equal => OpOutV::Val(ValueV::Bool(a == b)),
        BasicOperator::NotEqual => OpOutV::Val(ValueV::Bool(a != b)),
        BasicOperator::Inferior => OpOutV::Val(ValueV::Bool(a < b)),
        BasicOperator::InferiorEqual => OpOutV::Val(ValueV::Bool(a <= b)),
        BasicOperator::Superior => OpOutV::Val(ValueV::Bool(a > b)),
        BasicOperator::SuperiorEqual => OpOutV::Val(ValueV::Bool(a >= b)),
        _ => OpOutV::Fatal(ErrV::OpTypes(op, ValueKind::Integer, ValueKind::Integer)),
    }
}

/// The Float columns of the dispatch table: mixed or pure Float
/// arithmetic promotes to Float and is handed to the host; comparisons
/// are defined for Float/Float only, also by the host.
pub open spec fn m_float_binop(op: BasicOperator, l: ValueV, r: ValueV) -> OpOutV {
    match op {
        BasicOperator::Add
        | BasicOperator::Sub
        | BasicOperator::Divide
        | BasicOperator::Multiply
        | BasicOperator::Power
        | BasicOperator::Modulo => OpOutV::Host(RequestV::BinOp(op, l, r)),
        BasicOperator::Equal
        | BasicOperator::NotEqual
        | BasicOperator::Inferior
        | BasicOperator::InferiorEqual
        | BasicOperator::Superior
        | BasicOperator::SuperiorEqual => {
            if l is Float && r is Float {
                OpOutV::Host(RequestV::BinOp(op, l, r))
            } else {
                OpOutV::Fatal(ErrV::OpTypes(op, kind_of(l), kind_of(r)))
            }
        },
        _ => OpOutV::Fatal(ErrV::OpTypes(op, kind_of(l), kind_of(r))),
    }
}

/// The whole typed dispatch table: String+String under Add concatenates;
/// Integer and Float columns as above; Null against Null compares by
/// identity under Equal and NotEqual; every other combination is a fatal
/// type error naming both operand types.
pub open spec fn m_binop(op: BasicOperator, l: ValueV, r: ValueV) -> OpOutV {
    match (l, r) {
        (ValueV::Str(a), ValueV::Str(b)) => {
            if op == BasicOperator::Add {
                OpOutV::Val(ValueV::Str(a + b))
            } else {
                OpOutV::Fatal(ErrV::OpTypes(op, ValueKind::Str, ValueKind::Str))
            }
        },
        (ValueV::Integer(a), ValueV::Integer(b)) => m_int_binop(op, a, b),
        (ValueV::Integer(_), ValueV::Float(_)) => m_float_binop(op, l, r),
        (ValueV::Float(_), ValueV::Integer(_)) => m_float_binop(op, l, r),
        (ValueV::Float(_), ValueV::Float(_)) => m_float_binop(op, l, r),
        (ValueV::Null, ValueV::Null) => {
            match op {
                BasicOperator::Equal => OpOutV::Val(ValueV::Bool(true)),
                BasicOperator::NotEqual => OpOutV::Val(ValueV::Bool(false)),
                _ => OpOutV::Fatal(ErrV::OpTypes(op, ValueKind::Null, ValueKind::Null)),
            }
        },
        _ => OpOutV::Fatal(ErrV::OpTypes(op, kind_of(l), kind_of(r))),
    }
}

/// Integer exponentiation by repeated checked multiplication.
fn ipow(base: i64, e: u64) -> (r: Option<i64>)
    ensures
        r == m_ipow(base, e as nat),
    decreases e,
{
    if e == 0 {
        Some(1i64)
    } else {
        match ipow(base, e - 1) {
            Option::None => Option::None,
            Option::Some(a) => a.checked_mul(base),
        }
    }
}

/// One application of the Integer/Integer dispatch column.
fn apply_int(op: BasicOperator, a: i64, b: i64) -> (o: OpOut)
    ensures
        opoutv(o) == m_int_binop(op, a, b),
{
    match op {
        BasicOperator::Add => {
            match a.checked_add(b) {
                Option::Some(v) => OpOut::Val(Value::Integer(v)),
                Option::None => OpOut::Fatal(EvalError::Overflow),
            }
        },
        BasicOperator::Sub => {
            match a.checked_sub(b) {
                Option::Some(v) => OpOut::Val(Value::Integer(v)),
                Option::None => OpOut::Fatal(EvalError::Overflow),
            }
        },
        BasicOperator::Multiply => {
            match a.checked_mul(b) {
                Option::Some(v) => OpOut::Val(Value::Integer(v)),
                Option::None => OpOut::Fatal(EvalError::Overflow),
            }
        },
        BasicOperator::Divide => {
            if b == 0 {
                OpOut::Fatal(EvalError::DivisionByZero)
            } else {
                OpOut::Host(Request::BinOp(BasicOperator::Divide, Value::Integer(a), Value::Integer(b)))
            }
        },
        BasicOperator::Modulo => {
            if b == 0 {
                OpOut::Fatal(EvalError::ModuloByZero)
            } else {
                match a.checked_rem(b) {
                    Option::Some(v) => OpOut::Val(Value::Integer(v)),
                    Option::None => OpOut::Fatal(EvalError::Overflow),
                }
            }
        },
        BasicOperator::Power => {
            if b < 0 {
                OpOut::Fatal(EvalError::NegativeExponent)
            } else {
                match ipow(a, b as u64) {
                    Option::Some(v) => OpOut::Val(Value::Integer(v)),
                    Option::None => OpOut::Fatal(EvalError::Overflow),
                }
            }
        },
        BasicOperator::Equal => OpOut::Val(Value::Bool(a == b)),
        BasicOperator::NotEqual => OpOut::Val(Value::Bool(a != b)),
        BasicOperator::Inferior => OpOut::Val(Value::Bool(a < b)),
        BasicOperator::InferiorEqual => OpOut::Val(Value::Bool(a <= b)),
        BasicOperator::Superior => OpOut::Val(Value::Bool(a > b)),
        BasicOperator::SuperiorEqual => OpOut::Val(Value::Bool(a >= b)),
        _ => OpOut::Fatal(EvalError::OpTypes(op, ValueKind::Integer, ValueKind::Integer)),
    }
}

/// One application of a Float column: the operation goes to the host.
fn apply_float(op: BasicOperator, l: Value, r: Value) -> (o: OpOut)
    requires
        vv(l) is Float && (vv(r) is Float || vv(r) is Integer)
            || vv(l) is Integer && vv(r) is Float,
    ensures
        opoutv(o) == m_float_binop(op, vv(l), vv(r)),
{
    let both = match (&l, &r) {
        (Value::Float(_), Value::Float(_)) => true,
        _ => false,
    };
    match op {
        BasicOperator::Add
        | BasicOperator::Sub
        | BasicOperator::Divide
        | BasicOperator::Multiply
        | BasicOperator::Power
        | BasicOperator::Modulo => OpOut::Host(Request::BinOp(op, l, r)),
        BasicOperator::Equal
        | BasicOperator::NotEqual
        | BasicOperator::Inferior
        | BasicOperator::InferiorEqual
        | BasicOperator::Superior
        | BasicOperator::SuperiorEqual => {
            if both {
                OpOut::Host(Request::BinOp(op, l, r))
            } else {
                let lk = kind(&l);
                let rk = kind(&r);
                OpOut::Fatal(EvalError::OpTypes(op, lk, rk))
            }
        },
        _ => {
            let lk = kind(&l);
            let rk = kind(&r);
            OpOut::Fatal(EvalError::OpTypes(op, lk, rk))
        },
    }
}

/// One application of the whole dispatch table to the current output
/// (left) and the newly reduced element (right).
pub fn apply_binary(op: BasicOperator, l: Value, r: Value) -> (o: OpOut)
    ensures
        opoutv(o) == m_binop(op, vv(l), vv(r)),
{
    match (l, r) {
        (Value::Str(a), Value::Str(b)) => {
            if op == BasicOperator::Add {
                OpOut::Val(Value::Str(a.concat(b.as_str())))
            } else {
                OpOut::Fatal(EvalError::OpTypes(op, ValueKind::Str, ValueKind::Str))
            }
        },
        (Value::Integer(a), Value::Integer(b)) => apply_int(op, a, b),
        (Value::Null, Value::Null) => {
            match op {
                BasicOperator::Equal => OpOut::Val(Value::Bool(true)),
                BasicOperator::NotEqual => OpOut::Val(Value::Bool(false)),
                _ => OpOut::Fatal(EvalError::OpTypes(op, ValueKind::Null, ValueKind::Null)),
            }
        },
        (l2, r2) => {
            let lk = kind(&l2);
            let rk = kind(&r2);
            let floatish = lk == ValueKind::Float && (rk == ValueKind::Float || rk == ValueKind::Integer)
                || lk == ValueKind::Integer && rk == ValueKind::Float;
            if floatish {
                apply_float(op, l2, r2)
            } else {
                OpOut::Fatal(EvalError::OpTypes(op, lk, rk))
            }
        },
    }
}

} // verus!
