//! Deep equality of fully evaluated values: same variant, same payload,
//! arrays elementwise. Deferred forms compare unequal; the engine only
//! ever compares evaluated values.

use vstd::prelude::*;
use crate::value::{Value, ValueV, vv, vseq, group_value_axioms};

verus! {

broadcast use group_value_axioms;

/// Deep equality of two mirror values.
pub open spec fn eqv(a: ValueV, b: ValueV) -> bool
    decreases a,
{
    match (a, b) {
        (ValueV::Null, ValueV::Null) => true,
        (ValueV::Integer(x), ValueV::Integer(y)) => x == y,
        (ValueV::Float(x), ValueV::Float(y)) => x == y,
        (ValueV::Str(x), ValueV::Str(y)) => x == y,
        (ValueV::Bool(x), ValueV::Bool(y)) => x == y,
        (ValueV::File(x), ValueV::File(y)) => x == y,
        (ValueV::Array(x, p1, s1), ValueV::Array(y, p2, s2)) => {
            p1 == p2 && s1 == s2 && x.len() == y.len()
                && forall|i: int| 0 <= i < x.len() ==> eqv(#[trigger] x[i], y[i])
        },
        _ => false,
    }
}

/// Deep equality of two values.
#[verifier::rlimit(50)]
#[verifier::loop_isolation(false)]
pub fn value_eq(a: &Value, b: &Value) -> (r: bool)
    ensures
        r == eqv(vv(*a), vv(*b)),
    decreases *a,
{
    match (a, b) {
        (Value::Null, Value::Null) => true,
        (Value::Integer(x), Value::Integer(y)) => *x == *y,
        (Value::Float(x), Value::Float(y)) => *x == *y,
        (Value::Str(x), Value::Str(y)) => *x == *y,
        (Value::Bool(x), Value::Bool(y)) => *x == *y,
        (Value::File(x), Value::File(y)) => *x == *y,
        (Value::Array(x, p1, s1), Value::Array(y, p2, s2)) => {
            if *p1 != *p2 || *s1 != *s2 || x.len() != y.len() {
                false
            } else {
                let mut i: usize = 0;
                while i < x.len()
                    invariant
                        i <= x@.len(),
                        x@.len() == y@.len(),
                        forall|j: int| 0 <= j < i ==> eqv(#[trigger] vseq(x@)[j], vseq(y@)[j]),
                    decreases x@.len() - i,
                {
                    if !value_eq(&x[i], &y[i]) {
                        proof {
                            assert(!eqv(vseq(x@)[i as int], vseq(y@)[i as int]));
                        }
                        return false;
                    }
                    i = i + 1;
                }
                proof {
                    assert(vv(*a) == ValueV::Array(vseq(x@), *p1, *s1));
                    assert(vv(*b) == ValueV::Array(vseq(y@), *p2, *s2));
                    assert(forall|j: int| 0 <= j < vseq(x@).len()
                        ==> eqv(#[trigger] vseq(x@)[j], vseq(y@)[j]));
                    assert(eqv(vv(*a), vv(*b)));
                }
                true
            }
        },
        _ => false,
    }
}

} // verus!
