//! Deep copies of values. Values are owned by value and never aliased:
//! seeding a child scope or binding a parameter copies the value, and the
//! copy mirrors the original exactly.

use vstd::prelude::*;
use crate::value::{Value, vv, vseq, velse, group_value_axioms};

verus! {

broadcast use group_value_axioms;

/// A deep copy of a value, equal to the original in the mirror.
pub fn clone_value(v: &Value) -> (res: Value)
    ensures
        vv(res) == vv(*v),
    decreases *v,
{
    match v {
        Value::Null => Value::Null,
        Value::Integer(n) => Value::Integer(*n),
        Value::Float(b) => Value::Float(*b),
        Value::Str(s) => Value::Str(s.clone()),
        Value::Bool(b) => Value::Bool(*b),
        Value::Array(elems, p, s) => Value::Array(clone_values(elems), *p, *s),
        Value::Or(ts) => Value::Or(clone_values(ts)),
        Value::And(ts) => Value::And(clone_values(ts)),
        Value::Property(n, args) => Value::Property(n.clone(), clone_values(args)),
        Value::PropertyFunction(f, fa, p, pa) => Value::PropertyFunction(
            f.clone(),
            clone_values(fa),
            p.clone(),
            clone_values(pa),
        ),
        Value::VariableIdentifier(n) => Value::VariableIdentifier(n.clone()),
        Value::FunctionCall(n, args) => Value::FunctionCall(n.clone(), clone_values(args)),
        Value::NamespaceFunctionCall(ns, n, args) => Value::NamespaceFunctionCall(
            clone_strings(ns),
            n.clone(),
            clone_values(args),
        ),
        Value::FunctionReturn(ts) => Value::FunctionReturn(clone_values(ts)),
        Value::Priority(ts) => Value::Priority(clone_values(ts)),
        Value::Operation(op) => Value::Operation(*op),
        Value::VariableDeclaration(n, e, r) => Value::VariableDeclaration(
            n.clone(),
            clone_values(e),
            *r,
        ),
        Value::Condition(g, t, e) => Value::Condition(
            clone_values(g),
            clone_values(t),
            clone_branches(e),
        ),
        Value::While(g, b) => Value::While(clone_values(g), clone_values(b)),
        Value::Loop(n, it, b) => Value::Loop(n.clone(), clone_values(it), clone_values(b)),
        Value::Wrap(ts) => Value::Wrap(clone_values(ts)),
        Value::Separator => Value::Separator,
        Value::Break => Value::Break,
        Value::File(p) => Value::File(p.clone()),
    }
}

/// Deep copies of a token sequence, equal to the original in the mirror.
pub fn clone_values(vs: &Vec<Value>) -> (res: Vec<Value>)
    ensures
        vseq(res@) == vseq(vs@),
    decreases *vs,
{
    let mut out: Vec<Value> = Vec::new();
    let mut i: usize = 0;
    while i < vs.len()
        invariant
            i <= vs.len(),
            out@.len() == i,
            forall|j: int| 0 <= j < i ==> vv(out@[j]) == vv(vs@[j]),
        decreases vs.len() - i,
    {
        out.push(clone_value(&vs[i]));
        i = i + 1;
    }
    proof {
        assert(vseq(out@) =~= vseq(vs@));
    }
    out
}

/// Deep copies of the (guard, branch) pairs of a condition.
pub fn clone_branches(bs: &Vec<(Vec<Value>, Vec<Value>)>) -> (res: Vec<(Vec<Value>, Vec<Value>)>)
    ensures
        velse(res@) == velse(bs@),
    decreases *bs,
{
    let mut out: Vec<(Vec<Value>, Vec<Value>)> = Vec::new();
    let mut i: usize = 0;
    while i < bs.len()
        invariant
            i <= bs.len(),
            out@.len() == i,
            forall|j: int| 0 <= j < i ==> (vseq(#[trigger] out@[j].0@), vseq(out@[j].1@))
                == (vseq(bs@[j].0@), vseq(bs@[j].1@)),
        decreases bs.len() - i,
    {
        let pair = (clone_values(&bs[i].0), clone_values(&bs[i].1));
        out.push(pair);
        i = i + 1;
    }
    proof {
        assert(velse(out@) =~= velse(bs@));
    }
    out
}

/// Copies of a sequence of strings, equal to the originals in the view.
pub fn clone_strings(ss: &Vec<String>) -> (res: Vec<String>)
    ensures
        crate::value::strseq(res@) == crate::value::strseq(ss@),
{
    let mut out: Vec<String> = Vec::new();
    let mut i: usize = 0;
    while i < ss.len()
        invariant
            i <= ss.len(),
            out@.len() == i,
            forall|j: int| 0 <= j < i ==> out@[j]@ == ss@[j]@,
        decreases ss.len() - i,
    {
        out.push(ss[i].clone());
        i = i + 1;
    }
    proof {
        assert(crate::value::strseq(out@) =~= crate::value::strseq(ss@));
    }
    out
}

} // verus!
