//! The stable binary encoding of function tables, used by the
//! content-addressed cache: one tag byte per variant, little-endian
//! 64-bit lengths and integers, characters as 32-bit scalar values.
//! Decoding is exact: it accepts precisely what encoding produces.

use vstd::prelude::*;
use crate::value::{BasicOperator, Value, ValueV, vv, vseq, velse, strseq, group_value_axioms};
use crate::machine::{Function, FunctionV, fview, fnsv, vlines};
use crate::text::push_char;
use crate::wrappers::char_from_u32;

verus! {

broadcast use group_value_axioms;

/// The little-endian bytes of a 64-bit value.
pub open spec fn enc_u64(n: u64) -> Seq<u8> {
    seq![
        (n & 0xff) as u8,
        ((n >> 8) & 0xff) as u8,
        ((n >> 16) & 0xff) as u8,
        ((n >> 24) & 0xff) as u8,
        ((n >> 32) & 0xff) as u8,
        ((n >> 40) & 0xff) as u8,
        ((n >> 48) & 0xff) as u8,
        ((n >> 56) & 0xff) as u8,
    ]
}

/// The little-endian bytes of a 32-bit value.
pub open spec fn enc_u32(n: u32) -> Seq<u8> {
    seq![
        (n & 0xff) as u8,
        ((n >> 8) & 0xff) as u8,
        ((n >> 16) & 0xff) as u8,
        ((n >> 24) & 0xff) as u8,
    ]
}

/// One byte for a truth value.
pub open spec fn enc_bool(b: bool) -> Seq<u8> {
    seq![if b { 1u8 } else { 0u8 }]
}

/// A character as its 32-bit scalar value.
pub open spec fn enc_char(c: char) -> Seq<u8> {
    enc_u32(c as u32)
}

/// The characters of a string, in order.
pub open spec fn enc_chars(s: Seq<char>) -> Seq<u8>
    decreases s,
{
    if s.len() == 0 {
        Seq::empty()
    } else {
        enc_chars(s.drop_last()) + enc_char(s.last())
    }
}

/// A counted string: its length, then its characters.
pub open spec fn enc_str(s: Seq<char>) -> Seq<u8> {
    enc_u64(s.len() as u64) + enc_chars(s)
}

/// The tag byte of an operator.
pub open spec fn opcode(op: BasicOperator) -> u8 {
    match op {
        BasicOperator::Null => 0u8,
        BasicOperator::Add => 1u8,
        BasicOperator::Sub => 2u8,
        BasicOperator::Divide => 3u8,
        BasicOperator::Multiply => 4u8,
        BasicOperator::Equal => 5u8,
        BasicOperator::NotEqual => 6u8,
        BasicOperator::Power => 7u8,
        BasicOperator::And => 8u8,
        BasicOperator::Modulo => 9u8,
        BasicOperator::Inferior => 10u8,
        BasicOperator::InferiorEqual => 11u8,
        BasicOperator::Or => 12u8,
        BasicOperator::Superior => 13u8,
        BasicOperator::SuperiorEqual => 14u8,
    }
}

/// One encoded value: a tag byte, then the variant's payload.
pub open spec fn enc_value(v: ValueV) -> Seq<u8>
    decreases v, 0int,
{
    match v {
        ValueV::Null => seq![0u8],
        ValueV::Integer(n) => seq![1u8] + enc_u64(n as u64),
        ValueV::Float(b) => seq![2u8] + enc_u64(b),
        ValueV::Str(s) => seq![3u8] + enc_str(s),
        ValueV::Bool(b) => seq![4u8] + enc_bool(b),
        ValueV::Array(el, p, s) => seq![5u8] + enc_bool(p) + enc_bool(s) + enc_values(el),
        ValueV::Or(ts) => seq![6u8] + enc_values(ts),
        ValueV::And(ts) => seq![7u8] + enc_values(ts),
        ValueV::Property(n, args) => seq![8u8] + enc_str(n) + enc_values(args),
        ValueV::PropertyFunction(f, fa, p, pa) => seq![9u8] + enc_str(f) + enc_values(fa) + enc_str(p) + enc_values(pa),
        ValueV::VariableIdentifier(n) => seq![10u8] + enc_str(n),
        ValueV::FunctionCall(n, args) => seq![11u8] + enc_str(n) + enc_values(args),
        ValueV::NamespaceFunctionCall(ns, n, args) => seq![12u8] + enc_strs(ns) + enc_str(n) + enc_values(args),
        ValueV::FunctionReturn(ts) => seq![13u8] + enc_values(ts),
        ValueV::Priority(ts) => seq![14u8] + enc_values(ts),
        ValueV::Operation(op) => seq![15u8, opcode(op)],
        ValueV::VariableDeclaration(n, e, r) => seq![16u8] + enc_str(n) + enc_bool(r) + enc_values(e),
        ValueV::Condition(g, t, e) => seq![17u8] + enc_values(g) + enc_values(t) + enc_branches(e),
        ValueV::While(g, b) => seq![18u8] + enc_values(g) + enc_values(b),
        ValueV::Loop(n, it, b) => seq![19u8] + enc_str(n) + enc_values(it) + enc_values(b),
        ValueV::Wrap(ts) => seq![20u8] + enc_values(ts),
        ValueV::Separator => seq![21u8],
        ValueV::Break => seq![22u8],
        ValueV::File(p) => seq![23u8] + enc_str(p),
    }
}

/// The encoded elements of a value sequence, in order.
pub open spec fn enc_velems(s: Seq<ValueV>) -> Seq<u8>
    decreases s, 0int,
{
    if s.len() == 0 {
        Seq::empty()
    } else {
        enc_velems(s.drop_last()) + enc_value(s.last())
    }
}

/// A counted value sequence.
pub open spec fn enc_values(s: Seq<ValueV>) -> Seq<u8>
    decreases s, 1int,
{
    enc_u64(s.len() as u64) + enc_velems(s)
}

/// The encoded elements of a string sequence, in order.
pub open spec fn enc_strelems(s: Seq<Seq<char>>) -> Seq<u8>
    decreases s,
{
    if s.len() == 0 {
        Seq::empty()
    } else {
        enc_strelems(s.drop_last()) + enc_str(s.last())
    }
}

/// A counted string sequence.
pub open spec fn enc_strs(s: Seq<Seq<char>>) -> Seq<u8> {
    enc_u64(s.len() as u64) + enc_strelems(s)
}

/// The encoded (guard, branch) pairs of a condition, in order.
pub open spec fn enc_brelems(s: Seq<(Seq<ValueV>, Seq<ValueV>)>) -> Seq<u8>
    decreases s, 0int,
{
    if s.len() == 0 {
        Seq::empty()
    } else {
        enc_brelems(s.drop_last()) + enc_values(s.last().0) + enc_values(s.last().1)
    }
}

/// A counted sequence of (guard, branch) pairs.
pub open spec fn enc_branches(s: Seq<(Seq<ValueV>, Seq<ValueV>)>) -> Seq<u8>
    decreases s, 1int,
{
    enc_u64(s.len() as u64) + enc_brelems(s)
}

/// The encoded lines of a function body, in order.
pub open spec fn enc_linelems(s: Seq<Seq<ValueV>>) -> Seq<u8>
    decreases s,
{
    if s.len() == 0 {
        Seq::empty()
    } else {
        enc_linelems(s.drop_last()) + enc_values(s.last())
    }
}

/// A counted sequence of body lines.
pub open spec fn enc_lines(s: Seq<Seq<ValueV>>) -> Seq<u8> {
    enc_u64(s.len() as u64) + enc_linelems(s)
}

/// One encoded function table entry: name, parameter names, body.
pub open spec fn enc_fn(f: FunctionV) -> Seq<u8> {
    enc_str(f.name) + enc_strs(f.params) + enc_lines(f.body)
}

/// The encoded entries of a function table, in order.
pub open spec fn enc_fnelems(s: Seq<FunctionV>) -> Seq<u8>
    decreases s,
{
    if s.len() == 0 {
        Seq::empty()
    } else {
        enc_fnelems(s.drop_last()) + enc_fn(s.last())
    }
}

/// A whole encoded function table.
pub open spec fn enc_table(s: Seq<FunctionV>) -> Seq<u8> {
    enc_u64(s.len() as u64) + enc_fnelems(s)
}

/// Appends the little-endian bytes of a 64-bit value.
fn put_u64(out: &mut Vec<u8>, n: u64)
    ensures
        final(out)@ == old(out)@ + enc_u64(n),
{
    out.push((n & 0xff) as u8);
    out.push(((n >> 8) & 0xff) as u8);
    out.push(((n >> 16) & 0xff) as u8);
    out.push(((n >> 24) & 0xff) as u8);
    out.push(((n >> 32) & 0xff) as u8);
    out.push(((n >> 40) & 0xff) as u8);
    out.push(((n >> 48) & 0xff) as u8);
    out.push(((n >> 56) & 0xff) as u8);
    proof {
        assert(out@ =~= old(out)@ + enc_u64(n));
    }
}

/// Appends the little-endian bytes of a 32-bit value.
fn put_u32(out: &mut Vec<u8>, n: u32)
    ensures
        final(out)@ == old(out)@ + enc_u32(n),
{
    out.push((n & 0xff) as u8);
    out.push(((n >> 8) & 0xff) as u8);
    out.push(((n >> 16) & 0xff) as u8);
    out.push(((n >> 24) & 0xff) as u8);
    proof {
        assert(out@ =~= old(out)@ + enc_u32(n));
    }
}

/// Appends one byte for a truth value.
fn put_bool(out: &mut Vec<u8>, b: bool)
    ensures
        final(out)@ == old(out)@ + enc_bool(b),
{
    out.push(if b { 1u8 } else { 0u8 });
    proof {
        assert(out@ =~= old(out)@ + enc_bool(b));
    }
}

/// Appends a counted string.
#[verifier::loop_isolation(false)]
fn put_str(out: &mut Vec<u8>, s: &String)
    ensures
        final(out)@ == old(out)@ + enc_str(s@),
{
    let st = s.as_str();
    let n = st.unicode_len();
    put_u64(out, n as u64);
    let ghost base = out@;
    let mut i: usize = 0;
    proof {
        assert(enc_chars(s@.take(0)) =~= Seq::<u8>::empty());
        assert(out@ =~= base + enc_chars(s@.take(0)));
    }
    while i < n
        invariant
            i <= n,
            out@ == base + enc_chars(s@.take(i as int)),
        decreases n - i,
    {
        let c = st.get_char(i);
        put_u32(out, c as u32);
        proof {
            assert(s@.take(i as int + 1).drop_last() =~= s@.take(i as int));
            assert(s@.take(i as int + 1).last() == s@[i as int]);
            assert(out@ =~= base + enc_chars(s@.take(i as int + 1)));
        }
        i = i + 1;
    }
    proof {
        assert(s@.take(n as int) =~= s@);
        assert(out@ =~= old(out)@ + enc_str(s@));
    }
}

/// Appends one operator tag byte.
fn put_op(out: &mut Vec<u8>, op: BasicOperator)
    ensures
        final(out)@ == old(out)@ + seq![opcode(op)],
{
    let code: u8 = match op {
        BasicOperator::Null => 0u8,
        BasicOperator::Add => 1u8,
        BasicOperator::Sub => 2u8,
        BasicOperator::Divide => 3u8,
        BasicOperator::Multiply => 4u8,
        BasicOperator::Equal => 5u8,
        BasicOperator::NotEqual => 6u8,
        BasicOperator::Power => 7u8,
        BasicOperator::And => 8u8,
        BasicOperator::Modulo => 9u8,
        BasicOperator::Inferior => 10u8,
        BasicOperator::InferiorEqual => 11u8,
        BasicOperator::Or => 12u8,
        BasicOperator::Superior => 13u8,
        BasicOperator::SuperiorEqual => 14u8,
    };
    out.push(code);
    proof {
        assert(out@ =~= old(out)@ + seq![opcode(op)]);
    }
}

/// Appends one encoded value.
#[verifier::loop_isolation(false)]
#[verifier::rlimit(50)]
pub fn put_value(out: &mut Vec<u8>, v: &Value)
    ensures
        final(out)@ == old(out)@ + enc_value(vv(*v)),
    decreases *v,
{
    match v {
        Value::Null => {
            out.push(0u8);
            proof { assert(out@ =~= old(out)@ + enc_value(vv(*v))); }
        },
        Value::Integer(n) => {
            out.push(1u8);
            put_u64(out, *n as u64);
            proof { assert(out@ =~= old(out)@ + enc_value(vv(*v))); }
        },
        Value::Float(b) => {
            out.push(2u8);
            put_u64(out, *b);
            proof { assert(out@ =~= old(out)@ + enc_value(vv(*v))); }
        },
        Value::Str(s) => {
            out.push(3u8);
            put_str(out, s);
            proof { assert(out@ =~= old(out)@ + enc_value(vv(*v))); }
        },
        Value::Bool(b) => {
            out.push(4u8);
            put_bool(out, *b);
            proof { assert(out@ =~= old(out)@ + enc_value(vv(*v))); }
        },
        Value::Array(el, p, s) => {
            out.push(5u8);
            put_bool(out, *p);
            put_bool(out, *s);
            put_values(out, el);
            proof { assert(out@ =~= old(out)@ + enc_value(vv(*v))); }
        },
        Value::Or(ts) => {
            out.push(6u8);
            put_values(out, ts);
            proof { assert(out@ =~= old(out)@ + enc_value(vv(*v))); }
        },
        Value::And(ts) => {
            out.push(7u8);
            put_values(out, ts);
            proof { assert(out@ =~= old(out)@ + enc_value(vv(*v))); }
        },
        Value::Property(n, args) => {
            out.push(8u8);
            put_str(out, n);
            put_values(out, args);
            proof { assert(out@ =~= old(out)@ + enc_value(vv(*v))); }
        },
        Value::PropertyFunction(f, fa, p, pa) => {
            out.push(9u8);
            put_str(out, f);
            put_values(out, fa);
            put_str(out, p);
            put_values(out, pa);
            proof { assert(out@ =~= old(out)@ + enc_value(vv(*v))); }
        },
        Value::VariableIdentifier(n) => {
            out.push(10u8);
            put_str(out, n);
            proof { assert(out@ =~= old(out)@ + enc_value(vv(*v))); }
        },
        Value::FunctionCall(n, args) => {
            out.push(11u8);
            put_str(out, n);
            put_values(out, args);
            proof { assert(out@ =~= old(out)@ + enc_value(vv(*v))); }
        },
        Value::NamespaceFunctionCall(ns, n, args) => {
            out.push(12u8);
            put_strs(out, ns);
            put_str(out, n);
            put_values(out, args);
            proof { assert(out@ =~= old(out)@ + enc_value(vv(*v))); }
        },
        Value::FunctionReturn(ts) => {
            out.push(13u8);
            put_values(out, ts);
            proof { assert(out@ =~= old(out)@ + enc_value(vv(*v))); }
        },
        Value::Priority(ts) => {
            out.push(14u8);
            put_values(out, ts);
            proof { assert(out@ =~= old(out)@ + enc_value(vv(*v))); }
        },
        Value::Operation(op) => {
            out.push(15u8);
            put_op(out, *op);
            proof { assert(out@ =~= old(out)@ + enc_value(vv(*v))); }
        },
        Value::VariableDeclaration(n, e, r) => {
            out.push(16u8);
            put_str(out, n);
            put_bool(out, *r);
            put_values(out, e);
            proof { assert(out@ =~= old(out)@ + enc_value(vv(*v))); }
        },
        Value::Condition(g, t, e) => {
            out.push(17u8);
            put_values(out, g);
            put_values(out, t);
            put_branches(out, e);
            proof { assert(out@ =~= old(out)@ + enc_value(vv(*v))); }
        },
        Value::While(g, b) => {
            out.push(18u8);
            put_values(out, g);
            put_values(out, b);
            proof { assert(out@ =~= old(out)@ + enc_value(vv(*v))); }
        },
        Value::Loop(n, it, b) => {
            out.push(19u8);
            put_str(out, n);
            put_values(out, it);
            put_values(out, b);
            proof { assert(out@ =~= old(out)@ + enc_value(vv(*v))); }
        },
        Value::Wrap(ts) => {
            out.push(20u8);
            put_values(out, ts);
            proof { assert(out@ =~= old(out)@ + enc_value(vv(*v))); }
        },
        Value::Separator => {
            out.push(21u8);
            proof { assert(out@ =~= old(out)@ + enc_value(vv(*v))); }
        },
        Value::Break => {
            out.push(22u8);
            proof { assert(out@ =~= old(out)@ + enc_value(vv(*v))); }
        },
        Value::File(p) => {
            out.push(23u8);
            put_str(out, p);
            proof { assert(out@ =~= old(out)@ + enc_value(vv(*v))); }
        },
    }
}

/// Appends a counted value sequence.
#[verifier::loop_isolation(false)]
pub fn put_values(out: &mut Vec<u8>, vs: &Vec<Value>)
    ensures
        final(out)@ == old(out)@ + enc_values(vseq(vs@)),
    decreases *vs,
{
    put_u64(out, vs.len() as u64);
    let ghost base = out@;
    let ghost full = vseq(vs@);
    let mut i: usize = 0;
    proof {
        assert(enc_velems(full.take(0)) =~= Seq::<u8>::empty());
        assert(out@ =~= base + enc_velems(full.take(0)));
    }
    while i < vs.len()
        invariant
            i <= vs@.len(),
            out@ == base + enc_velems(full.take(i as int)),
        decreases vs@.len() - i,
    {
        put_value(out, &vs[i]);
        proof {
            assert(full.take(i as int + 1).drop_last() =~= full.take(i as int));
            assert(full.take(i as int + 1).last() == full[i as int]);
            assert(out@ =~= base + enc_velems(full.take(i as int + 1)));
        }
        i = i + 1;
    }
    proof {
        assert(full.take(vs@.len() as int) =~= full);
        assert(out@ =~= old(out)@ + enc_values(full));
    }
}

/// Appends a counted string sequence.
#[verifier::loop_isolation(false)]
fn put_strs(out: &mut Vec<u8>, ss: &Vec<String>)
    ensures
        final(out)@ == old(out)@ + enc_strs(crate::value::strseq(ss@)),
{
    put_u64(out, ss.len() as u64);
    let ghost base = out@;
    let ghost full = crate::value::strseq(ss@);
    let mut i: usize = 0;
    proof {
        assert(enc_strelems(full.take(0)) =~= Seq::<u8>::empty());
        assert(out@ =~= base + enc_strelems(full.take(0)));
    }
    while i < ss.len()
        invariant
            i <= ss@.len(),
            out@ == base + enc_strelems(full.take(i as int)),
        decreases ss@.len() - i,
    {
        put_str(out, &ss[i]);
        proof {
            assert(full.take(i as int + 1).drop_last() =~= full.take(i as int));
            assert(full.take(i as int + 1).last() == full[i as int]);
            assert(out@ =~= base + enc_strelems(full.take(i as int + 1)));
        }
        i = i + 1;
    }
    proof {
        assert(full.take(ss@.len() as int) =~= full);
        assert(out@ =~= old(out)@ + enc_strs(full));
    }
}

/// Appends the counted (guard, branch) pairs of a condition.
#[verifier::loop_isolation(false)]
fn put_branches(out: &mut Vec<u8>, bs: &Vec<(Vec<Value>, Vec<Value>)>)
    ensures
        final(out)@ == old(out)@ + enc_branches(velse(bs@)),
    decreases *bs,
{
    put_u64(out, bs.len() as u64);
    let ghost base = out@;
    let ghost full = velse(bs@);
    let mut i: usize = 0;
    proof {
        assert(enc_brelems(full.take(0)) =~= Seq::<u8>::empty());
        assert(out@ =~= base + enc_brelems(full.take(0)));
    }
    while i < bs.len()
        invariant
            i <= bs@.len(),
            out@ == base + enc_brelems(full.take(i as int)),
        decreases bs@.len() - i,
    {
        put_values(out, &bs[i].0);
        put_values(out, &bs[i].1);
        proof {
            assert(full.take(i as int + 1).drop_last() =~= full.take(i as int));
            assert(full.take(i as int + 1).last() == full[i as int]);
            assert(out@ =~= base + enc_brelems(full.take(i as int + 1)));
        }
        i = i + 1;
    }
    proof {
        assert(full.take(bs@.len() as int) =~= full);
        assert(out@ =~= old(out)@ + enc_branches(full));
    }
}

/// The encoded bytes of one value, as the `hash` built-in digests them.
pub fn encode_value(v: &Value) -> (r: Vec<u8>)
    ensures
        r@ == enc_value(vv(*v)),
{
    let mut out: Vec<u8> = Vec::new();
    put_value(&mut out, v);
    proof {
        assert(out@ =~= enc_value(vv(*v)));
    }
    out
}

/// Appends one encoded function table entry.
#[verifier::loop_isolation(false)]
fn put_fn(out: &mut Vec<u8>, f: &Function)
    ensures
        final(out)@ == old(out)@ + enc_fn(fview(*f)),
{
    put_str(out, &f.name);
    put_strs(out, &f.params);
    put_u64(out, f.body.len() as u64);
    let ghost base = out@;
    let ghost full = vlines(f.body@);
    let mut i: usize = 0;
    proof {
        assert(enc_linelems(full.take(0)) =~= Seq::<u8>::empty());
        assert(out@ =~= base + enc_linelems(full.take(0)));
    }
    while i < f.body.len()
        invariant
            i <= f.body@.len(),
            out@ == base + enc_linelems(full.take(i as int)),
        decreases f.body@.len() - i,
    {
        put_values(out, &f.body[i]);
        proof {
            assert(full.take(i as int + 1).drop_last() =~= full.take(i as int));
            assert(full.take(i as int + 1).last() == full[i as int]);
            assert(out@ =~= base + enc_linelems(full.take(i as int + 1)));
        }
        i = i + 1;
    }
    proof {
        assert(full.take(f.body@.len() as int) =~= full);
        assert(out@ =~= old(out)@ + enc_fn(fview(*f)));
    }
}

/// The encoded bytes of a whole function table.
#[verifier::loop_isolation(false)]
pub fn encode_table(t: &Vec<Function>) -> (r: Vec<u8>)
    ensures
        r@ == enc_table(fnsv(t@)),
{
    let mut out: Vec<u8> = Vec::new();
    put_u64(&mut out, t.len() as u64);
    let ghost base = out@;
    let ghost full = fnsv(t@);
    let mut i: usize = 0;
    proof {
        assert(enc_fnelems(full.take(0)) =~= Seq::<u8>::empty());
        assert(out@ =~= base + enc_fnelems(full.take(0)));
    }
    while i < t.len()
        invariant
            i <= t@.len(),
            out@ == base + enc_fnelems(full.take(i as int)),
        decreases t@.len() - i,
    {
        put_fn(&mut out, &t[i]);
        proof {
            assert(full.take(i as int + 1).drop_last() =~= full.take(i as int));
            assert(full.take(i as int + 1).last() == full[i as int]);
            assert(out@ =~= base + enc_fnelems(full.take(i as int + 1)));
        }
        i = i + 1;
    }
    proof {
        assert(full.take(t@.len() as int) =~= full);
        assert(out@ =~= enc_table(full));
    }
    out
}

/// True of a 32-bit value that is a Unicode scalar value: the code of
/// exactly one char.
pub open spec fn scalar_ok(u: u32) -> bool {
    u < 0xD800 || (0xE000 <= u && u <= 0x10FFFF)
}

/// Reads a little-endian 64-bit value, leaving the rest.
pub open spec fn dec_u64(b: Seq<u8>) -> Option<(u64, Seq<u8>)> {
    if b.len() < 8 {
        Option::None
    } else {
        let n = (b[0] as u64)
            | ((b[1] as u64) << 8)
            | ((b[2] as u64) << 16)
            | ((b[3] as u64) << 24)
            | ((b[4] as u64) << 32)
            | ((b[5] as u64) << 40)
            | ((b[6] as u64) << 48)
            | ((b[7] as u64) << 56);
        Some((n, b.skip(8)))
    }
}

/// Reads a little-endian 32-bit value, leaving the rest.
pub open spec fn dec_u32(b: Seq<u8>) -> Option<(u32, Seq<u8>)> {
    if b.len() < 4 {
        Option::None
    } else {
        let n = (b[0] as u32)
            | ((b[1] as u32) << 8)
            | ((b[2] as u32) << 16)
            | ((b[3] as u32) << 24);
        Some((n, b.skip(4)))
    }
}

/// Reads one truth-value byte.
pub open spec fn dec_bool(b: Seq<u8>) -> Option<(bool, Seq<u8>)> {
    if b.len() < 1 {
        Option::None
    } else if b[0] == 1u8 {
        Some((true, b.skip(1)))
    } else if b[0] == 0u8 {
        Some((false, b.skip(1)))
    } else {
        Option::None
    }
}

/// Reads one character: its scalar value, which must be one.
pub open spec fn dec_char(b: Seq<u8>) -> Option<(char, Seq<u8>)> {
    match dec_u32(b) {
        Option::None => Option::None,
        Some((u, rest)) => {
            if scalar_ok(u) {
                Some((u as char, rest))
            } else {
                Option::None
            }
        },
    }
}

/// Reads `k` characters.
pub open spec fn dec_chars(b: Seq<u8>, k: nat) -> Option<(Seq<char>, Seq<u8>)>
    decreases k,
{
    if k == 0 {
        Some((Seq::empty(), b))
    } else {
        match dec_char(b) {
            Option::None => Option::None,
            Some((c, rest)) => {
                match dec_chars(rest, (k - 1) as nat) {
                    Option::None => Option::None,
                    Some((s, rest2)) => Some((seq![c] + s, rest2)),
                }
            },
        }
    }
}

/// Reads a counted string.
pub open spec fn dec_str(b: Seq<u8>) -> Option<(Seq<char>, Seq<u8>)> {
    match dec_u64(b) {
        Option::None => Option::None,
        Some((n, rest)) => dec_chars(rest, n as nat),
    }
}

/// The operator of a tag byte.
pub open spec fn dec_op(t: u8) -> Option<BasicOperator> {
    if t == 0 { Some(BasicOperator::Null) }
    else if t == 1 { Some(BasicOperator::Add) }
    else if t == 2 { Some(BasicOperator::Sub) }
    else if t == 3 { Some(BasicOperator::Divide) }
    else if t == 4 { Some(BasicOperator::Multiply) }
    else if t == 5 { Some(BasicOperator::Equal) }
    else if t == 6 { Some(BasicOperator::NotEqual) }
    else if t == 7 { Some(BasicOperator::Power) }
    else if t == 8 { Some(BasicOperator::And) }
    else if t == 9 { Some(BasicOperator::Modulo) }
    else if t == 10 { Some(BasicOperator::Inferior) }
    else if t == 11 { Some(BasicOperator::InferiorEqual) }
    else if t == 12 { Some(BasicOperator::Or) }
    else if t == 13 { Some(BasicOperator::Superior) }
    else if t == 14 { Some(BasicOperator::SuperiorEqual) }
    else { Option::None }
}

/// Reads one encoded value.
pub open spec fn dec_value(b: Seq<u8>) -> Option<(ValueV, Seq<u8>)>
    decreases b.len(), 0int,
{
    if b.len() < 1 {
        Option::None
    } else {
        let t = b[0];
        let p = b.skip(1);
        if t == 0 {
            Some((ValueV::Null, p))
        } else if t == 1 {
            match dec_u64(p) {
                Some((n, rest)) => Some((ValueV::Integer(n as i64), rest)),
                Option::None => Option::None,
            }
        } else if t == 2 {
            match dec_u64(p) {
                Some((n, rest)) => Some((ValueV::Float(n), rest)),
                Option::None => Option::None,
            }
        } else if t == 3 {
            match dec_str(p) {
                Some((s, rest)) => Some((ValueV::Str(s), rest)),
                Option::None => Option::None,
            }
        } else if t == 4 {
            match dec_bool(p) {
                Some((v, rest)) => Some((ValueV::Bool(v), rest)),
                Option::None => Option::None,
            }
        } else if t == 5 {
            match dec_bool(p) {
                Some((pf, r1)) => {
                    if r1.len() < p.len() {
                        match dec_bool(r1) {
                            Some((sf, r2)) => {
                                if r2.len() < b.len() {
                                    match dec_values(r2) {
                                        Some((el, r3)) => Some((ValueV::Array(el, pf, sf), r3)),
                                        Option::None => Option::None,
                                    }
                                } else {
                                    Option::None
                                }
                            },
                            Option::None => Option::None,
                        }
                    } else {
                        Option::None
                    }
                },
                Option::None => Option::None,
            }
        } else if t == 6 {
            match dec_values(p) {
                Some((ts, rest)) => Some((ValueV::Or(ts), rest)),
                Option::None => Option::None,
            }
        } else if t == 7 {
            match dec_values(p) {
                Some((ts, rest)) => Some((ValueV::And(ts), rest)),
                Option::None => Option::None,
            }
        } else if t == 8 {
            match dec_str(p) {
                Some((n, r1)) => {
                    if r1.len() < b.len() {
                        match dec_values(r1) {
                            Some((args, r2)) => Some((ValueV::Property(n, args), r2)),
                            Option::None => Option::None,
                        }
                    } else {
                        Option::None
                    }
                },
                Option::None => Option::None,
            }
        } else if t == 9 {
            match dec_str(p) {
                Some((f, r1)) => {
                    if r1.len() < b.len() {
                        match dec_values(r1) {
                            Some((fa, r2)) => {
                                if r2.len() < b.len() {
                                    match dec_str(r2) {
                                        Some((pn, r3)) => {
                                            if r3.len() < b.len() {
                                                match dec_values(r3) {
                                                    Some((pa, r4)) => Some((ValueV::PropertyFunction(f, fa, pn, pa), r4)),
                                                    Option::None => Option::None,
                                                }
                                            } else {
                                                Option::None
                                            }
                                        },
                                        Option::None => Option::None,
                                    }
                                } else {
                                    Option::None
                                }
                            },
                            Option::None => Option::None,
                        }
                    } else {
                        Option::None
                    }
                },
                Option::None => Option::None,
            }
        } else if t == 10 {
            match dec_str(p) {
                Some((n, rest)) => Some((ValueV::VariableIdentifier(n), rest)),
                Option::None => Option::None,
            }
        } else if t == 11 {
            match dec_str(p) {
                Some((n, r1)) => {
                    if r1.len() < b.len() {
                        match dec_values(r1) {
                            Some((args, r2)) => Some((ValueV::FunctionCall(n, args), r2)),
                            Option::None => Option::None,
                        }
                    } else {
                        Option::None
                    }
                },
                Option::None => Option::None,
            }
        } else if t == 12 {
            match dec_strs(p) {
                Some((ns, r1)) => {
                    if r1.len() < b.len() {
                        match dec_str(r1) {
                            Some((n, r2)) => {
                                if r2.len() < b.len() {
                                    match dec_values(r2) {
                                        Some((args, r3)) => Some((ValueV::NamespaceFunctionCall(ns, n, args), r3)),
                                        Option::None => Option::None,
                                    }
                                } else {
                                    Option::None
                                }
                            },
                            Option::None => Option::None,
                        }
                    } else {
                        Option::None
                    }
                },
                Option::None => Option::None,
            }
        } else if t == 13 {
            match dec_values(p) {
                Some((ts, rest)) => Some((ValueV::FunctionReturn(ts), rest)),
                Option::None => Option::None,
            }
        } else if t == 14 {
            match dec_values(p) {
                Some((ts, rest)) => Some((ValueV::Priority(ts), rest)),
                Option::None => Option::None,
            }
        } else if t == 15 {
            if p.len() < 1 {
                Option::None
            } else {
                match dec_op(p[0]) {
                    Some(op) => Some((ValueV::Operation(op), p.skip(1))),
                    Option::None => Option::None,
                }
            }
        } else if t == 16 {
            match dec_str(p) {
                Some((n, r1)) => {
                    if r1.len() < b.len() {
                        match dec_bool(r1) {
                            Some((re, r2)) => {
                                if r2.len() < b.len() {
                                    match dec_values(r2) {
                                        Some((e, r3)) => Some((ValueV::VariableDeclaration(n, e, re), r3)),
                                        Option::None => Option::None,
                                    }
                                } else {
                                    Option::None
                                }
                            },
                            Option::None => Option::None,
                        }
                    } else {
                        Option::None
                    }
                },
                Option::None => Option::None,
            }
        } else if t == 17 {
            match dec_values(p) {
                Some((g, r1)) => {
                    if r1.len() < b.len() {
                        match dec_values(r1) {
                            Some((tb, r2)) => {
                                if r2.len() < b.len() {
                                    match dec_branches(r2) {
                                        Some((e, r3)) => Some((ValueV::Condition(g, tb, e), r3)),
                                        Option::None => Option::None,
                                    }
                                } else {
                                    Option::None
                                }
                            },
                            Option::None => Option::None,
                        }
                    } else {
                        Option::None
                    }
                },
                Option::None => Option::None,
            }
        } else if t == 18 {
            match dec_values(p) {
                Some((g, r1)) => {
                    if r1.len() < b.len() {
                        match dec_values(r1) {
                            Some((bd, r2)) => Some((ValueV::While(g, bd), r2)),
                            Option::None => Option::None,
                        }
                    } else {
                        Option::None
                    }
                },
                Option::None => Option::None,
            }
        } else if t == 19 {
            match dec_str(p) {
                Some((n, r1)) => {
                    if r1.len() < b.len() {
                        match dec_values(r1) {
                            Some((it, r2)) => {
                                if r2.len() < b.len() {
                                    match dec_values(r2) {
                                        Some((bd, r3)) => Some((ValueV::Loop(n, it, bd), r3)),
                                        Option::None => Option::None,
                                    }
                                } else {
                                    Option::None
                                }
                            },
                            Option::None => Option::None,
                        }
                    } else {
                        Option::None
                    }
                },
                Option::None => Option::None,
            }
        } else if t == 20 {
            match dec_values(p) {
                Some((ts, rest)) => Some((ValueV::Wrap(ts), rest)),
                Option::None => Option::None,
            }
        } else if t == 21 {
            Some((ValueV::Separator, p))
        } else if t == 22 {
            Some((ValueV::Break, p))
        } else if t == 23 {
            match dec_str(p) {
                Some((n, rest)) => Some((ValueV::File(n), rest)),
                Option::None => Option::None,
            }
        } else {
            Option::None
        }
    }
}

/// Reads `k` encoded values.
pub open spec fn dec_velems(b: Seq<u8>, k: nat) -> Option<(Seq<ValueV>, Seq<u8>)>
    decreases b.len(), k + 2,
{
    if k == 0 {
        Some((Seq::empty(), b))
    } else {
        match dec_value(b) {
            Option::None => Option::None,
            Some((v, rest)) => {
                if rest.len() < b.len() {
                    match dec_velems(rest, (k - 1) as nat) {
                        Option::None => Option::None,
                        Some((vs, rest2)) => Some((seq![v] + vs, rest2)),
                    }
                } else {
                    Option::None
                }
            },
        }
    }
}

/// Reads a counted value sequence.
pub open spec fn dec_values(b: Seq<u8>) -> Option<(Seq<ValueV>, Seq<u8>)>
    decreases b.len(), 1int,
{
    match dec_u64(b) {
        Option::None => Option::None,
        Some((n, rest)) => {
            if rest.len() < b.len() {
                dec_velems(rest, n as nat)
            } else {
                Option::None
            }
        },
    }
}

/// Reads `k` counted strings.
pub open spec fn dec_strelems(b: Seq<u8>, k: nat) -> Option<(Seq<Seq<char>>, Seq<u8>)>
    decreases k,
{
    if k == 0 {
        Some((Seq::empty(), b))
    } else {
        match dec_str(b) {
            Option::None => Option::None,
            Some((s, rest)) => {
                match dec_strelems(rest, (k - 1) as nat) {
                    Option::None => Option::None,
                    Some((ss, rest2)) => Some((seq![s] + ss, rest2)),
                }
            },
        }
    }
}

/// Reads a counted string sequence.
pub open spec fn dec_strs(b: Seq<u8>) -> Option<(Seq<Seq<char>>, Seq<u8>)> {
    match dec_u64(b) {
        Option::None => Option::None,
        Some((n, rest)) => dec_strelems(rest, n as nat),
    }
}

/// Reads `k` (guard, branch) pairs.
pub open spec fn dec_brelems(b: Seq<u8>, k: nat) -> Option<(Seq<(Seq<ValueV>, Seq<ValueV>)>, Seq<u8>)>
    decreases b.len(), k + 2,
{
    if k == 0 {
        Some((Seq::empty(), b))
    } else {
        match dec_values(b) {
            Option::None => Option::None,
            Some((g, r1)) => {
                if r1.len() < b.len() {
                    match dec_values(r1) {
                        Option::None => Option::None,
                        Some((blk, r2)) => {
                            if r2.len() < b.len() {
                                match dec_brelems(r2, (k - 1) as nat) {
                                    Option::None => Option::None,
                                    Some((bs, r3)) => Some((seq![(g, blk)] + bs, r3)),
                                }
                            } else {
                                Option::None
                            }
                        },
                    }
                } else {
                    Option::None
                }
            },
        }
    }
}

/// Reads the counted (guard, branch) pairs of a condition.
pub open spec fn dec_branches(b: Seq<u8>) -> Option<(Seq<(Seq<ValueV>, Seq<ValueV>)>, Seq<u8>)>
    decreases b.len(), 1int,
{
    match dec_u64(b) {
        Option::None => Option::None,
        Some((n, rest)) => {
            if rest.len() < b.len() {
                dec_brelems(rest, n as nat)
            } else {
                Option::None
            }
        },
    }
}

/// Reads `k` counted body lines.
pub open spec fn dec_linelems(b: Seq<u8>, k: nat) -> Option<(Seq<Seq<ValueV>>, Seq<u8>)>
    decreases k,
{
    if k == 0 {
        Some((Seq::empty(), b))
    } else {
        match dec_values(b) {
            Option::None => Option::None,
            Some((l, rest)) => {
                match dec_linelems(rest, (k - 1) as nat) {
                    Option::None => Option::None,
                    Some((ls, rest2)) => Some((seq![l] + ls, rest2)),
                }
            },
        }
    }
}

/// Reads one encoded function table entry.
pub open spec fn dec_fn(b: Seq<u8>) -> Option<(FunctionV, Seq<u8>)> {
    match dec_str(b) {
        Option::None => Option::None,
        Some((name, r1)) => {
            match dec_strs(r1) {
                Option::None => Option::None,
                Some((params, r2)) => {
                    match dec_u64(r2) {
                        Option::None => Option::None,
                        Some((n, r3)) => {
                            match dec_linelems(r3, n as nat) {
                                Option::None => Option::None,
                                Some((body, r4)) => Some((FunctionV { name, params, body }, r4)),
                            }
                        },
                    }
                },
            }
        },
    }
}

/// Reads `k` function table entries.
pub open spec fn dec_fnelems(b: Seq<u8>, k: nat) -> Option<(Seq<FunctionV>, Seq<u8>)>
    decreases k,
{
    if k == 0 {
        Some((Seq::empty(), b))
    } else {
        match dec_fn(b) {
            Option::None => Option::None,
            Some((f, rest)) => {
                match dec_fnelems(rest, (k - 1) as nat) {
                    Option::None => Option::None,
                    Some((fs, rest2)) => Some((seq![f] + fs, rest2)),
                }
            },
        }
    }
}

/// The function table a byte string encodes: exactly a counted entry
/// sequence with nothing left over, or nothing.
pub open spec fn dec_table(b: Seq<u8>) -> Option<Seq<FunctionV>> {
    match dec_u64(b) {
        Option::None => Option::None,
        Some((n, rest)) => {
            match dec_fnelems(rest, n as nat) {
                Option::None => Option::None,
                Some((fs, rest2)) => {
                    if rest2.len() == 0 {
                        Some(fs)
                    } else {
                        Option::None
                    }
                },
            }
        },
    }
}

/// Reads a little-endian 64-bit value.
fn rd_u64(b: &Vec<u8>, pos: usize) -> (r: Option<(u64, usize)>)
    requires
        pos <= b@.len(),
    ensures
        match r {
            Some((n, np)) => pos <= np <= b@.len()
                && dec_u64(b@.skip(pos as int)) == Some((n, b@.skip(np as int))),
            Option::None => dec_u64(b@.skip(pos as int)) is None,
        },
{
    if b.len() - pos < 8 {
        return Option::None;
    }
    let n = (b[pos] as u64)
        | ((b[pos + 1] as u64) << 8)
        | ((b[pos + 2] as u64) << 16)
        | ((b[pos + 3] as u64) << 24)
        | ((b[pos + 4] as u64) << 32)
        | ((b[pos + 5] as u64) << 40)
        | ((b[pos + 6] as u64) << 48)
        | ((b[pos + 7] as u64) << 56);
    proof {
        assert(b@.skip(pos as int).skip(8) =~= b@.skip(pos as int + 8));
    }
    Some((n, pos + 8))
}

/// Reads a little-endian 32-bit value.
fn rd_u32(b: &Vec<u8>, pos: usize) -> (r: Option<(u32, usize)>)
    requires
        pos <= b@.len(),
    ensures
        match r {
            Some((n, np)) => pos <= np <= b@.len()
                && dec_u32(b@.skip(pos as int)) == Some((n, b@.skip(np as int))),
            Option::None => dec_u32(b@.skip(pos as int)) is None,
        },
{
    if b.len() - pos < 4 {
        return Option::None;
    }
    let n = (b[pos] as u32)
        | ((b[pos + 1] as u32) << 8)
        | ((b[pos + 2] as u32) << 16)
        | ((b[pos + 3] as u32) << 24);
    proof {
        assert(b@.skip(pos as int).skip(4) =~= b@.skip(pos as int + 4));
    }
    Some((n, pos + 4))
}

/// Reads one truth-value byte.
fn rd_bool(b: &Vec<u8>, pos: usize) -> (r: Option<(bool, usize)>)
    requires
        pos <= b@.len(),
    ensures
        match r {
            Some((v, np)) => pos <= np <= b@.len()
                && dec_bool(b@.skip(pos as int)) == Some((v, b@.skip(np as int))),
            Option::None => dec_bool(b@.skip(pos as int)) is None,
        },
{
    if b.len() - pos < 1 {
        return Option::None;
    }
    proof {
        assert(b@.skip(pos as int)[0] == b@[pos as int]);
        assert(b@.skip(pos as int).skip(1) =~= b@.skip(pos as int + 1));
    }
    if b[pos] == 1u8 {
        Some((true, pos + 1))
    } else if b[pos] == 0u8 {
        Some((false, pos + 1))
    } else {
        Option::None
    }
}

/// Reads one character.
fn rd_char(b: &Vec<u8>, pos: usize) -> (r: Option<(char, usize)>)
    requires
        pos <= b@.len(),
    ensures
        match r {
            Some((c, np)) => pos <= np <= b@.len()
                && dec_char(b@.skip(pos as int)) == Some((c, b@.skip(np as int))),
            Option::None => dec_char(b@.skip(pos as int)) is None,
        },
{
    match rd_u32(b, pos) {
        Option::None => Option::None,
        Some((u, np)) => {
            match char_from_u32(u) {
                Some(c) => {
                    proof {
                        vstd::utf8::char_u32_cast(c, u);
                    }
                    Some((c, np))
                },
                Option::None => Option::None,
            }
        },
    }
}

/// Reads `k` characters into a string.
fn rd_chars(b: &Vec<u8>, pos: usize, k: u64) -> (r: Option<(String, usize)>)
    requires
        pos <= b@.len(),
    ensures
        match r {
            Some((s, np)) => pos <= np <= b@.len()
                && dec_chars(b@.skip(pos as int), k as nat) == Some((s@, b@.skip(np as int))),
            Option::None => dec_chars(b@.skip(pos as int), k as nat) is None,
        },
    decreases k,
{
    if k == 0 {
        let out = String::new();
        proof {
            assert(out@ =~= Seq::<char>::empty());
        }
        return Some((out, pos));
    }
    match rd_char(b, pos) {
        Option::None => Option::None,
        Some((c, np1)) => {
            match rd_chars(b, np1, k - 1) {
                Option::None => Option::None,
                Some((s, np2)) => {
                    let mut out = String::new();
                    push_char(&mut out, c);
                    out.append(s.as_str());
                    proof {
                        assert(out@ =~= seq![c] + s@);
                    }
                    Some((out, np2))
                },
            }
        },
    }
}

/// Reads a counted string.
fn rd_str(b: &Vec<u8>, pos: usize) -> (r: Option<(String, usize)>)
    requires
        pos <= b@.len(),
    ensures
        match r {
            Some((s, np)) => pos <= np <= b@.len()
                && dec_str(b@.skip(pos as int)) == Some((s@, b@.skip(np as int))),
            Option::None => dec_str(b@.skip(pos as int)) is None,
        },
{
    match rd_u64(b, pos) {
        Option::None => Option::None,
        Some((n, np1)) => rd_chars(b, np1, n),
    }
}

/// The operator of a tag byte.
fn rd_op(t: u8) -> (r: Option<BasicOperator>)
    ensures
        r == dec_op(t),
{
    if t == 0 { Some(BasicOperator::Null) }
    else if t == 1 { Some(BasicOperator::Add) }
    else if t == 2 { Some(BasicOperator::Sub) }
    else if t == 3 { Some(BasicOperator::Divide) }
    else if t == 4 { Some(BasicOperator::Multiply) }
    else if t == 5 { Some(BasicOperator::Equal) }
    else if t == 6 { Some(BasicOperator::NotEqual) }
    else if t == 7 { Some(BasicOperator::Power) }
    else if t == 8 { Some(BasicOperator::And) }
    else if t == 9 { Some(BasicOperator::Modulo) }
    else if t == 10 { Some(BasicOperator::Inferior) }
    else if t == 11 { Some(BasicOperator::InferiorEqual) }
    else if t == 12 { Some(BasicOperator::Or) }
    else if t == 13 { Some(BasicOperator::Superior) }
    else if t == 14 { Some(BasicOperator::SuperiorEqual) }
    else { Option::None }
}

/// Reads one encoded value.
#[verifier::rlimit(100)]
fn rd_value(b: &Vec<u8>, pos: usize) -> (r: Option<(Value, usize)>)
    requires
        pos <= b@.len(),
    ensures
        match r {
            Some((v, np)) => pos <= np <= b@.len()
                && dec_value(b@.skip(pos as int)) == Some((vv(v), b@.skip(np as int))),
            Option::None => dec_value(b@.skip(pos as int)) is None,
        },
    decreases b@.len() - pos, 2int,
{
    if b.len() - pos < 1 {
        return Option::None;
    }
    let t = b[pos];
    let p1 = pos + 1;
    proof {
        assert(b@.skip(pos as int)[0] == b@[pos as int]);
        assert(b@.skip(pos as int).skip(1) =~= b@.skip(p1 as int));
    }
    if t == 0 {
        Some((Value::Null, p1))
    } else if t == 1 {
        match rd_u64(b, p1) {
            Some((n, np)) => Some((Value::Integer(n as i64), np)),
            Option::None => Option::None,
        }
    } else if t == 2 {
        match rd_u64(b, p1) {
            Some((n, np)) => Some((Value::Float(n), np)),
            Option::None => Option::None,
        }
    } else if t == 3 {
        match rd_str(b, p1) {
            Some((s, np)) => Some((Value::Str(s), np)),
            Option::None => Option::None,
        }
    } else if t == 4 {
        match rd_bool(b, p1) {
            Some((v, np)) => Some((Value::Bool(v), np)),
            Option::None => Option::None,
        }
    } else if t == 5 {
        match rd_bool(b, p1) {
            Some((pf, np1)) => {
                if np1 > p1 {
                    match rd_bool(b, np1) {
                        Some((sf, np2)) => {
                            if np2 > pos {
                                match rd_values(b, np2) {
                                    Some((el, np3)) => Some((Value::Array(el, pf, sf), np3)),
                                    Option::None => Option::None,
                                }
                            } else {
                                Option::None
                            }
                        },
                        Option::None => Option::None,
                    }
                } else {
                    Option::None
                }
            },
            Option::None => Option::None,
        }
    } else if t == 6 {
        match rd_values(b, p1) {
            Some((ts, np)) => Some((Value::Or(ts), np)),
            Option::None => Option::None,
        }
    } else if t == 7 {
        match rd_values(b, p1) {
            Some((ts, np)) => Some((Value::And(ts), np)),
            Option::None => Option::None,
        }
    } else if t == 8 {
        match rd_str(b, p1) {
            Some((n, np1)) => {
                if np1 > pos {
                    match rd_values(b, np1) {
                        Some((args, np2)) => Some((Value::Property(n, args), np2)),
                        Option::None => Option::None,
                    }
                } else {
                    Option::None
                }
            },
            Option::None => Option::None,
        }
    } else if t == 9 {
        match rd_str(b, p1) {
            Some((f, np1)) => {
                if np1 > pos {
                    match rd_values(b, np1) {
                        Some((fa, np2)) => {
                            if np2 > pos {
                                match rd_str(b, np2) {
                                    Some((pn, np3)) => {
                                        if np3 > pos {
                                            match rd_values(b, np3) {
                                                Some((pa, np4)) => Some((Value::PropertyFunction(f, fa, pn, pa), np4)),
                                                Option::None => Option::None,
                                            }
                                        } else {
                                            Option::None
                                        }
                                    },
                                    Option::None => Option::None,
                                }
                            } else {
                                Option::None
                            }
                        },
                        Option::None => Option::None,
                    }
                } else {
                    Option::None
                }
            },
            Option::None => Option::None,
        }
    } else if t == 10 {
        match rd_str(b, p1) {
            Some((n, np)) => Some((Value::VariableIdentifier(n), np)),
            Option::None => Option::None,
        }
    } else if t == 11 {
        match rd_str(b, p1) {
            Some((n, np1)) => {
                if np1 > pos {
                    match rd_values(b, np1) {
                        Some((args, np2)) => Some((Value::FunctionCall(n, args), np2)),
                        Option::None => Option::None,
                    }
                } else {
                    Option::None
                }
            },
            Option::None => Option::None,
        }
    } else {
        rd_value_hi(b, pos, t)
    }
}

/// Reads one encoded value whose tag is twelve or above.
#[verifier::rlimit(100)]
fn rd_value_hi(b: &Vec<u8>, pos: usize, t: u8) -> (r: Option<(Value, usize)>)
    requires
        pos < b@.len(),
        b@[pos as int] == t,
        t >= 12,
    ensures
        match r {
            Some((v, np)) => pos <= np <= b@.len()
                && dec_value(b@.skip(pos as int)) == Some((vv(v), b@.skip(np as int))),
            Option::None => dec_value(b@.skip(pos as int)) is None,
        },
    decreases b@.len() - pos, 1int,
{
    let total = b.len();
    proof {
        assert(pos < total);
    }
    let p1 = pos + 1;
    proof {
        assert(b@.skip(pos as int)[0] == b@[pos as int]);
        assert(b@.skip(pos as int).skip(1) =~= b@.skip(p1 as int));
    }
    if t == 12 {
        match rd_strs(b, p1) {
            Some((ns, np1)) => {
                if np1 > pos {
                    match rd_str(b, np1) {
                        Some((n, np2)) => {
                            if np2 > pos {
                                match rd_values(b, np2) {
                                    Some((args, np3)) => Some((Value::NamespaceFunctionCall(ns, n, args), np3)),
                                    Option::None => Option::None,
                                }
                            } else {
                                Option::None
                            }
                        },
                        Option::None => Option::None,
                    }
                } else {
                    Option::None
                }
            },
            Option::None => Option::None,
        }
    } else if t == 13 {
        match rd_values(b, p1) {
            Some((ts, np)) => Some((Value::FunctionReturn(ts), np)),
            Option::None => Option::None,
        }
    } else if t == 14 {
        match rd_values(b, p1) {
            Some((ts, np)) => Some((Value::Priority(ts), np)),
            Option::None => Option::None,
        }
    } else if t == 15 {
        if b.len() - p1 < 1 {
            Option::None
        } else {
            proof {
                assert(b@.skip(p1 as int)[0] == b@[p1 as int]);
                assert(b@.skip(p1 as int).skip(1) =~= b@.skip(p1 as int + 1));
            }
            match rd_op(b[p1]) {
                Some(op) => Some((Value::Operation(op), p1 + 1)),
                Option::None => Option::None,
            }
        }
    } else if t == 16 {
        match rd_str(b, p1) {
            Some((n, np1)) => {
                if np1 > pos {
                    match rd_bool(b, np1) {
                        Some((re, np2)) => {
                            if np2 > pos {
                                match rd_values(b, np2) {
                                    Some((e, np3)) => Some((Value::VariableDeclaration(n, e, re), np3)),
                                    Option::None => Option::None,
                                }
                            } else {
                                Option::None
                            }
                        },
                        Option::None => Option::None,
                    }
                } else {
                    Option::None
                }
            },
            Option::None => Option::None,
        }
    } else if t == 17 {
        match rd_values(b, p1) {
            Some((g, np1)) => {
                if np1 > pos {
                    match rd_values(b, np1) {
                        Some((tb, np2)) => {
                            if np2 > pos {
                                match rd_branches(b, np2) {
                                    Some((e, np3)) => Some((Value::Condition(g, tb, e), np3)),
                                    Option::None => Option::None,
                                }
                            } else {
                                Option::None
                            }
                        },
                        Option::None => Option::None,
                    }
                } else {
                    Option::None
                }
            },
            Option::None => Option::None,
        }
    } else {
        rd_value_hi2(b, pos, t)
    }
}

/// Reads one encoded value whose tag is eighteen or above.
#[verifier::rlimit(100)]
fn rd_value_hi2(b: &Vec<u8>, pos: usize, t: u8) -> (r: Option<(Value, usize)>)
    requires
        pos < b@.len(),
        b@[pos as int] == t,
        t >= 18,
    ensures
        match r {
            Some((v, np)) => pos <= np <= b@.len()
                && dec_value(b@.skip(pos as int)) == Some((vv(v), b@.skip(np as int))),
            Option::None => dec_value(b@.skip(pos as int)) is None,
        },
    decreases b@.len() - pos, 0int,
{
    let total = b.len();
    proof {
        assert(pos < total);
    }
    let p1 = pos + 1;
    proof {
        assert(b@.skip(pos as int)[0] == b@[pos as int]);
        assert(b@.skip(pos as int).skip(1) =~= b@.skip(p1 as int));
    }
    if t == 18 {
        match rd_values(b, p1) {
            Some((g, np1)) => {
                if np1 > pos {
                    match rd_values(b, np1) {
                        Some((bd, np2)) => Some((Value::While(g, bd), np2)),
                        Option::None => Option::None,
                    }
                } else {
                    Option::None
                }
            },
            Option::None => Option::None,
        }
    } else if t == 19 {
        match rd_str(b, p1) {
            Some((n, np1)) => {
                if np1 > pos {
                    match rd_values(b, np1) {
                        Some((it, np2)) => {
                            if np2 > pos {
                                match rd_values(b, np2) {
                                    Some((bd, np3)) => Some((Value::Loop(n, it, bd), np3)),
                                    Option::None => Option::None,
                                }
                            } else {
                                Option::None
                            }
                        },
                        Option::None => Option::None,
                    }
                } else {
                    Option::None
                }
            },
            Option::None => Option::None,
        }
    } else if t == 20 {
        match rd_values(b, p1) {
            Some((ts, np)) => Some((Value::Wrap(ts), np)),
            Option::None => Option::None,
        }
    } else if t == 21 {
        Some((Value::Separator, p1))
    } else if t == 22 {
        Some((Value::Break, p1))
    } else if t == 23 {
        match rd_str(b, p1) {
            Some((n, np)) => Some((Value::File(n), np)),
            Option::None => Option::None,
        }
    } else {
        Option::None
    }
}

/// Reads `k` encoded values.
fn rd_velems(b: &Vec<u8>, pos: usize, k: u64) -> (r: Option<(Vec<Value>, usize)>)
    requires
        pos <= b@.len(),
    ensures
        match r {
            Some((vs, np)) => pos <= np <= b@.len()
                && dec_velems(b@.skip(pos as int), k as nat) == Some((vseq(vs@), b@.skip(np as int))),
            Option::None => dec_velems(b@.skip(pos as int), k as nat) is None,
        },
    decreases b@.len() - pos, k + 2int,
{
    if k == 0 {
        let out: Vec<Value> = Vec::new();
        proof {
            assert(vseq(out@) =~= Seq::<ValueV>::empty());
        }
        return Some((out, pos));
    }
    match rd_value(b, pos) {
        Option::None => Option::None,
        Some((v, np1)) => {
            if np1 > pos {
                match rd_velems(b, np1, k - 1) {
                    Option::None => Option::None,
                    Some((vs, np2)) => {
                        let mut out = vs;
                        out.insert(0, v);
                        proof {
                            assert(vseq(out@) =~= seq![vv(out@[0])] + vseq(out@.subrange(1, out@.len() as int)));
                        }
                        Some((out, np2))
                    },
                }
            } else {
                Option::None
            }
        },
    }
}

/// Reads a counted value sequence.
fn rd_values(b: &Vec<u8>, pos: usize) -> (r: Option<(Vec<Value>, usize)>)
    requires
        pos <= b@.len(),
    ensures
        match r {
            Some((vs, np)) => pos <= np <= b@.len()
                && dec_values(b@.skip(pos as int)) == Some((vseq(vs@), b@.skip(np as int))),
            Option::None => dec_values(b@.skip(pos as int)) is None,
        },
    decreases b@.len() - pos, 1int,
{
    match rd_u64(b, pos) {
        Option::None => Option::None,
        Some((n, np1)) => {
            if np1 > pos {
                rd_velems(b, np1, n)
            } else {
                Option::None
            }
        },
    }
}

/// Reads `k` counted strings.
fn rd_strelems(b: &Vec<u8>, pos: usize, k: u64) -> (r: Option<(Vec<String>, usize)>)
    requires
        pos <= b@.len(),
    ensures
        match r {
            Some((ss, np)) => pos <= np <= b@.len()
                && dec_strelems(b@.skip(pos as int), k as nat) == Some((strseq(ss@), b@.skip(np as int))),
            Option::None => dec_strelems(b@.skip(pos as int), k as nat) is None,
        },
    decreases k,
{
    if k == 0 {
        let out: Vec<String> = Vec::new();
        proof {
            assert(strseq(out@) =~= Seq::<Seq<char>>::empty());
        }
        return Some((out, pos));
    }
    match rd_str(b, pos) {
        Option::None => Option::None,
        Some((s, np1)) => {
            match rd_strelems(b, np1, k - 1) {
                Option::None => Option::None,
                Some((ss, np2)) => {
                    let mut out = ss;
                    out.insert(0, s);
                    proof {
                        assert(strseq(out@) =~= seq![out@[0]@] + strseq(out@.subrange(1, out@.len() as int)));
                    }
                    Some((out, np2))
                },
            }
        },
    }
}

/// Reads a counted string sequence.
fn rd_strs(b: &Vec<u8>, pos: usize) -> (r: Option<(Vec<String>, usize)>)
    requires
        pos <= b@.len(),
    ensures
        match r {
            Some((ss, np)) => pos <= np <= b@.len()
                && dec_strs(b@.skip(pos as int)) == Some((strseq(ss@), b@.skip(np as int))),
            Option::None => dec_strs(b@.skip(pos as int)) is None,
        },
{
    match rd_u64(b, pos) {
        Option::None => Option::None,
        Some((n, np1)) => rd_strelems(b, np1, n),
    }
}

/// Reads `k` (guard, branch) pairs.
fn rd_brelems(b: &Vec<u8>, pos: usize, k: u64) -> (r: Option<(Vec<(Vec<Value>, Vec<Value>)>, usize)>)
    requires
        pos <= b@.len(),
    ensures
        match r {
            Some((bs, np)) => pos <= np <= b@.len()
                && dec_brelems(b@.skip(pos as int), k as nat) == Some((velse(bs@), b@.skip(np as int))),
            Option::None => dec_brelems(b@.skip(pos as int), k as nat) is None,
        },
    decreases b@.len() - pos, k + 2int,
{
    if k == 0 {
        let out: Vec<(Vec<Value>, Vec<Value>)> = Vec::new();
        proof {
            assert(velse(out@) =~= Seq::<(Seq<ValueV>, Seq<ValueV>)>::empty());
        }
        return Some((out, pos));
    }
    match rd_values(b, pos) {
        Option::None => Option::None,
        Some((g, np1)) => {
            if np1 > pos {
                match rd_values(b, np1) {
                    Option::None => Option::None,
                    Some((blk, np2)) => {
                        if np2 > pos {
                            match rd_brelems(b, np2, k - 1) {
                                Option::None => Option::None,
                                Some((bs, np3)) => {
                                    let mut out = bs;
                                    out.insert(0, (g, blk));
                                    proof {
                                        assert(velse(out@) =~= seq![(vseq(out@[0].0@), vseq(out@[0].1@))] + velse(out@.subrange(1, out@.len() as int)));
                                    }
                                    Some((out, np3))
                                },
                            }
                        } else {
                            Option::None
                        }
                    },
                }
            } else {
                Option::None
            }
        },
    }
}

/// Reads the counted (guard, branch) pairs of a condition.
fn rd_branches(b: &Vec<u8>, pos: usize) -> (r: Option<(Vec<(Vec<Value>, Vec<Value>)>, usize)>)
    requires
        pos <= b@.len(),
    ensures
        match r {
            Some((bs, np)) => pos <= np <= b@.len()
                && dec_branches(b@.skip(pos as int)) == Some((velse(bs@), b@.skip(np as int))),
            Option::None => dec_branches(b@.skip(pos as int)) is None,
        },
    decreases b@.len() - pos, 1int,
{
    match rd_u64(b, pos) {
        Option::None => Option::None,
        Some((n, np1)) => {
            if np1 > pos {
                rd_brelems(b, np1, n)
            } else {
                Option::None
            }
        },
    }
}

/// Reads `k` counted body lines.
fn rd_linelems(b: &Vec<u8>, pos: usize, k: u64) -> (r: Option<(Vec<Vec<Value>>, usize)>)
    requires
        pos <= b@.len(),
    ensures
        match r {
            Some((ls, np)) => pos <= np <= b@.len()
                && dec_linelems(b@.skip(pos as int), k as nat) == Some((vlines(ls@), b@.skip(np as int))),
            Option::None => dec_linelems(b@.skip(pos as int), k as nat) is None,
        },
    decreases k,
{
    if k == 0 {
        let out: Vec<Vec<Value>> = Vec::new();
        proof {
            assert(vlines(out@) =~= Seq::<Seq<ValueV>>::empty());
        }
        return Some((out, pos));
    }
    match rd_values(b, pos) {
        Option::None => Option::None,
        Some((l, np1)) => {
            match rd_linelems(b, np1, k - 1) {
                Option::None => Option::None,
                Some((ls, np2)) => {
                    let mut out = ls;
                    out.insert(0, l);
                    proof {
                        assert(vlines(out@) =~= seq![vseq(out@[0]@)] + vlines(out@.subrange(1, out@.len() as int)));
                    }
                    Some((out, np2))
                },
            }
        },
    }
}

/// Reads one encoded function table entry.
fn rd_fn(b: &Vec<u8>, pos: usize) -> (r: Option<(Function, usize)>)
    requires
        pos <= b@.len(),
    ensures
        match r {
            Some((f, np)) => pos <= np <= b@.len()
                && dec_fn(b@.skip(pos as int)) == Some((fview(f), b@.skip(np as int))),
            Option::None => dec_fn(b@.skip(pos as int)) is None,
        },
{
    match rd_str(b, pos) {
        Option::None => Option::None,
        Some((name, np1)) => {
            match rd_strs(b, np1) {
                Option::None => Option::None,
                Some((params, np2)) => {
                    match rd_u64(b, np2) {
                        Option::None => Option::None,
                        Some((n, np3)) => {
                            match rd_linelems(b, np3, n) {
                                Option::None => Option::None,
                                Some((body, np4)) => Some((Function { name, params, body }, np4)),
                            }
                        },
                    }
                },
            }
        },
    }
}

/// Reads `k` function table entries.
fn rd_fnelems(b: &Vec<u8>, pos: usize, k: u64) -> (r: Option<(Vec<Function>, usize)>)
    requires
        pos <= b@.len(),
    ensures
        match r {
            Some((fs, np)) => pos <= np <= b@.len()
                && dec_fnelems(b@.skip(pos as int), k as nat) == Some((fnsv(fs@), b@.skip(np as int))),
            Option::None => dec_fnelems(b@.skip(pos as int), k as nat) is None,
        },
    decreases k,
{
    if k == 0 {
        let out: Vec<Function> = Vec::new();
        proof {
            assert(fnsv(out@) =~= Seq::<FunctionV>::empty());
        }
        return Some((out, pos));
    }
    match rd_fn(b, pos) {
        Option::None => Option::None,
        Some((f, np1)) => {
            match rd_fnelems(b, np1, k - 1) {
                Option::None => Option::None,
                Some((fs, np2)) => {
                    let mut out = fs;
                    out.insert(0, f);
                    proof {
                        assert(fnsv(out@) =~= seq![fview(out@[0])] + fnsv(out@.subrange(1, out@.len() as int)));
                    }
                    Some((out, np2))
                },
            }
        },
    }
}

/// The function table a byte string encodes, when it encodes one exactly.
pub fn decode_table(b: &Vec<u8>) -> (r: Option<Vec<Function>>)
    ensures
        match r {
            Some(t) => dec_table(b@) == Some(fnsv(t@)),
            Option::None => dec_table(b@) is None,
        },
{
    proof {
        assert(b@.skip(0) =~= b@);
    }
    match rd_u64(b, 0) {
        Option::None => Option::None,
        Some((n, np1)) => {
            match rd_fnelems(b, np1, n) {
                Option::None => Option::None,
                Some((fs, np2)) => {
                    if np2 == b.len() {
                        proof {
                            assert(b@.skip(np2 as int).len() == 0);
                        }
                        Some(fs)
                    } else {
                        proof {
                            assert(b@.skip(np2 as int).len() != 0);
                        }
                        Option::None
                    }
                },
            }
        },
    }
}

/// Every count in the value fits the 64-bit length field of the encoding.
pub open spec fn wf_value(v: ValueV) -> bool
    decreases v, 0int,
{
    match v {
        ValueV::Null => true,
        ValueV::Integer(_) => true,
        ValueV::Float(_) => true,
        ValueV::Str(s) => s.len() <= u64::MAX,
        ValueV::Bool(_) => true,
        ValueV::Array(el, _, _) => wf_velems(el),
        ValueV::Or(ts) => wf_velems(ts),
        ValueV::And(ts) => wf_velems(ts),
        ValueV::Property(n, args) => n.len() <= u64::MAX && wf_velems(args),
        ValueV::PropertyFunction(f, fa, pn, pa) => f.len() <= u64::MAX && wf_velems(fa) && pn.len() <= u64::MAX && wf_velems(pa),
        ValueV::VariableIdentifier(n) => n.len() <= u64::MAX,
        ValueV::FunctionCall(n, args) => n.len() <= u64::MAX && wf_velems(args),
        ValueV::NamespaceFunctionCall(ns, n, args) => wf_strs(ns) && n.len() <= u64::MAX && wf_velems(args),
        ValueV::FunctionReturn(ts) => wf_velems(ts),
        ValueV::Priority(ts) => wf_velems(ts),
        ValueV::Operation(_) => true,
        ValueV::VariableDeclaration(n, e, _) => n.len() <= u64::MAX && wf_velems(e),
        ValueV::Condition(g, t, e) => wf_velems(g) && wf_velems(t) && wf_branches(e),
        ValueV::While(g, b) => wf_velems(g) && wf_velems(b),
        ValueV::Loop(n, it, b) => n.len() <= u64::MAX && wf_velems(it) && wf_velems(b),
        ValueV::Wrap(ts) => wf_velems(ts),
        ValueV::Separator => true,
        ValueV::Break => true,
        ValueV::File(n) => n.len() <= u64::MAX,
    }
}

/// Every count in the sequence and its elements fits the length field.
pub open spec fn wf_velems(s: Seq<ValueV>) -> bool
    decreases s, 1int,
{
    s.len() <= u64::MAX && (forall|i: int| 0 <= i < s.len() ==> wf_value(#[trigger] s[i]))
}

/// Every count in the string sequence fits the length field.
pub open spec fn wf_strs(s: Seq<Seq<char>>) -> bool {
    s.len() <= u64::MAX && (forall|i: int| 0 <= i < s.len() ==> (#[trigger] s[i]).len() <= u64::MAX)
}

/// Every count in the (guard, branch) pairs fits the length field.
pub open spec fn wf_branches(s: Seq<(Seq<ValueV>, Seq<ValueV>)>) -> bool
    decreases s, 1int,
{
    s.len() <= u64::MAX && (forall|i: int| 0 <= i < s.len()
        ==> wf_velems((#[trigger] s[i]).0) && wf_velems(s[i].1))
}

/// Every count in the function entry fits the length field.
pub open spec fn wf_fn(f: FunctionV) -> bool {
    f.name.len() <= u64::MAX && wf_strs(f.params) && f.body.len() <= u64::MAX
        && (forall|i: int| 0 <= i < f.body.len() ==> wf_velems(#[trigger] f.body[i]))
}

/// Every count in the table fits the length field.
pub open spec fn wf_table(t: Seq<FunctionV>) -> bool {
    t.len() <= u64::MAX && (forall|i: int| 0 <= i < t.len() ==> wf_fn(#[trigger] t[i]))
}

/// Reading the eight little-endian bytes of a value gives it back.
proof fn lemma_rt_u64(n: u64, rest: Seq<u8>)
    ensures
        dec_u64(enc_u64(n) + rest) == Some((n, rest)),
{
    let b = enc_u64(n) + rest;
    assert(b.skip(8) =~= rest);
    let b0 = (n & 0xff) as u8;
    let b1 = ((n >> 8) & 0xff) as u8;
    let b2 = ((n >> 16) & 0xff) as u8;
    let b3 = ((n >> 24) & 0xff) as u8;
    let b4 = ((n >> 32) & 0xff) as u8;
    let b5 = ((n >> 40) & 0xff) as u8;
    let b6 = ((n >> 48) & 0xff) as u8;
    let b7 = ((n >> 56) & 0xff) as u8;
    assert(b[0] == b0 && b[1] == b1 && b[2] == b2 && b[3] == b3
        && b[4] == b4 && b[5] == b5 && b[6] == b6 && b[7] == b7);
    assert((b0 as u64)
        | ((b1 as u64) << 8)
        | ((b2 as u64) << 16)
        | ((b3 as u64) << 24)
        | ((b4 as u64) << 32)
        | ((b5 as u64) << 40)
        | ((b6 as u64) << 48)
        | ((b7 as u64) << 56) == n) by (bit_vector)
        requires
            b0 == (n & 0xff) as u8,
            b1 == ((n >> 8) & 0xff) as u8,
            b2 == ((n >> 16) & 0xff) as u8,
            b3 == ((n >> 24) & 0xff) as u8,
            b4 == ((n >> 32) & 0xff) as u8,
            b5 == ((n >> 40) & 0xff) as u8,
            b6 == ((n >> 48) & 0xff) as u8,
            b7 == ((n >> 56) & 0xff) as u8,
    ;
}

/// Reading the four little-endian bytes of a value gives it back.
proof fn lemma_rt_u32(n: u32, rest: Seq<u8>)
    ensures
        dec_u32(enc_u32(n) + rest) == Some((n, rest)),
{
    let b = enc_u32(n) + rest;
    assert(b.skip(4) =~= rest);
    let b0 = (n & 0xff) as u8;
    let b1 = ((n >> 8) & 0xff) as u8;
    let b2 = ((n >> 16) & 0xff) as u8;
    let b3 = ((n >> 24) & 0xff) as u8;
    assert(b[0] == b0 && b[1] == b1 && b[2] == b2 && b[3] == b3);
    assert((b0 as u32)
        | ((b1 as u32) << 8)
        | ((b2 as u32) << 16)
        | ((b3 as u32) << 24) == n) by (bit_vector)
        requires
            b0 == (n & 0xff) as u8,
            b1 == ((n >> 8) & 0xff) as u8,
            b2 == ((n >> 16) & 0xff) as u8,
            b3 == ((n >> 24) & 0xff) as u8,
    ;
}

/// Reading an encoded truth value gives it back.
proof fn lemma_rt_bool(v: bool, rest: Seq<u8>)
    ensures
        dec_bool(enc_bool(v) + rest) == Some((v, rest)),
{
    let b = enc_bool(v) + rest;
    assert(b.skip(1) =~= rest);
}

/// Reading an encoded character gives it back.
proof fn lemma_rt_char(c: char, rest: Seq<u8>)
    ensures
        dec_char(enc_char(c) + rest) == Some((c, rest)),
{
    lemma_rt_u32(c as u32, rest);
    vstd::utf8::char_is_scalar(c);
    assert(scalar_ok(c as u32));
    vstd::utf8::char_u32_cast(c, c as u32);
}

/// The character encoding laid out from the front.
proof fn lemma_enc_chars_front(s: Seq<char>)
    requires
        s.len() > 0,
    ensures
        enc_chars(s) == enc_char(s[0]) + enc_chars(s.skip(1)),
    decreases s.len(),
{
    if s.len() == 1 {
        assert(s.drop_last() =~= Seq::<char>::empty());
        assert(s.skip(1) =~= Seq::<char>::empty());
        assert(enc_chars(s) =~= enc_char(s[0]) + enc_chars(s.skip(1)));
    } else {
        lemma_enc_chars_front(s.drop_last());
        assert(s.drop_last()[0] == s[0]);
        assert(s.skip(1).drop_last() =~= s.drop_last().skip(1));
        assert(s.skip(1).last() == s.last());
        assert(enc_chars(s) == enc_chars(s.drop_last()) + enc_char(s.last()));
        assert(enc_chars(s.skip(1)) == enc_chars(s.skip(1).drop_last()) + enc_char(s.skip(1).last()));
        assert(enc_chars(s) =~= enc_char(s[0]) + enc_chars(s.skip(1)));
    }
}

/// Reading back `k` encoded characters gives them back.
proof fn lemma_rt_chars(s: Seq<char>, rest: Seq<u8>)
    ensures
        dec_chars(enc_chars(s) + rest, s.len()) == Some((s, rest)),
    decreases s.len(),
{
    if s.len() == 0 {
        assert(enc_chars(s) + rest =~= rest);
    } else {
        lemma_enc_chars_front(s);
        let b = enc_chars(s) + rest;
        assert(b =~= enc_char(s[0]) + (enc_chars(s.skip(1)) + rest));
        lemma_rt_char(s[0], enc_chars(s.skip(1)) + rest);
        lemma_rt_chars(s.skip(1), rest);
        assert(seq![s[0]] + s.skip(1) =~= s);
    }
}

/// Reading an encoded counted string gives it back.
proof fn lemma_rt_str(s: Seq<char>, rest: Seq<u8>)
    requires
        s.len() <= u64::MAX,
    ensures
        dec_str(enc_str(s) + rest) == Some((s, rest)),
{
    let b = enc_str(s) + rest;
    assert(b =~= enc_u64(s.len() as u64) + (enc_chars(s) + rest));
    lemma_rt_u64(s.len() as u64, enc_chars(s) + rest);
    lemma_rt_chars(s, rest);
}

/// Reading an encoded operator tag gives it back.
proof fn lemma_rt_op(op: BasicOperator)
    ensures
        dec_op(opcode(op)) == Some(op),
{
}

/// Every encoded value starts with its tag byte.
proof fn lemma_enc_value_len(v: ValueV)
    ensures
        enc_value(v).len() >= 1,
{
}

/// The value-sequence encoding laid out from the front.
proof fn lemma_enc_velems_front(s: Seq<ValueV>)
    requires
        s.len() > 0,
    ensures
        enc_velems(s) == enc_value(s[0]) + enc_velems(s.skip(1)),
    decreases s.len(),
{
    if s.len() == 1 {
        assert(s.drop_last() =~= Seq::<ValueV>::empty());
        assert(s.skip(1) =~= Seq::<ValueV>::empty());
        assert(enc_velems(s) =~= enc_value(s[0]) + enc_velems(s.skip(1)));
    } else {
        lemma_enc_velems_front(s.drop_last());
        assert(s.drop_last()[0] == s[0]);
        assert(s.skip(1).drop_last() =~= s.drop_last().skip(1));
        assert(s.skip(1).last() == s.last());
        assert(enc_velems(s.skip(1)) == enc_velems(s.skip(1).drop_last()) + enc_value(s.skip(1).last()));
        assert(enc_velems(s) =~= enc_value(s[0]) + enc_velems(s.skip(1)));
    }
}

/// The string-sequence encoding laid out from the front.
proof fn lemma_enc_strelems_front(s: Seq<Seq<char>>)
    requires
        s.len() > 0,
    ensures
        enc_strelems(s) == enc_str(s[0]) + enc_strelems(s.skip(1)),
    decreases s.len(),
{
    if s.len() == 1 {
        assert(s.drop_last() =~= Seq::<Seq<char>>::empty());
        assert(s.skip(1) =~= Seq::<Seq<char>>::empty());
        assert(enc_strelems(s) =~= enc_str(s[0]) + enc_strelems(s.skip(1)));
    } else {
        lemma_enc_strelems_front(s.drop_last());
        assert(s.drop_last()[0] == s[0]);
        assert(s.skip(1).drop_last() =~= s.drop_last().skip(1));
        assert(s.skip(1).last() == s.last());
        assert(enc_strelems(s.skip(1)) == enc_strelems(s.skip(1).drop_last()) + enc_str(s.skip(1).last()));
        assert(enc_strelems(s) =~= enc_str(s[0]) + enc_strelems(s.skip(1)));
    }
}

/// The branch-pair encoding laid out from the front.
proof fn lemma_enc_brelems_front(s: Seq<(Seq<ValueV>, Seq<ValueV>)>)
    requires
        s.len() > 0,
    ensures
        enc_brelems(s) == enc_values(s[0].0) + enc_values(s[0].1) + enc_brelems(s.skip(1)),
    decreases s.len(),
{
    if s.len() == 1 {
        assert(s.drop_last() =~= Seq::<(Seq<ValueV>, Seq<ValueV>)>::empty());
        assert(s.skip(1) =~= Seq::<(Seq<ValueV>, Seq<ValueV>)>::empty());
        assert(enc_brelems(s) =~= enc_values(s[0].0) + enc_values(s[0].1) + enc_brelems(s.skip(1)));
    } else {
        lemma_enc_brelems_front(s.drop_last());
        assert(s.drop_last()[0] == s[0]);
        assert(s.skip(1).drop_last() =~= s.drop_last().skip(1));
        assert(s.skip(1).last() == s.last());
        assert(enc_brelems(s.skip(1)) == enc_brelems(s.skip(1).drop_last()) + enc_values(s.skip(1).last().0) + enc_values(s.skip(1).last().1));
        assert(enc_brelems(s) =~= enc_values(s[0].0) + enc_values(s[0].1) + enc_brelems(s.skip(1)));
    }
}

/// The body-line encoding laid out from the front.
proof fn lemma_enc_linelems_front(s: Seq<Seq<ValueV>>)
    requires
        s.len() > 0,
    ensures
        enc_linelems(s) == enc_values(s[0]) + enc_linelems(s.skip(1)),
    decreases s.len(),
{
    if s.len() == 1 {
        assert(s.drop_last() =~= Seq::<Seq<ValueV>>::empty());
        assert(s.skip(1) =~= Seq::<Seq<ValueV>>::empty());
        assert(enc_linelems(s) =~= enc_values(s[0]) + enc_linelems(s.skip(1)));
    } else {
        lemma_enc_linelems_front(s.drop_last());
        assert(s.drop_last()[0] == s[0]);
        assert(s.skip(1).drop_last() =~= s.drop_last().skip(1));
        assert(s.skip(1).last() == s.last());
        assert(enc_linelems(s.skip(1)) == enc_linelems(s.skip(1).drop_last()) + enc_values(s.skip(1).last()));
        assert(enc_linelems(s) =~= enc_values(s[0]) + enc_linelems(s.skip(1)));
    }
}

/// The table encoding laid out from the front.
proof fn lemma_enc_fnelems_front(s: Seq<FunctionV>)
    requires
        s.len() > 0,
    ensures
        enc_fnelems(s) == enc_fn(s[0]) + enc_fnelems(s.skip(1)),
    decreases s.len(),
{
    if s.len() == 1 {
        assert(s.drop_last() =~= Seq::<FunctionV>::empty());
        assert(s.skip(1) =~= Seq::<FunctionV>::empty());
        assert(enc_fnelems(s) =~= enc_fn(s[0]) + enc_fnelems(s.skip(1)));
    } else {
        lemma_enc_fnelems_front(s.drop_last());
        assert(s.drop_last()[0] == s[0]);
        assert(s.skip(1).drop_last() =~= s.drop_last().skip(1));
        assert(s.skip(1).last() == s.last());
        assert(enc_fnelems(s.skip(1)) == enc_fnelems(s.skip(1).drop_last()) + enc_fn(s.skip(1).last()));
        assert(enc_fnelems(s) =~= enc_fn(s[0]) + enc_fnelems(s.skip(1)));
    }
}

/// Reading an encoded string sequence gives it back.
proof fn lemma_rt_strelems(s: Seq<Seq<char>>, rest: Seq<u8>)
    requires
        wf_strs(s),
    ensures
        dec_strelems(enc_strelems(s) + rest, s.len()) == Some((s, rest)),
    decreases s.len(),
{
    if s.len() == 0 {
        assert(enc_strelems(s) + rest =~= rest);
    } else {
        lemma_enc_strelems_front(s);
        let b = enc_strelems(s) + rest;
        assert(b =~= enc_str(s[0]) + (enc_strelems(s.skip(1)) + rest));
        lemma_rt_str(s[0], enc_strelems(s.skip(1)) + rest);
        assert(wf_strs(s.skip(1)));
        lemma_rt_strelems(s.skip(1), rest);
        assert(seq![s[0]] + s.skip(1) =~= s);
    }
}

/// Reading an encoded counted string sequence gives it back.
proof fn lemma_rt_strs(s: Seq<Seq<char>>, rest: Seq<u8>)
    requires
        wf_strs(s),
    ensures
        dec_strs(enc_strs(s) + rest) == Some((s, rest)),
{
    let b = enc_strs(s) + rest;
    assert(b =~= enc_u64(s.len() as u64) + (enc_strelems(s) + rest));
    lemma_rt_u64(s.len() as u64, enc_strelems(s) + rest);
    lemma_rt_strelems(s, rest);
}

/// Reading back one encoded value of this form gives it back.
#[verifier::rlimit(100)]
#[verifier::spinoff_prover]
proof fn lemma_rt_v_str(x0: Seq<char>, rest: Seq<u8>)
    requires
        x0.len() <= u64::MAX,
    ensures
        dec_value(enc_value(ValueV::Str(x0)) + rest) == Some((ValueV::Str(x0), rest)),
    decreases ValueV::Str(x0), 0int,
{
    let v = ValueV::Str(x0);
    let b = enc_value(v) + rest;

    assert(b.skip(1) =~= enc_str(x0) + rest);
    lemma_rt_str(x0, rest);
}

/// Reading back one encoded value of this form gives it back.
#[verifier::rlimit(100)]
#[verifier::spinoff_prover]
proof fn lemma_rt_v_varid(x0: Seq<char>, rest: Seq<u8>)
    requires
        x0.len() <= u64::MAX,
    ensures
        dec_value(enc_value(ValueV::VariableIdentifier(x0)) + rest) == Some((ValueV::VariableIdentifier(x0), rest)),
    decreases ValueV::VariableIdentifier(x0), 0int,
{
    let v = ValueV::VariableIdentifier(x0);
    let b = enc_value(v) + rest;

    assert(b.skip(1) =~= enc_str(x0) + rest);
    lemma_rt_str(x0, rest);
}

/// Reading back one encoded value of this form gives it back.
#[verifier::rlimit(100)]
#[verifier::spinoff_prover]
proof fn lemma_rt_v_file(x0: Seq<char>, rest: Seq<u8>)
    requires
        x0.len() <= u64::MAX,
    ensures
        dec_value(enc_value(ValueV::File(x0)) + rest) == Some((ValueV::File(x0), rest)),
    decreases ValueV::File(x0), 0int,
{
    let v = ValueV::File(x0);
    let b = enc_value(v) + rest;

    assert(b.skip(1) =~= enc_str(x0) + rest);
    lemma_rt_str(x0, rest);
}

/// Reading back one encoded value of this form gives it back.
#[verifier::rlimit(100)]
#[verifier::spinoff_prover]
proof fn lemma_rt_v_or(x0: Seq<ValueV>, rest: Seq<u8>)
    requires
        wf_velems(x0),
    ensures
        dec_value(enc_value(ValueV::Or(x0)) + rest) == Some((ValueV::Or(x0), rest)),
    decreases ValueV::Or(x0), 0int,
{
    let v = ValueV::Or(x0);
    let b = enc_value(v) + rest;

    assert(b.skip(1) =~= enc_values(x0) + rest);
    lemma_rt_values(x0, rest);
}

/// Reading back one encoded value of this form gives it back.
#[verifier::rlimit(100)]
#[verifier::spinoff_prover]
proof fn lemma_rt_v_and(x0: Seq<ValueV>, rest: Seq<u8>)
    requires
        wf_velems(x0),
    ensures
        dec_value(enc_value(ValueV::And(x0)) + rest) == Some((ValueV::And(x0), rest)),
    decreases ValueV::And(x0), 0int,
{
    let v = ValueV::And(x0);
    let b = enc_value(v) + rest;

    assert(b.skip(1) =~= enc_values(x0) + rest);
    lemma_rt_values(x0, rest);
}

/// Reading back one encoded value of this form gives it back.
#[verifier::rlimit(100)]
#[verifier::spinoff_prover]
proof fn lemma_rt_v_fret(x0: Seq<ValueV>, rest: Seq<u8>)
    requires
        wf_velems(x0),
    ensures
        dec_value(enc_value(ValueV::FunctionReturn(x0)) + rest) == Some((ValueV::FunctionReturn(x0), rest)),
    decreases ValueV::FunctionReturn(x0), 0int,
{
    let v = ValueV::FunctionReturn(x0);
    let b = enc_value(v) + rest;

    assert(b.skip(1) =~= enc_values(x0) + rest);
    lemma_rt_values(x0, rest);
}

/// Reading back one encoded value of this form gives it back.
#[verifier::rlimit(100)]
#[verifier::spinoff_prover]
proof fn lemma_rt_v_prio(x0: Seq<ValueV>, rest: Seq<u8>)
    requires
        wf_velems(x0),
    ensures
        dec_value(enc_value(ValueV::Priority(x0)) + rest) == Some((ValueV::Priority(x0), rest)),
    decreases ValueV::Priority(x0), 0int,
{
    let v = ValueV::Priority(x0);
    let b = enc_value(v) + rest;

    assert(b.skip(1) =~= enc_values(x0) + rest);
    lemma_rt_values(x0, rest);
}

/// Reading back one encoded value of this form gives it back.
#[verifier::rlimit(100)]
#[verifier::spinoff_prover]
proof fn lemma_rt_v_wrap(x0: Seq<ValueV>, rest: Seq<u8>)
    requires
        wf_velems(x0),
    ensures
        dec_value(enc_value(ValueV::Wrap(x0)) + rest) == Some((ValueV::Wrap(x0), rest)),
    decreases ValueV::Wrap(x0), 0int,
{
    let v = ValueV::Wrap(x0);
    let b = enc_value(v) + rest;

    assert(b.skip(1) =~= enc_values(x0) + rest);
    lemma_rt_values(x0, rest);
}

/// Reading back one encoded value of this form gives it back.
#[verifier::rlimit(100)]
#[verifier::spinoff_prover]
proof fn lemma_rt_v_array(x0: Seq<ValueV>, x1: bool, x2: bool, rest: Seq<u8>)
    requires
        wf_velems(x0),
    ensures
        dec_value(enc_value(ValueV::Array(x0, x1, x2)) + rest) == Some((ValueV::Array(x0, x1, x2), rest)),
    decreases ValueV::Array(x0, x1, x2), 0int,
{
    let v = ValueV::Array(x0, x1, x2);
    let b = enc_value(v) + rest;
    let r2 = enc_values(x0) + rest;
    let r1 = enc_bool(x2) + r2;
    assert(b.skip(1) =~= enc_bool(x1) + r1);
    lemma_rt_bool(x1, r1);
    lemma_rt_bool(x2, r2);
    lemma_rt_values(x0, rest);
}

/// Reading back one encoded value of this form gives it back.
#[verifier::rlimit(100)]
#[verifier::spinoff_prover]
proof fn lemma_rt_v_prop(x0: Seq<char>, x1: Seq<ValueV>, rest: Seq<u8>)
    requires
        x0.len() <= u64::MAX,
        wf_velems(x1),
    ensures
        dec_value(enc_value(ValueV::Property(x0, x1)) + rest) == Some((ValueV::Property(x0, x1), rest)),
    decreases ValueV::Property(x0, x1), 0int,
{
    let v = ValueV::Property(x0, x1);
    let b = enc_value(v) + rest;
    let r1 = enc_values(x1) + rest;
    assert(b.skip(1) =~= enc_str(x0) + r1);
    lemma_rt_str(x0, r1);
    lemma_rt_values(x1, rest);
}

/// Reading back one encoded value of this form gives it back.
#[verifier::rlimit(100)]
#[verifier::spinoff_prover]
proof fn lemma_rt_v_fcall(x0: Seq<char>, x1: Seq<ValueV>, rest: Seq<u8>)
    requires
        x0.len() <= u64::MAX,
        wf_velems(x1),
    ensures
        dec_value(enc_value(ValueV::FunctionCall(x0, x1)) + rest) == Some((ValueV::FunctionCall(x0, x1), rest)),
    decreases ValueV::FunctionCall(x0, x1), 0int,
{
    let v = ValueV::FunctionCall(x0, x1);
    let b = enc_value(v) + rest;
    let r1 = enc_values(x1) + rest;
    assert(b.skip(1) =~= enc_str(x0) + r1);
    lemma_rt_str(x0, r1);
    lemma_rt_values(x1, rest);
}

/// Reading back one encoded value of this form gives it back.
#[verifier::rlimit(100)]
#[verifier::spinoff_prover]
proof fn lemma_rt_v_pfun(x0: Seq<char>, x1: Seq<ValueV>, x2: Seq<char>, x3: Seq<ValueV>, rest: Seq<u8>)
    requires
        x0.len() <= u64::MAX,
        wf_velems(x1),
        x2.len() <= u64::MAX,
        wf_velems(x3),
    ensures
        dec_value(enc_value(ValueV::PropertyFunction(x0, x1, x2, x3)) + rest) == Some((ValueV::PropertyFunction(x0, x1, x2, x3), rest)),
    decreases ValueV::PropertyFunction(x0, x1, x2, x3), 0int,
{
    let v = ValueV::PropertyFunction(x0, x1, x2, x3);
    let b = enc_value(v) + rest;
    let r3 = enc_values(x3) + rest;
    let r2 = enc_str(x2) + r3;
    let r1 = enc_values(x1) + r2;
    assert(b.skip(1) =~= enc_str(x0) + r1);
    lemma_rt_str(x0, r1);
    lemma_rt_values(x1, r2);
    lemma_rt_str(x2, r3);
    lemma_rt_values(x3, rest);
}

/// Reading back one encoded value of this form gives it back.
#[verifier::rlimit(100)]
#[verifier::spinoff_prover]
proof fn lemma_rt_v_nscall(x0: Seq<Seq<char>>, x1: Seq<char>, x2: Seq<ValueV>, rest: Seq<u8>)
    requires
        wf_strs(x0),
        x1.len() <= u64::MAX,
        wf_velems(x2),
    ensures
        dec_value(enc_value(ValueV::NamespaceFunctionCall(x0, x1, x2)) + rest) == Some((ValueV::NamespaceFunctionCall(x0, x1, x2), rest)),
    decreases ValueV::NamespaceFunctionCall(x0, x1, x2), 0int,
{
    let v = ValueV::NamespaceFunctionCall(x0, x1, x2);
    let b = enc_value(v) + rest;
    let r2 = enc_values(x2) + rest;
    let r1 = enc_str(x1) + r2;
    assert(b.skip(1) =~= enc_strs(x0) + r1);
    lemma_rt_strs(x0, r1);
    lemma_rt_str(x1, r2);
    lemma_rt_values(x2, rest);
}

/// Reading back one encoded value of this form gives it back.
#[verifier::rlimit(100)]
#[verifier::spinoff_prover]
proof fn lemma_rt_v_vardecl(x0: Seq<char>, x1: Seq<ValueV>, x2: bool, rest: Seq<u8>)
    requires
        x0.len() <= u64::MAX,
        wf_velems(x1),
    ensures
        dec_value(enc_value(ValueV::VariableDeclaration(x0, x1, x2)) + rest) == Some((ValueV::VariableDeclaration(x0, x1, x2), rest)),
    decreases ValueV::VariableDeclaration(x0, x1, x2), 0int,
{
    let v = ValueV::VariableDeclaration(x0, x1, x2);
    let b = enc_value(v) + rest;
    let r2 = enc_values(x1) + rest;
    let r1 = enc_bool(x2) + r2;
    assert(b.skip(1) =~= enc_str(x0) + r1);
    lemma_rt_str(x0, r1);
    lemma_rt_bool(x2, r2);
    lemma_rt_values(x1, rest);
}

/// Reading back one encoded value of this form gives it back.
#[verifier::rlimit(100)]
#[verifier::spinoff_prover]
proof fn lemma_rt_v_cond(x0: Seq<ValueV>, x1: Seq<ValueV>, x2: Seq<(Seq<ValueV>, Seq<ValueV>)>, rest: Seq<u8>)
    requires
        wf_velems(x0),
        wf_velems(x1),
        wf_branches(x2),
    ensures
        dec_value(enc_value(ValueV::Condition(x0, x1, x2)) + rest) == Some((ValueV::Condition(x0, x1, x2), rest)),
    decreases ValueV::Condition(x0, x1, x2), 0int,
{
    let v = ValueV::Condition(x0, x1, x2);
    let b = enc_value(v) + rest;
    let r2 = enc_branches(x2) + rest;
    let r1 = enc_values(x1) + r2;
    assert(b.skip(1) =~= enc_values(x0) + r1);
    lemma_rt_values(x0, r1);
    lemma_rt_values(x1, r2);
    lemma_rt_branches(x2, rest);
}

/// Reading back one encoded value of this form gives it back.
#[verifier::rlimit(100)]
#[verifier::spinoff_prover]
proof fn lemma_rt_v_whileform(x0: Seq<ValueV>, x1: Seq<ValueV>, rest: Seq<u8>)
    requires
        wf_velems(x0),
        wf_velems(x1),
    ensures
        dec_value(enc_value(ValueV::While(x0, x1)) + rest) == Some((ValueV::While(x0, x1), rest)),
    decreases ValueV::While(x0, x1), 0int,
{
    let v = ValueV::While(x0, x1);
    let b = enc_value(v) + rest;
    let r1 = enc_values(x1) + rest;
    assert(b.skip(1) =~= enc_values(x0) + r1);
    lemma_rt_values(x0, r1);
    lemma_rt_values(x1, rest);
}

/// Reading back one encoded value of this form gives it back.
#[verifier::rlimit(100)]
#[verifier::spinoff_prover]
proof fn lemma_rt_v_loopform(x0: Seq<char>, x1: Seq<ValueV>, x2: Seq<ValueV>, rest: Seq<u8>)
    requires
        x0.len() <= u64::MAX,
        wf_velems(x1),
        wf_velems(x2),
    ensures
        dec_value(enc_value(ValueV::Loop(x0, x1, x2)) + rest) == Some((ValueV::Loop(x0, x1, x2), rest)),
    decreases ValueV::Loop(x0, x1, x2), 0int,
{
    let v = ValueV::Loop(x0, x1, x2);
    let b = enc_value(v) + rest;
    let r2 = enc_values(x2) + rest;
    let r1 = enc_values(x1) + r2;
    assert(b.skip(1) =~= enc_str(x0) + r1);
    lemma_rt_str(x0, r1);
    lemma_rt_values(x1, r2);
    lemma_rt_values(x2, rest);
}

/// Reading one encoded value gives it back.
#[verifier::rlimit(100)]
#[verifier::spinoff_prover]
proof fn lemma_rt_value(v: ValueV, rest: Seq<u8>)
    requires
        wf_value(v),
    ensures
        dec_value(enc_value(v) + rest) == Some((v, rest)),
    decreases v, 1int,
{
    let b = enc_value(v) + rest;
    match v {
        ValueV::Null => {
            assert(b.skip(1) =~= rest);
        },
        ValueV::Integer(n) => {
            assert(b.skip(1) =~= enc_u64(n as u64) + rest);
            lemma_rt_u64(n as u64, rest);
            assert((n as u64) as i64 == n) by (bit_vector);
        },
        ValueV::Float(n) => {
            assert(b.skip(1) =~= enc_u64(n) + rest);
            lemma_rt_u64(n, rest);
        },
        ValueV::Str(sv) => {
            lemma_rt_v_str(sv, rest);
        },
        ValueV::Bool(x) => {
            assert(b.skip(1) =~= enc_bool(x) + rest);
            lemma_rt_bool(x, rest);
        },
        ValueV::Array(el, pf, sf) => {
            lemma_rt_v_array(el, pf, sf, rest);
        },
        ValueV::Or(ts) => {
            lemma_rt_v_or(ts, rest);
        },
        ValueV::And(ts) => {
            lemma_rt_v_and(ts, rest);
        },
        ValueV::Property(n, args) => {
            lemma_rt_v_prop(n, args, rest);
        },
        ValueV::PropertyFunction(f, fa, pn, pa) => {
            lemma_rt_v_pfun(f, fa, pn, pa, rest);
        },
        ValueV::VariableIdentifier(n) => {
            lemma_rt_v_varid(n, rest);
        },
        ValueV::FunctionCall(n, args) => {
            lemma_rt_v_fcall(n, args, rest);
        },
        ValueV::NamespaceFunctionCall(ns, n, args) => {
            lemma_rt_v_nscall(ns, n, args, rest);
        },
        ValueV::FunctionReturn(ts) => {
            lemma_rt_v_fret(ts, rest);
        },
        ValueV::Priority(ts) => {
            lemma_rt_v_prio(ts, rest);
        },
        ValueV::Operation(op) => {
            assert(b.skip(1) =~= seq![opcode(op)] + rest);
            lemma_rt_op(op);
            assert(b.skip(1).skip(1) =~= rest);
        },
        ValueV::VariableDeclaration(n, e, re) => {
            lemma_rt_v_vardecl(n, e, re, rest);
        },
        ValueV::Condition(g, tb, e) => {
            lemma_rt_v_cond(g, tb, e, rest);
        },
        ValueV::While(g, bd) => {
            lemma_rt_v_whileform(g, bd, rest);
        },
        ValueV::Loop(n, it, bd) => {
            lemma_rt_v_loopform(n, it, bd, rest);
        },
        ValueV::Wrap(ts) => {
            lemma_rt_v_wrap(ts, rest);
        },
        ValueV::Separator => {
            assert(b.skip(1) =~= rest);
        },
        ValueV::Break => {
            assert(b.skip(1) =~= rest);
        },
        ValueV::File(n) => {
            lemma_rt_v_file(n, rest);
        },
    }
}

/// Reading back `k` encoded values gives them back.
proof fn lemma_rt_velems(s: Seq<ValueV>, rest: Seq<u8>)
    requires
        wf_velems(s),
    ensures
        dec_velems(enc_velems(s) + rest, s.len()) == Some((s, rest)),
    decreases s, 2int,
{
    if s.len() == 0 {
        assert(enc_velems(s) + rest =~= rest);
    } else {
        lemma_enc_velems_front(s);
        let b = enc_velems(s) + rest;
        let r1 = enc_velems(s.skip(1)) + rest;
        assert(b =~= enc_value(s[0]) + r1);
        lemma_rt_value(s[0], r1);
        lemma_enc_value_len(s[0]);
        assert(wf_velems(s.skip(1)));
        lemma_rt_velems(s.skip(1), rest);
        assert(seq![s[0]] + s.skip(1) =~= s);
    }
}

/// Reading an encoded counted value sequence gives it back.
proof fn lemma_rt_values(s: Seq<ValueV>, rest: Seq<u8>)
    requires
        wf_velems(s),
    ensures
        dec_values(enc_values(s) + rest) == Some((s, rest)),
    decreases s, 3int,
{
    let b = enc_values(s) + rest;
    assert(b =~= enc_u64(s.len() as u64) + (enc_velems(s) + rest));
    lemma_rt_u64(s.len() as u64, enc_velems(s) + rest);
    lemma_rt_velems(s, rest);
}

/// Reading back `k` encoded branch pairs gives them back.
proof fn lemma_rt_brelems(s: Seq<(Seq<ValueV>, Seq<ValueV>)>, rest: Seq<u8>)
    requires
        wf_branches(s),
    ensures
        dec_brelems(enc_brelems(s) + rest, s.len()) == Some((s, rest)),
    decreases s, 2int,
{
    if s.len() == 0 {
        assert(enc_brelems(s) + rest =~= rest);
    } else {
        lemma_enc_brelems_front(s);
        let b = enc_brelems(s) + rest;
        let r2 = enc_brelems(s.skip(1)) + rest;
        let r1 = enc_values(s[0].1) + r2;
        assert(b =~= enc_values(s[0].0) + r1);
        lemma_rt_values(s[0].0, r1);
        lemma_rt_values(s[0].1, r2);
        assert(wf_branches(s.skip(1)));
        lemma_rt_brelems(s.skip(1), rest);
        assert(seq![(s[0].0, s[0].1)] + s.skip(1) =~= s);
    }
}

/// Reading encoded counted branch pairs gives them back.
proof fn lemma_rt_branches(s: Seq<(Seq<ValueV>, Seq<ValueV>)>, rest: Seq<u8>)
    requires
        wf_branches(s),
    ensures
        dec_branches(enc_branches(s) + rest) == Some((s, rest)),
    decreases s, 3int,
{
    let b = enc_branches(s) + rest;
    assert(b =~= enc_u64(s.len() as u64) + (enc_brelems(s) + rest));
    lemma_rt_u64(s.len() as u64, enc_brelems(s) + rest);
    lemma_rt_brelems(s, rest);
}

/// Reading back `k` encoded body lines gives them back.
#[verifier::rlimit(100)]
proof fn lemma_rt_linelems(s: Seq<Seq<ValueV>>, rest: Seq<u8>)
    requires
        s.len() <= u64::MAX,
        forall|i: int| 0 <= i < s.len() ==> wf_velems(#[trigger] s[i]),
    ensures
        dec_linelems(enc_linelems(s) + rest, s.len()) == Some((s, rest)),
    decreases s.len(),
{
    if s.len() == 0 {
        assert(enc_linelems(s) + rest =~= rest);
    } else {
        lemma_enc_linelems_front(s);
        let b = enc_linelems(s) + rest;
        let r1 = enc_linelems(s.skip(1)) + rest;
        assert(b =~= enc_values(s[0]) + r1);
        lemma_rt_values(s[0], r1);
        lemma_rt_linelems(s.skip(1), rest);
        assert(seq![s[0]] + s.skip(1) =~= s);
    }
}

/// Reading one encoded function entry gives it back.
proof fn lemma_rt_fn(f: FunctionV, rest: Seq<u8>)
    requires
        wf_fn(f),
    ensures
        dec_fn(enc_fn(f) + rest) == Some((f, rest)),
{
    let b = enc_fn(f) + rest;
    let r3 = enc_linelems(f.body) + rest;
    let r2 = enc_u64(f.body.len() as u64) + r3;
    let r1 = enc_strs(f.params) + r2;
    assert(b =~= enc_str(f.name) + r1);
    lemma_rt_str(f.name, r1);
    lemma_rt_strs(f.params, r2);
    lemma_rt_u64(f.body.len() as u64, r3);
    lemma_rt_linelems(f.body, rest);
}

/// Reading back `k` encoded function entries gives them back.
#[verifier::rlimit(100)]
#[verifier::spinoff_prover]
proof fn lemma_rt_fnelems(s: Seq<FunctionV>, rest: Seq<u8>)
    requires
        wf_table(s),
    ensures
        dec_fnelems(enc_fnelems(s) + rest, s.len()) == Some((s, rest)),
    decreases s.len(),
{
    if s.len() == 0 {
        assert(enc_fnelems(s) + rest =~= rest);
    } else {
        lemma_enc_fnelems_front(s);
        let b = enc_fnelems(s) + rest;
        let r1 = enc_fnelems(s.skip(1)) + rest;
        assert(b =~= enc_fn(s[0]) + r1);
        lemma_rt_fn(s[0], r1);
        assert(wf_table(s.skip(1)));
        lemma_rt_fnelems(s.skip(1), rest);
        assert(seq![s[0]] + s.skip(1) =~= s);
    }
}

/// A cache hit and a cache miss for identical source text yield identical
/// function tables: the table read back from its stable binary encoding
/// is exactly the table that was persisted.
pub proof fn lemma_table_round_trip(t: Seq<FunctionV>)
    requires
        wf_table(t),
    ensures
        dec_table(enc_table(t)) == Some(t),
{
    let b = enc_table(t);
    assert(b =~= enc_u64(t.len() as u64) + (enc_fnelems(t) + Seq::<u8>::empty()));
    lemma_rt_u64(t.len() as u64, enc_fnelems(t) + Seq::<u8>::empty());
    lemma_rt_fnelems(t, Seq::<u8>::empty());
}

} // verus!
