//! The evaluation engine's model: a fuel-indexed, mutually recursive
//! definition of what the expression evaluator, function dispatch and the
//! statement execution engine compute. Every executable function of the
//! engine is proved equal to its model. Fuel only bounds depth: a run
//! that exhausts it reports so, and a host may grant more and rerun.

use vstd::prelude::*;
use crate::value::{BasicOperator, Value, ValueV, ValueKind, vv, vseq, velse, kind_of, kind, group_value_axioms};
use crate::machine::{
    Binding, BindingV, bview, envv, Function, FunctionV, fview, fnsv, vlines,
    EvalError, ErrV, errv, Request, RequestV, reqv, Answer, AnswerV, ansv, ansseq,
    Machine, MState, mst, m_take, m_log, take_answer, push_log,
    EvalOut, EvalOutV, outv, StmtOut, StmtOutV, stoutv,
};
use crate::ops::{OpOut, OpOutV, opoutv, m_binop, apply_binary};
use crate::env::{m_find_pos, m_lookup, m_in_prefix, m_merge, find_innermost, lookup_value, name_in_prefix, merge_touched, clone_bindings};
use crate::eq::{eqv, value_eq};
use crate::text::{int_str, parse_int_str, int_to_string, parse_i64, push_char};
use crate::wrappers::{blake3_hex_of, blake3_hex, upper_of, to_upper, lower_of, to_lower, capitalized_of, capitalize, replaced_of, replace_str};
use crate::codec::{enc_value, encode_value};
use crate::clone::{clone_value, clone_values, clone_strings};

verus! {

broadcast use group_value_axioms;

/// The outcome of printing a value: its text, or what stopped it.
pub enum DispOut {
    Text(String),
    Fatal(EvalError),
    Need(Request),
    Spent,
}

/// The ghost mirror of a printing outcome.
pub enum DispOutV {
    Text(Seq<char>),
    Fatal(ErrV),
    Need(RequestV),
    Spent,
}

/// The mirror of a printing outcome.
pub open spec fn dispv(d: DispOut) -> DispOutV {
    match d {
        DispOut::Text(s) => DispOutV::Text(s@),
        DispOut::Fatal(e) => DispOutV::Fatal(errv(e)),
        DispOut::Need(r) => DispOutV::Need(reqv(r)),
        DispOut::Spent => DispOutV::Spent,
    }
}

/// The outcome of evaluating an argument list.
pub enum ArgsOut {
    Vals(Vec<Value>),
    Fatal(EvalError),
    Need(Request),
    Spent,
}

/// The ghost mirror of an argument list outcome.
pub enum ArgsOutV {
    Vals(Seq<ValueV>),
    Fatal(ErrV),
    Need(RequestV),
    Spent,
}

/// The mirror of an argument list outcome.
pub open spec fn argsv(a: ArgsOut) -> ArgsOutV {
    match a {
        ArgsOut::Vals(vs) => ArgsOutV::Vals(vseq(vs@)),
        ArgsOut::Fatal(e) => ArgsOutV::Fatal(errv(e)),
        ArgsOut::Need(r) => ArgsOutV::Need(reqv(r)),
        ArgsOut::Spent => ArgsOutV::Spent,
    }
}

/// The model's whole statement-level state after a step: the outcome, the
/// environment, the touched bindings reported to the encloser, and the
/// machine.
pub struct StRes {
    pub out: StmtOutV,
    pub env: Seq<BindingV>,
    pub tch: Seq<BindingV>,
    pub m: MState,
}

/// The printable name of each value type.
pub open spec fn kind_name_of(k: ValueKind) -> Seq<char> {
    match k {
        ValueKind::Null => "Null"@,
        ValueKind::Integer => "Integer"@,
        ValueKind::Float => "Float"@,
        ValueKind::Str => "String"@,
        ValueKind::Bool => "Bool"@,
        ValueKind::Array => "Array"@,
        ValueKind::Or => "Or"@,
        ValueKind::And => "And"@,
        ValueKind::Property => "Property"@,
        ValueKind::PropertyFunction => "PropertyFunction"@,
        ValueKind::VariableIdentifier => "VariableIdentifier"@,
        ValueKind::FunctionCall => "FunctionCall"@,
        ValueKind::NamespaceFunctionCall => "NamespaceFunctionCall"@,
        ValueKind::FunctionReturn => "FunctionReturn"@,
        ValueKind::Priority => "Priority"@,
        ValueKind::Operation => "Operation"@,
        ValueKind::VariableDeclaration => "VariableDeclaration"@,
        ValueKind::Condition => "Condition"@,
        ValueKind::While => "While"@,
        ValueKind::Loop => "Loop"@,
        ValueKind::Wrap => "Wrap"@,
        ValueKind::Separator => "Separator"@,
        ValueKind::Break => "Break"@,
        ValueKind::File => "File"@,
    }
}

/// The argument groups of a flattened call argument sequence, split at
/// `Separator` tokens; an empty sequence holds no arguments at all.
pub open spec fn m_split_acc(s: Seq<ValueV>, cur: Seq<ValueV>) -> Seq<Seq<ValueV>>
    decreases s.len(),
{
    if s.len() == 0 {
        seq![cur]
    } else if s[0] is Separator {
        seq![cur] + m_split_acc(s.skip(1), Seq::empty())
    } else {
        m_split_acc(s.skip(1), cur.push(s[0]))
    }
}

/// The argument groups of a call's flattened argument tokens.
pub open spec fn m_split(s: Seq<ValueV>) -> Seq<Seq<ValueV>> {
    if s.len() == 0 {
        Seq::empty()
    } else {
        m_split_acc(s, Seq::empty())
    }
}

/// The first function of the given name in the table.
pub open spec fn m_find_fn(funcs: Seq<FunctionV>, name: Seq<char>) -> Option<FunctionV>
    decreases funcs.len(),
{
    if funcs.len() == 0 {
        Option::None
    } else if funcs[0].name == name {
        Some(funcs[0])
    } else {
        m_find_fn(funcs.skip(1), name)
    }
}

/// The callee's fresh environment: its parameter names bound positionally
/// to the argument values.
pub open spec fn m_bind(params: Seq<Seq<char>>, args: Seq<ValueV>) -> Seq<BindingV> {
    Seq::new(params.len(), |i: int| BindingV { name: params[i], value: args[i] })
}

/// The host's verdict on one delegated request: its answer, the given
/// error on a refusal, or a stop at the request when no answer is granted
/// yet.
pub open spec fn m_host(req: RequestV, miss: ErrV, m: MState) -> (EvalOutV, MState) {
    let (a, m1) = m_take(m);
    match a {
        Some(ans) => match ans {
            AnswerV::Hit(v) => (EvalOutV::Val(v), m1),
            AnswerV::Miss => (EvalOutV::Fatal(miss), m1),
        },
        Option::None => (EvalOutV::Need(req), m1),
    }
}

/// The ascending elements of a range: from `cur`, stepping by `step`,
/// strictly before `stop`.
pub open spec fn m_range_asc(cur: int, stop: int, step: int) -> Seq<ValueV>
    decreases (if cur < stop { stop - cur } else { 0int }) when step >= 1
{
    if cur >= stop {
        Seq::empty()
    } else {
        seq![ValueV::Integer(cur as i64)] + m_range_asc(cur + step, stop, step)
    }
}

/// The descending elements of a range: from `cur`, stepping by `step`,
/// strictly after `stop`.
pub open spec fn m_range_desc(cur: int, stop: int, step: int) -> Seq<ValueV>
    decreases (if cur > stop { cur - stop } else { 0int }) when step <= -1
{
    if cur <= stop {
        Seq::empty()
    } else {
        seq![ValueV::Integer(cur as i64)] + m_range_desc(cur + step, stop, step)
    }
}

/// What the `range` built-in returns: a limit alone counts up from zero
/// by one; a start and a limit count by one; with a step, the sign of the
/// step picks the direction, and a zero step is fatal.
pub open spec fn m_range_call(args: Seq<ValueV>) -> EvalOutV {
    if args.len() == 1 {
        match args[0] {
            ValueV::Integer(lim) => EvalOutV::Val(ValueV::Array(m_range_asc(0, lim as int, 1), false, false)),
            v => EvalOutV::Fatal(ErrV::BadBuiltinArg("range"@, kind_of(v))),
        }
    } else if args.len() == 2 {
        match (args[0], args[1]) {
            (ValueV::Integer(a), ValueV::Integer(b)) => EvalOutV::Val(ValueV::Array(m_range_asc(a as int, b as int, 1), false, false)),
            (l, r) => EvalOutV::Fatal(ErrV::BadBuiltinArg("range"@, if l is Integer { kind_of(r) } else { kind_of(l) })),
        }
    } else if args.len() == 3 {
        match (args[0], args[1], args[2]) {
            (ValueV::Integer(a), ValueV::Integer(b), ValueV::Integer(st)) => {
                if st == 0 {
                    EvalOutV::Fatal(ErrV::ZeroStep)
                } else if st > 0 {
                    EvalOutV::Val(ValueV::Array(m_range_asc(a as int, b as int, st as int), false, false))
                } else {
                    EvalOutV::Val(ValueV::Array(m_range_desc(a as int, b as int, st as int), false, false))
                }
            },
            (l, mid, r) => EvalOutV::Fatal(ErrV::BadBuiltinArg("range"@,
                if !(l is Integer) { kind_of(l) } else if !(mid is Integer) { kind_of(mid) } else { kind_of(r) })),
        }
    } else {
        EvalOutV::Fatal(ErrV::WrongArgCount("range"@, 3, args.len() as usize))
    }
}

/// The printable form of one value: recursive over arrays; a Float's text
/// comes from the host.
pub open spec fn m_display(v: ValueV, m: MState, fuel: nat) -> (DispOutV, MState)
    decreases fuel,
{
    if fuel == 0 {
        (DispOutV::Spent, m)
    } else {
        match v {
            ValueV::Null => (DispOutV::Text("Null"@), m),
            ValueV::Integer(n) => (DispOutV::Text(int_str(n as int)), m),
            ValueV::Float(_) => {
                let (a, m1) = m_take(m);
                match a {
                    Some(ans) => match ans {
                        AnswerV::Hit(av) => match av {
                            ValueV::Str(s) => (DispOutV::Text(s), m1),
                            _ => (DispOutV::Fatal(ErrV::HostFailed("str"@)), m1),
                        },
                        AnswerV::Miss => (DispOutV::Fatal(ErrV::HostFailed("str"@)), m1),
                    },
                    Option::None => (DispOutV::Need(RequestV::Apply("str"@, v)), m1),
                }
            },
            ValueV::Str(s) => (DispOutV::Text(s), m),
            ValueV::Bool(b) => (DispOutV::Text(if b { "true"@ } else { "false"@ }), m),
            ValueV::Array(items, p, su) => {
                if !p && !su {
                    m_disp_items(items, 0, seq!['['], m, (fuel - 1) as nat)
                } else {
                    (DispOutV::Fatal(ErrV::NotAValue(ValueKind::Array)), m)
                }
            },
            ValueV::File(path) => (DispOutV::Text(path), m),
            other => (DispOutV::Fatal(ErrV::NotAValue(kind_of(other))), m),
        }
    }
}

/// The printable form of an array's elements, comma-separated between
/// brackets.
pub open spec fn m_disp_items(items: Seq<ValueV>, i: int, acc: Seq<char>, m: MState, fuel: nat) -> (DispOutV, MState)
    decreases fuel,
{
    if fuel == 0 {
        (DispOutV::Spent, m)
    } else if i >= items.len() {
        (DispOutV::Text(acc.push(']')), m)
    } else {
        let acc1 = if i > 0 { acc + ", "@ } else { acc };
        let (d, m1) = m_display(items[i], m, (fuel - 1) as nat);
        match d {
            DispOutV::Text(s) => m_disp_items(items, i + 1, acc1 + s, m1, (fuel - 1) as nat),
            other => (other, m1),
        }
    }
}

/// One reduced token: a deferred form turned into a fully evaluated value
/// (resolution, nested calls, array construction and indexing, priority
/// groups), against the current environment and function table.
pub open spec fn m_reduce(t: ValueV, env: Seq<BindingV>, funcs: Seq<FunctionV>, m: MState, fuel: nat) -> (EvalOutV, MState)
    decreases fuel, 0int,
{
    if fuel == 0 {
        (EvalOutV::Spent, m)
    } else {
        let f1 = (fuel - 1) as nat;
        match t {
            ValueV::Null => (EvalOutV::Val(t), m),
            ValueV::Integer(_) => (EvalOutV::Val(t), m),
            ValueV::Float(_) => (EvalOutV::Val(t), m),
            ValueV::Str(_) => (EvalOutV::Val(t), m),
            ValueV::Bool(_) => (EvalOutV::Val(t), m),
            ValueV::File(_) => (EvalOutV::Val(t), m),
            ValueV::Operation(_) => (EvalOutV::Val(t), m),
            ValueV::Array(elems, p, su) => {
                if !p && !su {
                    (EvalOutV::Val(t), m)
                } else if p && !su {
                    let (r, m1) = m_eval_elems(elems, 0, Seq::empty(), env, funcs, m, f1);
                    match r {
                        ArgsOutV::Vals(vs) => (EvalOutV::Val(ValueV::Array(vs, false, false)), m1),
                        ArgsOutV::Fatal(e) => (EvalOutV::Fatal(e), m1),
                        ArgsOutV::Need(q) => (EvalOutV::Need(q), m1),
                        ArgsOutV::Spent => (EvalOutV::Spent, m1),
                    }
                } else if !p && su {
                    if elems.len() == 0 {
                        (EvalOutV::Fatal(ErrV::NotIndexable(ValueKind::Array)), m)
                    } else {
                        let (b, m1) = m_stack(seq![elems[0]], 0, Option::None, BasicOperator::Null, env, funcs, m, f1);
                        match b {
                            EvalOutV::Val(base) => m_index_chain(base, elems, 1, env, funcs, m1, f1),
                            other => (other, m1),
                        }
                    }
                } else {
                    (EvalOutV::Fatal(ErrV::NotAValue(ValueKind::Array)), m)
                }
            },
            ValueV::VariableIdentifier(n) => {
                match m_lookup(env, n) {
                    Some(v) => (EvalOutV::Val(v), m),
                    Option::None => (EvalOutV::Fatal(ErrV::UnknownVariable(n)), m),
                }
            },
            ValueV::Priority(ts) => m_stack(ts, 0, Option::None, BasicOperator::Null, env, funcs, m, f1),
            ValueV::Wrap(ts) => m_stack(ts, 0, Option::None, BasicOperator::Null, env, funcs, m, f1),
            ValueV::FunctionCall(nm, argtoks) => {
                let (a, m1) = m_eval_groups(m_split(argtoks), 0, Seq::empty(), env, funcs, m, f1);
                match a {
                    ArgsOutV::Vals(args) => m_call(nm, args, env, funcs, m1, f1),
                    ArgsOutV::Fatal(e) => (EvalOutV::Fatal(e), m1),
                    ArgsOutV::Need(q) => (EvalOutV::Need(q), m1),
                    ArgsOutV::Spent => (EvalOutV::Spent, m1),
                }
            },
            ValueV::NamespaceFunctionCall(ns, nm, argtoks) => {
                let (a, m1) = m_eval_groups(m_split(argtoks), 0, Seq::empty(), env, funcs, m, f1);
                match a {
                    ArgsOutV::Vals(args) => m_host(
                        RequestV::Namespace(ns, nm, args),
                        ErrV::UnknownNamespaceFunction(nm),
                        m1,
                    ),
                    ArgsOutV::Fatal(e) => (EvalOutV::Fatal(e), m1),
                    ArgsOutV::Need(q) => (EvalOutV::Need(q), m1),
                    ArgsOutV::Spent => (EvalOutV::Spent, m1),
                }
            },
            ValueV::PropertyFunction(fname, fargs, pname, pargs) => {
                let (a, m1) = m_eval_groups(m_split(fargs), 0, Seq::empty(), env, funcs, m, f1);
                match a {
                    ArgsOutV::Vals(args) => {
                        let (c, m2) = m_call(fname, args, env, funcs, m1, f1);
                        match c {
                            EvalOutV::Val(recv) => {
                                let (pa, m3) = m_eval_groups(m_split(pargs), 0, Seq::empty(), env, funcs, m2, f1);
                                match pa {
                                    ArgsOutV::Vals(pvals) => m_member(recv, pname, pvals, m3, f1),
                                    ArgsOutV::Fatal(e) => (EvalOutV::Fatal(e), m3),
                                    ArgsOutV::Need(q) => (EvalOutV::Need(q), m3),
                                    ArgsOutV::Spent => (EvalOutV::Spent, m3),
                                }
                            },
                            other => (other, m2),
                        }
                    },
                    ArgsOutV::Fatal(e) => (EvalOutV::Fatal(e), m1),
                    ArgsOutV::Need(q) => (EvalOutV::Need(q), m1),
                    ArgsOutV::Spent => (EvalOutV::Spent, m1),
                }
            },
            other => (EvalOutV::Fatal(ErrV::NotAValue(kind_of(other))), m),
        }
    }
}

/// The expression evaluator's walk: tokens from position `i` folded into
/// the accumulator under the pending operator. An `Operation` token only
/// changes the operator; the first reduced value seeds the accumulator;
/// every later one is combined through the typed dispatch table; `Or` and
/// `And` combine boolean sides; a `Property` dispatches on the current
/// accumulator.
pub open spec fn m_stack(tokens: Seq<ValueV>, i: int, acc: Option<ValueV>, op: BasicOperator, env: Seq<BindingV>, funcs: Seq<FunctionV>, m: MState, fuel: nat) -> (EvalOutV, MState)
    decreases fuel, 0int,
{
    if fuel == 0 {
        (EvalOutV::Spent, m)
    } else if i >= tokens.len() {
        (
            EvalOutV::Val(match acc {
                Some(v) => v,
                Option::None => ValueV::Null,
            }),
            m,
        )
    } else {
        let f1 = (fuel - 1) as nat;
        let t = tokens[i];
        match t {
            ValueV::Operation(o) => m_stack(tokens, i + 1, acc, o, env, funcs, m, f1),
            ValueV::Or(xs) => m_bool_side(tokens, i, acc, op, xs, false, env, funcs, m, f1),
            ValueV::And(xs) => m_bool_side(tokens, i, acc, op, xs, true, env, funcs, m, f1),
            ValueV::Property(pname, pargs) => {
                let (a, m1) = m_eval_groups(m_split(pargs), 0, Seq::empty(), env, funcs, m, f1);
                match a {
                    ArgsOutV::Vals(args) => {
                        let recv = match acc {
                            Some(v) => v,
                            Option::None => ValueV::Null,
                        };
                        let (r, m2) = m_member(recv, pname, args, m1, f1);
                        match r {
                            EvalOutV::Val(v) => m_stack(tokens, i + 1, Some(v), op, env, funcs, m2, f1),
                            other => (other, m2),
                        }
                    },
                    ArgsOutV::Fatal(e) => (EvalOutV::Fatal(e), m1),
                    ArgsOutV::Need(q) => (EvalOutV::Need(q), m1),
                    ArgsOutV::Spent => (EvalOutV::Spent, m1),
                }
            },
            _ => {
                let (r, m1) = m_reduce(t, env, funcs, m, f1);
                match r {
                    EvalOutV::Val(v) => {
                        match acc {
                            Option::None => m_stack(tokens, i + 1, Some(v), op, env, funcs, m1, f1),
                            Some(l) => {
                                match m_binop(op, l, v) {
                                    OpOutV::Val(v2) => m_stack(tokens, i + 1, Some(v2), op, env, funcs, m1, f1),
                                    OpOutV::Fatal(e) => (EvalOutV::Fatal(e), m1),
                                    OpOutV::Host(req) => {
                                        let (a, m2) = m_take(m1);
                                        match a {
                                            Some(ans) => match ans {
                                                AnswerV::Hit(v2) => m_stack(tokens, i + 1, Some(v2), op, env, funcs, m2, f1),
                                                AnswerV::Miss => (EvalOutV::Fatal(ErrV::HostFailed("operator"@)), m2),
                                            },
                                            Option::None => (EvalOutV::Need(req), m2),
                                        }
                                    },
                                }
                            },
                        }
                    },
                    other => (other, m1),
                }
            },
        }
    }
}

/// One boolean combination: the nested operand sequence evaluated, then
/// joined with the accumulator by `||` (or `&&` when `conj` holds); either
/// side failing to be a Bool is fatal.
pub open spec fn m_bool_side(tokens: Seq<ValueV>, i: int, acc: Option<ValueV>, op: BasicOperator, xs: Seq<ValueV>, conj: bool, env: Seq<BindingV>, funcs: Seq<FunctionV>, m: MState, fuel: nat) -> (EvalOutV, MState)
    decreases fuel, 0int,
{
    if fuel == 0 {
        (EvalOutV::Spent, m)
    } else {
        let f1 = (fuel - 1) as nat;
        let (r, m1) = m_stack(xs, 0, Option::None, BasicOperator::Null, env, funcs, m, f1);
        match r {
            EvalOutV::Val(side) => {
                let lhs = match acc {
                    Some(v) => v,
                    Option::None => ValueV::Null,
                };
                match lhs {
                    ValueV::Bool(a) => match side {
                        ValueV::Bool(b) => {
                            let joined = if conj { a && b } else { a || b };
                            m_stack(tokens, i + 1, Some(ValueV::Bool(joined)), op, env, funcs, m1, f1)
                        },
                        other => (EvalOutV::Fatal(ErrV::NotABool(kind_of(other))), m1),
                    },
                    other => (EvalOutV::Fatal(ErrV::NotABool(kind_of(other))), m1),
                }
            },
            other => (other, m1),
        }
    }
}

/// The argument groups of a call, each evaluated as one expression.
pub open spec fn m_eval_groups(groups: Seq<Seq<ValueV>>, i: int, acc: Seq<ValueV>, env: Seq<BindingV>, funcs: Seq<FunctionV>, m: MState, fuel: nat) -> (ArgsOutV, MState)
    decreases fuel, 0int,
{
    if fuel == 0 {
        (ArgsOutV::Spent, m)
    } else if i >= groups.len() {
        (ArgsOutV::Vals(acc), m)
    } else {
        let f1 = (fuel - 1) as nat;
        let (r, m1) = m_stack(groups[i], 0, Option::None, BasicOperator::Null, env, funcs, m, f1);
        match r {
            EvalOutV::Val(v) => m_eval_groups(groups, i + 1, acc.push(v), env, funcs, m1, f1),
            EvalOutV::Fatal(e) => (ArgsOutV::Fatal(e), m1),
            EvalOutV::Need(q) => (ArgsOutV::Need(q), m1),
            EvalOutV::Spent => (ArgsOutV::Spent, m1),
        }
    }
}

/// The elements of an array literal, each evaluated independently.
pub open spec fn m_eval_elems(elems: Seq<ValueV>, i: int, acc: Seq<ValueV>, env: Seq<BindingV>, funcs: Seq<FunctionV>, m: MState, fuel: nat) -> (ArgsOutV, MState)
    decreases fuel, 0int,
{
    if fuel == 0 {
        (ArgsOutV::Spent, m)
    } else if i >= elems.len() {
        (ArgsOutV::Vals(acc), m)
    } else {
        let f1 = (fuel - 1) as nat;
        let (r, m1) = m_stack(seq![elems[i]], 0, Option::None, BasicOperator::Null, env, funcs, m, f1);
        match r {
            EvalOutV::Val(v) => m_eval_elems(elems, i + 1, acc.push(v), env, funcs, m1, f1),
            EvalOutV::Fatal(e) => (ArgsOutV::Fatal(e), m1),
            EvalOutV::Need(q) => (ArgsOutV::Need(q), m1),
            EvalOutV::Spent => (ArgsOutV::Spent, m1),
        }
    }
}

/// Chained indexing: each bracket group evaluates to one Integer index,
/// applied left to right, narrowing into nested arrays or selecting one
/// character of a Str; a non-Integer index, an index out of range, and an
/// unindexable receiver are fatal.
pub open spec fn m_index_chain(cur: ValueV, groups: Seq<ValueV>, i: int, env: Seq<BindingV>, funcs: Seq<FunctionV>, m: MState, fuel: nat) -> (EvalOutV, MState)
    decreases fuel, 0int,
{
    if fuel == 0 {
        (EvalOutV::Spent, m)
    } else if i >= groups.len() {
        (EvalOutV::Val(cur), m)
    } else {
        let f1 = (fuel - 1) as nat;
        match groups[i] {
            ValueV::Array(idxtoks, p, su) => {
                if p && !su {
                    let (r, m1) = m_eval_elems(idxtoks, 0, Seq::empty(), env, funcs, m, f1);
                    match r {
                        ArgsOutV::Vals(ixs) => {
                            if ixs.len() != 1 {
                                (EvalOutV::Fatal(ErrV::InvalidIndex(ValueKind::Array)), m1)
                            } else {
                                match ixs[0] {
                                    ValueV::Integer(ix) => {
                                        match cur {
                                            ValueV::Array(items, _, false) => {
                                                if 0 <= ix < items.len() {
                                                    m_index_chain(items[ix as int], groups, i + 1, env, funcs, m1, f1)
                                                } else {
                                                    (EvalOutV::Fatal(ErrV::IndexOutOfRange), m1)
                                                }
                                            },
                                            ValueV::Str(s) => {
                                                if 0 <= ix < s.len() {
                                                    m_index_chain(ValueV::Str(seq![s[ix as int]]), groups, i + 1, env, funcs, m1, f1)
                                                } else {
                                                    (EvalOutV::Fatal(ErrV::IndexOutOfRange), m1)
                                                }
                                            },
                                            other => (EvalOutV::Fatal(ErrV::NotIndexable(kind_of(other))), m1),
                                        }
                                    },
                                    other => (EvalOutV::Fatal(ErrV::InvalidIndex(kind_of(other))), m1),
                                }
                            }
                        },
                        ArgsOutV::Fatal(e) => (EvalOutV::Fatal(e), m1),
                        ArgsOutV::Need(q) => (EvalOutV::Need(q), m1),
                        ArgsOutV::Spent => (EvalOutV::Spent, m1),
                    }
                } else {
                    (EvalOutV::Fatal(ErrV::InvalidIndex(ValueKind::Array)), m)
                }
            },
            other => (EvalOutV::Fatal(ErrV::InvalidIndex(kind_of(other))), m),
        }
    }
}

/// Member dispatch on a Str receiver: `uppercase`, `lowercase`,
/// `capitalize` and `replace(old, new)`.
pub open spec fn m_member_str(s: Seq<char>, name: Seq<char>, args: Seq<ValueV>) -> EvalOutV {
    if name == "uppercase"@ {
        if args.len() == 0 {
            EvalOutV::Val(ValueV::Str(upper_of(s)))
        } else {
            EvalOutV::Fatal(ErrV::BadMemberArgs(name, ValueKind::Str))
        }
    } else if name == "lowercase"@ {
        if args.len() == 0 {
            EvalOutV::Val(ValueV::Str(lower_of(s)))
        } else {
            EvalOutV::Fatal(ErrV::BadMemberArgs(name, ValueKind::Str))
        }
    } else if name == "capitalize"@ {
        if args.len() == 0 {
            EvalOutV::Val(ValueV::Str(capitalized_of(s)))
        } else {
            EvalOutV::Fatal(ErrV::BadMemberArgs(name, ValueKind::Str))
        }
    } else if name == "replace"@ {
        if args.len() == 2 {
            match (args[0], args[1]) {
                (ValueV::Str(a), ValueV::Str(b)) => EvalOutV::Val(ValueV::Str(replaced_of(s, a, b))),
                _ => EvalOutV::Fatal(ErrV::BadMemberArgs(name, ValueKind::Str)),
            }
        } else {
            EvalOutV::Fatal(ErrV::BadMemberArgs(name, ValueKind::Str))
        }
    } else {
        EvalOutV::Fatal(ErrV::UnknownMember(name, ValueKind::Str))
    }
}

/// Member dispatch on an Array receiver: `len` and `contains(x)`.
pub open spec fn m_member_arr(items: Seq<ValueV>, name: Seq<char>, args: Seq<ValueV>) -> EvalOutV {
    if name == "len"@ {
        if args.len() == 0 {
            if items.len() <= i64::MAX {
                EvalOutV::Val(ValueV::Integer(items.len() as i64))
            } else {
                EvalOutV::Fatal(ErrV::Overflow)
            }
        } else {
            EvalOutV::Fatal(ErrV::BadMemberArgs(name, ValueKind::Array))
        }
    } else if name == "contains"@ {
        if args.len() == 1 {
            EvalOutV::Val(ValueV::Bool(exists|j: int| 0 <= j < items.len() && eqv(#[trigger] items[j], args[0])))
        } else {
            EvalOutV::Fatal(ErrV::BadMemberArgs(name, ValueKind::Array))
        }
    } else {
        EvalOutV::Fatal(ErrV::UnknownMember(name, ValueKind::Array))
    }
}

/// Member dispatch on a receiver's type: the Str members, the Array
/// members, a File member by the host; anything else is an unknown
/// member, fatal, naming the receiver type.
pub open spec fn m_member(recv: ValueV, name: Seq<char>, args: Seq<ValueV>, m: MState, fuel: nat) -> (EvalOutV, MState)
    decreases fuel,
{
    if fuel == 0 {
        (EvalOutV::Spent, m)
    } else {
        match recv {
            ValueV::Str(s) => (m_member_str(s, name, args), m),
            ValueV::Array(items, _, _) => (m_member_arr(items, name, args), m),
            ValueV::File(path) => m_host(
                RequestV::FileOp(path, name, args),
                ErrV::UnknownMember(name, ValueKind::File),
                m,
            ),
            other => (EvalOutV::Fatal(ErrV::UnknownMember(name, kind_of(other))), m),
        }
    }
}

/// The `print` built-in: the printable form of its one argument goes to
/// the output log, and the call yields Null.
pub open spec fn m_b_print(name: Seq<char>, args: Seq<ValueV>, m: MState, fuel: nat) -> (EvalOutV, MState) {
    if args.len() != 1 {
        (EvalOutV::Fatal(ErrV::WrongArgCount(name, 1, args.len() as usize)), m)
    } else {
        let (d, m1) = m_display(args[0], m, fuel);
        match d {
            DispOutV::Text(s) => (EvalOutV::Val(ValueV::Null), m_log(m1, s)),
            DispOutV::Fatal(e) => (EvalOutV::Fatal(e), m1),
            DispOutV::Need(q) => (EvalOutV::Need(q), m1),
            DispOutV::Spent => (EvalOutV::Spent, m1),
        }
    }
}

/// The `abs` built-in: the magnitude of an Integer or a Float; the Float
/// case only clears the sign bit of the IEEE-754 pattern.
pub open spec fn m_b_abs(name: Seq<char>, args: Seq<ValueV>) -> EvalOutV {
    if args.len() != 1 {
        EvalOutV::Fatal(ErrV::WrongArgCount(name, 1, args.len() as usize))
    } else {
        match args[0] {
            ValueV::Integer(n) => {
                if n == i64::MIN {
                    EvalOutV::Fatal(ErrV::Overflow)
                } else if n < 0 {
                    EvalOutV::Val(ValueV::Integer((-n) as i64))
                } else {
                    EvalOutV::Val(ValueV::Integer(n))
                }
            },
            ValueV::Float(b) => EvalOutV::Val(ValueV::Float(b & 0x7fff_ffff_ffff_ffff)),
            other => EvalOutV::Fatal(ErrV::BadBuiltinArg(name, kind_of(other))),
        }
    }
}

/// The `round` built-in: an Integer stays itself; a Float rounds by the
/// host.
pub open spec fn m_b_round(name: Seq<char>, args: Seq<ValueV>, m: MState) -> (EvalOutV, MState) {
    if args.len() != 1 {
        (EvalOutV::Fatal(ErrV::WrongArgCount(name, 1, args.len() as usize)), m)
    } else {
        match args[0] {
            ValueV::Integer(n) => (EvalOutV::Val(ValueV::Integer(n)), m),
            ValueV::Float(_) => m_host(RequestV::Apply(name, args[0]), ErrV::HostFailed(name), m),
            other => (EvalOutV::Fatal(ErrV::BadBuiltinArg(name, kind_of(other))), m),
        }
    }
}

/// The `len` built-in: the character count of a Str or the element count
/// of an Array.
pub open spec fn m_b_len(name: Seq<char>, args: Seq<ValueV>) -> EvalOutV {
    if args.len() != 1 {
        EvalOutV::Fatal(ErrV::WrongArgCount(name, 1, args.len() as usize))
    } else {
        match args[0] {
            ValueV::Str(s) => {
                if s.len() <= i64::MAX {
                    EvalOutV::Val(ValueV::Integer(s.len() as i64))
                } else {
                    EvalOutV::Fatal(ErrV::Overflow)
                }
            },
            ValueV::Array(items, _, _) => {
                if items.len() <= i64::MAX {
                    EvalOutV::Val(ValueV::Integer(items.len() as i64))
                } else {
                    EvalOutV::Fatal(ErrV::Overflow)
                }
            },
            other => EvalOutV::Fatal(ErrV::BadBuiltinArg(name, kind_of(other))),
        }
    }
}

/// The `input` built-in: an optional Str prompt goes to the output log,
/// then one line comes from the host.
pub open spec fn m_b_input(name: Seq<char>, args: Seq<ValueV>, m: MState) -> (EvalOutV, MState) {
    if args.len() > 1 {
        (EvalOutV::Fatal(ErrV::WrongArgCount(name, 1, args.len() as usize)), m)
    } else if args.len() == 1 {
        match args[0] {
            ValueV::Str(prompt) => m_host(RequestV::ReadLine, ErrV::HostFailed(name), m_log(m, prompt)),
            other => (EvalOutV::Fatal(ErrV::BadBuiltinArg(name, kind_of(other))), m),
        }
    } else {
        m_host(RequestV::ReadLine, ErrV::HostFailed(name), m)
    }
}

/// The `type` built-in: the printable type name of its argument.
pub open spec fn m_b_type(name: Seq<char>, args: Seq<ValueV>) -> EvalOutV {
    if args.len() != 1 {
        EvalOutV::Fatal(ErrV::WrongArgCount(name, 1, args.len() as usize))
    } else {
        EvalOutV::Val(ValueV::Str(kind_name_of(kind_of(args[0]))))
    }
}

/// The `hash` built-in: the BLAKE3 digest of the argument's stable
/// binary encoding, as lowercase hexadecimal.
pub open spec fn m_b_hash(name: Seq<char>, args: Seq<ValueV>) -> EvalOutV {
    if args.len() != 1 {
        EvalOutV::Fatal(ErrV::WrongArgCount(name, 1, args.len() as usize))
    } else {
        EvalOutV::Val(ValueV::Str(blake3_hex_of(enc_value(args[0]))))
    }
}

/// The `sqrt` built-in: the square root of an Integer or a Float, by the
/// host.
pub open spec fn m_b_sqrt(name: Seq<char>, args: Seq<ValueV>, m: MState) -> (EvalOutV, MState) {
    if args.len() != 1 {
        (EvalOutV::Fatal(ErrV::WrongArgCount(name, 1, args.len() as usize)), m)
    } else {
        match args[0] {
            ValueV::Integer(_) => m_host(RequestV::Apply(name, args[0]), ErrV::HostFailed(name), m),
            ValueV::Float(_) => m_host(RequestV::Apply(name, args[0]), ErrV::HostFailed(name), m),
            other => (EvalOutV::Fatal(ErrV::BadBuiltinArg(name, kind_of(other))), m),
        }
    }
}

/// The `executeline` built-in: one source line re-parsed by the host into
/// a wrapped token sequence and evaluated in the current context.
pub open spec fn m_b_execline(name: Seq<char>, args: Seq<ValueV>, env: Seq<BindingV>, funcs: Seq<FunctionV>, m: MState, fuel: nat) -> (EvalOutV, MState)
    decreases fuel, 1int,
{
    if args.len() != 1 {
        (EvalOutV::Fatal(ErrV::WrongArgCount(name, 1, args.len() as usize)), m)
    } else {
        match args[0] {
            ValueV::Str(line) => {
                let (a, m1) = m_take(m);
                match a {
                    Some(ans) => match ans {
                        AnswerV::Hit(av) => match av {
                            ValueV::Wrap(ts) => m_stack(ts, 0, Option::None, BasicOperator::Null, env, funcs, m1, fuel),
                            other => (EvalOutV::Val(other), m1),
                        },
                        AnswerV::Miss => (EvalOutV::Fatal(ErrV::ParseFailed(line)), m1),
                    },
                    Option::None => (EvalOutV::Need(RequestV::Parse(line)), m1),
                }
            },
            other => (EvalOutV::Fatal(ErrV::BadBuiltinArg(name, kind_of(other))), m),
        }
    }
}

/// The `int` built-in: a Str converts exactly when it denotes a 64-bit
/// signed integer; a Float rounds by the host.
pub open spec fn m_b_int(name: Seq<char>, args: Seq<ValueV>, m: MState) -> (EvalOutV, MState) {
    if args.len() != 1 {
        (EvalOutV::Fatal(ErrV::WrongArgCount(name, 1, args.len() as usize)), m)
    } else {
        match args[0] {
            ValueV::Str(s) => {
                match parse_int_str(s) {
                    Some(v) => (EvalOutV::Val(ValueV::Integer(v)), m),
                    Option::None => (EvalOutV::Fatal(ErrV::ConvertFailed(s)), m),
                }
            },
            ValueV::Float(_) => m_host(RequestV::Apply(name, args[0]), ErrV::HostFailed(name), m),
            other => (EvalOutV::Fatal(ErrV::CannotConvert(kind_of(other), ValueKind::Integer)), m),
        }
    }
}

/// The `str` built-in: the printable form of its argument.
pub open spec fn m_b_str(name: Seq<char>, args: Seq<ValueV>, m: MState, fuel: nat) -> (EvalOutV, MState) {
    if args.len() != 1 {
        (EvalOutV::Fatal(ErrV::WrongArgCount(name, 1, args.len() as usize)), m)
    } else {
        let (d, m1) = m_display(args[0], m, fuel);
        match d {
            DispOutV::Text(s) => (EvalOutV::Val(ValueV::Str(s)), m1),
            DispOutV::Fatal(e) => (EvalOutV::Fatal(e), m1),
            DispOutV::Need(q) => (EvalOutV::Need(q), m1),
            DispOutV::Spent => (EvalOutV::Spent, m1),
        }
    }
}

/// The `float` built-in: a Str or an Integer converts by the host; a
/// malformed Str is a conversion error.
pub open spec fn m_b_float(name: Seq<char>, args: Seq<ValueV>, m: MState) -> (EvalOutV, MState) {
    if args.len() != 1 {
        (EvalOutV::Fatal(ErrV::WrongArgCount(name, 1, args.len() as usize)), m)
    } else {
        match args[0] {
            ValueV::Str(s) => m_host(RequestV::Apply(name, args[0]), ErrV::ConvertFailed(s), m),
            ValueV::Integer(_) => m_host(RequestV::Apply(name, args[0]), ErrV::HostFailed(name), m),
            other => (EvalOutV::Fatal(ErrV::CannotConvert(kind_of(other), ValueKind::Float)), m),
        }
    }
}

/// A user-defined function invocation: exact arity, parameters bound
/// positionally, the body run in that fresh environment; falling off the
/// end yields Null, and mutations never cross the call boundary.
pub open spec fn m_user_call(name: Seq<char>, args: Seq<ValueV>, funcs: Seq<FunctionV>, m: MState, fuel: nat) -> (EvalOutV, MState)
    decreases fuel, 1int,
{
    match m_find_fn(funcs, name) {
        Option::None => (EvalOutV::Fatal(ErrV::UnknownFunction(name)), m),
        Some(f) => {
            if f.params.len() != args.len() {
                (EvalOutV::Fatal(ErrV::WrongArgCount(name, f.params.len() as usize, args.len() as usize)), m)
            } else {
                let env2 = m_bind(f.params, args);
                let r = m_body(f.body, 0, env2, env2.len() as int, Seq::empty(), funcs, m, fuel);
                match r.out {
                    StmtOutV::Ret(v) => (EvalOutV::Val(v), r.m),
                    StmtOutV::Normal => (EvalOutV::Val(ValueV::Null), r.m),
                    StmtOutV::Brk => (EvalOutV::Fatal(ErrV::BreakOutsideLoop), r.m),
                    StmtOutV::Fatal(e) => (EvalOutV::Fatal(e), r.m),
                    StmtOutV::Need(q) => (EvalOutV::Need(q), r.m),
                    StmtOutV::Spent => (EvalOutV::Spent, r.m),
                }
            }
        },
    }
}

/// Function dispatch: the fixed built-in table first, then the
/// user-defined function table, each built-in with its exact arity.
pub open spec fn m_call(name: Seq<char>, args: Seq<ValueV>, env: Seq<BindingV>, funcs: Seq<FunctionV>, m: MState, fuel: nat) -> (EvalOutV, MState)
    decreases fuel, 0int,
{
    if fuel == 0 {
        (EvalOutV::Spent, m)
    } else {
        let f1 = (fuel - 1) as nat;
        if name == "print"@ {
            m_b_print(name, args, m, f1)
        } else if name == "abs"@ {
            (m_b_abs(name, args), m)
        } else if name == "round"@ {
            m_b_round(name, args, m)
        } else if name == "len"@ {
            (m_b_len(name, args), m)
        } else if name == "input"@ {
            m_b_input(name, args, m)
        } else if name == "type"@ {
            (m_b_type(name, args), m)
        } else if name == "hash"@ {
            (m_b_hash(name, args), m)
        } else if name == "sqrt"@ {
            m_b_sqrt(name, args, m)
        } else if name == "the_answer"@ {
            (
                EvalOutV::Val(ValueV::Integer(42)),
                m_log(m, "42, the answer to the Ultimate Question of Life, the Universe, and Everything."@),
            )
        } else if name == "range"@ {
            (m_range_call(args), m)
        } else if name == "executeline"@ {
            m_b_execline(name, args, env, funcs, m, f1)
        } else if name == "int"@ {
            m_b_int(name, args, m)
        } else if name == "str"@ {
            m_b_str(name, args, m, f1)
        } else if name == "float"@ {
            m_b_float(name, args, m)
        } else {
            m_user_call(name, args, funcs, m, f1)
        }
    }
}

/// A function body: its lines executed in order.
pub open spec fn m_body(lines: Seq<Seq<ValueV>>, i: int, env: Seq<BindingV>, k: int, tch: Seq<BindingV>, funcs: Seq<FunctionV>, m: MState, fuel: nat) -> StRes
    decreases fuel, 0int,
{
    if fuel == 0 {
        StRes { out: StmtOutV::Spent, env, tch, m }
    } else if i >= lines.len() {
        StRes { out: StmtOutV::Normal, env, tch, m }
    } else {
        let f1 = (fuel - 1) as nat;
        let r = m_line(lines[i], 0, env, k, tch, funcs, m, f1);
        match r.out {
            StmtOutV::Normal => m_body(lines, i + 1, r.env, k, r.tch, funcs, r.m, f1),
            _ => r,
        }
    }
}

/// One line: leading statement tokens executed in order; the first
/// non-statement token starts an expression that covers the rest of the
/// line, whose value is dropped.
pub open spec fn m_line(line: Seq<ValueV>, i: int, env: Seq<BindingV>, k: int, tch: Seq<BindingV>, funcs: Seq<FunctionV>, m: MState, fuel: nat) -> StRes
    decreases fuel, 0int,
{
    if fuel == 0 {
        StRes { out: StmtOutV::Spent, env, tch, m }
    } else if i >= line.len() {
        StRes { out: StmtOutV::Normal, env, tch, m }
    } else {
        let f1 = (fuel - 1) as nat;
        if is_statement_form(line[i]) {
            let r = m_stmt(line[i], env, k, tch, funcs, m, f1);
            match r.out {
                StmtOutV::Normal => m_line(line, i + 1, r.env, k, r.tch, funcs, r.m, f1),
                _ => r,
            }
        } else {
            let (r, m1) = m_stack(line, i, Option::None, BasicOperator::Null, env, funcs, m, f1);
            match r {
                EvalOutV::Val(_) => StRes { out: StmtOutV::Normal, env, tch, m: m1 },
                EvalOutV::Fatal(e) => StRes { out: StmtOutV::Fatal(e), env, tch, m: m1 },
                EvalOutV::Need(q) => StRes { out: StmtOutV::Need(q), env, tch, m: m1 },
                EvalOutV::Spent => StRes { out: StmtOutV::Spent, env, tch, m: m1 },
            }
        }
    }
}

/// The token forms handled as statements rather than as expressions.
pub open spec fn is_statement_form(t: ValueV) -> bool {
    match t {
        ValueV::VariableDeclaration(_, _, _) => true,
        ValueV::FunctionReturn(_) => true,
        ValueV::Break => true,
        ValueV::Condition(_, _, _) => true,
        ValueV::While(_, _) => true,
        ValueV::Loop(_, _, _) => true,
        ValueV::Wrap(_) => true,
        ValueV::Separator => true,
        _ => false,
    }
}

/// A block: each token one statement, executed in order.
pub open spec fn m_block(stmts: Seq<ValueV>, i: int, env: Seq<BindingV>, k: int, tch: Seq<BindingV>, funcs: Seq<FunctionV>, m: MState, fuel: nat) -> StRes
    decreases fuel, 0int,
{
    if fuel == 0 {
        StRes { out: StmtOutV::Spent, env, tch, m }
    } else if i >= stmts.len() {
        StRes { out: StmtOutV::Normal, env, tch, m }
    } else {
        let f1 = (fuel - 1) as nat;
        let r = m_stmt(stmts[i], env, k, tch, funcs, m, f1);
        match r.out {
            StmtOutV::Normal => m_block(stmts, i + 1, r.env, k, r.tch, funcs, r.m, f1),
            _ => r,
        }
    }
}

/// A branch run as a child scope seeded with the current bindings: its
/// touched bindings are merged back by name, and those the encloser
/// passed in are reported onward. Returns and breaks propagate after the
/// merge.
pub open spec fn m_runblock(block: Seq<ValueV>, env: Seq<BindingV>, k: int, tch: Seq<BindingV>, funcs: Seq<FunctionV>, m: MState, fuel: nat) -> StRes
    decreases fuel, 0int,
{
    if fuel == 0 {
        StRes { out: StmtOutV::Spent, env, tch, m }
    } else {
        let f1 = (fuel - 1) as nat;
        let child = m_block(block, 0, env, env.len() as int, Seq::empty(), funcs, m, f1);
        match child.out {
            StmtOutV::Normal | StmtOutV::Ret(_) | StmtOutV::Brk => {
                let merged = m_merge(env, k, child.tch);
                StRes { out: child.out, env: merged.0, tch: tch + merged.1, m: child.m }
            },
            _ => StRes { out: child.out, env, tch, m: child.m },
        }
    }
}

/// The else-if chain of a condition: the first group whose guard is empty
/// or evaluates to Bool(true) runs, and the rest are skipped.
pub open spec fn m_elses(groups: Seq<(Seq<ValueV>, Seq<ValueV>)>, i: int, env: Seq<BindingV>, k: int, tch: Seq<BindingV>, funcs: Seq<FunctionV>, m: MState, fuel: nat) -> StRes
    decreases fuel, 0int,
{
    if fuel == 0 {
        StRes { out: StmtOutV::Spent, env, tch, m }
    } else if i >= groups.len() {
        StRes { out: StmtOutV::Normal, env, tch, m }
    } else {
        let f1 = (fuel - 1) as nat;
        let g = groups[i].0;
        let blk = groups[i].1;
        if g.len() == 0 {
            m_runblock(blk, env, k, tch, funcs, m, f1)
        } else {
            let (r, m1) = m_stack(g, 0, Option::None, BasicOperator::Null, env, funcs, m, f1);
            match r {
                EvalOutV::Val(v) => {
                    if v == ValueV::Bool(true) {
                        m_runblock(blk, env, k, tch, funcs, m1, f1)
                    } else {
                        m_elses(groups, i + 1, env, k, tch, funcs, m1, f1)
                    }
                },
                EvalOutV::Fatal(e) => StRes { out: StmtOutV::Fatal(e), env, tch, m: m1 },
                EvalOutV::Need(q) => StRes { out: StmtOutV::Need(q), env, tch, m: m1 },
                EvalOutV::Spent => StRes { out: StmtOutV::Spent, env, tch, m: m1 },
            }
        }
    }
}

/// A while loop: the guard re-evaluated before each iteration; an
/// iteration runs only when it yields exactly Bool(true); each
/// iteration's mutations merge back before the next; a break ends the
/// loop; a return propagates after the merge.
pub open spec fn m_while(guard: Seq<ValueV>, body: Seq<ValueV>, env: Seq<BindingV>, k: int, tch: Seq<BindingV>, funcs: Seq<FunctionV>, m: MState, fuel: nat) -> StRes
    decreases fuel, 0int,
{
    if fuel == 0 {
        StRes { out: StmtOutV::Spent, env, tch, m }
    } else {
        let f1 = (fuel - 1) as nat;
        let (r, m1) = m_stack(guard, 0, Option::None, BasicOperator::Null, env, funcs, m, f1);
        match r {
            EvalOutV::Val(v) => {
                if v == ValueV::Bool(true) {
                    let it = m_runblock(body, env, k, tch, funcs, m1, f1);
                    match it.out {
                        StmtOutV::Normal => m_while(guard, body, it.env, k, it.tch, funcs, it.m, f1),
                        StmtOutV::Brk => StRes { out: StmtOutV::Normal, env: it.env, tch: it.tch, m: it.m },
                        _ => it,
                    }
                } else {
                    StRes { out: StmtOutV::Normal, env, tch, m: m1 }
                }
            },
            EvalOutV::Fatal(e) => StRes { out: StmtOutV::Fatal(e), env, tch, m: m1 },
            EvalOutV::Need(q) => StRes { out: StmtOutV::Need(q), env, tch, m: m1 },
            EvalOutV::Spent => StRes { out: StmtOutV::Spent, env, tch, m: m1 },
        }
    }
}

/// A for loop over an array's elements: each iteration binds the loop
/// name to the element in a child scope that also carries the enclosing
/// bindings; mutations of enclosing bindings merge back each iteration;
/// the loop binding itself is not reported.
pub open spec fn m_loop_items(name: Seq<char>, items: Seq<ValueV>, i: int, body: Seq<ValueV>, env: Seq<BindingV>, k: int, tch: Seq<BindingV>, funcs: Seq<FunctionV>, m: MState, fuel: nat) -> StRes
    decreases fuel, 0int,
{
    if fuel == 0 {
        StRes { out: StmtOutV::Spent, env, tch, m }
    } else if i >= items.len() {
        StRes { out: StmtOutV::Normal, env, tch, m }
    } else {
        let f1 = (fuel - 1) as nat;
        let child = m_block(body, 0, env.push(BindingV { name, value: items[i] }), env.len() as int, Seq::empty(), funcs, m, f1);
        match child.out {
            StmtOutV::Normal | StmtOutV::Ret(_) | StmtOutV::Brk => {
                let merged = m_merge(env, k, child.tch);
                let env2 = merged.0;
                let tch2 = tch + merged.1;
                match child.out {
                    StmtOutV::Normal => m_loop_items(name, items, i + 1, body, env2, k, tch2, funcs, child.m, f1),
                    StmtOutV::Brk => StRes { out: StmtOutV::Normal, env: env2, tch: tch2, m: child.m },
                    _ => StRes { out: child.out, env: env2, tch: tch2, m: child.m },
                }
            },
            _ => StRes { out: child.out, env, tch, m: child.m },
        }
    }
}

/// A for loop over a Str's characters, each a one-character Str.
pub open spec fn m_loop_chars(name: Seq<char>, cs: Seq<char>, i: int, body: Seq<ValueV>, env: Seq<BindingV>, k: int, tch: Seq<BindingV>, funcs: Seq<FunctionV>, m: MState, fuel: nat) -> StRes
    decreases fuel, 0int,
{
    if fuel == 0 {
        StRes { out: StmtOutV::Spent, env, tch, m }
    } else if i >= cs.len() {
        StRes { out: StmtOutV::Normal, env, tch, m }
    } else {
        let f1 = (fuel - 1) as nat;
        let child = m_block(body, 0, env.push(BindingV { name, value: ValueV::Str(seq![cs[i]]) }), env.len() as int, Seq::empty(), funcs, m, f1);
        match child.out {
            StmtOutV::Normal | StmtOutV::Ret(_) | StmtOutV::Brk => {
                let merged = m_merge(env, k, child.tch);
                let env2 = merged.0;
                let tch2 = tch + merged.1;
                match child.out {
                    StmtOutV::Normal => m_loop_chars(name, cs, i + 1, body, env2, k, tch2, funcs, child.m, f1),
                    StmtOutV::Brk => StRes { out: StmtOutV::Normal, env: env2, tch: tch2, m: child.m },
                    _ => StRes { out: child.out, env: env2, tch: tch2, m: child.m },
                }
            },
            _ => StRes { out: child.out, env, tch, m: child.m },
        }
    }
}

/// One statement: declarations append a binding; re-declarations replace
/// the innermost binding of the name, fatally when none exists, and are
/// reported when the binding came from the encloser; returns and breaks
/// travel; conditions, loops and wrapped lines run as above; any other
/// token is an expression whose value is dropped.
pub open spec fn m_stmt(t: ValueV, env: Seq<BindingV>, k: int, tch: Seq<BindingV>, funcs: Seq<FunctionV>, m: MState, fuel: nat) -> StRes
    decreases fuel, 0int,
{
    if fuel == 0 {
        StRes { out: StmtOutV::Spent, env, tch, m }
    } else {
        let f1 = (fuel - 1) as nat;
        match t {
            ValueV::VariableDeclaration(n, expr, redecl) => {
                let (r, m1) = m_stack(expr, 0, Option::None, BasicOperator::Null, env, funcs, m, f1);
                match r {
                    EvalOutV::Val(v) => {
                        if !redecl {
                            StRes { out: StmtOutV::Normal, env: env.push(BindingV { name: n, value: v }), tch, m: m1 }
                        } else {
                            match m_find_pos(env, n) {
                                Some(p) => {
                                    let b = BindingV { name: n, value: v };
                                    let tch2 = if m_in_prefix(env, k, n) { tch.push(b) } else { tch };
                                    StRes { out: StmtOutV::Normal, env: env.update(p, b), tch: tch2, m: m1 }
                                },
                                Option::None => StRes { out: StmtOutV::Fatal(ErrV::RedeclareMissing(n)), env, tch, m: m1 },
                            }
                        }
                    },
                    EvalOutV::Fatal(e) => StRes { out: StmtOutV::Fatal(e), env, tch, m: m1 },
                    EvalOutV::Need(q) => StRes { out: StmtOutV::Need(q), env, tch, m: m1 },
                    EvalOutV::Spent => StRes { out: StmtOutV::Spent, env, tch, m: m1 },
                }
            },
            ValueV::FunctionReturn(expr) => {
                let (r, m1) = m_stack(expr, 0, Option::None, BasicOperator::Null, env, funcs, m, f1);
                match r {
                    EvalOutV::Val(v) => StRes { out: StmtOutV::Ret(v), env, tch, m: m1 },
                    EvalOutV::Fatal(e) => StRes { out: StmtOutV::Fatal(e), env, tch, m: m1 },
                    EvalOutV::Need(q) => StRes { out: StmtOutV::Need(q), env, tch, m: m1 },
                    EvalOutV::Spent => StRes { out: StmtOutV::Spent, env, tch, m: m1 },
                }
            },
            ValueV::Break => StRes { out: StmtOutV::Brk, env, tch, m },
            ValueV::Condition(g, tb, elses) => {
                let (r, m1) = m_stack(g, 0, Option::None, BasicOperator::Null, env, funcs, m, f1);
                match r {
                    EvalOutV::Val(v) => {
                        if v == ValueV::Bool(true) {
                            m_runblock(tb, env, k, tch, funcs, m1, f1)
                        } else {
                            m_elses(elses, 0, env, k, tch, funcs, m1, f1)
                        }
                    },
                    EvalOutV::Fatal(e) => StRes { out: StmtOutV::Fatal(e), env, tch, m: m1 },
                    EvalOutV::Need(q) => StRes { out: StmtOutV::Need(q), env, tch, m: m1 },
                    EvalOutV::Spent => StRes { out: StmtOutV::Spent, env, tch, m: m1 },
                }
            },
            ValueV::While(g, b) => m_while(g, b, env, k, tch, funcs, m, f1),
            ValueV::Loop(n, it, b) => {
                let (r, m1) = m_stack(it, 0, Option::None, BasicOperator::Null, env, funcs, m, f1);
                match r {
                    EvalOutV::Val(v) => {
                        match v {
                            ValueV::Array(items, p, su) => {
                                if !p && !su {
                                    m_loop_items(n, items, 0, b, env, k, tch, funcs, m1, f1)
                                } else {
                                    StRes { out: StmtOutV::Fatal(ErrV::NotIterable(ValueKind::Array)), env, tch, m: m1 }
                                }
                            },
                            ValueV::Str(s) => m_loop_chars(n, s, 0, b, env, k, tch, funcs, m1, f1),
                            other => StRes { out: StmtOutV::Fatal(ErrV::NotIterable(kind_of(other))), env, tch, m: m1 },
                        }
                    },
                    EvalOutV::Fatal(e) => StRes { out: StmtOutV::Fatal(e), env, tch, m: m1 },
                    EvalOutV::Need(q) => StRes { out: StmtOutV::Need(q), env, tch, m: m1 },
                    EvalOutV::Spent => StRes { out: StmtOutV::Spent, env, tch, m: m1 },
                }
            },
            ValueV::Wrap(ts) => m_line(ts, 0, env, k, tch, funcs, m, f1),
            ValueV::Separator => StRes { out: StmtOutV::Normal, env, tch, m },
            other => {
                let (r, m1) = m_stack(seq![other], 0, Option::None, BasicOperator::Null, env, funcs, m, f1);
                match r {
                    EvalOutV::Val(_) => StRes { out: StmtOutV::Normal, env, tch, m: m1 },
                    EvalOutV::Fatal(e) => StRes { out: StmtOutV::Fatal(e), env, tch, m: m1 },
                    EvalOutV::Need(q) => StRes { out: StmtOutV::Need(q), env, tch, m: m1 },
                    EvalOutV::Spent => StRes { out: StmtOutV::Spent, env, tch, m: m1 },
                }
            },
        }
    }
}

/// The mirror of an optional accumulator value.
pub open spec fn optv(o: Option<Value>) -> Option<ValueV> {
    match o {
        Some(v) => Some(vv(v)),
        Option::None => Option::None,
    }
}

/// True when the string holds exactly the given literal text.
fn str_is(name: &String, lit: &str) -> (r: bool)
    ensures
        r == (name@ == lit@),
{
    let other = String::from_str(lit);
    *name == other
}

/// The printable name of a value type.
pub fn kind_name(k: ValueKind) -> (r: String)
    ensures
        r@ == kind_name_of(k),
{
    match k {
        ValueKind::Null => String::from_str("Null"),
        ValueKind::Integer => String::from_str("Integer"),
        ValueKind::Float => String::from_str("Float"),
        ValueKind::Str => String::from_str("String"),
        ValueKind::Bool => String::from_str("Bool"),
        ValueKind::Array => String::from_str("Array"),
        ValueKind::Or => String::from_str("Or"),
        ValueKind::And => String::from_str("And"),
        ValueKind::Property => String::from_str("Property"),
        ValueKind::PropertyFunction => String::from_str("PropertyFunction"),
        ValueKind::VariableIdentifier => String::from_str("VariableIdentifier"),
        ValueKind::FunctionCall => String::from_str("FunctionCall"),
        ValueKind::NamespaceFunctionCall => String::from_str("NamespaceFunctionCall"),
        ValueKind::FunctionReturn => String::from_str("FunctionReturn"),
        ValueKind::Priority => String::from_str("Priority"),
        ValueKind::Operation => String::from_str("Operation"),
        ValueKind::VariableDeclaration => String::from_str("VariableDeclaration"),
        ValueKind::Condition => String::from_str("Condition"),
        ValueKind::While => String::from_str("While"),
        ValueKind::Loop => String::from_str("Loop"),
        ValueKind::Wrap => String::from_str("Wrap"),
        ValueKind::Separator => String::from_str("Separator"),
        ValueKind::Break => String::from_str("Break"),
        ValueKind::File => String::from_str("File"),
    }
}

/// Splits a call's flattened argument tokens into argument groups.
#[verifier::loop_isolation(false)]
fn ex_split(tokens: &Vec<Value>) -> (r: Vec<Vec<Value>>)
    ensures
        vlines(r@) == m_split(vseq(tokens@)),
{
    let ghost full = vseq(tokens@);
    let mut groups: Vec<Vec<Value>> = Vec::new();
    if tokens.len() == 0 {
        proof {
            assert(vlines(groups@) =~= m_split(full));
        }
        return groups;
    }
    let mut cur: Vec<Value> = Vec::new();
    let mut i: usize = 0;
    proof {
        assert(full.skip(0) =~= full);
        assert(vseq(cur@) =~= Seq::<ValueV>::empty());
        assert(vlines(groups@) =~= Seq::<Seq<ValueV>>::empty());
        assert(vlines(groups@) + m_split_acc(full, Seq::<ValueV>::empty()) =~= m_split_acc(full, Seq::<ValueV>::empty()));
    }
    while i < tokens.len()
        invariant
            i <= tokens@.len(),
            m_split(full) == vlines(groups@) + m_split_acc(full.skip(i as int), vseq(cur@)),
        decreases tokens@.len() - i,
    {
        proof {
            assert(full.skip(i as int)[0] == full[i as int]);
            assert(full.skip(i as int).skip(1) =~= full.skip(i as int + 1));
        }
        let is_sep = match &tokens[i] {
            Value::Separator => true,
            _ => false,
        };
        if is_sep {
            let ghost pre_groups = vlines(groups@);
            let ghost pre_cur = vseq(cur@);
            groups.push(cur);
            cur = Vec::new();
            proof {
                assert(vlines(groups@) =~= pre_groups.push(pre_cur));
                assert(vseq(cur@) =~= Seq::<ValueV>::empty());
                assert(pre_groups + (seq![pre_cur] + m_split_acc(full.skip(i as int + 1), Seq::empty()))
                    =~= vlines(groups@) + m_split_acc(full.skip(i as int + 1), vseq(cur@)));
            }
        } else {
            let ghost pre_cur = vseq(cur@);
            cur.push(clone_value(&tokens[i]));
            proof {
                assert(vseq(cur@) =~= pre_cur.push(full[i as int]));
            }
        }
        i = i + 1;
    }
    proof {
        assert(full.skip(tokens@.len() as int) =~= Seq::<ValueV>::empty());
    }
    let ghost pre_groups = vlines(groups@);
    let ghost pre_cur = vseq(cur@);
    groups.push(cur);
    proof {
        assert(vlines(groups@) =~= pre_groups.push(pre_cur));
        assert(pre_groups + seq![pre_cur] =~= vlines(groups@));
    }
    groups
}

/// Finds the first function of the given name in the table.
#[verifier::loop_isolation(false)]
pub fn find_function(funcs: &Vec<Function>, name: &String) -> (r: Option<usize>)
    ensures
        match r {
            Some(i) => i < funcs@.len() && m_find_fn(fnsv(funcs@), name@) == Some(fview(funcs@[i as int])),
            Option::None => m_find_fn(fnsv(funcs@), name@) == Option::None::<FunctionV>,
        },
{
    let ghost full = fnsv(funcs@);
    let mut i: usize = 0;
    proof {
        assert(full.skip(0) =~= full);
    }
    while i < funcs.len()
        invariant
            i <= funcs@.len(),
            m_find_fn(full, name@) == m_find_fn(full.skip(i as int), name@),
        decreases funcs@.len() - i,
    {
        proof {
            assert(full.skip(i as int)[0] == full[i as int]);
            assert(full.skip(i as int).skip(1) =~= full.skip(i as int + 1));
        }
        if funcs[i].name == *name {
            return Some(i);
        }
        i = i + 1;
    }
    proof {
        assert(full.skip(funcs@.len() as int) =~= Seq::<FunctionV>::empty());
    }
    Option::None
}

/// Binds a callee's parameter names positionally to the argument values.
#[verifier::loop_isolation(false)]
fn ex_bind(params: &Vec<String>, args: &Vec<Value>) -> (r: Vec<Binding>)
    requires
        params@.len() == args@.len(),
    ensures
        envv(r@) == m_bind(crate::value::strseq(params@), vseq(args@)),
{
    let mut out: Vec<Binding> = Vec::new();
    let mut i: usize = 0;
    while i < params.len()
        invariant
            i <= params@.len(),
            out@.len() == i,
            forall|j: int| 0 <= j < i ==> bview(#[trigger] out@[j])
                == (BindingV { name: params@[j]@, value: vseq(args@)[j] }),
        decreases params@.len() - i,
    {
        out.push(Binding {
            name: params[i].clone(),
            value: clone_value(&args[i]),
        });
        i = i + 1;
    }
    proof {
        assert(envv(out@) =~= m_bind(crate::value::strseq(params@), vseq(args@)));
    }
    out
}

/// The ascending elements of a range.
fn ex_range_asc(cur: i64, stop: i64, step: i64) -> (r: Vec<Value>)
    requires
        step >= 1,
    ensures
        vseq(r@) == m_range_asc(cur as int, stop as int, step as int),
    decreases (if cur < stop { stop - cur } else { 0int }),
{
    if cur >= stop {
        let out: Vec<Value> = Vec::new();
        proof {
            assert(vseq(out@) =~= m_range_asc(cur as int, stop as int, step as int));
        }
        out
    } else {
        let mut out: Vec<Value> = Vec::new();
        out.push(Value::Integer(cur));
        match cur.checked_add(step) {
            Some(next) => {
                let mut rest = ex_range_asc(next, stop, step);
                out.append(&mut rest);
                proof {
                    assert(vseq(out@) =~= m_range_asc(cur as int, stop as int, step as int));
                }
                out
            },
            Option::None => {
                proof {
                    assert(m_range_asc(cur as int + step as int, stop as int, step as int)
                        =~= Seq::<ValueV>::empty());
                    assert(vseq(out@) =~= m_range_asc(cur as int, stop as int, step as int));
                }
                out
            },
        }
    }
}

/// The descending elements of a range.
fn ex_range_desc(cur: i64, stop: i64, step: i64) -> (r: Vec<Value>)
    requires
        step <= -1,
    ensures
        vseq(r@) == m_range_desc(cur as int, stop as int, step as int),
    decreases (if cur > stop { cur - stop } else { 0int }),
{
    if cur <= stop {
        let out: Vec<Value> = Vec::new();
        proof {
            assert(vseq(out@) =~= m_range_desc(cur as int, stop as int, step as int));
        }
        out
    } else {
        let mut out: Vec<Value> = Vec::new();
        out.push(Value::Integer(cur));
        match cur.checked_add(step) {
            Some(next) => {
                let mut rest = ex_range_desc(next, stop, step);
                out.append(&mut rest);
                proof {
                    assert(vseq(out@) =~= m_range_desc(cur as int, stop as int, step as int));
                }
                out
            },
            Option::None => {
                proof {
                    assert(m_range_desc(cur as int + step as int, stop as int, step as int)
                        =~= Seq::<ValueV>::empty());
                    assert(vseq(out@) =~= m_range_desc(cur as int, stop as int, step as int));
                }
                out
            },
        }
    }
}

/// The `range` built-in.
fn ex_range_call(args: &Vec<Value>) -> (r: EvalOut)
    ensures
        outv(r) == m_range_call(vseq(args@)),
{
    if args.len() == 1 {
        match &args[0] {
            Value::Integer(lim) => EvalOut::Val(Value::Array(ex_range_asc(0, *lim, 1), false, false)),
            other => EvalOut::Fatal(EvalError::BadBuiltinArg(String::from_str("range"), kind(other))),
        }
    } else if args.len() == 2 {
        match (&args[0], &args[1]) {
            (Value::Integer(a), Value::Integer(b)) => EvalOut::Val(Value::Array(ex_range_asc(*a, *b, 1), false, false)),
            (l, r2) => {
                let lk = kind(l);
                let which = if lk == ValueKind::Integer { kind(r2) } else { lk };
                EvalOut::Fatal(EvalError::BadBuiltinArg(String::from_str("range"), which))
            },
        }
    } else if args.len() == 3 {
        match (&args[0], &args[1], &args[2]) {
            (Value::Integer(a), Value::Integer(b), Value::Integer(st)) => {
                if *st == 0 {
                    EvalOut::Fatal(EvalError::ZeroStep)
                } else if *st > 0 {
                    EvalOut::Val(Value::Array(ex_range_asc(*a, *b, *st), false, false))
                } else {
                    EvalOut::Val(Value::Array(ex_range_desc(*a, *b, *st), false, false))
                }
            },
            (l, mid, r2) => {
                let lk = kind(l);
                let mk = kind(mid);
                let which = if lk != ValueKind::Integer { lk } else if mk != ValueKind::Integer { mk } else { kind(r2) };
                EvalOut::Fatal(EvalError::BadBuiltinArg(String::from_str("range"), which))
            },
        }
    } else {
        EvalOut::Fatal(EvalError::WrongArgCount(String::from_str("range"), 3, args.len()))
    }
}

/// One delegated request put to the host.
fn ex_host(req: Request, miss: EvalError, m: &mut Machine) -> (r: EvalOut)
    ensures
        ({
            let (rv, ms) = m_host(reqv(req), errv(miss), mst(*old(m)));
            outv(r) == rv && mst(*final(m)) == ms
        }),
{
    match take_answer(m) {
        Some(a) => match a {
            Answer::Hit(v) => EvalOut::Val(v),
            Answer::Miss => EvalOut::Fatal(miss),
        },
        Option::None => EvalOut::Need(req),
    }
}

/// The printable form of one value.
pub fn ex_display(v: &Value, m: &mut Machine, fuel: u64) -> (r: DispOut)
    ensures
        ({
            let (dr, ms) = m_display(vv(*v), mst(*old(m)), fuel as nat);
            dispv(r) == dr && mst(*final(m)) == ms
        }),
    decreases fuel, 0int,
{
    if fuel == 0 {
        return DispOut::Spent;
    }
    match v {
        Value::Null => DispOut::Text(String::from_str("Null")),
        Value::Integer(n) => DispOut::Text(int_to_string(*n)),
        Value::Float(_) => {
            match take_answer(m) {
                Some(a) => match a {
                    Answer::Hit(av) => match av {
                        Value::Str(s) => DispOut::Text(s),
                        _ => DispOut::Fatal(EvalError::HostFailed(String::from_str("str"))),
                    },
                    Answer::Miss => DispOut::Fatal(EvalError::HostFailed(String::from_str("str"))),
                },
                Option::None => DispOut::Need(Request::Apply(String::from_str("str"), clone_value(v))),
            }
        },
        Value::Str(s) => DispOut::Text(s.clone()),
        Value::Bool(b) => DispOut::Text(if *b { String::from_str("true") } else { String::from_str("false") }),
        Value::Array(items, p, su) => {
            if !*p && !*su {
                let mut acc = String::new();
                push_char(&mut acc, '[');
                proof {
                    assert(acc@ =~= seq!['[']);
                }
                ex_disp_items(items, 0, acc, m, fuel - 1)
            } else {
                DispOut::Fatal(EvalError::NotAValue(ValueKind::Array))
            }
        },
        Value::File(path) => DispOut::Text(path.clone()),
        other => DispOut::Fatal(EvalError::NotAValue(kind(other))),
    }
}

/// The printable form of an array's elements.
fn ex_disp_items(items: &Vec<Value>, i: usize, acc: String, m: &mut Machine, fuel: u64) -> (r: DispOut)
    ensures
        ({
            let (dr, ms) = m_disp_items(vseq(items@), i as int, acc@, mst(*old(m)), fuel as nat);
            dispv(r) == dr && mst(*final(m)) == ms
        }),
    decreases fuel, 0int,
{
    if fuel == 0 {
        return DispOut::Spent;
    }
    if i >= items.len() {
        let mut acc = acc;
        push_char(&mut acc, ']');
        return DispOut::Text(acc);
    }
    let mut acc1 = acc;
    if i > 0 {
        acc1.append(", ");
    }
    match ex_display(&items[i], m, fuel - 1) {
        DispOut::Text(s) => {
            acc1.append(s.as_str());
            ex_disp_items(items, i + 1, acc1, m, fuel - 1)
        },
        other => other,
    }
}

/// One reduced token.
pub fn ex_reduce(t: &Value, env: &Vec<Binding>, funcs: &Vec<Function>, m: &mut Machine, fuel: u64) -> (r: EvalOut)
    ensures
        ({
            let (rv, ms) = m_reduce(vv(*t), envv(env@), fnsv(funcs@), mst(*old(m)), fuel as nat);
            outv(r) == rv && mst(*final(m)) == ms
        }),
    decreases fuel, 0int,
{
    if fuel == 0 {
        return EvalOut::Spent;
    }
    match t {
        Value::Null => EvalOut::Val(Value::Null),
        Value::Integer(n) => EvalOut::Val(Value::Integer(*n)),
        Value::Float(b) => EvalOut::Val(Value::Float(*b)),
        Value::Str(s) => EvalOut::Val(Value::Str(s.clone())),
        Value::Bool(b) => EvalOut::Val(Value::Bool(*b)),
        Value::File(p) => EvalOut::Val(Value::File(p.clone())),
        Value::Operation(o) => EvalOut::Val(Value::Operation(*o)),
        Value::Array(elems, p, su) => {
            if !*p && !*su {
                EvalOut::Val(clone_value(t))
            } else if *p && !*su {
                match ex_eval_elems(elems, 0, Vec::new(), env, funcs, m, fuel - 1) {
                    ArgsOut::Vals(vs) => EvalOut::Val(Value::Array(vs, false, false)),
                    ArgsOut::Fatal(e) => EvalOut::Fatal(e),
                    ArgsOut::Need(q) => EvalOut::Need(q),
                    ArgsOut::Spent => EvalOut::Spent,
                }
            } else if !*p && *su {
                if elems.len() == 0 {
                    EvalOut::Fatal(EvalError::NotIndexable(ValueKind::Array))
                } else {
                    let mut single: Vec<Value> = Vec::new();
                    single.push(clone_value(&elems[0]));
                    proof {
                        assert(vseq(single@) =~= seq![vseq(elems@)[0]]);
                    }
                    match ex_stack(&single, 0, Option::None, BasicOperator::Null, env, funcs, m, fuel - 1) {
                        EvalOut::Val(base) => ex_index_chain(base, elems, 1, env, funcs, m, fuel - 1),
                        other => other,
                    }
                }
            } else {
                EvalOut::Fatal(EvalError::NotAValue(ValueKind::Array))
            }
        },
        Value::VariableIdentifier(n) => {
            match lookup_value(env, n) {
                Some(v) => EvalOut::Val(v),
                Option::None => EvalOut::Fatal(EvalError::UnknownVariable(n.clone())),
            }
        },
        Value::Priority(ts) => ex_stack(ts, 0, Option::None, BasicOperator::Null, env, funcs, m, fuel - 1),
        Value::Wrap(ts) => ex_stack(ts, 0, Option::None, BasicOperator::Null, env, funcs, m, fuel - 1),
        Value::FunctionCall(nm, argtoks) => {
            let groups = ex_split(argtoks);
            match ex_eval_groups(&groups, 0, Vec::new(), env, funcs, m, fuel - 1) {
                ArgsOut::Vals(args) => ex_call(nm, args, env, funcs, m, fuel - 1),
                ArgsOut::Fatal(e) => EvalOut::Fatal(e),
                ArgsOut::Need(q) => EvalOut::Need(q),
                ArgsOut::Spent => EvalOut::Spent,
            }
        },
        Value::NamespaceFunctionCall(ns, nm, argtoks) => {
            let groups = ex_split(argtoks);
            match ex_eval_groups(&groups, 0, Vec::new(), env, funcs, m, fuel - 1) {
                ArgsOut::Vals(args) => ex_host(
                    Request::Namespace(clone_strings(ns), nm.clone(), args),
                    EvalError::UnknownNamespaceFunction(nm.clone()),
                    m,
                ),
                ArgsOut::Fatal(e) => EvalOut::Fatal(e),
                ArgsOut::Need(q) => EvalOut::Need(q),
                ArgsOut::Spent => EvalOut::Spent,
            }
        },
        Value::PropertyFunction(fname, fargs, pname, pargs) => {
            let fgroups = ex_split(fargs);
            match ex_eval_groups(&fgroups, 0, Vec::new(), env, funcs, m, fuel - 1) {
                ArgsOut::Vals(args) => {
                    match ex_call(fname, args, env, funcs, m, fuel - 1) {
                        EvalOut::Val(recv) => {
                            let pgroups = ex_split(pargs);
                            match ex_eval_groups(&pgroups, 0, Vec::new(), env, funcs, m, fuel - 1) {
                                ArgsOut::Vals(pvals) => ex_member(recv, pname, pvals, m, fuel - 1),
                                ArgsOut::Fatal(e) => EvalOut::Fatal(e),
                                ArgsOut::Need(q) => EvalOut::Need(q),
                                ArgsOut::Spent => EvalOut::Spent,
                            }
                        },
                        other => other,
                    }
                },
                ArgsOut::Fatal(e) => EvalOut::Fatal(e),
                ArgsOut::Need(q) => EvalOut::Need(q),
                ArgsOut::Spent => EvalOut::Spent,
            }
        },
        other => EvalOut::Fatal(EvalError::NotAValue(kind(other))),
    }
}

/// The expression evaluator's walk from one token position.
pub fn ex_stack(tokens: &Vec<Value>, i: usize, acc: Option<Value>, op: BasicOperator, env: &Vec<Binding>, funcs: &Vec<Function>, m: &mut Machine, fuel: u64) -> (r: EvalOut)
    ensures
        ({
            let (rv, ms) = m_stack(vseq(tokens@), i as int, optv(acc), op, envv(env@), fnsv(funcs@), mst(*old(m)), fuel as nat);
            outv(r) == rv && mst(*final(m)) == ms
        }),
    decreases fuel, 0int,
{
    if fuel == 0 {
        return EvalOut::Spent;
    }
    if i >= tokens.len() {
        return EvalOut::Val(match acc {
            Some(v) => v,
            Option::None => Value::Null,
        });
    }
    match &tokens[i] {
        Value::Operation(o) => ex_stack(tokens, i + 1, acc, *o, env, funcs, m, fuel - 1),
        Value::Or(xs) => ex_bool_side(tokens, i, acc, op, xs, false, env, funcs, m, fuel - 1),
        Value::And(xs) => ex_bool_side(tokens, i, acc, op, xs, true, env, funcs, m, fuel - 1),
        Value::Property(pname, pargs) => {
            let groups = ex_split(pargs);
            match ex_eval_groups(&groups, 0, Vec::new(), env, funcs, m, fuel - 1) {
                ArgsOut::Vals(args) => {
                    let recv = match acc {
                        Some(v) => v,
                        Option::None => Value::Null,
                    };
                    match ex_member(recv, pname, args, m, fuel - 1) {
                        EvalOut::Val(v) => ex_stack(tokens, i + 1, Some(v), op, env, funcs, m, fuel - 1),
                        other => other,
                    }
                },
                ArgsOut::Fatal(e) => EvalOut::Fatal(e),
                ArgsOut::Need(q) => EvalOut::Need(q),
                ArgsOut::Spent => EvalOut::Spent,
            }
        },
        _ => {
            match ex_reduce(&tokens[i], env, funcs, m, fuel - 1) {
                EvalOut::Val(v) => {
                    match acc {
                        Option::None => ex_stack(tokens, i + 1, Some(v), op, env, funcs, m, fuel - 1),
                        Some(l) => {
                            match apply_binary(op, l, v) {
                                OpOut::Val(v2) => ex_stack(tokens, i + 1, Some(v2), op, env, funcs, m, fuel - 1),
                                OpOut::Fatal(e) => EvalOut::Fatal(e),
                                OpOut::Host(req) => {
                                    match take_answer(m) {
                                        Some(a) => match a {
                                            Answer::Hit(v2) => ex_stack(tokens, i + 1, Some(v2), op, env, funcs, m, fuel - 1),
                                            Answer::Miss => EvalOut::Fatal(EvalError::HostFailed(String::from_str("operator"))),
                                        },
                                        Option::None => EvalOut::Need(req),
                                    }
                                },
                            }
                        },
                    }
                },
                other => other,
            }
        },
    }
}

/// One boolean combination of the accumulator with a nested operand
/// sequence.
fn ex_bool_side(tokens: &Vec<Value>, i: usize, acc: Option<Value>, op: BasicOperator, xs: &Vec<Value>, conj: bool, env: &Vec<Binding>, funcs: &Vec<Function>, m: &mut Machine, fuel: u64) -> (r: EvalOut)
    requires
        i < tokens@.len(),
    ensures
        ({
            let (rv, ms) = m_bool_side(vseq(tokens@), i as int, optv(acc), op, vseq(xs@), conj, envv(env@), fnsv(funcs@), mst(*old(m)), fuel as nat);
            outv(r) == rv && mst(*final(m)) == ms
        }),
    decreases fuel, 0int,
{
    if fuel == 0 {
        return EvalOut::Spent;
    }
    let n = tokens.len();
    proof {
        assert(i < n);
    }
    match ex_stack(xs, 0, Option::None, BasicOperator::Null, env, funcs, m, fuel - 1) {
        EvalOut::Val(side) => {
            let lhs = match acc {
                Some(v) => v,
                Option::None => Value::Null,
            };
            match lhs {
                Value::Bool(a) => match side {
                    Value::Bool(b) => {
                        let joined = if conj { a && b } else { a || b };
                        ex_stack(tokens, i + 1, Some(Value::Bool(joined)), op, env, funcs, m, fuel - 1)
                    },
                    other => EvalOut::Fatal(EvalError::NotABool(kind(&other))),
                },
                other => EvalOut::Fatal(EvalError::NotABool(kind(&other))),
            }
        },
        other => other,
    }
}

/// The argument groups of a call, each evaluated as one expression.
fn ex_eval_groups(groups: &Vec<Vec<Value>>, i: usize, acc: Vec<Value>, env: &Vec<Binding>, funcs: &Vec<Function>, m: &mut Machine, fuel: u64) -> (r: ArgsOut)
    ensures
        ({
            let (rv, ms) = m_eval_groups(vlines(groups@), i as int, vseq(acc@), envv(env@), fnsv(funcs@), mst(*old(m)), fuel as nat);
            argsv(r) == rv && mst(*final(m)) == ms
        }),
    decreases fuel, 0int,
{
    if fuel == 0 {
        return ArgsOut::Spent;
    }
    if i >= groups.len() {
        return ArgsOut::Vals(acc);
    }
    match ex_stack(&groups[i], 0, Option::None, BasicOperator::Null, env, funcs, m, fuel - 1) {
        EvalOut::Val(v) => {
            let ghost pre = vseq(acc@);
            let mut acc = acc;
            acc.push(v);
            proof {
                assert(vseq(acc@) =~= pre.push(vseq(acc@).last()));
            }
            ex_eval_groups(groups, i + 1, acc, env, funcs, m, fuel - 1)
        },
        EvalOut::Fatal(e) => ArgsOut::Fatal(e),
        EvalOut::Need(q) => ArgsOut::Need(q),
        EvalOut::Spent => ArgsOut::Spent,
    }
}

/// The elements of an array literal, each evaluated independently.
fn ex_eval_elems(elems: &Vec<Value>, i: usize, acc: Vec<Value>, env: &Vec<Binding>, funcs: &Vec<Function>, m: &mut Machine, fuel: u64) -> (r: ArgsOut)
    ensures
        ({
            let (rv, ms) = m_eval_elems(vseq(elems@), i as int, vseq(acc@), envv(env@), fnsv(funcs@), mst(*old(m)), fuel as nat);
            argsv(r) == rv && mst(*final(m)) == ms
        }),
    decreases fuel, 0int,
{
    if fuel == 0 {
        return ArgsOut::Spent;
    }
    if i >= elems.len() {
        return ArgsOut::Vals(acc);
    }
    let mut single: Vec<Value> = Vec::new();
    single.push(clone_value(&elems[i]));
    proof {
        assert(vseq(single@) =~= seq![vseq(elems@)[i as int]]);
    }
    match ex_stack(&single, 0, Option::None, BasicOperator::Null, env, funcs, m, fuel - 1) {
        EvalOut::Val(v) => {
            let ghost pre = vseq(acc@);
            let mut acc = acc;
            acc.push(v);
            proof {
                assert(vseq(acc@) =~= pre.push(vseq(acc@).last()));
            }
            ex_eval_elems(elems, i + 1, acc, env, funcs, m, fuel - 1)
        },
        EvalOut::Fatal(e) => ArgsOut::Fatal(e),
        EvalOut::Need(q) => ArgsOut::Need(q),
        EvalOut::Spent => ArgsOut::Spent,
    }
}

/// Chained indexing through bracket groups.
fn ex_index_chain(cur: Value, groups: &Vec<Value>, i: usize, env: &Vec<Binding>, funcs: &Vec<Function>, m: &mut Machine, fuel: u64) -> (r: EvalOut)
    ensures
        ({
            let (rv, ms) = m_index_chain(vv(cur), vseq(groups@), i as int, envv(env@), fnsv(funcs@), mst(*old(m)), fuel as nat);
            outv(r) == rv && mst(*final(m)) == ms
        }),
    decreases fuel, 0int,
{
    if fuel == 0 {
        return EvalOut::Spent;
    }
    if i >= groups.len() {
        return EvalOut::Val(cur);
    }
    match &groups[i] {
        Value::Array(idxtoks, p, su) => {
            if *p && !*su {
                match ex_eval_elems(idxtoks, 0, Vec::new(), env, funcs, m, fuel - 1) {
                    ArgsOut::Vals(ixs) => {
                        if ixs.len() != 1 {
                            EvalOut::Fatal(EvalError::InvalidIndex(ValueKind::Array))
                        } else {
                            match &ixs[0] {
                                Value::Integer(ix) => {
                                    let ix = *ix;
                                    match cur {
                                        Value::Array(items, _, false) => {
                                            if 0 <= ix && (ix as u64) < (items.len() as u64) {
                                                let iu = ix as usize;
                                                proof {
                                                    assert(iu as int == ix as int);
                                                }
                                                let nxt = clone_value(&items[iu]);
                                                proof {
                                                    assert(vv(nxt) == vseq(items@)[ix as int]);
                                                }
                                                ex_index_chain(nxt, groups, i + 1, env, funcs, m, fuel - 1)
                                            } else {
                                                EvalOut::Fatal(EvalError::IndexOutOfRange)
                                            }
                                        },
                                        Value::Str(st) => {
                                            let n = st.as_str().unicode_len();
                                            if 0 <= ix && (ix as u64) < (n as u64) {
                                                let iu = ix as usize;
                                                proof {
                                                    assert(iu as int == ix as int);
                                                }
                                                let c = st.as_str().get_char(iu);
                                                let mut one = String::new();
                                                push_char(&mut one, c);
                                                proof {
                                                    assert(one@ =~= seq![st@[ix as int]]);
                                                }
                                                ex_index_chain(Value::Str(one), groups, i + 1, env, funcs, m, fuel - 1)
                                            } else {
                                                EvalOut::Fatal(EvalError::IndexOutOfRange)
                                            }
                                        },
                                        other => EvalOut::Fatal(EvalError::NotIndexable(kind(&other))),
                                    }
                                },
                                other => EvalOut::Fatal(EvalError::InvalidIndex(kind(other))),
                            }
                        }
                    },
                    ArgsOut::Fatal(e) => EvalOut::Fatal(e),
                    ArgsOut::Need(q) => EvalOut::Need(q),
                    ArgsOut::Spent => EvalOut::Spent,
                }
            } else {
                EvalOut::Fatal(EvalError::InvalidIndex(ValueKind::Array))
            }
        },
        other => EvalOut::Fatal(EvalError::InvalidIndex(kind(other))),
    }
}

/// Member dispatch on a Str receiver.
fn ex_member_str(s: String, name: &String, args: &Vec<Value>) -> (r: EvalOut)
    ensures
        outv(r) == m_member_str(s@, name@, vseq(args@)),
{
    if str_is(name, "uppercase") {
        if args.len() == 0 {
            EvalOut::Val(Value::Str(to_upper(s.as_str())))
        } else {
            EvalOut::Fatal(EvalError::BadMemberArgs(name.clone(), ValueKind::Str))
        }
    } else if str_is(name, "lowercase") {
        if args.len() == 0 {
            EvalOut::Val(Value::Str(to_lower(s.as_str())))
        } else {
            EvalOut::Fatal(EvalError::BadMemberArgs(name.clone(), ValueKind::Str))
        }
    } else if str_is(name, "capitalize") {
        if args.len() == 0 {
            EvalOut::Val(Value::Str(capitalize(s.as_str())))
        } else {
            EvalOut::Fatal(EvalError::BadMemberArgs(name.clone(), ValueKind::Str))
        }
    } else if str_is(name, "replace") {
        if args.len() == 2 {
            match (&args[0], &args[1]) {
                (Value::Str(a), Value::Str(b)) => {
                    EvalOut::Val(Value::Str(replace_str(s.as_str(), a.as_str(), b.as_str())))
                },
                _ => EvalOut::Fatal(EvalError::BadMemberArgs(name.clone(), ValueKind::Str)),
            }
        } else {
            EvalOut::Fatal(EvalError::BadMemberArgs(name.clone(), ValueKind::Str))
        }
    } else {
        EvalOut::Fatal(EvalError::UnknownMember(name.clone(), ValueKind::Str))
    }
}

/// Member dispatch on an Array receiver.
#[verifier::loop_isolation(false)]
fn ex_member_arr(items: &Vec<Value>, name: &String, args: &Vec<Value>) -> (r: EvalOut)
    ensures
        outv(r) == m_member_arr(vseq(items@), name@, vseq(args@)),
{
    if str_is(name, "len") {
        if args.len() == 0 {
            if (items.len() as u64) <= 0x7fff_ffff_ffff_ffffu64 {
                EvalOut::Val(Value::Integer(items.len() as i64))
            } else {
                EvalOut::Fatal(EvalError::Overflow)
            }
        } else {
            EvalOut::Fatal(EvalError::BadMemberArgs(name.clone(), ValueKind::Array))
        }
    } else if str_is(name, "contains") {
        if args.len() == 1 {
            let mut j: usize = 0;
            let mut found = false;
            while j < items.len()
                invariant
                    j <= items@.len(),
                    found == exists|x: int| 0 <= x < j && eqv(#[trigger] vseq(items@)[x], vseq(args@)[0]),
                decreases items@.len() - j,
            {
                proof {
                    assert(vseq(items@)[j as int] == vv(items@[j as int]));
                    assert(vseq(args@)[0] == vv(args@[0]));
                }
                if value_eq(&items[j], &args[0]) {
                    found = true;
                }
                j = j + 1;
            }
            EvalOut::Val(Value::Bool(found))
        } else {
            EvalOut::Fatal(EvalError::BadMemberArgs(name.clone(), ValueKind::Array))
        }
    } else {
        EvalOut::Fatal(EvalError::UnknownMember(name.clone(), ValueKind::Array))
    }
}

/// Member dispatch on a receiver.
fn ex_member(recv: Value, name: &String, args: Vec<Value>, m: &mut Machine, fuel: u64) -> (r: EvalOut)
    ensures
        ({
            let (rv, ms) = m_member(vv(recv), name@, vseq(args@), mst(*old(m)), fuel as nat);
            outv(r) == rv && mst(*final(m)) == ms
        }),
    decreases fuel, 0int,
{
    if fuel == 0 {
        return EvalOut::Spent;
    }
    match recv {
        Value::Str(s) => ex_member_str(s, name, &args),
        Value::Array(items, _, _) => ex_member_arr(&items, name, &args),
        Value::File(path) => ex_host(
            Request::FileOp(path, name.clone(), args),
            EvalError::UnknownMember(name.clone(), ValueKind::File),
            m,
        ),
        other => EvalOut::Fatal(EvalError::UnknownMember(name.clone(), kind(&other))),
    }
}

/// The `print` built-in.
fn ex_b_print(name: &String, args: &Vec<Value>, m: &mut Machine, fuel: u64) -> (r: EvalOut)
    ensures
        ({
            let (rv, ms) = m_b_print(name@, vseq(args@), mst(*old(m)), fuel as nat);
            outv(r) == rv && mst(*final(m)) == ms
        }),
    decreases fuel, 1int,
{
    if args.len() != 1 {
        EvalOut::Fatal(EvalError::WrongArgCount(name.clone(), 1, args.len()))
    } else {
        match ex_display(&args[0], m, fuel) {
            DispOut::Text(s) => {
                push_log(m, s);
                EvalOut::Val(Value::Null)
            },
            DispOut::Fatal(e) => EvalOut::Fatal(e),
            DispOut::Need(q) => EvalOut::Need(q),
            DispOut::Spent => EvalOut::Spent,
        }
    }
}

/// The `abs` built-in.
fn ex_b_abs(name: &String, args: &Vec<Value>) -> (r: EvalOut)
    ensures
        outv(r) == m_b_abs(name@, vseq(args@)),
{
    if args.len() != 1 {
        EvalOut::Fatal(EvalError::WrongArgCount(name.clone(), 1, args.len()))
    } else {
        match &args[0] {
            Value::Integer(n) => {
                let n = *n;
                if n == i64::MIN {
                    EvalOut::Fatal(EvalError::Overflow)
                } else if n < 0 {
                    EvalOut::Val(Value::Integer(-n))
                } else {
                    EvalOut::Val(Value::Integer(n))
                }
            },
            Value::Float(b) => EvalOut::Val(Value::Float(*b & 0x7fff_ffff_ffff_ffffu64)),
            other => EvalOut::Fatal(EvalError::BadBuiltinArg(name.clone(), kind(other))),
        }
    }
}

/// The `round` built-in.
fn ex_b_round(name: &String, args: &Vec<Value>, m: &mut Machine) -> (r: EvalOut)
    ensures
        ({
            let (rv, ms) = m_b_round(name@, vseq(args@), mst(*old(m)));
            outv(r) == rv && mst(*final(m)) == ms
        }),
{
    if args.len() != 1 {
        EvalOut::Fatal(EvalError::WrongArgCount(name.clone(), 1, args.len()))
    } else {
        match &args[0] {
            Value::Integer(n) => EvalOut::Val(Value::Integer(*n)),
            Value::Float(_) => ex_host(
                Request::Apply(name.clone(), clone_value(&args[0])),
                EvalError::HostFailed(name.clone()),
                m,
            ),
            other => EvalOut::Fatal(EvalError::BadBuiltinArg(name.clone(), kind(other))),
        }
    }
}

/// The `len` built-in.
fn ex_b_len(name: &String, args: &Vec<Value>) -> (r: EvalOut)
    ensures
        outv(r) == m_b_len(name@, vseq(args@)),
{
    if args.len() != 1 {
        EvalOut::Fatal(EvalError::WrongArgCount(name.clone(), 1, args.len()))
    } else {
        proof {
            assert(vseq(args@)[0] == vv(args@[0]));
        }
        match &args[0] {
            Value::Str(s) => {
                let n = s.as_str().unicode_len();
                if (n as u64) <= 0x7fff_ffff_ffff_ffffu64 {
                    EvalOut::Val(Value::Integer(n as i64))
                } else {
                    EvalOut::Fatal(EvalError::Overflow)
                }
            },
            Value::Array(items, _, _) => {
                if (items.len() as u64) <= 0x7fff_ffff_ffff_ffffu64 {
                    proof {
                        assert(vv(args@[0]) matches ValueV::Array(mi, _, _) && mi == vseq(items@));
                        assert(vseq(items@).len() == items@.len());
                    }
                    EvalOut::Val(Value::Integer(items.len() as i64))
                } else {
                    EvalOut::Fatal(EvalError::Overflow)
                }
            },
            other => EvalOut::Fatal(EvalError::BadBuiltinArg(name.clone(), kind(other))),
        }
    }
}

/// The `input` built-in.
fn ex_b_input(name: &String, args: &Vec<Value>, m: &mut Machine) -> (r: EvalOut)
    ensures
        ({
            let (rv, ms) = m_b_input(name@, vseq(args@), mst(*old(m)));
            outv(r) == rv && mst(*final(m)) == ms
        }),
{
    if args.len() > 1 {
        EvalOut::Fatal(EvalError::WrongArgCount(name.clone(), 1, args.len()))
    } else if args.len() == 1 {
        match &args[0] {
            Value::Str(prompt) => {
                push_log(m, prompt.clone());
                ex_host(Request::ReadLine, EvalError::HostFailed(name.clone()), m)
            },
            other => EvalOut::Fatal(EvalError::BadBuiltinArg(name.clone(), kind(other))),
        }
    } else {
        ex_host(Request::ReadLine, EvalError::HostFailed(name.clone()), m)
    }
}

/// The `type` built-in.
fn ex_b_type(name: &String, args: &Vec<Value>) -> (r: EvalOut)
    ensures
        outv(r) == m_b_type(name@, vseq(args@)),
{
    if args.len() != 1 {
        EvalOut::Fatal(EvalError::WrongArgCount(name.clone(), 1, args.len()))
    } else {
        EvalOut::Val(Value::Str(kind_name(kind(&args[0]))))
    }
}

/// The `hash` built-in.
fn ex_b_hash(name: &String, args: &Vec<Value>) -> (r: EvalOut)
    ensures
        outv(r) == m_b_hash(name@, vseq(args@)),
{
    if args.len() != 1 {
        EvalOut::Fatal(EvalError::WrongArgCount(name.clone(), 1, args.len()))
    } else {
        let bytes = encode_value(&args[0]);
        EvalOut::Val(Value::Str(blake3_hex(&bytes)))
    }
}

/// The `sqrt` built-in.
fn ex_b_sqrt(name: &String, args: &Vec<Value>, m: &mut Machine) -> (r: EvalOut)
    ensures
        ({
            let (rv, ms) = m_b_sqrt(name@, vseq(args@), mst(*old(m)));
            outv(r) == rv && mst(*final(m)) == ms
        }),
{
    if args.len() != 1 {
        EvalOut::Fatal(EvalError::WrongArgCount(name.clone(), 1, args.len()))
    } else {
        match &args[0] {
            Value::Integer(_) => ex_host(
                Request::Apply(name.clone(), clone_value(&args[0])),
                EvalError::HostFailed(name.clone()),
                m,
            ),
            Value::Float(_) => ex_host(
                Request::Apply(name.clone(), clone_value(&args[0])),
                EvalError::HostFailed(name.clone()),
                m,
            ),
            other => EvalOut::Fatal(EvalError::BadBuiltinArg(name.clone(), kind(other))),
        }
    }
}

/// The `executeline` built-in.
fn ex_b_execline(name: &String, args: &Vec<Value>, env: &Vec<Binding>, funcs: &Vec<Function>, m: &mut Machine, fuel: u64) -> (r: EvalOut)
    ensures
        ({
            let (rv, ms) = m_b_execline(name@, vseq(args@), envv(env@), fnsv(funcs@), mst(*old(m)), fuel as nat);
            outv(r) == rv && mst(*final(m)) == ms
        }),
    decreases fuel, 1int,
{
    if args.len() != 1 {
        EvalOut::Fatal(EvalError::WrongArgCount(name.clone(), 1, args.len()))
    } else {
        match &args[0] {
            Value::Str(line) => {
                match take_answer(m) {
                    Some(a) => match a {
                        Answer::Hit(av) => match av {
                            Value::Wrap(ts) => ex_stack(&ts, 0, Option::None, BasicOperator::Null, env, funcs, m, fuel),
                            other => EvalOut::Val(other),
                        },
                        Answer::Miss => EvalOut::Fatal(EvalError::ParseFailed(line.clone())),
                    },
                    Option::None => EvalOut::Need(Request::Parse(line.clone())),
                }
            },
            other => EvalOut::Fatal(EvalError::BadBuiltinArg(name.clone(), kind(other))),
        }
    }
}

/// The `int` built-in.
fn ex_b_int(name: &String, args: &Vec<Value>, m: &mut Machine) -> (r: EvalOut)
    ensures
        ({
            let (rv, ms) = m_b_int(name@, vseq(args@), mst(*old(m)));
            outv(r) == rv && mst(*final(m)) == ms
        }),
{
    if args.len() != 1 {
        EvalOut::Fatal(EvalError::WrongArgCount(name.clone(), 1, args.len()))
    } else {
        match &args[0] {
            Value::Str(s) => {
                match parse_i64(s) {
                    Some(v) => EvalOut::Val(Value::Integer(v)),
                    Option::None => EvalOut::Fatal(EvalError::ConvertFailed(s.clone())),
                }
            },
            Value::Float(_) => ex_host(
                Request::Apply(name.clone(), clone_value(&args[0])),
                EvalError::HostFailed(name.clone()),
                m,
            ),
            other => EvalOut::Fatal(EvalError::CannotConvert(kind(other), ValueKind::Integer)),
        }
    }
}

/// The `str` built-in.
fn ex_b_str(name: &String, args: &Vec<Value>, m: &mut Machine, fuel: u64) -> (r: EvalOut)
    ensures
        ({
            let (rv, ms) = m_b_str(name@, vseq(args@), mst(*old(m)), fuel as nat);
            outv(r) == rv && mst(*final(m)) == ms
        }),
    decreases fuel, 1int,
{
    if args.len() != 1 {
        EvalOut::Fatal(EvalError::WrongArgCount(name.clone(), 1, args.len()))
    } else {
        match ex_display(&args[0], m, fuel) {
            DispOut::Text(s) => EvalOut::Val(Value::Str(s)),
            DispOut::Fatal(e) => EvalOut::Fatal(e),
            DispOut::Need(q) => EvalOut::Need(q),
            DispOut::Spent => EvalOut::Spent,
        }
    }
}

/// The `float` built-in.
fn ex_b_float(name: &String, args: &Vec<Value>, m: &mut Machine) -> (r: EvalOut)
    ensures
        ({
            let (rv, ms) = m_b_float(name@, vseq(args@), mst(*old(m)));
            outv(r) == rv && mst(*final(m)) == ms
        }),
{
    if args.len() != 1 {
        EvalOut::Fatal(EvalError::WrongArgCount(name.clone(), 1, args.len()))
    } else {
        match &args[0] {
            Value::Str(s) => ex_host(
                Request::Apply(name.clone(), clone_value(&args[0])),
                EvalError::ConvertFailed(s.clone()),
                m,
            ),
            Value::Integer(_) => ex_host(
                Request::Apply(name.clone(), clone_value(&args[0])),
                EvalError::HostFailed(name.clone()),
                m,
            ),
            other => EvalOut::Fatal(EvalError::CannotConvert(kind(other), ValueKind::Float)),
        }
    }
}

/// A user-defined function invocation.
#[verifier::rlimit(100)]
fn ex_user_call(name: &String, args: &Vec<Value>, funcs: &Vec<Function>, m: &mut Machine, fuel: u64) -> (r: EvalOut)
    ensures
        ({
            let (rv, ms) = m_user_call(name@, vseq(args@), fnsv(funcs@), mst(*old(m)), fuel as nat);
            outv(r) == rv && mst(*final(m)) == ms
        }),
    decreases fuel, 1int,
{
    match find_function(funcs, name) {
        Option::None => EvalOut::Fatal(EvalError::UnknownFunction(name.clone())),
        Some(fi) => {
            if funcs[fi].params.len() != args.len() {
                EvalOut::Fatal(EvalError::WrongArgCount(name.clone(), funcs[fi].params.len(), args.len()))
            } else {
                let mut env2 = ex_bind(&funcs[fi].params, args);
                let k2 = env2.len();
                let mut tch2: Vec<Binding> = Vec::new();
                proof {
                    assert(envv(tch2@) =~= Seq::<BindingV>::empty());
                }
                let out = ex_body(&funcs[fi].body, 0, &mut env2, k2, &mut tch2, funcs, m, fuel);
                match out {
                    StmtOut::Ret(v) => EvalOut::Val(v),
                    StmtOut::Normal => EvalOut::Val(Value::Null),
                    StmtOut::Brk => EvalOut::Fatal(EvalError::BreakOutsideLoop),
                    StmtOut::Fatal(e) => EvalOut::Fatal(e),
                    StmtOut::Need(q) => EvalOut::Need(q),
                    StmtOut::Spent => EvalOut::Spent,
                }
            }
        },
    }
}

/// Function dispatch: built-ins first, then the user function table.
pub fn ex_call(name: &String, args: Vec<Value>, env: &Vec<Binding>, funcs: &Vec<Function>, m: &mut Machine, fuel: u64) -> (r: EvalOut)
    ensures
        ({
            let (rv, ms) = m_call(name@, vseq(args@), envv(env@), fnsv(funcs@), mst(*old(m)), fuel as nat);
            outv(r) == rv && mst(*final(m)) == ms
        }),
    decreases fuel, 0int,
{
    if fuel == 0 {
        return EvalOut::Spent;
    }
    if str_is(name, "print") {
        ex_b_print(name, &args, m, fuel - 1)
    } else if str_is(name, "abs") {
        ex_b_abs(name, &args)
    } else if str_is(name, "round") {
        ex_b_round(name, &args, m)
    } else if str_is(name, "len") {
        ex_b_len(name, &args)
    } else if str_is(name, "input") {
        ex_b_input(name, &args, m)
    } else if str_is(name, "type") {
        ex_b_type(name, &args)
    } else if str_is(name, "hash") {
        ex_b_hash(name, &args)
    } else if str_is(name, "sqrt") {
        ex_b_sqrt(name, &args, m)
    } else if str_is(name, "the_answer") {
        push_log(m, String::from_str("42, the answer to the Ultimate Question of Life, the Universe, and Everything."));
        EvalOut::Val(Value::Integer(42))
    } else if str_is(name, "range") {
        ex_range_call(&args)
    } else if str_is(name, "executeline") {
        ex_b_execline(name, &args, env, funcs, m, fuel - 1)
    } else if str_is(name, "int") {
        ex_b_int(name, &args, m)
    } else if str_is(name, "str") {
        ex_b_str(name, &args, m, fuel - 1)
    } else if str_is(name, "float") {
        ex_b_float(name, &args, m)
    } else {
        ex_user_call(name, &args, funcs, m, fuel - 1)
    }
}

/// A function body: its lines in order.
pub fn ex_body(lines: &Vec<Vec<Value>>, i: usize, env: &mut Vec<Binding>, k: usize, tch: &mut Vec<Binding>, funcs: &Vec<Function>, m: &mut Machine, fuel: u64) -> (r: StmtOut)
    requires
        k <= old(env)@.len(),
    ensures
        ({
            let res = m_body(vlines(lines@), i as int, envv(old(env)@), k as int, envv(old(tch)@), fnsv(funcs@), mst(*old(m)), fuel as nat);
            stoutv(r) == res.out && envv(final(env)@) == res.env && envv(final(tch)@) == res.tch && mst(*final(m)) == res.m
        }),
        final(env)@.len() >= old(env)@.len(),
    decreases fuel, 0int,
{
    if fuel == 0 {
        return StmtOut::Spent;
    }
    if i >= lines.len() {
        return StmtOut::Normal;
    }
    let r = ex_line(&lines[i], 0, env, k, tch, funcs, m, fuel - 1);
    match r {
        StmtOut::Normal => ex_body(lines, i + 1, env, k, tch, funcs, m, fuel - 1),
        other => other,
    }
}

/// One line: statement tokens, then at most one trailing expression.
pub fn ex_line(line: &Vec<Value>, i: usize, env: &mut Vec<Binding>, k: usize, tch: &mut Vec<Binding>, funcs: &Vec<Function>, m: &mut Machine, fuel: u64) -> (r: StmtOut)
    requires
        k <= old(env)@.len(),
    ensures
        ({
            let res = m_line(vseq(line@), i as int, envv(old(env)@), k as int, envv(old(tch)@), fnsv(funcs@), mst(*old(m)), fuel as nat);
            stoutv(r) == res.out && envv(final(env)@) == res.env && envv(final(tch)@) == res.tch && mst(*final(m)) == res.m
        }),
        final(env)@.len() >= old(env)@.len(),
    decreases fuel, 0int,
{
    if fuel == 0 {
        return StmtOut::Spent;
    }
    if i >= line.len() {
        return StmtOut::Normal;
    }
    let stmt_form = match &line[i] {
        Value::VariableDeclaration(_, _, _) => true,
        Value::FunctionReturn(_) => true,
        Value::Break => true,
        Value::Condition(_, _, _) => true,
        Value::While(_, _) => true,
        Value::Loop(_, _, _) => true,
        Value::Wrap(_) => true,
        Value::Separator => true,
        _ => false,
    };
    if stmt_form {
        let r = ex_stmt(&line[i], env, k, tch, funcs, m, fuel - 1);
        match r {
            StmtOut::Normal => ex_line(line, i + 1, env, k, tch, funcs, m, fuel - 1),
            other => other,
        }
    } else {
        match ex_stack(line, i, Option::None, BasicOperator::Null, env, funcs, m, fuel - 1) {
            EvalOut::Val(_) => StmtOut::Normal,
            EvalOut::Fatal(e) => StmtOut::Fatal(e),
            EvalOut::Need(q) => StmtOut::Need(q),
            EvalOut::Spent => StmtOut::Spent,
        }
    }
}

/// A block: each token one statement.
pub fn ex_block(stmts: &Vec<Value>, i: usize, env: &mut Vec<Binding>, k: usize, tch: &mut Vec<Binding>, funcs: &Vec<Function>, m: &mut Machine, fuel: u64) -> (r: StmtOut)
    requires
        k <= old(env)@.len(),
    ensures
        ({
            let res = m_block(vseq(stmts@), i as int, envv(old(env)@), k as int, envv(old(tch)@), fnsv(funcs@), mst(*old(m)), fuel as nat);
            stoutv(r) == res.out && envv(final(env)@) == res.env && envv(final(tch)@) == res.tch && mst(*final(m)) == res.m
        }),
        final(env)@.len() >= old(env)@.len(),
    decreases fuel, 0int,
{
    if fuel == 0 {
        return StmtOut::Spent;
    }
    if i >= stmts.len() {
        return StmtOut::Normal;
    }
    let r = ex_stmt(&stmts[i], env, k, tch, funcs, m, fuel - 1);
    match r {
        StmtOut::Normal => ex_block(stmts, i + 1, env, k, tch, funcs, m, fuel - 1),
        other => other,
    }
}

/// A branch in a child scope, merged back afterwards.
fn ex_runblock(block: &Vec<Value>, env: &mut Vec<Binding>, k: usize, tch: &mut Vec<Binding>, funcs: &Vec<Function>, m: &mut Machine, fuel: u64) -> (r: StmtOut)
    requires
        k <= old(env)@.len(),
    ensures
        ({
            let res = m_runblock(vseq(block@), envv(old(env)@), k as int, envv(old(tch)@), fnsv(funcs@), mst(*old(m)), fuel as nat);
            stoutv(r) == res.out && envv(final(env)@) == res.env && envv(final(tch)@) == res.tch && mst(*final(m)) == res.m
        }),
        final(env)@.len() >= old(env)@.len(),
    decreases fuel, 0int,
{
    if fuel == 0 {
        return StmtOut::Spent;
    }
    let mut child_env = clone_bindings(env);
    let child_k = child_env.len();
    let mut child_tch: Vec<Binding> = Vec::new();
    proof {
        assert(envv(child_tch@) =~= Seq::<BindingV>::empty());
    }
    let out = ex_block(block, 0, &mut child_env, child_k, &mut child_tch, funcs, m, fuel - 1);
    match out {
        StmtOut::Normal | StmtOut::Ret(_) | StmtOut::Brk => {
            merge_touched(env, k, &child_tch, tch);
            out
        },
        other => other,
    }
}

/// The else-if chain of a condition.
fn ex_elses(groups: &Vec<(Vec<Value>, Vec<Value>)>, i: usize, env: &mut Vec<Binding>, k: usize, tch: &mut Vec<Binding>, funcs: &Vec<Function>, m: &mut Machine, fuel: u64) -> (r: StmtOut)
    requires
        k <= old(env)@.len(),
    ensures
        ({
            let res = m_elses(velse(groups@), i as int, envv(old(env)@), k as int, envv(old(tch)@), fnsv(funcs@), mst(*old(m)), fuel as nat);
            stoutv(r) == res.out && envv(final(env)@) == res.env && envv(final(tch)@) == res.tch && mst(*final(m)) == res.m
        }),
        final(env)@.len() >= old(env)@.len(),
    decreases fuel, 0int,
{
    if fuel == 0 {
        return StmtOut::Spent;
    }
    if i >= groups.len() {
        return StmtOut::Normal;
    }
    if groups[i].0.len() == 0 {
        ex_runblock(&groups[i].1, env, k, tch, funcs, m, fuel - 1)
    } else {
        match ex_stack(&groups[i].0, 0, Option::None, BasicOperator::Null, env, funcs, m, fuel - 1) {
            EvalOut::Val(v) => {
                let taken = match &v {
                    Value::Bool(true) => true,
                    _ => false,
                };
                if taken {
                    ex_runblock(&groups[i].1, env, k, tch, funcs, m, fuel - 1)
                } else {
                    ex_elses(groups, i + 1, env, k, tch, funcs, m, fuel - 1)
                }
            },
            EvalOut::Fatal(e) => StmtOut::Fatal(e),
            EvalOut::Need(q) => StmtOut::Need(q),
            EvalOut::Spent => StmtOut::Spent,
        }
    }
}

/// A while loop.
fn ex_while(guard: &Vec<Value>, body: &Vec<Value>, env: &mut Vec<Binding>, k: usize, tch: &mut Vec<Binding>, funcs: &Vec<Function>, m: &mut Machine, fuel: u64) -> (r: StmtOut)
    requires
        k <= old(env)@.len(),
    ensures
        ({
            let res = m_while(vseq(guard@), vseq(body@), envv(old(env)@), k as int, envv(old(tch)@), fnsv(funcs@), mst(*old(m)), fuel as nat);
            stoutv(r) == res.out && envv(final(env)@) == res.env && envv(final(tch)@) == res.tch && mst(*final(m)) == res.m
        }),
        final(env)@.len() >= old(env)@.len(),
    decreases fuel, 0int,
{
    if fuel == 0 {
        return StmtOut::Spent;
    }
    match ex_stack(guard, 0, Option::None, BasicOperator::Null, env, funcs, m, fuel - 1) {
        EvalOut::Val(v) => {
            let taken = match &v {
                Value::Bool(true) => true,
                _ => false,
            };
            if taken {
                let it = ex_runblock(body, env, k, tch, funcs, m, fuel - 1);
                match it {
                    StmtOut::Normal => ex_while(guard, body, env, k, tch, funcs, m, fuel - 1),
                    StmtOut::Brk => StmtOut::Normal,
                    other => other,
                }
            } else {
                StmtOut::Normal
            }
        },
        EvalOut::Fatal(e) => StmtOut::Fatal(e),
        EvalOut::Need(q) => StmtOut::Need(q),
        EvalOut::Spent => StmtOut::Spent,
    }
}

/// A for loop over an array's elements.
fn ex_loop_items(name: &String, items: &Vec<Value>, i: usize, body: &Vec<Value>, env: &mut Vec<Binding>, k: usize, tch: &mut Vec<Binding>, funcs: &Vec<Function>, m: &mut Machine, fuel: u64) -> (r: StmtOut)
    requires
        k <= old(env)@.len(),
    ensures
        ({
            let res = m_loop_items(name@, vseq(items@), i as int, vseq(body@), envv(old(env)@), k as int, envv(old(tch)@), fnsv(funcs@), mst(*old(m)), fuel as nat);
            stoutv(r) == res.out && envv(final(env)@) == res.env && envv(final(tch)@) == res.tch && mst(*final(m)) == res.m
        }),
        final(env)@.len() >= old(env)@.len(),
    decreases fuel, 0int,
{
    if fuel == 0 {
        return StmtOut::Spent;
    }
    if i >= items.len() {
        return StmtOut::Normal;
    }
    let mut child_env = clone_bindings(env);
    child_env.push(Binding {
        name: name.clone(),
        value: clone_value(&items[i]),
    });
    let child_k = env.len();
    let mut child_tch: Vec<Binding> = Vec::new();
    proof {
        assert(envv(child_tch@) =~= Seq::<BindingV>::empty());
        assert(envv(child_env@) =~= envv(env@).push(BindingV { name: name@, value: vseq(items@)[i as int] }));
    }
    let out = ex_block(body, 0, &mut child_env, child_k, &mut child_tch, funcs, m, fuel - 1);
    match out {
        StmtOut::Normal => {
            merge_touched(env, k, &child_tch, tch);
            ex_loop_items(name, items, i + 1, body, env, k, tch, funcs, m, fuel - 1)
        },
        StmtOut::Brk => {
            merge_touched(env, k, &child_tch, tch);
            StmtOut::Normal
        },
        StmtOut::Ret(v) => {
            merge_touched(env, k, &child_tch, tch);
            StmtOut::Ret(v)
        },
        other => other,
    }
}

/// A for loop over a Str's characters.
fn ex_loop_chars(name: &String, cs: &String, i: usize, body: &Vec<Value>, env: &mut Vec<Binding>, k: usize, tch: &mut Vec<Binding>, funcs: &Vec<Function>, m: &mut Machine, fuel: u64) -> (r: StmtOut)
    requires
        k <= old(env)@.len(),
    ensures
        ({
            let res = m_loop_chars(name@, cs@, i as int, vseq(body@), envv(old(env)@), k as int, envv(old(tch)@), fnsv(funcs@), mst(*old(m)), fuel as nat);
            stoutv(r) == res.out && envv(final(env)@) == res.env && envv(final(tch)@) == res.tch && mst(*final(m)) == res.m
        }),
        final(env)@.len() >= old(env)@.len(),
    decreases fuel, 0int,
{
    if fuel == 0 {
        return StmtOut::Spent;
    }
    let n = cs.as_str().unicode_len();
    if i >= n {
        return StmtOut::Normal;
    }
    let c = cs.as_str().get_char(i);
    let mut one = String::new();
    push_char(&mut one, c);
    let mut child_env = clone_bindings(env);
    child_env.push(Binding {
        name: name.clone(),
        value: Value::Str(one),
    });
    let child_k = env.len();
    let mut child_tch: Vec<Binding> = Vec::new();
    proof {
        assert(envv(child_tch@) =~= Seq::<BindingV>::empty());
        assert(envv(child_env@) =~= envv(env@).push(BindingV { name: name@, value: ValueV::Str(seq![cs@[i as int]]) }));
    }
    let out = ex_block(body, 0, &mut child_env, child_k, &mut child_tch, funcs, m, fuel - 1);
    match out {
        StmtOut::Normal => {
            merge_touched(env, k, &child_tch, tch);
            ex_loop_chars(name, cs, i + 1, body, env, k, tch, funcs, m, fuel - 1)
        },
        StmtOut::Brk => {
            merge_touched(env, k, &child_tch, tch);
            StmtOut::Normal
        },
        StmtOut::Ret(v) => {
            merge_touched(env, k, &child_tch, tch);
            StmtOut::Ret(v)
        },
        other => other,
    }
}

/// One statement.
pub fn ex_stmt(t: &Value, env: &mut Vec<Binding>, k: usize, tch: &mut Vec<Binding>, funcs: &Vec<Function>, m: &mut Machine, fuel: u64) -> (r: StmtOut)
    requires
        k <= old(env)@.len(),
    ensures
        ({
            let res = m_stmt(vv(*t), envv(old(env)@), k as int, envv(old(tch)@), fnsv(funcs@), mst(*old(m)), fuel as nat);
            stoutv(r) == res.out && envv(final(env)@) == res.env && envv(final(tch)@) == res.tch && mst(*final(m)) == res.m
        }),
        final(env)@.len() >= old(env)@.len(),
    decreases fuel, 0int,
{
    if fuel == 0 {
        return StmtOut::Spent;
    }
    match t {
        Value::VariableDeclaration(n, expr, redecl) => {
            match ex_stack(expr, 0, Option::None, BasicOperator::Null, env, funcs, m, fuel - 1) {
                EvalOut::Val(v) => {
                    if !*redecl {
                        let ghost pre = envv(env@);
                        env.push(Binding { name: n.clone(), value: v });
                        proof {
                            assert(envv(env@) =~= pre.push(bview(env@.last())));
                        }
                        StmtOut::Normal
                    } else {
                        match find_innermost(env, n) {
                            Some(p) => {
                                let recorded = name_in_prefix(env, k, n);
                                let ghost pre = envv(env@);
                                let b = Binding { name: n.clone(), value: v };
                                let ghost bv = bview(b);
                                if recorded {
                                    tch.push(Binding { name: b.name.clone(), value: clone_value(&b.value) });
                                }
                                proof {
                                    if recorded {
                                        assert(envv(tch@) =~= envv(old(tch)@).push(bv));
                                    }
                                }
                                env[p] = b;
                                proof {
                                    assert(envv(env@) =~= pre.update(p as int, bv));
                                }
                                StmtOut::Normal
                            },
                            Option::None => StmtOut::Fatal(EvalError::RedeclareMissing(n.clone())),
                        }
                    }
                },
                EvalOut::Fatal(e) => StmtOut::Fatal(e),
                EvalOut::Need(q) => StmtOut::Need(q),
                EvalOut::Spent => StmtOut::Spent,
            }
        },
        Value::FunctionReturn(expr) => {
            match ex_stack(expr, 0, Option::None, BasicOperator::Null, env, funcs, m, fuel - 1) {
                EvalOut::Val(v) => StmtOut::Ret(v),
                EvalOut::Fatal(e) => StmtOut::Fatal(e),
                EvalOut::Need(q) => StmtOut::Need(q),
                EvalOut::Spent => StmtOut::Spent,
            }
        },
        Value::Break => StmtOut::Brk,
        Value::Condition(g, tb, elses) => {
            match ex_stack(g, 0, Option::None, BasicOperator::Null, env, funcs, m, fuel - 1) {
                EvalOut::Val(v) => {
                    let taken = match &v {
                        Value::Bool(true) => true,
                        _ => false,
                    };
                    if taken {
                        ex_runblock(tb, env, k, tch, funcs, m, fuel - 1)
                    } else {
                        ex_elses(elses, 0, env, k, tch, funcs, m, fuel - 1)
                    }
                },
                EvalOut::Fatal(e) => StmtOut::Fatal(e),
                EvalOut::Need(q) => StmtOut::Need(q),
                EvalOut::Spent => StmtOut::Spent,
            }
        },
        Value::While(g, b) => ex_while(g, b, env, k, tch, funcs, m, fuel - 1),
        Value::Loop(n, it, b) => {
            match ex_stack(it, 0, Option::None, BasicOperator::Null, env, funcs, m, fuel - 1) {
                EvalOut::Val(v) => {
                    match v {
                        Value::Array(items, p, su) => {
                            if !p && !su {
                                ex_loop_items(n, &items, 0, b, env, k, tch, funcs, m, fuel - 1)
                            } else {
                                StmtOut::Fatal(EvalError::NotIterable(ValueKind::Array))
                            }
                        },
                        Value::Str(s) => ex_loop_chars(n, &s, 0, b, env, k, tch, funcs, m, fuel - 1),
                        other => StmtOut::Fatal(EvalError::NotIterable(kind(&other))),
                    }
                },
                EvalOut::Fatal(e) => StmtOut::Fatal(e),
                EvalOut::Need(q) => StmtOut::Need(q),
                EvalOut::Spent => StmtOut::Spent,
            }
        },
        Value::Wrap(ts) => ex_line(ts, 0, env, k, tch, funcs, m, fuel - 1),
        Value::Separator => StmtOut::Normal,
        other => {
            let mut single: Vec<Value> = Vec::new();
            single.push(clone_value(other));
            proof {
                assert(vseq(single@) =~= seq![vv(*t)]);
            }
            match ex_stack(&single, 0, Option::None, BasicOperator::Null, env, funcs, m, fuel - 1) {
                EvalOut::Val(_) => StmtOut::Normal,
                EvalOut::Fatal(e) => StmtOut::Fatal(e),
                EvalOut::Need(q) => StmtOut::Need(q),
                EvalOut::Spent => StmtOut::Spent,
            }
        },
    }
}

/// One whole expression: the evaluator's entry, reducing a flat token
/// sequence to one fully evaluated value.
pub fn process_stack(tokens: &Vec<Value>, env: &Vec<Binding>, funcs: &Vec<Function>, m: &mut Machine, fuel: u64) -> (r: EvalOut)
    ensures
        ({
            let (rv, ms) = m_stack(vseq(tokens@), 0, Option::None, BasicOperator::Null, envv(env@), fnsv(funcs@), mst(*old(m)), fuel as nat);
            outv(r) == rv && mst(*final(m)) == ms
        }),
{
    ex_stack(tokens, 0, Option::None, BasicOperator::Null, env, funcs, m, fuel)
}

/// One function invocation by name, against an empty expression context.
pub fn process_function(name: &String, args: Vec<Value>, funcs: &Vec<Function>, m: &mut Machine, fuel: u64) -> (r: EvalOut)
    ensures
        ({
            let (rv, ms) = m_call(name@, vseq(args@), Seq::<BindingV>::empty(), fnsv(funcs@), mst(*old(m)), fuel as nat);
            outv(r) == rv && mst(*final(m)) == ms
        }),
{
    let env: Vec<Binding> = Vec::new();
    proof {
        assert(envv(env@) =~= Seq::<BindingV>::empty());
    }
    ex_call(name, args, &env, funcs, m, fuel)
}

/// One whole program run: the entry function invoked with no arguments.
pub fn run_program(funcs: &Vec<Function>, m: &mut Machine, fuel: u64) -> (r: EvalOut)
    ensures
        ({
            let (rv, ms) = m_call("main"@, Seq::<ValueV>::empty(), Seq::<BindingV>::empty(), fnsv(funcs@), mst(*old(m)), fuel as nat);
            outv(r) == rv && mst(*final(m)) == ms
        }),
{
    let name = String::from_str("main");
    let args: Vec<Value> = Vec::new();
    proof {
        assert(vseq(args@) =~= Seq::<ValueV>::empty());
    }
    process_function(&name, args, funcs, m, fuel)
}


/// The flattened form of a token sequence: a wrapped statement spills its
/// tokens, every element is followed by a statement boundary, and a
/// boundary at either end is dropped.
pub open spec fn m_flat_core(s: Seq<ValueV>) -> Seq<ValueV>
    decreases s,
{
    if s.len() == 0 {
        Seq::empty()
    } else {
        m_flat_core(s.drop_last()) + (match s.last() {
            ValueV::Wrap(c) => c + seq![ValueV::Separator],
            x => seq![x, ValueV::Separator],
        })
    }
}

/// The flattened form after dropping a leading and a trailing boundary.
pub open spec fn m_wrap_to_flat(s: Seq<ValueV>) -> Seq<ValueV> {
    let f = m_flat_core(s);
    let g = if f.len() > 0 && f[0] is Separator {
        f.skip(1)
    } else {
        f
    };
    if g.len() > 0 && g.last() is Separator {
        g.drop_last()
    } else {
        g
    }
}

/// Flattens statement tokens into one sequence with explicit statement
/// boundaries: each `Wrap` spills its tokens; a boundary separates
/// consecutive statements.
#[verifier::loop_isolation(false)]
pub fn wrap_to_flat(inp: Vec<Value>) -> (r: Vec<Value>)
    ensures
        vseq(r@) == m_wrap_to_flat(vseq(inp@)),
{
    let ghost full = vseq(inp@);
    let mut out: Vec<Value> = Vec::new();
    let mut i: usize = 0;
    proof {
        assert(vseq(out@) =~= m_flat_core(full.take(0)));
    }
    while i < inp.len()
        invariant
            i <= inp@.len(),
            vseq(out@) == m_flat_core(full.take(i as int)),
        decreases inp@.len() - i,
    {
        let ghost pre = vseq(out@);
        proof {
            assert(full.take(i as int + 1).drop_last() =~= full.take(i as int));
            assert(full.take(i as int + 1).last() == full[i as int]);
        }
        match &inp[i] {
            Value::Wrap(content) => {
                let mut j: usize = 0;
                while j < content.len()
                    invariant
                        j <= content@.len(),
                        vseq(out@) == pre + vseq(content@).take(j as int),
                    decreases content@.len() - j,
                {
                    let ghost before = out@;
                    out.push(clone_value(&content[j]));
                    proof {
                        assert(out@.drop_last() =~= before);
                        assert(vseq(out@) == vseq(out@.drop_last()).push(vv(out@.last())));
                        assert(vseq(content@)[j as int] == vv(content@[j as int]));
                        assert(vseq(content@).take(j as int + 1)
                            =~= vseq(content@).take(j as int).push(vseq(content@)[j as int]));
                        assert(vseq(out@) =~= pre + vseq(content@).take(j as int + 1));
                    }
                    j = j + 1;
                }
                let ghost before2 = out@;
                out.push(Value::Separator);
                proof {
                    assert(out@.drop_last() =~= before2);
                    assert(vseq(out@) == vseq(out@.drop_last()).push(vv(out@.last())));
                    assert(vseq(content@).take(content@.len() as int) =~= vseq(content@));
                    assert(full[i as int] matches ValueV::Wrap(c) && c == vseq(content@));
                    assert(vseq(out@) =~= m_flat_core(full.take(i as int + 1)));
                }
            },
            other => {
                let ghost b1 = out@;
                out.push(clone_value(other));
                proof {
                    assert(out@.drop_last() =~= b1);
                    assert(vseq(out@) == vseq(out@.drop_last()).push(vv(out@.last())));
                }
                let ghost b2 = out@;
                out.push(Value::Separator);
                proof {
                    assert(out@.drop_last() =~= b2);
                    assert(vseq(out@) == vseq(out@.drop_last()).push(vv(out@.last())));
                    assert(vseq(out@) =~= m_flat_core(full.take(i as int + 1)));
                }
            },
        }
        i = i + 1;
    }
    proof {
        assert(full.take(inp@.len() as int) =~= full);
    }
    let lead = if out.len() > 0 {
        match &out[0] {
            Value::Separator => true,
            _ => false,
        }
    } else {
        false
    };
    if lead {
        let ghost pre = vseq(out@);
        out.remove(0);
        proof {
            assert(vseq(out@) =~= pre.skip(1));
        }
    }
    let trail = if out.len() > 0 {
        match &out[out.len() - 1] {
            Value::Separator => true,
            _ => false,
        }
    } else {
        false
    };
    if trail {
        let ghost pre = vseq(out@);
        out.pop();
        proof {
            assert(vseq(out@) =~= pre.drop_last());
        }
    }
    proof {
        assert(vseq(out@) =~= m_wrap_to_flat(full));
    }
    out
}


} // verus!
