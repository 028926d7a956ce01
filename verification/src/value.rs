//! The value model: the closed tagged union of every expressible datum,
//! its ghost mirror used in contracts, and the host-request machinery
//! through which the engine reaches work it cannot do itself (floating
//! point arithmetic, line input, namespaced built-ins, re-parsing).

use vstd::prelude::*;

verus! {

/// A binary operator token.
#[derive(Clone, Copy, PartialEq, Eq, Structural, Debug)]
pub enum BasicOperator {
    Null,
    Add,
    Sub,
    Divide,
    Multiply,
    Equal,
    NotEqual,
    Power,
    And,
    Modulo,
    Inferior,
    InferiorEqual,
    Or,
    Superior,
    SuperiorEqual,
}

/// A runtime value or deferred expression token. A value is *fully
/// evaluated* when it is `Null`, `Integer`, `Float`, `Str`, `Bool`,
/// `File`, or an `Array` with both flags false; every other variant is a
/// deferred form that the expression evaluator reduces away.
///
/// `Float` holds the raw IEEE-754 bit pattern of a 64-bit float. The
/// engine never computes with those bits itself: float arithmetic is
/// delegated to the host through a `Request`.
pub enum Value {
    Null,
    Integer(i64),
    Float(u64),
    Str(String),
    Bool(bool),
    /// Elements, `is_parsed`, `is_suite` (see the array evaluation protocol).
    Array(Vec<Value>, bool, bool),
    Or(Vec<Value>),
    And(Vec<Value>),
    /// Member access on the current output: member name, flattened argument tokens.
    Property(String, Vec<Value>),
    /// A call followed by member access on its result:
    /// callee name, callee arguments, member name, member arguments.
    PropertyFunction(String, Vec<Value>, String, Vec<Value>),
    VariableIdentifier(String),
    /// Call name, flattened argument tokens (arguments separated by `Separator`).
    FunctionCall(String, Vec<Value>),
    /// Namespace path, call name, flattened argument tokens.
    NamespaceFunctionCall(Vec<String>, String, Vec<Value>),
    FunctionReturn(Vec<Value>),
    Priority(Vec<Value>),
    Operation(BasicOperator),
    /// Name, value expression, `is_redeclare`.
    VariableDeclaration(String, Vec<Value>, bool),
    /// Guard, true branch, ordered (else-if guard, branch) pairs; an empty
    /// guard is the implicit `else`.
    Condition(Vec<Value>, Vec<Value>, Vec<(Vec<Value>, Vec<Value>)>),
    While(Vec<Value>, Vec<Value>),
    /// Bound name, iterable expression, branch.
    Loop(String, Vec<Value>, Vec<Value>),
    /// A whole statement embedded as one token inside a flattened sequence.
    Wrap(Vec<Value>),
    Separator,
    Break,
    File(String),
}

/// The ghost mirror of `Value`: the same shape over `Seq`, used by every
/// contract. Two values are interchangeable to the engine exactly when
/// their mirrors are equal.
#[verifier::ext_equal]
pub enum ValueV {
    Null,
    Integer(i64),
    Float(u64),
    Str(Seq<char>),
    Bool(bool),
    Array(Seq<ValueV>, bool, bool),
    Or(Seq<ValueV>),
    And(Seq<ValueV>),
    Property(Seq<char>, Seq<ValueV>),
    PropertyFunction(Seq<char>, Seq<ValueV>, Seq<char>, Seq<ValueV>),
    VariableIdentifier(Seq<char>),
    FunctionCall(Seq<char>, Seq<ValueV>),
    NamespaceFunctionCall(Seq<Seq<char>>, Seq<char>, Seq<ValueV>),
    FunctionReturn(Seq<ValueV>),
    Priority(Seq<ValueV>),
    Operation(BasicOperator),
    VariableDeclaration(Seq<char>, Seq<ValueV>, bool),
    Condition(Seq<ValueV>, Seq<ValueV>, Seq<(Seq<ValueV>, Seq<ValueV>)>),
    While(Seq<ValueV>, Seq<ValueV>),
    Loop(Seq<char>, Seq<ValueV>, Seq<ValueV>),
    Wrap(Seq<ValueV>),
    Separator,
    Break,
    File(Seq<char>),
}

/// The mirror of a value.
pub open spec fn vv(v: Value) -> ValueV
    decreases v,
{
    match v {
        Value::Null => ValueV::Null,
        Value::Integer(n) => ValueV::Integer(n),
        Value::Float(b) => ValueV::Float(b),
        Value::Str(s) => ValueV::Str(s@),
        Value::Bool(b) => ValueV::Bool(b),
        Value::Array(elems, p, s) => ValueV::Array(vseq(elems@), p, s),
        Value::Or(ts) => ValueV::Or(vseq(ts@)),
        Value::And(ts) => ValueV::And(vseq(ts@)),
        Value::Property(n, args) => ValueV::Property(n@, vseq(args@)),
        Value::PropertyFunction(f, fa, p, pa) => ValueV::PropertyFunction(f@, vseq(fa@), p@, vseq(pa@)),
        Value::VariableIdentifier(n) => ValueV::VariableIdentifier(n@),
        Value::FunctionCall(n, args) => ValueV::FunctionCall(n@, vseq(args@)),
        Value::NamespaceFunctionCall(ns, n, args) => ValueV::NamespaceFunctionCall(strseq(ns@), n@, vseq(args@)),
        Value::FunctionReturn(ts) => ValueV::FunctionReturn(vseq(ts@)),
        Value::Priority(ts) => ValueV::Priority(vseq(ts@)),
        Value::Operation(op) => ValueV::Operation(op),
        Value::VariableDeclaration(n, e, r) => ValueV::VariableDeclaration(n@, vseq(e@), r),
        Value::Condition(g, t, e) => ValueV::Condition(vseq(g@), vseq(t@), velse(e@)),
        Value::While(g, b) => ValueV::While(vseq(g@), vseq(b@)),
        Value::Loop(n, it, b) => ValueV::Loop(n@, vseq(it@), vseq(b@)),
        Value::Wrap(ts) => ValueV::Wrap(vseq(ts@)),
        Value::Separator => ValueV::Separator,
        Value::Break => ValueV::Break,
        Value::File(p) => ValueV::File(p@),
    }
}

/// The mirrors of a token sequence, elementwise.
pub open spec fn vseq(s: Seq<Value>) -> Seq<ValueV>
    decreases s,
{
    if s.len() == 0 {
        Seq::empty()
    } else {
        vseq(s.drop_last()).push(vv(s.last()))
    }
}

/// The views of a sequence of strings, elementwise.
pub open spec fn strseq(s: Seq<String>) -> Seq<Seq<char>> {
    Seq::new(s.len(), |i: int| s[i]@)
}

/// The mirrors of the (guard, branch) pairs of a condition, elementwise.
pub open spec fn velse(s: Seq<(Vec<Value>, Vec<Value>)>) -> Seq<(Seq<ValueV>, Seq<ValueV>)>
    decreases s,
{
    if s.len() == 0 {
        Seq::empty()
    } else {
        velse(s.drop_last()).push((vseq(s.last().0@), vseq(s.last().1@)))
    }
}

pub broadcast proof fn vseq_len(s: Seq<Value>)
    ensures
        #[trigger] vseq(s).len() == s.len(),
    decreases s,
{
    if s.len() > 0 {
        vseq_len(s.drop_last());
    }
}

pub broadcast proof fn vseq_index(s: Seq<Value>, i: int)
    requires
        0 <= i < s.len(),
    ensures
        #[trigger] vseq(s)[i] == vv(s[i]),
    decreases s,
{
    vseq_len(s);
    if i < s.len() - 1 {
        vseq_index(s.drop_last(), i);
    } else {
        vseq_len(s.drop_last());
    }
}

pub broadcast proof fn velse_len(s: Seq<(Vec<Value>, Vec<Value>)>)
    ensures
        #[trigger] velse(s).len() == s.len(),
    decreases s,
{
    if s.len() > 0 {
        velse_len(s.drop_last());
    }
}

pub broadcast proof fn velse_index(s: Seq<(Vec<Value>, Vec<Value>)>, i: int)
    requires
        0 <= i < s.len(),
    ensures
        #[trigger] velse(s)[i] == (vseq(s[i].0@), vseq(s[i].1@)),
    decreases s,
{
    velse_len(s);
    if i < s.len() - 1 {
        velse_index(s.drop_last(), i);
    } else {
        velse_len(s.drop_last());
    }
}

pub broadcast group group_value_axioms {
    vseq_len,
    vseq_index,
    velse_len,
    velse_index,
}

/// The short type name of a value, as the diagnostics print it.
#[derive(Clone, Copy, PartialEq, Eq, Structural, Debug)]
pub enum ValueKind {
    Null,
    Integer,
    Float,
    Str,
    Bool,
    Array,
    Or,
    And,
    Property,
    PropertyFunction,
    VariableIdentifier,
    FunctionCall,
    NamespaceFunctionCall,
    FunctionReturn,
    Priority,
    Operation,
    VariableDeclaration,
    Condition,
    While,
    Loop,
    Wrap,
    Separator,
    Break,
    File,
}

/// The printable-type projection of a mirror value.
pub open spec fn kind_of(v: ValueV) -> ValueKind {
    match v {
        ValueV::Null => ValueKind::Null,
        ValueV::Integer(_) => ValueKind::Integer,
        ValueV::Float(_) => ValueKind::Float,
        ValueV::Str(_) => ValueKind::Str,
        ValueV::Bool(_) => ValueKind::Bool,
        ValueV::Array(_, _, _) => ValueKind::Array,
        ValueV::Or(_) => ValueKind::Or,
        ValueV::And(_) => ValueKind::And,
        ValueV::Property(_, _) => ValueKind::Property,
        ValueV::PropertyFunction(_, _, _, _) => ValueKind::PropertyFunction,
        ValueV::VariableIdentifier(_) => ValueKind::VariableIdentifier,
        ValueV::FunctionCall(_, _) => ValueKind::FunctionCall,
        ValueV::NamespaceFunctionCall(_, _, _) => ValueKind::NamespaceFunctionCall,
        ValueV::FunctionReturn(_) => ValueKind::FunctionReturn,
        ValueV::Priority(_) => ValueKind::Priority,
        ValueV::Operation(_) => ValueKind::Operation,
        ValueV::VariableDeclaration(_, _, _) => ValueKind::VariableDeclaration,
        ValueV::Condition(_, _, _) => ValueKind::Condition,
        ValueV::While(_, _) => ValueKind::While,
        ValueV::Loop(_, _, _) => ValueKind::Loop,
        ValueV::Wrap(_) => ValueKind::Wrap,
        ValueV::Separator => ValueKind::Separator,
        ValueV::Break => ValueKind::Break,
        ValueV::File(_) => ValueKind::File,
    }
}

/// The printable-type projection of a value.
pub fn kind(v: &Value) -> (k: ValueKind)
    ensures
        k == kind_of(vv(*v)),
{
    match v {
        Value::Null => ValueKind::Null,
        Value::Integer(_) => ValueKind::Integer,
        Value::Float(_) => ValueKind::Float,
        Value::Str(_) => ValueKind::Str,
        Value::Bool(_) => ValueKind::Bool,
        Value::Array(_, _, _) => ValueKind::Array,
        Value::Or(_) => ValueKind::Or,
        Value::And(_) => ValueKind::And,
        Value::Property(_, _) => ValueKind::Property,
        Value::PropertyFunction(_, _, _, _) => ValueKind::PropertyFunction,
        Value::VariableIdentifier(_) => ValueKind::VariableIdentifier,
        Value::FunctionCall(_, _) => ValueKind::FunctionCall,
        Value::NamespaceFunctionCall(_, _, _) => ValueKind::NamespaceFunctionCall,
        Value::FunctionReturn(_) => ValueKind::FunctionReturn,
        Value::Priority(_) => ValueKind::Priority,
        Value::Operation(_) => ValueKind::Operation,
        Value::VariableDeclaration(_, _, _) => ValueKind::VariableDeclaration,
        Value::Condition(_, _, _) => ValueKind::Condition,
        Value::While(_, _) => ValueKind::While,
        Value::Loop(_, _, _) => ValueKind::Loop,
        Value::Wrap(_) => ValueKind::Wrap,
        Value::Separator => ValueKind::Separator,
        Value::Break => ValueKind::Break,
        Value::File(_) => ValueKind::File,
    }
}

/// True of the variants that need no further evaluation.
pub open spec fn is_literal(v: ValueV) -> bool {
    match v {
        ValueV::Null => true,
        ValueV::Integer(_) => true,
        ValueV::Float(_) => true,
        ValueV::Str(_) => true,
        ValueV::Bool(_) => true,
        ValueV::Array(_, p, s) => !p && !s,
        ValueV::File(_) => true,
        _ => false,
    }
}

} // verus!
