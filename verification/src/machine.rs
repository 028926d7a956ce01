//! The engine's surroundings: variable bindings, the function table,
//! structured fatal errors, and the host machine through which the engine
//! receives answers to the work it delegates (float arithmetic, line
//! input, namespaced built-ins, file members, dynamic re-parsing).
//!
//! The engine is deterministic: it numbers its requests in the order it
//! makes them and reads the answer with that number from the machine. A
//! host runs the engine, and whenever it stops at an unanswered request,
//! computes the answer, appends it, and runs the engine again.

use vstd::prelude::*;
use crate::value::{BasicOperator, Value, ValueV, ValueKind, vv, vseq, strseq};
use crate::clone::clone_value;

verus! {

/// One variable binding. Uniqueness of the name holds only per scope
/// snapshot; shadowing is resolved by innermost-first (latest-first) lookup.
pub struct Binding {
    pub name: String,
    pub value: Value,
}

/// The ghost mirror of a binding.
pub struct BindingV {
    pub name: Seq<char>,
    pub value: ValueV,
}

/// The mirror of a binding.
pub open spec fn bview(b: Binding) -> BindingV {
    BindingV { name: b.name@, value: vv(b.value) }
}

/// The mirrors of an environment, elementwise.
pub open spec fn envv(s: Seq<Binding>) -> Seq<BindingV> {
    Seq::new(s.len(), |i: int| bview(s[i]))
}

/// One function table entry: name, parameter names, body lines.
pub struct Function {
    pub name: String,
    pub params: Vec<String>,
    pub body: Vec<Vec<Value>>,
}

/// The ghost mirror of a function table entry.
pub struct FunctionV {
    pub name: Seq<char>,
    pub params: Seq<Seq<char>>,
    pub body: Seq<Seq<ValueV>>,
}

/// The mirrors of a function body's lines, elementwise.
pub open spec fn vlines(s: Seq<Vec<Value>>) -> Seq<Seq<ValueV>> {
    Seq::new(s.len(), |i: int| vseq(s[i]@))
}

/// The mirror of a function table entry.
pub open spec fn fview(f: Function) -> FunctionV {
    FunctionV { name: f.name@, params: strseq(f.params@), body: vlines(f.body@) }
}

/// The mirrors of a function table, elementwise.
pub open spec fn fnsv(s: Seq<Function>) -> Seq<FunctionV> {
    Seq::new(s.len(), |i: int| fview(s[i]))
}

/// A fatal error. Every error terminates the whole run; the host formats
/// the structured cause into the diagnostic text.
#[derive(Debug)]
pub enum EvalError {
    /// An operator applied to an unsupported pair of operand types.
    OpTypes(BasicOperator, ValueKind, ValueKind),
    /// A side of a boolean combination is not a Bool.
    NotABool(ValueKind),
    /// An unknown member name, with the receiver's type.
    UnknownMember(String, ValueKind),
    /// A member applied to the wrong number or types of arguments.
    BadMemberArgs(String, ValueKind),
    /// An unresolved variable name.
    UnknownVariable(String),
    /// An unresolved call name.
    UnknownFunction(String),
    /// An unresolved namespaced call name.
    UnknownNamespaceFunction(String),
    /// A call with the wrong number of arguments: name, expected, received.
    WrongArgCount(String, usize, usize),
    /// A built-in applied to a type it does not accept: name, argument type.
    BadBuiltinArg(String, ValueKind),
    DivisionByZero,
    ModuloByZero,
    /// A `range` step of zero.
    ZeroStep,
    /// An integer raised to a negative power.
    NegativeExponent,
    /// Integer arithmetic left the 64-bit signed range.
    Overflow,
    /// An index expression that is not a single Integer.
    InvalidIndex(ValueKind),
    /// An index outside the receiver's bounds.
    IndexOutOfRange,
    /// Indexing applied to a value that is neither an Array nor a Str.
    NotIndexable(ValueKind),
    /// A conversion between unsupported types: from, to.
    CannotConvert(ValueKind, ValueKind),
    /// A malformed numeric string.
    ConvertFailed(String),
    /// Re-declaration of a name that does not exist.
    RedeclareMissing(String),
    /// A `for` loop over a value that is neither an Array nor a Str.
    NotIterable(ValueKind),
    /// A deferred statement form where a value was required.
    NotAValue(ValueKind),
    /// A `break` that reached a function boundary.
    BreakOutsideLoop,
    /// The host could not parse a dynamically supplied line.
    ParseFailed(String),
    /// The host failed to answer a delegated operation, named here.
    HostFailed(String),
    /// The designated entry function is missing from the table.
    MissingEntry(String),
    /// A persisted function table that does not decode.
    CorruptCache,
}

/// The ghost mirror of a fatal error.
pub enum ErrV {
    OpTypes(BasicOperator, ValueKind, ValueKind),
    NotABool(ValueKind),
    UnknownMember(Seq<char>, ValueKind),
    BadMemberArgs(Seq<char>, ValueKind),
    UnknownVariable(Seq<char>),
    UnknownFunction(Seq<char>),
    UnknownNamespaceFunction(Seq<char>),
    WrongArgCount(Seq<char>, usize, usize),
    BadBuiltinArg(Seq<char>, ValueKind),
    DivisionByZero,
    ModuloByZero,
    ZeroStep,
    NegativeExponent,
    Overflow,
    InvalidIndex(ValueKind),
    IndexOutOfRange,
    NotIndexable(ValueKind),
    CannotConvert(ValueKind, ValueKind),
    ConvertFailed(Seq<char>),
    RedeclareMissing(Seq<char>),
    NotIterable(ValueKind),
    NotAValue(ValueKind),
    BreakOutsideLoop,
    ParseFailed(Seq<char>),
    HostFailed(Seq<char>),
    MissingEntry(Seq<char>),
    CorruptCache,
}

/// The mirror of a fatal error.
pub open spec fn errv(e: EvalError) -> ErrV {
    match e {
        EvalError::OpTypes(op, l, r) => ErrV::OpTypes(op, l, r),
        EvalError::NotABool(k) => ErrV::NotABool(k),
        EvalError::UnknownMember(n, k) => ErrV::UnknownMember(n@, k),
        EvalError::BadMemberArgs(n, k) => ErrV::BadMemberArgs(n@, k),
        EvalError::UnknownVariable(n) => ErrV::UnknownVariable(n@),
        EvalError::UnknownFunction(n) => ErrV::UnknownFunction(n@),
        EvalError::UnknownNamespaceFunction(n) => ErrV::UnknownNamespaceFunction(n@),
        EvalError::WrongArgCount(n, e1, g) => ErrV::WrongArgCount(n@, e1, g),
        EvalError::BadBuiltinArg(n, k) => ErrV::BadBuiltinArg(n@, k),
        EvalError::DivisionByZero => ErrV::DivisionByZero,
        EvalError::ModuloByZero => ErrV::ModuloByZero,
        EvalError::ZeroStep => ErrV::ZeroStep,
        EvalError::NegativeExponent => ErrV::NegativeExponent,
        EvalError::Overflow => ErrV::Overflow,
        EvalError::InvalidIndex(k) => ErrV::InvalidIndex(k),
        EvalError::IndexOutOfRange => ErrV::IndexOutOfRange,
        EvalError::NotIndexable(k) => ErrV::NotIndexable(k),
        EvalError::CannotConvert(a, b) => ErrV::CannotConvert(a, b),
        EvalError::ConvertFailed(s) => ErrV::ConvertFailed(s@),
        EvalError::RedeclareMissing(n) => ErrV::RedeclareMissing(n@),
        EvalError::NotIterable(k) => ErrV::NotIterable(k),
        EvalError::NotAValue(k) => ErrV::NotAValue(k),
        EvalError::BreakOutsideLoop => ErrV::BreakOutsideLoop,
        EvalError::ParseFailed(s) => ErrV::ParseFailed(s@),
        EvalError::HostFailed(s) => ErrV::HostFailed(s@),
        EvalError::MissingEntry(s) => ErrV::MissingEntry(s@),
        EvalError::CorruptCache => ErrV::CorruptCache,
    }
}

/// Work the engine cannot do itself, handed to the host.
pub enum Request {
    /// Arithmetic or comparison with at least one Float operand
    /// (including the Integer division that promotes to Float).
    BinOp(BasicOperator, Value, Value),
    /// A named unary host operation on one value: `sqrt`, `round`,
    /// `int`, `float`, `str` (each only for the operand types the engine
    /// cannot handle itself).
    Apply(String, Value),
    /// A namespaced built-in: path, name, evaluated arguments.
    Namespace(Vec<String>, String, Vec<Value>),
    /// A member call on an opened file: path, member name, arguments.
    FileOp(String, String, Vec<Value>),
    /// One line read from the interactive input.
    ReadLine,
    /// One source line re-parsed into a token sequence, returned as `Wrap`.
    Parse(String),
}

/// The ghost mirror of a host request.
pub enum RequestV {
    BinOp(BasicOperator, ValueV, ValueV),
    Apply(Seq<char>, ValueV),
    Namespace(Seq<Seq<char>>, Seq<char>, Seq<ValueV>),
    FileOp(Seq<char>, Seq<char>, Seq<ValueV>),
    ReadLine,
    Parse(Seq<char>),
}

/// The mirror of a host request.
pub open spec fn reqv(r: Request) -> RequestV {
    match r {
        Request::BinOp(op, a, b) => RequestV::BinOp(op, vv(a), vv(b)),
        Request::Apply(n, a) => RequestV::Apply(n@, vv(a)),
        Request::Namespace(ns, n, args) => RequestV::Namespace(strseq(ns@), n@, vseq(args@)),
        Request::FileOp(p, n, args) => RequestV::FileOp(p@, n@, vseq(args@)),
        Request::ReadLine => RequestV::ReadLine,
        Request::Parse(s) => RequestV::Parse(s@),
    }
}

/// The host's answer to one request: a value, or a refusal.
pub enum Answer {
    Hit(Value),
    Miss,
}

/// The ghost mirror of an answer.
pub enum AnswerV {
    Hit(ValueV),
    Miss,
}

/// The mirror of an answer.
pub open spec fn ansv(a: Answer) -> AnswerV {
    match a {
        Answer::Hit(v) => AnswerV::Hit(vv(v)),
        Answer::Miss => AnswerV::Miss,
    }
}

/// The mirrors of an answer list, elementwise.
pub open spec fn ansseq(s: Seq<Answer>) -> Seq<AnswerV> {
    Seq::new(s.len(), |i: int| ansv(s[i]))
}

/// The host machine the engine runs against: the answers granted so far,
/// the number of the next request, and the output printed so far.
pub struct Machine {
    pub answers: Vec<Answer>,
    pub next: usize,
    pub log: Vec<String>,
}

/// The ghost mirror of the machine.
pub struct MState {
    pub answers: Seq<AnswerV>,
    pub next: int,
    pub log: Seq<Seq<char>>,
}

/// The mirror of the machine.
pub open spec fn mst(m: Machine) -> MState {
    MState { answers: ansseq(m.answers@), next: m.next as int, log: strseq(m.log@) }
}

impl Machine {
    /// A machine with the given answers, no request made yet, and an
    /// empty output.
    pub fn start(answers: Vec<Answer>) -> (m: Machine)
        ensures
            mst(m) == (MState { answers: ansseq(answers@), next: 0, log: Seq::<Seq<char>>::empty() }),
    {
        let m = Machine { answers, next: 0, log: Vec::new() };
        proof {
            assert(strseq(m.log@) =~= Seq::<Seq<char>>::empty());
        }
        m
    }
}

/// The machine after one granted request: the same answers, the next
/// request number advanced past the answer just read.
pub open spec fn m_take(m: MState) -> (Option<AnswerV>, MState) {
    if m.next < m.answers.len() {
        (
            Some(m.answers[m.next]),
            MState { answers: m.answers, next: m.next + 1, log: m.log },
        )
    } else {
        (Option::None, m)
    }
}

/// The machine with one more line of output.
pub open spec fn m_log(m: MState, s: Seq<char>) -> MState {
    MState { answers: m.answers, next: m.next, log: m.log.push(s) }
}

/// Reads the answer to the next request, if the machine holds one, and
/// advances the request number past it.
pub fn take_answer(m: &mut Machine) -> (r: Option<Answer>)
    ensures
        ({
            let (ra, ms) = m_take(mst(*old(m)));
            mst(*final(m)) == ms && match r {
                Some(a) => ra == Some(ansv(a)),
                Option::None => ra is None,
            }
        }),
{
    if m.next < m.answers.len() {
        let a = match &m.answers[m.next] {
            Answer::Hit(v) => Answer::Hit(clone_value(v)),
            Answer::Miss => Answer::Miss,
        };
        proof {
            assert(ansv(a) == ansseq(m.answers@)[m.next as int]);
        }
        m.next = m.next + 1;
        Some(a)
    } else {
        Option::None
    }
}

/// Appends one line to the output log.
pub fn push_log(m: &mut Machine, s: String)
    ensures
        mst(*final(m)) == m_log(mst(*old(m)), s@),
{
    let ghost pre = strseq(m.log@);
    m.log.push(s);
    proof {
        assert(strseq(m.log@) =~= pre.push(m.log@.last()@));
    }
}

/// The outcome of evaluating one expression.
pub enum EvalOut {
    /// A fully evaluated value.
    Val(Value),
    /// A fatal error.
    Fatal(EvalError),
    /// The first request the machine holds no answer for.
    Need(Request),
    /// The fuel budget ran out before evaluation finished.
    Spent,
}

/// The ghost mirror of an expression outcome.
pub enum EvalOutV {
    Val(ValueV),
    Fatal(ErrV),
    Need(RequestV),
    Spent,
}

/// The mirror of an expression outcome.
pub open spec fn outv(o: EvalOut) -> EvalOutV {
    match o {
        EvalOut::Val(v) => EvalOutV::Val(vv(v)),
        EvalOut::Fatal(e) => EvalOutV::Fatal(errv(e)),
        EvalOut::Need(r) => EvalOutV::Need(reqv(r)),
        EvalOut::Spent => EvalOutV::Spent,
    }
}

/// The outcome of executing statements.
pub enum StmtOut {
    /// Execution fell through to the next statement.
    Normal,
    /// A `return` with its value.
    Ret(Value),
    /// A `break` travelling to the enclosing loop.
    Brk,
    Fatal(EvalError),
    Need(Request),
    Spent,
}

/// The ghost mirror of a statement outcome.
pub enum StmtOutV {
    Normal,
    Ret(ValueV),
    Brk,
    Fatal(ErrV),
    Need(RequestV),
    Spent,
}

/// The mirror of a statement outcome.
pub open spec fn stoutv(o: StmtOut) -> StmtOutV {
    match o {
        StmtOut::Normal => StmtOutV::Normal,
        StmtOut::Ret(v) => StmtOutV::Ret(vv(v)),
        StmtOut::Brk => StmtOutV::Brk,
        StmtOut::Fatal(e) => StmtOutV::Fatal(errv(e)),
        StmtOut::Need(r) => StmtOutV::Need(reqv(r)),
        StmtOut::Spent => StmtOutV::Spent,
    }
}

} // verus!
