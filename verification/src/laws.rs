//! The engine's stated laws, each proved against the model that every
//! executable function of the engine is held to.

use vstd::prelude::*;
use crate::value::{BasicOperator, ValueV, ValueKind, kind_of};
use crate::machine::{BindingV, ErrV, RequestV, MState};
use crate::ops::{m_binop, m_int_binop, OpOutV};
use crate::env::{m_lookup, m_find_pos};
use crate::eval::{m_stmt, m_range_call, m_range_asc, m_b_abs, StRes};
use crate::machine::StmtOutV;

verus! {

/// Dividing one Integer by another always leaves the Integer column of
/// the dispatch table: a zero divisor is the fatal division error, and
/// any other divisor hands the pair to the host's real division, which
/// yields the Float the evaluator then returns.
pub proof fn law_integer_division(a: i64, b: i64)
    ensures
        b == 0 ==> m_int_binop(BasicOperator::Divide, a, b) == OpOutV::Fatal(ErrV::DivisionByZero),
        b != 0 ==> m_int_binop(BasicOperator::Divide, a, b) == OpOutV::Host(
            RequestV::BinOp(BasicOperator::Divide, ValueV::Integer(a), ValueV::Integer(b)),
        ),
{
}

/// Adding two Strings concatenates them; any other operator on two
/// Strings, subtraction among them, is a fatal type error naming both
/// operand types.
pub proof fn law_string_concat(s: Seq<char>, t: Seq<char>)
    ensures
        m_binop(BasicOperator::Add, ValueV::Str(s), ValueV::Str(t)) == OpOutV::Val(ValueV::Str(s + t)),
        m_binop(BasicOperator::Sub, ValueV::Str(s), ValueV::Str(t)) == OpOutV::Fatal(
            ErrV::OpTypes(BasicOperator::Sub, ValueKind::Str, ValueKind::Str),
        ),
{
}

/// Re-declaring a name that no binding holds is the fatal
/// does-not-exist error, and it leaves the environment, the touched
/// list and the machine untouched.
pub proof fn law_redeclare_missing(n: Seq<char>, expr: Seq<ValueV>, v: ValueV, env: Seq<BindingV>, k: int, tch: Seq<BindingV>, funcs: Seq<crate::machine::FunctionV>, m: MState, fuel: nat)
    requires
        m_find_pos(env, n) is None,
        fuel >= 1,
        crate::eval::m_stack(expr, 0, Option::None, BasicOperator::Null, env, funcs, m, (fuel - 1) as nat).0 matches crate::machine::EvalOutV::Val(_),
    ensures
        ({
            let r = m_stmt(ValueV::VariableDeclaration(n, expr, true), env, k, tch, funcs, m, fuel);
            r.out matches StmtOutV::Fatal(e) && e == ErrV::RedeclareMissing(n) && r.env == env && r.tch == tch
        }),
{
}

/// Declaring a name that is already bound shadows the old binding
/// rather than erring: the new binding is appended, and innermost-first
/// lookup finds it.
pub proof fn law_declaration_shadows(env: Seq<BindingV>, b: BindingV)
    ensures
        m_lookup(env.push(b), b.name) == Some(b.value),
{
    assert(env.push(b).last() == b);
}

/// A `range` step of zero is fatal, whatever the bounds.
pub proof fn law_range_zero_step(a: i64, b: i64)
    ensures
        m_range_call(seq![ValueV::Integer(a), ValueV::Integer(b), ValueV::Integer(0)])
            == crate::machine::EvalOutV::Fatal(ErrV::ZeroStep),
{
    let args = seq![ValueV::Integer(a), ValueV::Integer(b), ValueV::Integer(0)];
    assert(args.len() == 3);
    assert(args[0] == ValueV::Integer(a));
    assert(args[1] == ValueV::Integer(b));
    assert(args[2] == ValueV::Integer(0i64));
}

/// An ascending range holds exactly the values from its start, step by
/// step, strictly before its stop.
pub proof fn law_range_ascending(cur: int, stop: int, step: int, i: int)
    requires
        step >= 1,
        0 <= i < m_range_asc(cur, stop, step).len(),
    ensures
        m_range_asc(cur, stop, step)[i] == ValueV::Integer((cur + i * step) as i64),
    decreases (if cur < stop { stop - cur } else { 0int }),
{
    if cur < stop {
        if i > 0 {
            law_range_ascending(cur + step, stop, step, i - 1);
            assert(cur + step + (i - 1) * step == cur + i * step) by (nonlinear_arith);
        }
    }
}

/// The absolute value of an Integer negates it exactly when it is
/// negative; the absolute value of a String is a fatal type error.
pub proof fn law_abs(n: i64, s: Seq<char>)
    ensures
        n != i64::MIN && n < 0 ==> m_b_abs("abs"@, seq![ValueV::Integer(n)])
            == crate::machine::EvalOutV::Val(ValueV::Integer((-n) as i64)),
        n >= 0 ==> m_b_abs("abs"@, seq![ValueV::Integer(n)])
            == crate::machine::EvalOutV::Val(ValueV::Integer(n)),
        m_b_abs("abs"@, seq![ValueV::Str(s)]) == crate::machine::EvalOutV::Fatal(
            ErrV::BadBuiltinArg("abs"@, ValueKind::Str),
        ),
{
    let args1 = seq![ValueV::Integer(n)];
    let args2 = seq![ValueV::Str(s)];
    assert(args1.len() == 1 && args1[0] == ValueV::Integer(n));
    assert(args2.len() == 1 && args2[0] == ValueV::Str(s));
}

} // verus!
