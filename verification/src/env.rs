//! The variable environment: an ordered list of bindings. A declaration
//! appends; shadowing is resolved by innermost-first lookup, so the latest
//! binding of a name wins; a re-declaration replaces the innermost binding
//! of the name and is fatal when no binding exists. Mutations made inside
//! a nested block travel back to the enclosing scope as a list of touched
//! bindings, merged in order.

use vstd::prelude::*;
use crate::value::{Value, vv};
use crate::machine::{Binding, BindingV, bview, envv};
use crate::clone::clone_value;

verus! {

/// The innermost (latest) position of a name, if any.
pub open spec fn m_find_pos(env: Seq<BindingV>, name: Seq<char>) -> Option<int>
    decreases env.len(),
{
    if env.len() == 0 {
        Option::None
    } else if env.last().name == name {
        Some(env.len() - 1)
    } else {
        m_find_pos(env.drop_last(), name)
    }
}

/// Innermost-first lookup of a name.
pub open spec fn m_lookup(env: Seq<BindingV>, name: Seq<char>) -> Option<crate::value::ValueV> {
    match m_find_pos(env, name) {
        Some(i) => Some(env[i].value),
        Option::None => Option::None,
    }
}

/// True when the name is bound among the first `k` bindings: the part of
/// the environment that the enclosing scope passed in.
pub open spec fn m_in_prefix(env: Seq<BindingV>, k: int, name: Seq<char>) -> bool {
    exists|i: int| 0 <= i < k && i < env.len() && env[i].name == name
}

/// The position found is in range and holds the name; no later binding
/// holds it.
pub proof fn lemma_find_pos(env: Seq<BindingV>, name: Seq<char>)
    ensures
        match m_find_pos(env, name) {
            Some(i) => 0 <= i < env.len() && env[i].name == name
                && forall|j: int| i < j < env.len() ==> env[j].name != name,
            Option::None => forall|j: int| 0 <= j < env.len() ==> env[j].name != name,
        },
    decreases env.len(),
{
    if env.len() > 0 && env.last().name != name {
        lemma_find_pos(env.drop_last(), name);
        assert(forall|j: int| 0 <= j < env.len() - 1 ==> env.drop_last()[j] == env[j]);
    }
}

/// Finds the innermost binding of a name, scanning from the youngest end.
pub fn find_innermost(env: &Vec<Binding>, name: &String) -> (r: Option<usize>)
    ensures
        match r {
            Some(i) => i < env@.len() && m_find_pos(envv(env@), name@) == Some(i as int),
            Option::None => m_find_pos(envv(env@), name@) == Option::None::<int>,
        },
{
    let ghost full = envv(env@);
    let mut i: usize = env.len();
    proof {
        assert(full.take(env@.len() as int) =~= full);
    }
    while i > 0
        invariant
            i <= env.len(),
            m_find_pos(full, name@) == m_find_pos(full.take(i as int), name@),
            full == envv(env@),
        decreases i,
    {
        i = i - 1;
        if env[i].name == *name {
            proof {
                assert(full.take(i as int + 1).last() == full[i as int]);
                assert(full[i as int].name == name@);
            }
            return Some(i);
        }
        proof {
            assert(full.take(i as int + 1).drop_last() =~= full.take(i as int));
            assert(full.take(i as int + 1).last() == full[i as int]);
        }
    }
    proof {
        assert(full.take(0) =~= Seq::<BindingV>::empty());
    }
    Option::None
}

/// Innermost-first lookup, handing back a copy of the bound value.
pub fn lookup_value(env: &Vec<Binding>, name: &String) -> (r: Option<Value>)
    ensures
        match r {
            Some(v) => m_lookup(envv(env@), name@) == Some(vv(v)),
            Option::None => m_lookup(envv(env@), name@) == Option::None::<crate::value::ValueV>,
        },
{
    match find_innermost(env, name) {
        Some(i) => Some(clone_value(&env[i].value)),
        Option::None => Option::None,
    }
}

/// True when the name is bound among the first `k` bindings.
pub fn name_in_prefix(env: &Vec<Binding>, k: usize, name: &String) -> (r: bool)
    requires
        k <= env@.len(),
    ensures
        r == m_in_prefix(envv(env@), k as int, name@),
{
    let mut i: usize = 0;
    while i < k
        invariant
            i <= k <= env@.len(),
            forall|j: int| 0 <= j < i ==> envv(env@)[j].name != name@,
        decreases k - i,
    {
        if env[i].name == *name {
            proof {
                assert(envv(env@)[i as int].name == name@);
            }
            return true;
        }
        i = i + 1;
    }
    false
}

/// A copy of an environment snapshot, equal to it in the mirror.
pub fn clone_bindings(env: &Vec<Binding>) -> (r: Vec<Binding>)
    ensures
        envv(r@) == envv(env@),
{
    let mut out: Vec<Binding> = Vec::new();
    let mut i: usize = 0;
    while i < env.len()
        invariant
            i <= env@.len(),
            out@.len() == i,
            forall|j: int| 0 <= j < i ==> bview(#[trigger] out@[j]) == bview(env@[j]),
        decreases env@.len() - i,
    {
        out.push(Binding {
            name: env[i].name.clone(),
            value: clone_value(&env[i].value),
        });
        i = i + 1;
    }
    proof {
        assert(envv(out@) =~= envv(env@));
    }
    out
}

/// One merged environment: each touched binding replaces the innermost
/// binding of its name, in order; a name with no binding is skipped. The
/// second component lists the touched bindings whose names stand in the
/// first `k` bindings: what the scope reports onward to its own encloser.
pub open spec fn m_merge(env: Seq<BindingV>, k: int, tch: Seq<BindingV>) -> (Seq<BindingV>, Seq<BindingV>)
    decreases tch.len(),
{
    if tch.len() == 0 {
        (env, Seq::empty())
    } else {
        let t = tch[0];
        let env1 = match m_find_pos(env, t.name) {
            Some(i) => env.update(i, t),
            Option::None => env,
        };
        let first = if m_in_prefix(env, k, t.name) {
            seq![t]
        } else {
            Seq::<BindingV>::empty()
        };
        let rest = m_merge(env1, k, tch.skip(1));
        (rest.0, first + rest.1)
    }
}

/// Applies a child block's touched bindings to this scope's environment
/// and appends to this scope's own touched list those that the encloser
/// passed in (the first `k` bindings).
#[verifier::loop_isolation(false)]
pub fn merge_touched(
    env: &mut Vec<Binding>,
    k: usize,
    tch: &Vec<Binding>,
    out: &mut Vec<Binding>,
)
    requires
        k <= old(env)@.len(),
    ensures
        ({
            let r = m_merge(envv(old(env)@), k as int, envv(tch@));
            envv(final(env)@) == r.0 && envv(final(out)@) == envv(old(out)@) + r.1
        }),
        final(env)@.len() == old(env)@.len(),
{
    let ghost k_i = k as int;
    let ghost env0 = envv(old(env)@);
    let ghost out0 = envv(old(out)@);
    let ghost tchv = envv(tch@);
    let tlen = tch.len();
    let mut i: usize = 0;
    proof {
        assert(tchv.skip(0) =~= tchv);
        assert(envv(out@).skip(out0.len() as int) =~= Seq::<BindingV>::empty());
        assert(envv(out@) =~= out0);
    }
    while i < tlen
        invariant
            i <= tlen,
            tlen == tch@.len(),
            tchv == envv(tch@),
            k <= env@.len(),
            env@.len() == old(env)@.len(),
            out@.len() >= out0.len(),
            envv(out@).take(out0.len() as int) == out0,
            m_merge(env0, k_i, tchv) == (
                m_merge(envv(env@), k_i, tchv.skip(i as int)).0,
                envv(out@).skip(out0.len() as int) + m_merge(envv(env@), k_i, tchv.skip(i as int)).1,
            ),
        decreases tlen - i,
    {
        let ghost env_pre = envv(env@);
        let ghost out_pre = envv(out@);
        let b = Binding {
            name: tch[i].name.clone(),
            value: clone_value(&tch[i].value),
        };
        proof {
            assert(bview(b) == tchv[i as int]);
            assert(tchv.skip(i as int)[0] == tchv[i as int]);
            assert(tchv.skip(i as int).skip(1) =~= tchv.skip(i as int + 1));
        }
        let recorded = name_in_prefix(env, k, &b.name);
        let found = find_innermost(env, &b.name);
        if recorded {
            let b2 = Binding {
                name: b.name.clone(),
                value: clone_value(&b.value),
            };
            out.push(b2);
            proof {
                assert(envv(out@) =~= out_pre + seq![tchv[i as int]]);
                assert(envv(out@).take(out0.len() as int) =~= out_pre.take(out0.len() as int));
                assert(envv(out@).skip(out0.len() as int) =~= out_pre.skip(out0.len() as int) + seq![tchv[i as int]]);
            }
        } else {
            proof {
                assert(envv(out@).skip(out0.len() as int) + Seq::<BindingV>::empty() =~= envv(out@).skip(out0.len() as int));
            }
        }
        match found {
            Some(p) => {
                env[p] = b;
                proof {
                    assert(envv(env@) =~= env_pre.update(p as int, tchv[i as int]));
                }
            },
            Option::None => {},
        }
        i = i + 1;
        proof {
            let step = m_merge(env_pre, k_i, tchv.skip(i as int - 1));
            let rest = m_merge(envv(env@), k_i, tchv.skip(i as int));
            if recorded {
                assert(step.1 =~= seq![tchv[i as int - 1]] + rest.1);
            } else {
                assert(step.1 =~= rest.1);
            }
            assert(out_pre.skip(out0.len() as int) + step.1
                =~= envv(out@).skip(out0.len() as int) + rest.1);
        }
    }
    proof {
        assert(tchv.skip(tlen as int) =~= Seq::<BindingV>::empty());
        assert(m_merge(envv(env@), k_i, Seq::<BindingV>::empty()).0 == envv(env@));
        assert(envv(out@) =~= envv(out@).take(out0.len() as int) + envv(out@).skip(out0.len() as int));
    }
}

} // verus!
