//! A verified evaluation engine for the `compute` scripting language:
//! the tagged value model, the expression evaluator, function dispatch,
//! the statement execution engine, and the content-addressed module cache.

pub mod cache;
pub mod clone;
pub mod codec;
pub mod env;
pub mod eq;
pub mod eval;
pub mod laws;
pub mod machine;
pub mod ops;
pub mod text;
pub mod wrappers;
pub mod value;

use vstd::prelude::*;

verus! {

/// Checks a call's arity: a call is well-formed exactly when the number of
/// arguments it received matches the number the callee declares.
pub fn assert_args_number(func_name: &str, received_args_len: usize, expected_args_len: usize) -> (ok: bool)
    ensures
        ok == (received_args_len == expected_args_len),
{
    received_args_len == expected_args_len
}

} // verus!
