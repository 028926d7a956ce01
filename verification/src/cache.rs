//! The content-addressed module cache's logic: a unit's cache key is the
//! BLAKE3 digest of its normalized text; a persisted table is its stable
//! binary encoding; imported units' functions are appended after the
//! unit's own; the designated entry function must exist in the top-level
//! unit. The host does only the file reads and writes around this.

use vstd::prelude::*;
use vstd::string::{StringSliceAdditionalSpecFns, StrSliceExecFns};
use crate::machine::{Function, EvalError, errv, ErrV, fnsv};
use crate::wrappers::{blake3_hex_of, blake3_hex};
use crate::codec::{enc_table, dec_table, encode_table, decode_table};
use crate::eval::m_find_fn;

verus! {

/// The cache key of a source unit: the lowercase hexadecimal BLAKE3
/// digest of its text's bytes.
pub fn cache_key(text: &str) -> (r: String)
    ensures
        r@ == blake3_hex_of(text.spec_bytes()),
        r@.len() == 64,
{
    let bytes = text.as_bytes_vec();
    blake3_hex(&bytes)
}

/// The persisted form of a function table: its stable binary encoding.
pub fn serialize_table(t: &Vec<Function>) -> (r: Vec<u8>)
    ensures
        r@ == enc_table(fnsv(t@)),
{
    encode_table(t)
}

/// The table a persisted cache entry holds; a blob that is not exactly
/// one encoded table is a corrupt entry.
pub fn deserialize_table(b: &Vec<u8>) -> (r: Result<Vec<Function>, EvalError>)
    ensures
        match r {
            Result::Ok(t) => dec_table(b@) == Some(fnsv(t@)),
            Result::Err(e) => dec_table(b@) is None && errv(e) == ErrV::CorruptCache,
        },
{
    match decode_table(b) {
        Some(t) => Result::Ok(t),
        Option::None => Result::Err(EvalError::CorruptCache),
    }
}

/// Links one unit: the imported units' functions are appended after the
/// unit's own, and, for the top-level unit, the entry function must be
/// among the unit's own functions.
pub fn link_unit(own: Vec<Function>, imports: Vec<Function>, check_entry: bool, entry: &String) -> (r: Result<
    Vec<Function>,
    EvalError,
>)
    ensures
        match r {
            Result::Ok(t) => fnsv(t@) == fnsv(own@) + fnsv(imports@)
                && (check_entry ==> m_find_fn(fnsv(own@), entry@) is Some),
            Result::Err(e) => check_entry && m_find_fn(fnsv(own@), entry@) is None
                && errv(e) == ErrV::MissingEntry(entry@),
        },
{
    if check_entry {
        match crate::eval::find_function(&own, entry) {
            Some(_) => {},
            Option::None => {
                return Result::Err(EvalError::MissingEntry(entry.clone()));
            },
        }
    }
    let ghost own0 = fnsv(own@);
    let ghost imp0 = fnsv(imports@);
    let mut table = own;
    let mut imports = imports;
    table.append(&mut imports);
    proof {
        assert(fnsv(table@) =~= own0 + imp0);
    }
    Result::Ok(table)
}

} // verus!
