//! The trusted seams to the outside crates and to the parts of std that
//! vstd leaves unspecified. Each wrapper makes exactly one outside call;
//! where the call's result would take pages to state, it is given a name
//! that the callers' contracts use instead.

use vstd::prelude::*;

verus! {

/// The lowercase hexadecimal writing of the BLAKE3 digest of a byte string.
pub uninterp spec fn blake3_hex_of(bytes: Seq<u8>) -> Seq<char>;

/// Relies on blake3::hash and blake3::Hash::to_hex: the 256-bit BLAKE3
/// digest of the bytes, written as 64 lowercase hexadecimal characters,
/// a function of the bytes alone.
#[verifier::external_body]
pub fn blake3_hex(bytes: &Vec<u8>) -> (r: String)
    ensures
        r@ == blake3_hex_of(bytes@),
        r@.len() == 64,
{
    let hash = blake3::hash(bytes.as_slice());
    hash.to_hex().as_str().to_owned()
}

/// The Unicode uppercase form of a character sequence.
pub uninterp spec fn upper_of(s: Seq<char>) -> Seq<char>;

/// Relies on str::to_uppercase: the Unicode uppercase form, a function of
/// the characters alone; an empty string stays empty.
#[verifier::external_body]
pub fn to_upper(s: &str) -> (r: String)
    ensures
        r@ == upper_of(s@),
        s@.len() == 0 ==> r@.len() == 0,
{
    s.to_uppercase()
}

/// The Unicode lowercase form of a character sequence.
pub uninterp spec fn lower_of(s: Seq<char>) -> Seq<char>;

/// Relies on str::to_lowercase: the Unicode lowercase form, a function of
/// the characters alone; an empty string stays empty.
#[verifier::external_body]
pub fn to_lower(s: &str) -> (r: String)
    ensures
        r@ == lower_of(s@),
        s@.len() == 0 ==> r@.len() == 0,
{
    s.to_lowercase()
}

/// The sentence-case form of a character sequence: first word
/// capitalized, the rest lowercased.
pub uninterp spec fn capitalized_of(s: Seq<char>) -> Seq<char>;

/// Relies on inflector::cases::sentencecase::to_sentence_case: the
/// sentence-case form, a function of the characters alone.
#[verifier::external_body]
pub fn capitalize(s: &str) -> (r: String)
    ensures
        r@ == capitalized_of(s@),
{
    inflector::cases::sentencecase::to_sentence_case(s)
}

/// The string with every non-overlapping occurrence of a pattern
/// replaced, left to right.
pub uninterp spec fn replaced_of(s: Seq<char>, from: Seq<char>, to: Seq<char>) -> Seq<char>;

/// Relies on str::replace: every non-overlapping occurrence of `from`
/// replaced by `to`, left to right, a function of the three strings alone.
#[verifier::external_body]
pub fn replace_str(s: &str, from: &str, to: &str) -> (r: String)
    ensures
        r@ == replaced_of(s@, from@, to@),
{
    s.replace(from, to)
}

/// Relies on char::from_u32: the character of a Unicode scalar value;
/// values in the surrogate range or above the Unicode maximum have none.
#[verifier::external_body]
pub fn char_from_u32(u: u32) -> (r: Option<char>)
    ensures
        match r {
            Some(c) => c as u32 == u,
            Option::None => true,
        },
        (u < 0xD800 || (0xE000 <= u && u <= 0x10FFFF)) <==> r is Some,
{
    char::from_u32(u)
}

} // verus!
