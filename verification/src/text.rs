//! Numeric text: the decimal form of an integer, and the integer a
//! decimal string denotes. Both directions are exact: the printable form
//! is the usual base-ten writing, and a string converts exactly when it
//! is an optional minus sign followed by decimal digits whose value fits
//! the 64-bit signed range.

use vstd::prelude::*;

verus! {

/// The digit character of one value below ten.
pub open spec fn digit_char(d: nat) -> char {
    if d == 0 { '0' }
    else if d == 1 { '1' }
    else if d == 2 { '2' }
    else if d == 3 { '3' }
    else if d == 4 { '4' }
    else if d == 5 { '5' }
    else if d == 6 { '6' }
    else if d == 7 { '7' }
    else if d == 8 { '8' }
    else { '9' }
}

/// The decimal digits of a natural number, most significant first.
pub open spec fn dec_digits(n: nat) -> Seq<char>
    decreases n,
{
    if n < 10 {
        seq![digit_char(n)]
    } else {
        dec_digits(n / 10).push(digit_char(n % 10))
    }
}

/// The decimal writing of an integer: a minus sign for a negative value,
/// then its magnitude's digits.
pub open spec fn int_str(n: int) -> Seq<char> {
    if n < 0 {
        seq!['-'] + dec_digits((-n) as nat)
    } else {
        dec_digits(n as nat)
    }
}

/// True of a decimal digit character.
pub open spec fn is_digit(c: char) -> bool {
    48 <= c as u32 <= 57
}

/// The value of a digit character.
pub open spec fn char_digit(c: char) -> nat {
    (c as u32 - 48) as nat
}

/// The value of a digit string, most significant first.
pub open spec fn digits_val(s: Seq<char>) -> nat
    decreases s.len(),
{
    if s.len() == 0 {
        0
    } else {
        digits_val(s.drop_last()) * 10 + char_digit(s.last())
    }
}

/// True when every character is a decimal digit.
pub open spec fn all_digits(s: Seq<char>) -> bool {
    forall|i: int| 0 <= i < s.len() ==> is_digit(#[trigger] s[i])
}

/// The integer a string denotes: an optional leading minus sign, then at
/// least one digit, every character a digit, and the signed value within
/// the 64-bit signed range; anything else denotes nothing.
pub open spec fn parse_int_str(s: Seq<char>) -> Option<i64> {
    let neg = s.len() > 0 && s[0] == '-';
    let ds = if neg { s.skip(1) } else { s };
    if ds.len() == 0 || !all_digits(ds) {
        Option::None
    } else {
        let v = if neg { -(digits_val(ds) as int) } else { digits_val(ds) as int };
        if i64::MIN <= v <= i64::MAX {
            Some(v as i64)
        } else {
            Option::None
        }
    }
}

/// Relies on String::push: the character is appended to the string.
#[verifier::external_body]
pub fn push_char(s: &mut String, c: char)
    ensures
        final(s)@ == old(s)@.push(c),
{
    s.push(c);
}

/// The digit character of one value below ten.
fn digit_of(d: u64) -> (c: char)
    requires
        d < 10,
    ensures
        c == digit_char(d as nat),
{
    if d == 0 { '0' }
    else if d == 1 { '1' }
    else if d == 2 { '2' }
    else if d == 3 { '3' }
    else if d == 4 { '4' }
    else if d == 5 { '5' }
    else if d == 6 { '6' }
    else if d == 7 { '7' }
    else if d == 8 { '8' }
    else { '9' }
}

/// The decimal digits of a natural number.
fn u64_to_string(n: u64) -> (s: String)
    ensures
        s@ == dec_digits(n as nat),
    decreases n,
{
    if n < 10 {
        let mut s = String::new();
        push_char(&mut s, digit_of(n));
        proof {
            assert(s@ =~= dec_digits(n as nat));
        }
        s
    } else {
        let mut s = u64_to_string(n / 10);
        push_char(&mut s, digit_of(n % 10));
        s
    }
}

/// The decimal writing of a 64-bit signed integer.
pub fn int_to_string(n: i64) -> (s: String)
    ensures
        s@ == int_str(n as int),
{
    if n >= 0 {
        u64_to_string(n as u64)
    } else {
        let mag: u64 = if n == i64::MIN {
            9223372036854775808u64
        } else {
            (-n) as u64
        };
        let mut s = String::new();
        push_char(&mut s, '-');
        let tail = u64_to_string(mag);
        s.append(tail.as_str());
        proof {
            assert(s@ =~= int_str(n as int));
        }
        s
    }
}

/// A longer digit string never denotes a smaller value.
proof fn lemma_digits_val_monotone(s: Seq<char>, i: int)
    requires
        0 <= i <= s.len(),
    ensures
        digits_val(s.take(i)) <= digits_val(s),
    decreases s.len() - i,
{
    if i < s.len() {
        lemma_digits_val_monotone(s, i + 1);
        assert(s.take(i + 1).drop_last() =~= s.take(i));
        assert(digits_val(s.take(i + 1)) == digits_val(s.take(i)) * 10 + char_digit(s.take(i + 1).last()));
    } else {
        assert(s.take(i) =~= s);
    }
}

/// The 64-bit signed integer a string denotes, when it denotes one.
pub fn parse_i64(s: &String) -> (r: Option<i64>)
    ensures
        r == parse_int_str(s@),
{
    let st = s.as_str();
    let n = st.unicode_len();
    let ghost sv = s@;
    let neg = n > 0 && st.get_char(0) == '-';
    let start: usize = if neg { 1 } else { 0 };
    let ghost ds = if neg { sv.skip(1) } else { sv };
    proof {
        assert(ds.len() == n - start);
    }
    if n == start {
        return Option::None;
    }
    let mut acc: u128 = 0;
    let mut i: usize = start;
    while i < n
        invariant
            start <= i <= n,
            sv == s@,
            n == sv.len(),
            ds == (if neg { sv.skip(1) } else { sv }),
            ds.len() == n - start,
            neg == (sv.len() > 0 && sv[0] == '-'),
            st@ == sv,
            acc == digits_val(ds.take(i - start)),
            acc <= 0x8000000000000000u128,
            all_digits(ds.take(i - start)),
        decreases n - i,
    {
        let c = st.get_char(i);
        let u = c as u32;
        proof {
            assert(ds[i - start] == sv[i as int]);
            assert(ds.take(i - start + 1).drop_last() =~= ds.take(i - start));
            assert(ds.take(i - start + 1).last() == ds[i - start]);
        }
        if u < 48 || u > 57 {
            proof {
                assert(!is_digit(ds[i - start]));
                assert(!all_digits(ds));
            }
            return Option::None;
        }
        let d = (u - 48) as u128;
        acc = acc * 10 + d;
        proof {
            assert(all_digits(ds.take(i - start + 1)));
        }
        if acc > 0x8000000000000000u128 {
            proof {
                lemma_digits_val_monotone(ds, i - start + 1);
                assert(ds.take(ds.len() as int) =~= ds);
                assert(digits_val(ds) > 0x8000000000000000);
            }
            return Option::None;
        }
        i = i + 1;
    }
    proof {
        assert(ds.take(n - start) =~= ds);
    }
    if neg {
        if acc == 0x8000000000000000u128 {
            Some(i64::MIN)
        } else {
            Some(-((acc as u64) as i64))
        }
    } else {
        if acc <= 0x7fffffffffffffffu128 {
            Some(acc as i64)
        } else {
            Option::None
        }
    }
}

} // verus!
