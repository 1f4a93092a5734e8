//! Lobby codes: normalization to uppercase and validation.
//!
//! A stored code is 4 to 12 ASCII alphanumeric characters, normalized to
//! uppercase.  Every code-accepting operation normalizes its input first,
//! so lookups are case-insensitive.

use vstd::prelude::*;

use crate::Reject;

verus! {

/// The uppercase image of one character under the ASCII case mapping:
/// `'a'` to `'z'` map to `'A'` to `'Z'`, every other character is unchanged.
pub open spec fn upper_char(c: char) -> char {
    if 97 <= c as u32 && c as u32 <= 122 {
        ((c as u32 - 32) as char)
    } else {
        c
    }
}

/// A character allowed in a lobby code: an ASCII letter or digit.
pub open spec fn is_code_char(c: char) -> bool {
    ||| 48 <= c as u32 && c as u32 <= 57
    ||| 65 <= c as u32 && c as u32 <= 90
    ||| 97 <= c as u32 && c as u32 <= 122
}

/// The normalized form of a code: every ASCII lowercase letter uppercased.
pub open spec fn normalized(s: Seq<char>) -> Seq<char> {
    Seq::new(s.len(), |i: int| upper_char(s[i]))
}

/// A valid lobby code: 4 to 12 characters, each an ASCII letter or digit.
pub open spec fn valid_code(s: Seq<char>) -> bool {
    &&& 4 <= s.len() <= 12
    &&& forall|i: int| 0 <= i < s.len() ==> is_code_char(#[trigger] s[i])
}

/// Normalization is idempotent: normalizing a second time changes nothing.
pub proof fn lemma_normalized_idempotent(s: Seq<char>)
    ensures
        normalized(normalized(s)) == normalized(s),
{
    assert forall|i: int| 0 <= i < s.len() implies #[trigger] upper_char(upper_char(s[i]))
        == upper_char(s[i]) by {
        let c = s[i];
        if 97 <= c as u32 && c as u32 <= 122 {
            let u: u32 = (c as u32 - 32) as u32;
            assert(upper_char(c) == (u as char));
            assert((u as char) as u32 == u);
        }
    }
    assert(normalized(normalized(s)) =~= normalized(s));
}

/// Relies on `char::to_ascii_uppercase`: ASCII letters `'a'` to `'z'` are
/// mapped to `'A'` to `'Z'`; all other characters are returned unchanged.
#[verifier::external_body]
fn to_upper_char(c: char) -> (r: char)
    ensures
        r == upper_char(c),
{
    c.to_ascii_uppercase()
}

/// Relies on `String::push`: appends the given character to the end of
/// the string.
#[verifier::external_body]
fn push_char(s: &mut String, c: char)
    ensures
        final(s)@ == old(s)@.push(c),
{
    s.push(c)
}

/// Uppercase every ASCII lowercase letter of `code`, leaving all other
/// characters as they are.
pub fn normalize_code(code: &str) -> (r: String)
    ensures
        r@ == normalized(code@),
{
    let n: usize = code.unicode_len();
    let mut out = String::new();
    let mut i: usize = 0;
    while i < n
        invariant
            n == code@.len(),
            i <= n,
            out@ == normalized(code@).subrange(0, i as int),
        decreases n - i,
    {
        let c = code.get_char(i);
        push_char(&mut out, to_upper_char(c));
        proof {
            assert(out@ =~= normalized(code@).subrange(0, i + 1));
        }
        i += 1;
    }
    proof {
        assert(out@ =~= normalized(code@));
    }
    out
}

fn code_char(c: char) -> (r: bool)
    ensures
        r == is_code_char(c),
{
    let u: u32 = c as u32;
    (48 <= u && u <= 57) || (65 <= u && u <= 90) || (97 <= u && u <= 122)
}

/// Accept a code of 4 to 12 ASCII alphanumeric characters; reject anything
/// else as `InvalidCode`.  Applied after normalization by every
/// code-accepting operation.
pub fn validate_code(code: &str) -> (r: Result<(), Reject>)
    ensures
        valid_code(code@) ==> r == Ok::<(), Reject>(()),
        !valid_code(code@) ==> r == Err::<(), Reject>(Reject::InvalidCode),
{
    let n: usize = code.unicode_len();
    if n < 4 || n > 12 {
        return Err(Reject::InvalidCode);
    }
    let mut i: usize = 0;
    while i < n
        invariant
            n == code@.len(),
            i <= n,
            forall|j: int| 0 <= j < i ==> is_code_char(#[trigger] code@[j]),
        decreases n - i,
    {
        if !code_char(code.get_char(i)) {
            return Err(Reject::InvalidCode);
        }
        i += 1;
    }
    Ok(())
}

} // verus!
