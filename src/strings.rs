//! Small functions on owned strings: measuring one, and extending one in
//! place.
use vstd::prelude::*;
use vstd::string::StringExecFns;
use vstd::utf8::encode_utf8;

verus! {

/// The number of bytes in the UTF-8 encoding of the characters `s`.
pub open spec fn utf8_len(s: Seq<char>) -> nat {
    encode_utf8(s).len()
}

/// The length of `s` in bytes. Takes the string by value, so the caller
/// gives it up.
pub fn calculate_length(s: String) -> (r: usize)
    ensures
        r == utf8_len(s@),
{
    s.as_str().as_bytes().len()
}

/// The length of `s` in bytes, borrowing the string.
pub fn calculate_length_by_ref(s: &String) -> (r: usize)
    ensures
        r == utf8_len(s@),
{
    s.as_str().as_bytes().len()
}

/// Appends `" world"` to `s`.
pub fn modify_string(s: &mut String)
    ensures
        final(s)@ == old(s)@ + seq![' ', 'w', 'o', 'r', 'l', 'd'],
{
    let tail = " world";
    proof {
        reveal_strlit(" world");
    }
    s.append(tail);
}

} // verus!
