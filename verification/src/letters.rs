//! Case folding, and the test that tells which typed characters are letters.

use vstd::prelude::*;

verus! {

/// The lower-case form of `c`: `'A'..='Z'` become `'a'..='z'`, every other
/// character is left as it is.
pub open spec fn lower(c: char) -> char {
    if 'A' <= c && c <= 'Z' {
        ((c as u32) + 32) as char
    } else {
        c
    }
}

/// The upper-case form of `c`: `'a'..='z'` become `'A'..='Z'`, every other
/// character is left as it is.
pub open spec fn upper(c: char) -> char {
    if 'a' <= c && c <= 'z' {
        ((c as u32) - 32) as char
    } else {
        c
    }
}

/// Two characters stand for the same letter when they differ at most in case.
pub open spec fn same_letter(a: char, b: char) -> bool {
    lower(a) == lower(b)
}

/// Lower-cases an ASCII letter and returns any other character unchanged.
pub fn to_lower(c: char) -> (r: char)
    ensures
        r == lower(c),
{
    if 'A' <= c && c <= 'Z' {
        ((c as u8) + 32) as char
    } else {
        c
    }
}

/// Upper-cases an ASCII letter and returns any other character unchanged.
pub fn to_upper(c: char) -> (r: char)
    ensures
        r == upper(c),
{
    if 'a' <= c && c <= 'z' {
        ((c as u8) - 32) as char
    } else {
        c
    }
}

/// Compares two characters without regard to case.
pub fn is_same_letter(a: char, b: char) -> (same: bool)
    ensures
        same == same_letter(a, b),
{
    to_lower(a) == to_lower(b)
}

/// Changing the case of a character does not change the letter it stands for.
pub proof fn lemma_case_keeps_letter(c: char)
    ensures
        same_letter(upper(c), c),
        same_letter(lower(c), c),
        lower(lower(c)) == lower(c),
        upper(upper(c)) == upper(c),
{
}

/// Whether `c` has the Unicode property `Alphabetic`. The property is a table
/// of the Unicode standard; nothing but its name is known here.
pub uninterp spec fn alphabetic(c: char) -> bool;

/// `char::is_alphabetic` of the standard library: its answer depends on the
/// character alone, and is the property named [`alphabetic`].
pub assume_specification[ char::is_alphabetic ](c: char) -> (b: bool)
    ensures
        b == alphabetic(c),
;

} // verus!
