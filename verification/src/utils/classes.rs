//! Character classes, as the standard library's Unicode tables define them.
use vstd::prelude::*;

verus! {

/// Whether `c` has the Unicode property `White_Space`.
pub uninterp spec fn is_whitespace_char(c: char) -> bool;

/// Whether `c` has the Unicode property `Alphabetic`.
pub uninterp spec fn is_alphabetic_char(c: char) -> bool;

/// Whether `c` is in one of the Unicode number categories.
pub uninterp spec fn is_numeric_char(c: char) -> bool;

/// `char::is_whitespace` looks `c` up in the standard library's tables; the result gets a name.
pub assume_specification[ char::is_whitespace ](c: char) -> (r: bool)
    ensures
        r == is_whitespace_char(c),
;

/// `char::is_alphabetic` looks `c` up in the standard library's tables; the result gets a name.
pub assume_specification[ char::is_alphabetic ](c: char) -> (r: bool)
    ensures
        r == is_alphabetic_char(c),
;

/// `char::is_numeric` looks `c` up in the standard library's tables; the result gets a name.
pub assume_specification[ char::is_numeric ](c: char) -> (r: bool)
    ensures
        r == is_numeric_char(c),
;

/// A character that belongs to a word: a letter or a digit.
pub open spec fn is_word_char(c: char) -> bool {
    is_alphabetic_char(c) || is_numeric_char(c)
}

/// Whether a jump over words goes on across `ch`: letters and digits only.
pub fn should_jump(ch: char) -> (r: bool)
    ensures
        r == is_word_char(ch),
{
    ch.is_alphabetic() || ch.is_numeric()
}

} // verus!
