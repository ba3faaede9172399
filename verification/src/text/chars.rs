//! Characters and how text is assembled from them.

use vstd::prelude::*;

verus! {

/// `String::push` of the standard library appends the given character to the
/// end of the string and changes nothing else.
pub assume_specification[ String::push ](s: &mut String, c: char)
    ensures
        final(s)@ == old(s)@.push(c),
;

/// The text an optional string holds.
pub open spec fn optional_text(s: Option<String>) -> Option<Seq<char>> {
    match s {
        Some(s) => Some(s@),
        None => None,
    }
}

/// Whether `c` is an ASCII letter or digit.
pub open spec fn is_ascii_alphanumeric(c: char) -> bool {
    ('0' <= c <= '9') || ('a' <= c <= 'z') || ('A' <= c <= 'Z')
}

/// Whether Unicode classes a character beyond ASCII as alphabetic or numeric.
/// What it says of an ASCII character is never consulted.
pub uninterp spec fn unicode_alphanumeric(c: char) -> bool;

/// Whether `c` is alphanumeric: for ASCII a letter or a digit, beyond ASCII
/// what Unicode says.
pub open spec fn is_alphanumeric(c: char) -> bool {
    if (c as u32) < 128 {
        is_ascii_alphanumeric(c)
    } else {
        unicode_alphanumeric(c)
    }
}

/// `char::is_alphanumeric` of the standard library is true for the ASCII
/// letters and digits and for no other ASCII character; beyond ASCII it
/// follows the Unicode tables, which are given a name here and not written out.
pub assume_specification[ char::is_alphanumeric ](c: char) -> (r: bool)
    ensures
        r == (if (c as u32) < 128 {
            is_ascii_alphanumeric(c)
        } else {
            unicode_alphanumeric(c)
        }),
;

/// Whether `c` may stand in a short code: alphanumeric or a hyphen.
pub open spec fn is_code_char(c: char) -> bool {
    is_alphanumeric(c) || c == '-'
}

/// Whether every character of `s` may stand in a short code.
pub open spec fn all_code_chars(s: Seq<char>) -> bool {
    forall|i: int| 0 <= i < s.len() ==> is_code_char(#[trigger] s[i])
}

} // verus!
