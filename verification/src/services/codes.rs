//! The shape of short codes and of the cache keys derived from them.

use vstd::prelude::*;
use vstd::string::*;
use vstd::utf8::encode_utf8;
use crate::models::error::AppError;
use crate::text::chars::{all_code_chars, is_code_char};

verus! {

/// The most bytes a short code may take.
pub const MAX_CODE_BYTES: usize = 20;

/// Whether `code` has an acceptable length: not empty and at most twenty
/// bytes of UTF-8.
pub open spec fn code_length_ok(code: Seq<char>) -> bool {
    code.len() > 0 && encode_utf8(code).len() <= MAX_CODE_BYTES
}

/// Whether `code` may be used as a custom short code.
pub open spec fn valid_custom_code(code: Seq<char>) -> bool {
    code_length_ok(code) && all_code_chars(code)
}

/// The detail of the error for a custom code of the wrong length.
pub open spec fn length_detail() -> Seq<char> {
    "Custom code must be between 1 and 20 characters"@
}

/// The detail of the error for a custom code with a character it may not hold.
pub open spec fn charset_detail() -> Seq<char> {
    "Custom code can only contain alphanumeric characters and hyphens"@
}

/// What checking a custom code yields: nothing to object to, or the
/// validation error that names the first rule broken.
pub open spec fn custom_code_verdict(code: Seq<char>, r: Result<(), AppError>) -> bool {
    if !code_length_ok(code) {
        r matches Err(AppError::Validation(m)) && m@ == length_detail()
    } else if !all_code_chars(code) {
        r matches Err(AppError::Validation(m)) && m@ == charset_detail()
    } else {
        r is Ok
    }
}

/// Whether every character of `code` is alphanumeric or a hyphen.
pub fn has_only_code_chars(code: &str) -> (ok: bool)
    ensures
        ok == all_code_chars(code@),
{
    for c in it: code.chars()
        invariant
            it.seq() == code@,
            all_code_chars(code@.take(it.index() as int)),
    {
        let ghost i = it.index() as int;
        assert(c == code@[i]);
        if !(c.is_alphanumeric() || c == '-') {
            assert(!is_code_char(code@[i]));
            return false;
        }
        assert forall|j: int| 0 <= j < code@.take(i + 1).len() implies is_code_char(
            #[trigger] code@.take(i + 1)[j],
        ) by {
            if j < i {
                assert(code@.take(i)[j] == code@[j]);
            }
        }
    }
    assert(code@.take(code@.len() as int) =~= code@);
    true
}

/// Checks a custom short code: its length first, then its characters.
pub fn check_custom_code(code: &str) -> (r: Result<(), AppError>)
    ensures
        custom_code_verdict(code@, r),
{
    if code.is_empty() || code.as_bytes().len() > MAX_CODE_BYTES {
        return Err(
            AppError::Validation("Custom code must be between 1 and 20 characters".to_owned()),
        );
    }
    if !has_only_code_chars(code) {
        return Err(
            AppError::Validation(
                "Custom code can only contain alphanumeric characters and hyphens".to_owned(),
            ),
        );
    }
    Ok(())
}

/// The prefix that marks the cache key of a click counter.
pub open spec fn counter_prefix() -> Seq<char> {
    seq!['c', 'l', 'i', 'c', 'k', 's', ':']
}

/// The cache key under which the clicks of `code` are counted.
pub open spec fn counter_key(code: Seq<char>) -> Seq<char> {
    counter_prefix() + code
}

/// Whether `key` is the cache key of some click counter.
pub open spec fn is_counter_key(key: Seq<char>) -> bool {
    key.len() >= 7 && key.take(7) == counter_prefix()
}

/// The cache key under which the clicks of `short_code` are counted.
pub fn clicks_key(short_code: &str) -> (key: String)
    ensures
        key@ == counter_key(short_code@),
{
    proof {
        reveal_strlit("clicks:");
        assert("clicks:"@ =~= counter_prefix());
    }
    let mut key = "clicks:".to_owned();
    key.append(short_code);
    key
}

/// A key made for a counter is a counter key.
pub proof fn lemma_counter_key(code: Seq<char>)
    ensures
        is_counter_key(counter_key(code)),
{
    assert(counter_key(code).take(7) =~= counter_prefix());
}

/// No text made of code characters alone is a counter key: the colon of
/// the prefix is no code character.
pub proof fn lemma_code_is_no_counter_key(code: Seq<char>)
    requires
        all_code_chars(code),
    ensures
        !is_counter_key(code),
{
    if is_counter_key(code) {
        assert(code.take(7)[6] == ':');
        assert(code[6] == ':');
        assert(is_code_char(code[6]));
    }
}

} // verus!
