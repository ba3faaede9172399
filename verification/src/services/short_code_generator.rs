//! Short codes in Base62, derived from a digest or drawn at random.

use vstd::prelude::*;
use vstd::string::*;
use rand::Rng;
use crate::models::error::AppError;
use crate::models::url::Timestamp;
use crate::services::codes::check_custom_code;
use crate::text::chars::{all_code_chars, is_ascii_alphanumeric, is_code_char};
use crate::text::decimal::{decimal_string, format_i64, format_u64};
use crate::text::digest::{sha256, sha256_digest};
use crate::traits::service::ShortCodeGenerator;
use vstd::utf8::encode_utf8;

verus! {

/// The Base62 symbol for a value below 62: `0-9`, then `A-Z`, then `a-z`.
pub open spec fn base62_char(d: int) -> char {
    if d < 10 {
        (d + 48) as char
    } else if d < 36 {
        (d + 55) as char
    } else {
        (d + 61) as char
    }
}

/// The Base62 digits of `num`, least significant first, at least one.
pub open spec fn base62_digits(num: nat) -> Seq<char>
    decreases num,
{
    if num < 62 {
        seq![base62_char(num as int)]
    } else {
        seq![base62_char((num % 62) as int)] + base62_digits(num / 62)
    }
}

/// The number that `bytes` denote with the first byte least significant.
pub open spec fn le_value(bytes: Seq<u8>) -> nat
    decreases bytes.len(),
{
    if bytes.len() == 0 {
        0
    } else {
        bytes[0] as nat + 256 * le_value(bytes.drop_first())
    }
}

/// The first eight of `bytes`, or all of them where there are fewer.
pub open spec fn leading_eight(bytes: Seq<u8>) -> Seq<u8> {
    if bytes.len() <= 8 {
        bytes
    } else {
        bytes.take(8)
    }
}

/// Whether every character of `s` is a Base62 symbol.
pub open spec fn all_base62(s: Seq<char>) -> bool {
    forall|i: int| 0 <= i < s.len() ==> is_ascii_alphanumeric(#[trigger] s[i])
}

/// What a code derived from `num` looks like: `length` Base62 symbols that
/// start with the digits of `num`, as many of them as fit. Symbols after the
/// last digit of `num` come from fresh random numbers and may be any.
pub open spec fn derived_from(num: nat, length: nat, code: Seq<char>) -> bool {
    &&& code.len() == length
    &&& all_base62(code)
    &&& if length <= base62_digits(num).len() {
        code == base62_digits(num).take(length as int)
    } else {
        base62_digits(num).is_prefix_of(code)
    }
}

/// The bytes that are digested for a code: the URL, then the timestamp and
/// the nonce in decimal.
pub open spec fn seed_bytes(url: Seq<char>, timestamp: i64, nonce: u64) -> Seq<u8> {
    encode_utf8(url) + encode_utf8(decimal_string(timestamp as int)) + encode_utf8(
        decimal_string(nonce as int),
    )
}

/// The number a code for `url` is derived from: the first eight bytes of the
/// SHA-256 digest of the seed, the first byte least significant.
pub open spec fn seed_number(url: Seq<char>, timestamp: i64, nonce: u64) -> nat {
    le_value(leading_eight(sha256_digest(seed_bytes(url, timestamp, nonce))))
}

/// 256 to the power `k`.
pub open spec fn pow256(k: nat) -> nat
    decreases k,
{
    if k == 0 {
        1
    } else {
        256 * pow256((k - 1) as nat)
    }
}

/// Up to eight bytes denote a number below 256 to the power of their count,
/// which a `u64` holds.
pub proof fn lemma_le_value_bound(bytes: Seq<u8>)
    requires
        bytes.len() <= 8,
    ensures
        le_value(bytes) < pow256(bytes.len()),
        pow256(bytes.len()) <= 0x1_0000_0000_0000_0000,
    decreases bytes.len(),
{
    reveal_with_fuel(pow256, 9);
    if bytes.len() > 0 {
        lemma_le_value_bound(bytes.drop_first());
    }
}

/// Every Base62 symbol is an ASCII letter or digit.
pub proof fn lemma_base62_char(d: int)
    requires
        0 <= d < 62,
    ensures
        is_ascii_alphanumeric(base62_char(d)),
        is_code_char(base62_char(d)),
{
}

/// Text made of Base62 symbols is made of code characters.
pub proof fn lemma_base62_is_code(s: Seq<char>)
    requires
        all_base62(s),
    ensures
        all_code_chars(s),
{
    assert forall|i: int| 0 <= i < s.len() implies is_code_char(#[trigger] s[i]) by {
        assert(is_ascii_alphanumeric(s[i]));
    }
}

/// The Base62 symbol for `d`.
pub fn base62_symbol(d: u8) -> (c: char)
    requires
        d < 62,
    ensures
        c == base62_char(d as int),
{
    if d < 10 {
        (d + 48) as char
    } else if d < 36 {
        (d + 55) as char
    } else {
        (d + 61) as char
    }
}

/// Folds the first eight of `bytes` into one number, the first byte least
/// significant.
pub fn fold_bytes(bytes: &[u8]) -> (num: u64)
    ensures
        num == le_value(leading_eight(bytes@)),
{
    let n: usize = if bytes.len() <= 8 {
        bytes.len()
    } else {
        8
    };
    let ghost lead = leading_eight(bytes@);
    let mut num: u64 = 0;
    let mut i: usize = n;
    proof {
        assert(lead.subrange(n as int, n as int) =~= Seq::<u8>::empty());
        reveal_with_fuel(pow256, 9);
    }
    while i > 0
        invariant
            i <= n <= 8,
            n == lead.len(),
            lead == leading_eight(bytes@),
            num == le_value(lead.subrange(i as int, n as int)),
            num < pow256((n - i) as nat),
        decreases i,
    {
        i = i - 1;
        proof {
            let rest = lead.subrange(i as int, n as int);
            assert(rest.drop_first() =~= lead.subrange(i + 1, n as int));
            assert(rest[0] == bytes@[i as int]);
            lemma_le_value_bound(rest);
            reveal_with_fuel(pow256, 9);
        }
        num = num * 256 + (bytes[i] as u64);
    }
    assert(lead.subrange(0, n as int) =~= lead);
    num
}

/// A random `u64` from `rand::thread_rng().gen()`.
///
/// Nothing is claimed of the value. `thread_rng` panics where the system's
/// random source cannot be set up.
#[verifier::external_body]
fn random_u64() -> u64 {
    rand::thread_rng().gen()
}

/// A random index below `bound` from `rand::thread_rng().gen_range(0..bound)`.
///
/// `gen_range` panics on an empty range, so `bound` must be positive; the
/// value lies in the range, and nothing more is claimed of it.
#[verifier::external_body]
fn random_below(bound: usize) -> (index: usize)
    requires
        bound > 0,
    ensures
        index < bound,
{
    rand::thread_rng().gen_range(0..bound)
}

/// The bytes to digest for a code.
pub fn seed_message(url: &str, timestamp: i64, nonce: u64) -> (message: Vec<u8>)
    ensures
        message@ == seed_bytes(url@, timestamp, nonce),
{
    let mut message: Vec<u8> = Vec::new();
    message.extend_from_slice(url.as_bytes());
    let stamp = format_i64(timestamp);
    message.extend_from_slice(stamp.as_str().as_bytes());
    let salt = format_u64(nonce);
    message.extend_from_slice(salt.as_str().as_bytes());
    assert(message@ =~= seed_bytes(url@, timestamp, nonce));
    message
}

/// Generator that derives a code from a SHA-256 digest of the URL, the
/// current time and a random nonce.
pub struct DefaultShortCodeGenerator;

/// Generator that draws every symbol of a code at random.
pub struct RandomShortCodeGenerator;

impl DefaultShortCodeGenerator {
    pub fn new() -> (generator: Self) {
        DefaultShortCodeGenerator
    }

    /// Writes the number folded from the first eight of `bytes` in Base62,
    /// least significant digit first, until `length` symbols stand. Where the
    /// number runs out first, fresh random numbers supply the rest.
    pub fn bytes_to_base62(&self, bytes: &[u8], length: usize) -> (code: String)
        ensures
            derived_from(le_value(leading_eight(bytes@)), length as nat, code@),
    {
        let ghost seed = le_value(leading_eight(bytes@));
        let mut code = String::new();
        let mut num: u64 = fold_bytes(bytes);
        let mut written: usize = 0;
        let ghost mut exhausted = false;
        while written < length
            invariant
                written <= length,
                code@.len() == written,
                all_base62(code@),
                !exhausted ==> code@ + base62_digits(num as nat) == base62_digits(seed),
                exhausted ==> base62_digits(seed).is_prefix_of(code@),
            decreases length - written,
        {
            let ghost before = code@;
            let ghost current = num;
            let remainder: u8 = (num % 62) as u8;
            code.push(base62_symbol(remainder));
            num = num / 62;
            written = written + 1;
            proof {
                lemma_base62_char(remainder as int);
                assert forall|i: int| 0 <= i < code@.len() implies is_ascii_alphanumeric(
                    #[trigger] code@[i],
                ) by {
                    if i < before.len() {
                        assert(code@[i] == before[i]);
                    }
                }
                if !exhausted {
                    if current < 62 {
                        assert(code@ =~= before + base62_digits(current as nat));
                        exhausted = true;
                    } else {
                        assert(code@ + base62_digits(num as nat) =~= before + base62_digits(
                            current as nat,
                        ));
                    }
                }
            }
            if num == 0 {
                num = random_u64();
                assert(exhausted);
            }
        }
        proof {
            let digits = base62_digits(seed);
            if !exhausted {
                assert(code@ =~= digits.take(length as int));
            } else if length as nat <= digits.len() {
                assert(code@ =~= digits.take(length as int));
            }
        }
        code
    }
}

impl Default for DefaultShortCodeGenerator {
    fn default() -> (generator: Self) {
        DefaultShortCodeGenerator::new()
    }
}

impl ShortCodeGenerator for DefaultShortCodeGenerator {
    /// Digests the URL with the current second and a random nonce and writes
    /// the first eight bytes of the digest in Base62. Which second and which
    /// nonce it was is not told; the code is derived from the digest for some.
    fn generate(&self, url: &str, length: usize) -> (code: String)
        ensures
            all_base62(code@),
            exists|timestamp: i64, nonce: u64| #[trigger]
                derived_from(seed_number(url@, timestamp, nonce), length as nat, code@),
    {
        let timestamp = Timestamp::now().seconds;
        let nonce = random_u64();
        let message = seed_message(url, timestamp, nonce);
        let digest = sha256(message.as_slice());
        let code = self.bytes_to_base62(digest.as_slice(), length);
        proof {
            lemma_base62_is_code(code@);
            assert(derived_from(seed_number(url@, timestamp, nonce), length as nat, code@));
        }
        code
    }

    fn generate_custom(&self, custom_code: &str) -> (r: Result<String, AppError>) {
        match check_custom_code(custom_code) {
            Ok(()) => Ok(custom_code.to_owned()),
            Err(e) => Err(e),
        }
    }
}

impl ShortCodeGenerator for RandomShortCodeGenerator {
    /// Draws each of the `length` symbols at random from the Base62 alphabet.
    fn generate(&self, _url: &str, length: usize) -> (code: String)
        ensures
            all_base62(code@),
    {
        let mut code = String::new();
        let mut written: usize = 0;
        while written < length
            invariant
                written <= length,
                code@.len() == written,
                all_base62(code@),
            decreases length - written,
        {
            let ghost before = code@;
            let index = random_below(62);
            code.push(base62_symbol(index as u8));
            written = written + 1;
            proof {
                lemma_base62_char(index as int);
                assert forall|i: int| 0 <= i < code@.len() implies is_ascii_alphanumeric(
                    #[trigger] code@[i],
                ) by {
                    if i < before.len() {
                        assert(code@[i] == before[i]);
                    }
                }
            }
        }
        proof {
            lemma_base62_is_code(code@);
        }
        code
    }

    fn generate_custom(&self, custom_code: &str) -> (r: Result<String, AppError>) {
        DefaultShortCodeGenerator::new().generate_custom(custom_code)
    }
}

} // verus!
