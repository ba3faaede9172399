//! SHA-256 digests and their hexadecimal text.

use vstd::prelude::*;
use sha2::{Digest, Sha256};

verus! {

/// The SHA-256 digest of a message.
pub uninterp spec fn sha256_digest(message: Seq<u8>) -> Seq<u8>;

/// Computes the SHA-256 digest of `message` with `sha2::Sha256::digest`.
///
/// The digest is a function of the message alone and is 32 bytes long; how
/// it is computed is left to the `sha2` crate.
#[verifier::external_body]
pub(crate) fn sha256(message: &[u8]) -> (digest: Vec<u8>)
    ensures
        digest@ == sha256_digest(message@),
        digest@.len() == 32,
{
    Sha256::digest(message).to_vec()
}

/// The lower-case hexadecimal digit for a value below sixteen.
pub open spec fn hex_char(d: int) -> char {
    if d < 10 {
        (d + 48) as char
    } else {
        (d + 87) as char
    }
}

/// The lower-case hexadecimal text of `bytes`, two digits for each byte.
pub open spec fn hex_string(bytes: Seq<u8>) -> Seq<char>
    decreases bytes.len(),
{
    if bytes.len() == 0 {
        Seq::empty()
    } else {
        hex_string(bytes.drop_last()).push(hex_char(bytes.last() as int / 16)).push(
            hex_char(bytes.last() as int % 16),
        )
    }
}

/// The hexadecimal text of `bytes` has two characters for each byte.
pub proof fn lemma_hex_string_len(bytes: Seq<u8>)
    ensures
        hex_string(bytes).len() == 2 * bytes.len(),
    decreases bytes.len(),
{
    if bytes.len() > 0 {
        lemma_hex_string_len(bytes.drop_last());
    }
}

/// The hexadecimal digit for `d`.
fn hex_digit(d: u8) -> (c: char)
    requires
        d < 16,
    ensures
        c == hex_char(d as int),
{
    if d < 10 {
        (d + 48) as char
    } else {
        (d + 87) as char
    }
}

/// The first `limit` characters of the hexadecimal text of `bytes`, or all of
/// it where it is shorter.
pub fn hex_prefix(bytes: &[u8], limit: usize) -> (text: String)
    ensures
        text@ == hex_string(bytes@).take(
            if limit <= 2 * bytes@.len() {
                limit as int
            } else {
                (2 * bytes@.len()) as int
            },
        ),
{
    let mut text = String::new();
    let mut written: usize = 0;
    let mut i: usize = 0;
    proof {
        lemma_hex_string_len(bytes@.take(0));
    }
    while i < bytes.len() && written < limit
        invariant
            i <= bytes@.len(),
            written <= limit,
            written == 2 * i || (written == limit && written == 2 * i - 1),
            text@ == hex_string(bytes@.take(i as int)).take(written as int),
            hex_string(bytes@.take(i as int)).len() == 2 * i,
        decreases bytes@.len() - i,
    {
        let b = bytes[i];
        let ghost before = hex_string(bytes@.take(i as int));
        let ghost after = hex_string(bytes@.take(i + 1));
        proof {
            assert(bytes@.take(i + 1).drop_last() =~= bytes@.take(i as int));
            assert(after == before.push(hex_char(b as int / 16)).push(hex_char(b as int % 16)));
            assert(before.take(written as int) =~= before);
        }
        text.push(hex_digit(b / 16));
        written = written + 1;
        if written < limit {
            text.push(hex_digit(b % 16));
            written = written + 1;
        }
        i = i + 1;
        assert(text@ =~= after.take(written as int));
    }
    proof {
        let whole = hex_string(bytes@);
        let shown = hex_string(bytes@.take(i as int));
        lemma_hex_string_len(bytes@);
        if i == bytes@.len() {
            assert(bytes@.take(i as int) =~= bytes@);
        } else {
            lemma_hex_prefix(bytes@, i as int);
            assert(shown.take(written as int) =~= whole.take(written as int));
        }
    }
    text
}

/// The hexadecimal text of a prefix of `bytes` is a prefix of the text of
/// `bytes`.
pub proof fn lemma_hex_prefix(bytes: Seq<u8>, k: int)
    requires
        0 <= k <= bytes.len(),
    ensures
        hex_string(bytes.take(k)) == hex_string(bytes).take(2 * k),
    decreases bytes.len(),
{
    lemma_hex_string_len(bytes);
    lemma_hex_string_len(bytes.take(k));
    if k == bytes.len() {
        assert(bytes.take(k) =~= bytes);
        assert(hex_string(bytes).take(2 * k) =~= hex_string(bytes));
    } else {
        lemma_hex_prefix(bytes.drop_last(), k);
        lemma_hex_string_len(bytes.drop_last());
        assert(bytes.drop_last().take(k) =~= bytes.take(k));
        assert(hex_string(bytes.drop_last()).take(2 * k) =~= hex_string(bytes).take(2 * k));
    }
}

} // verus!
