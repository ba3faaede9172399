//! URL shortening core: short-code generation, a two-tier cache and the
//! service that keeps cache, click counters and the durable store in step.

use vstd::prelude::*;
use vstd::string::*;

pub mod config;
pub mod models;
pub mod repository;
pub mod services;
pub mod text;
pub mod traits;

verus! {

/// The first `first_n_bytes` characters of the hexadecimal SHA-256 digest of
/// `url`. The digest has 64 characters, and no more can be asked for.
pub fn hash_url(url: &str, first_n_bytes: usize) -> (hash: String)
    requires
        first_n_bytes <= 64,
    ensures
        hash@ == text::digest::hex_string(text::digest::sha256_digest(url.spec_bytes())).take(
            first_n_bytes as int,
        ),
{
    let digest = text::digest::sha256(url.as_bytes());
    text::digest::hex_prefix(digest.as_slice(), first_n_bytes)
}

} // verus!
