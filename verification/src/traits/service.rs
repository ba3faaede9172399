//! The capabilities the URL service is assembled from.

use vstd::prelude::*;
use crate::models::dto::{ClickFollowUp, CreateUrlRequest, CreateUrlResponse, Resolution,
    UrlStatsResponse};
use crate::models::error::AppError;
use crate::services::codes::{counter_key, custom_code_verdict};
use crate::services::fallback::{count_of, next_count};
use crate::text::chars::all_code_chars;
use crate::text::decimal::decimal_string;

verus! {

/// What the URL service offers its callers. What each operation does is
/// stated by the service that implements it.
pub trait UrlService {
    /// Shortens the URL of `request`.
    fn create_short_url(&mut self, request: CreateUrlRequest) -> Result<
        CreateUrlResponse,
        AppError,
    >;

    /// Resolves `short_code` to its long URL and says what is left to do for
    /// the click.
    fn get_original_url(&mut self, short_code: &str) -> Result<Resolution, AppError>;

    /// Does what was left to do for a click.
    fn complete(&mut self, follow_up: ClickFollowUp) -> Result<(), AppError>;

    /// The statistics of `short_code`.
    fn get_url_stats(&mut self, short_code: &str) -> Result<UrlStatsResponse, AppError>;

    /// Deletes `short_code` and says whether there was a record of it.
    fn delete_url(&mut self, short_code: &str) -> Result<bool, AppError>;
}

/// The count a counter holds after one more click, given the text that stood
/// under its key before, if any.
pub open spec fn counted(entries: Map<Seq<char>, Seq<char>>, key: Seq<char>) -> i64 {
    if entries.contains_key(key) {
        next_count(count_of(entries[key]))
    } else {
        next_count(0)
    }
}

/// The entries of a cache, by key.
pub type Entries = Map<Seq<char>, Seq<char>>;

/// A write a cache was asked for: key, value and time to live in seconds.
pub type CacheWrite = (Seq<char>, Seq<char>, u64);

/// The writes a cache was asked for, in order.
pub type WriteLog = Seq<CacheWrite>;

/// A cache of text by key, with click counters beside it.
///
/// `entries` are the values written through this cache that it has not
/// dropped since. A cache may drop an entry at any time, so a lookup may miss
/// where an entry stands. An `authoritative` cache serves nothing else: each
/// of its hits is an entry. A cache that also asks a store it does not
/// control is not authoritative, and nothing is known of its hits.
///
/// A failure of the cache is reported as `AppError::Redis`.
///
/// `writes` keeps the record of the writes the cache was asked for.
///
/// `entries`, `authoritative`, `writes` and `reliable` exist for contracts
/// alone and are never run: an implementation in ordinary Rust gives them
/// bodies that panic.
pub trait CacheService {
    /// The values this cache holds by key.
    spec fn entries(&self) -> Entries;

    /// The writes this cache was asked for, in order.
    spec fn writes(&self) -> WriteLog;

    /// Whether this cache never fails.
    spec fn reliable(&self) -> bool;

    /// Whether every hit of this cache is one of its entries.
    spec fn authoritative(&self) -> bool;

    /// Looks `key` up. Entries may be dropped on the way, none is added.
    fn get(&mut self, key: &str) -> (r: Result<Option<String>, AppError>)
        ensures
            final(self).authoritative() == old(self).authoritative(),
            final(self).reliable() == old(self).reliable(),
            old(self).reliable() ==> r is Ok,
            final(self).writes() == old(self).writes(),
            final(self).entries().submap_of(old(self).entries()),
            r matches Err(e) ==> e is Redis,
            old(self).authoritative() ==> (r matches Ok(Some(v))
                ==> final(self).entries().contains_key(key@) && final(self).entries()[key@] == v@),
    ;

    /// Writes `value` under `key`, to be dropped `ttl_seconds` later at the
    /// latest. A write that fails changes nothing.
    fn set(&mut self, key: &str, value: &str, ttl_seconds: u64) -> (r: Result<(), AppError>)
        ensures
            final(self).authoritative() == old(self).authoritative(),
            final(self).reliable() == old(self).reliable(),
            old(self).reliable() ==> r is Ok,
            final(self).writes() == old(self).writes().push((key@, value@, ttl_seconds)),
            r is Ok ==> final(self).entries() == old(self).entries().insert(key@, value@),
            r matches Err(e) ==> e is Redis && final(self).entries() == old(self).entries(),
    ;

    /// Removes `key`. Where that fails other entries may be dropped, none is
    /// added.
    fn delete(&mut self, key: &str) -> (r: Result<(), AppError>)
        ensures
            final(self).authoritative() == old(self).authoritative(),
            final(self).reliable() == old(self).reliable(),
            old(self).reliable() ==> r is Ok,
            final(self).writes() == old(self).writes(),
            r is Ok ==> final(self).entries() == old(self).entries().remove(key@),
            r matches Err(e) ==> e is Redis && final(self).entries().submap_of(old(self).entries()),
    ;

    /// Counts one click for `short_code` under its counter key and returns
    /// the new count. No other key is touched. An authoritative cache holds
    /// the new count under the counter key afterwards.
    fn increment_clicks(&mut self, short_code: &str) -> (r: Result<i64, AppError>)
        ensures
            final(self).authoritative() == old(self).authoritative(),
            final(self).reliable() == old(self).reliable(),
            old(self).reliable() ==> r is Ok,
            final(self).writes() == old(self).writes(),
            final(self).entries().remove(counter_key(short_code@)) == old(self).entries().remove(
                counter_key(short_code@),
            ),
            r matches Err(e) ==> e is Redis,
            old(self).authoritative() ==> (r matches Ok(n) ==> n == counted(
                old(self).entries(),
                counter_key(short_code@),
            ) && final(self).entries() == old(self).entries().insert(
                counter_key(short_code@),
                decimal_string(n as int),
            )),
    ;
}

/// A strategy for making short codes.
pub trait ShortCodeGenerator {
    /// Makes a short code of `length` characters for `url`. Which code it
    /// is may differ from call to call; every character of it is one a short
    /// code may hold.
    fn generate(&self, url: &str, length: usize) -> (code: String)
        ensures
            code@.len() == length,
            all_code_chars(code@),
    ;

    /// Accepts a custom code as it is, or rejects it with the validation
    /// error that names the rule it breaks. Uniqueness is not looked at.
    fn generate_custom(&self, custom_code: &str) -> (r: Result<String, AppError>)
        ensures
            r matches Ok(code) ==> code@ == custom_code@,
            custom_code_verdict(
                custom_code@,
                match r {
                    Ok(_) => Ok(()),
                    Err(e) => Err(e),
                },
            ),
    ;
}

} // verus!
