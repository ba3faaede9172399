//! The in-process tier of the cache: a concurrent map whose entries expire.

use vstd::prelude::*;
use vstd::string::*;
use dashmap::DashMap;
use crate::text::chars::optional_text;
use crate::text::decimal::{decimal_string, format_i64, lemma_parse_decimal_string, parse_i64,
    parse_i64_spec};

verus! {

/// Nanoseconds in a second.
pub const NANOS_PER_SECOND: u128 = 1_000_000_000;

/// What the in-process tier holds: for each key its value and the instant,
/// in nanoseconds on the cache's clock, at which the value expires.
pub type Stored = Map<Seq<char>, (Seq<char>, u128)>;

/// `dashmap::DashMap`, the concurrent map that holds the entries. What it
/// holds is told by `held`; how it keeps it is its own matter.
#[verifier::external_type_specification]
#[verifier::external_body]
#[verifier::reject_recursive_types(K)]
#[verifier::reject_recursive_types(V)]
#[verifier::reject_recursive_types(S)]
pub struct ExDashMap<K, V, S>(DashMap<K, V, S>);

/// A cached value and the instant at which it expires.
#[derive(Clone)]
pub struct CacheEntry {
    pub value: String,
    pub expires_at: u128,
}

/// The entries a `DashMap` of cache entries holds, by key.
pub uninterp spec fn held(map: DashMap<String, CacheEntry>) -> Map<Seq<char>, (Seq<char>, u128)>;

/// Whether an entry that expires at `expires_at` is still alive at `now`: it
/// is dead once `now` has passed `expires_at`.
pub open spec fn alive(expires_at: u128, now: u128) -> bool {
    now <= expires_at
}

/// The instant at which a value written at `now` with a time to live of
/// `ttl_seconds` expires, capped at the largest instant there is.
pub open spec fn expiry(now: u128, ttl_seconds: u64) -> u128 {
    if now + ttl_seconds * NANOS_PER_SECOND <= u128::MAX {
        (now + ttl_seconds * NANOS_PER_SECOND) as u128
    } else {
        u128::MAX
    }
}

/// The entries of `stored` that are alive at `now`.
pub open spec fn live_part(stored: Stored, now: u128) -> Stored {
    Map::new(
        |k: Seq<char>| stored.contains_key(k) && alive(stored[k].1, now),
        |k: Seq<char>| stored[k],
    )
}

/// The value an unexpired entry for `key` holds at `now`, if there is one.
pub open spec fn live_value(stored: Stored, key: Seq<char>, now: u128) -> Option<Seq<char>> {
    if stored.contains_key(key) && alive(stored[key].1, now) {
        Some(stored[key].0)
    } else {
        None
    }
}

/// The count that text read as a counter stands for: the integer it denotes,
/// or zero where it denotes none that an `i64` holds.
pub open spec fn count_of(value: Seq<char>) -> i64 {
    match parse_i64_spec(value) {
        Some(n) => n,
        None => 0,
    }
}

/// The count after one more click: one more, and no more than an `i64` holds.
pub open spec fn next_count(count: i64) -> i64 {
    if count < i64::MAX {
        (count + 1) as i64
    } else {
        count
    }
}

/// The entry for a counter after one more click: the entry that was there
/// with its count raised and its expiry kept, or a first click that expires
/// at `expires_at`.
pub open spec fn clicked(stored: Stored, key: Seq<char>, expires_at: u128) -> (Seq<char>, u128) {
    if stored.contains_key(key) {
        (decimal_string(next_count(count_of(stored[key].0)) as int), stored[key].1)
    } else {
        (decimal_string(next_count(0) as int), expires_at)
    }
}

impl CacheEntry {
    /// Whether this entry is still alive at `now`.
    pub fn live_at(&self, now: u128) -> (live: bool)
        ensures
            live == alive(self.expires_at, now),
    {
        now <= self.expires_at
    }

    /// Reads the value as a count, raises it by one and writes it back. A
    /// value that is no number counts as zero.
    pub fn count_click(&mut self)
        ensures
            final(self).value@ == decimal_string(next_count(count_of(old(self).value@)) as int),
            final(self).expires_at == old(self).expires_at,
    {
        let current: i64 = match parse_i64(self.value.as_str()) {
            Some(n) => n,
            None => 0,
        };
        let raised: i64 = if current < i64::MAX {
            current + 1
        } else {
            current
        };
        self.value = format_i64(raised);
    }

    /// The entry of a counter that has seen its first click.
    pub fn first_click(expires_at: u128) -> (entry: CacheEntry)
        ensures
            entry.value@ == decimal_string(next_count(0) as int),
            entry.expires_at == expires_at,
    {
        let mut entry = CacheEntry { value: format_i64(0), expires_at };
        proof {
            lemma_parse_decimal_string(0);
        }
        entry.count_click();
        entry
    }

    /// The count this entry holds.
    pub fn count(&self) -> (n: i64)
        ensures
            n == count_of(self.value@),
    {
        match parse_i64(self.value.as_str()) {
            Some(n) => n,
            None => 0,
        }
    }
}

/// `DashMap::new` makes a map that holds nothing.
#[verifier::external_body]
fn dm_new() -> (map: DashMap<String, CacheEntry>)
    ensures
        held(map) == Stored::empty(),
{
    DashMap::new()
}

/// `DashMap::insert` puts the value under the key and replaces what stood
/// there; other keys keep what they had.
#[verifier::external_body]
fn dm_insert(map: &mut DashMap<String, CacheEntry>, key: String, entry: CacheEntry)
    ensures
        held(*final(map)) == held(*old(map)).insert(key@, (entry.value@, entry.expires_at)),
{
    map.insert(key, entry);
}

/// `DashMap::remove` takes the key and its value out where the key is
/// present and changes nothing where it is not.
#[verifier::external_body]
fn dm_remove(map: &mut DashMap<String, CacheEntry>, key: &str)
    ensures
        held(*final(map)) == held(*old(map)).remove(key@),
{
    map.remove(key);
}

/// `DashMap::get` finds the value under the key, of which a copy is handed
/// out, or nothing where the key is absent.
#[verifier::external_body]
fn dm_get(map: &DashMap<String, CacheEntry>, key: &str) -> (entry: Option<CacheEntry>)
    ensures
        match entry {
            Some(e) => held(*map).contains_key(key@) && (e.value@, e.expires_at) == held(
                *map,
            )[key@],
            None => !held(*map).contains_key(key@),
        },
{
    match map.get(key) {
        Some(found) => Some(found.value().clone()),
        None => None,
    }
}

/// `DashMap::retain` keeps the entries for which the closure answers true and
/// discards the others; here the closure asks each entry whether it is alive.
#[verifier::external_body]
fn dm_retain_live(map: &mut DashMap<String, CacheEntry>, now: u128)
    ensures
        held(*final(map)) == live_part(held(*old(map)), now),
{
    map.retain(|_, entry| entry.live_at(now));
}

/// `DashMap::entry` locks the key; `and_modify` applies the closure to the
/// value where the key is present, `or_insert_with` puts the closure's value
/// where it is absent, and the entry that then stands is handed out as a copy.
/// Here the present entry counts a click and the absent one starts at its
/// first.
#[verifier::external_body]
fn dm_count_click(map: &mut DashMap<String, CacheEntry>, key: String, expires_at: u128) -> (entry:
    CacheEntry)
    ensures
        held(*final(map)) == held(*old(map)).insert(
            key@,
            clicked(held(*old(map)), key@, expires_at),
        ),
        (entry.value@, entry.expires_at) == clicked(held(*old(map)), key@, expires_at),
{
    map.entry(key).and_modify(|entry| entry.count_click()).or_insert_with(
        || CacheEntry::first_click(expires_at),
    ).value().clone()
}

/// The in-process tier: values by key, each with the instant at which it
/// expires. Dead entries stay until a sweep or a lookup of their key removes
/// them.
pub struct ExpiringMap {
    entries: DashMap<String, CacheEntry>,
}

impl View for ExpiringMap {
    type V = Map<Seq<char>, (Seq<char>, u128)>;

    closed spec fn view(&self) -> Map<Seq<char>, (Seq<char>, u128)> {
        held(self.entries)
    }
}

/// The instant at which a value written at `now` expires.
pub fn expires_after(now: u128, ttl_seconds: u64) -> (at: u128)
    ensures
        at == expiry(now, ttl_seconds),
{
    let span: u128 = (ttl_seconds as u128) * NANOS_PER_SECOND;
    if now > u128::MAX - span {
        u128::MAX
    } else {
        now + span
    }
}

impl ExpiringMap {
    /// A tier that holds nothing.
    pub fn new() -> (map: ExpiringMap)
        ensures
            map@ == Stored::empty(),
    {
        ExpiringMap { entries: dm_new() }
    }

    /// Removes every entry that is dead at `now`.
    pub fn sweep(&mut self, now: u128)
        ensures
            final(self)@ == live_part(old(self)@, now),
    {
        dm_retain_live(&mut self.entries, now);
    }

    /// Looks `key` up at `now`: the value of an entry that is alive, nothing
    /// otherwise. An entry found dead is removed.
    pub fn lookup(&mut self, key: &str, now: u128) -> (value: Option<String>)
        ensures
            optional_text(value) == live_value(old(self)@, key@, now),
            final(self)@ == (if old(self)@.contains_key(key@) && !alive(old(self)@[key@].1, now) {
                old(self)@.remove(key@)
            } else {
                old(self)@
            }),
    {
        match dm_get(&self.entries, key) {
            Some(entry) => {
                if entry.live_at(now) {
                    Some(entry.value)
                } else {
                    dm_remove(&mut self.entries, key);
                    None
                }
            },
            None => None,
        }
    }

    /// Writes `value` under `key` at `now`, to expire `ttl_seconds` later.
    pub fn put(&mut self, key: &str, value: &str, ttl_seconds: u64, now: u128)
        ensures
            final(self)@ == old(self)@.insert(key@, (value@, expiry(now, ttl_seconds))),
    {
        let expires_at = expires_after(now, ttl_seconds);
        let entry = CacheEntry { value: value.to_owned(), expires_at };
        dm_insert(&mut self.entries, key.to_owned(), entry);
    }

    /// Removes `key`, whether its entry is alive or not.
    pub fn remove(&mut self, key: &str)
        ensures
            final(self)@ == old(self)@.remove(key@),
    {
        dm_remove(&mut self.entries, key);
    }

    /// Counts one click under `key`, in one step on the entry of that key. An
    /// entry that is there is read as a count and raised, dead or alive, and
    /// keeps its expiry; where there is none the count starts at one and
    /// expires `ttl_seconds` after `now`.
    pub fn count_click(&mut self, key: &str, ttl_seconds: u64, now: u128) -> (count: i64)
        ensures
            final(self)@ == old(self)@.insert(
                key@,
                clicked(old(self)@, key@, expiry(now, ttl_seconds)),
            ),
            count == (if old(self)@.contains_key(key@) {
                next_count(count_of(old(self)@[key@].0))
            } else {
                next_count(0)
            }),
    {
        let expires_at = expires_after(now, ttl_seconds);
        let entry = dm_count_click(&mut self.entries, key.to_owned(), expires_at);
        proof {
            if old(self)@.contains_key(key@) {
                lemma_parse_decimal_string(next_count(count_of(old(self)@[key@].0)) as int);
            } else {
                lemma_parse_decimal_string(next_count(0) as int);
            }
        }
        entry.count()
    }
}

} // verus!
