//! The two-tier cache: a remote key-value store asked first, and the
//! in-process tier that mirrors every write and answers when the remote
//! store does not.

use vstd::prelude::*;
use vstd::string::*;
use std::time::Instant;
use crate::models::error::AppError;
use crate::services::codes::{clicks_key, counter_key};
use crate::services::fallback::{clicked, count_of, expiry, live_part, live_value, next_count,
    ExpiringMap, Stored};
use crate::text::chars::optional_text;
use crate::text::decimal::lemma_parse_decimal_string;
use crate::traits::service::{CacheService, WriteLog};

verus! {

/// `std::time::Instant`, a reading of the monotonic clock, carried as it is.
#[verifier::external_type_specification]
#[verifier::external_body]
pub struct ExInstant(Instant);

/// `Instant::now` of the standard library reads the monotonic clock. Nothing
/// is claimed of the instant.
pub assume_specification[ Instant::now ]() -> Instant;

/// `Instant::elapsed` of the standard library gives the time that has passed
/// since the instant. Nothing is claimed of it.
pub assume_specification[ Instant::elapsed ](instant: &Instant) -> std::time::Duration;

/// `Duration::as_nanos` of the standard library gives the duration in whole
/// nanoseconds.
pub assume_specification[ std::time::Duration::as_nanos ](duration: &std::time::Duration) -> u128;

/// What the remote store said to one command.
pub enum PrimaryReply<T> {
    /// The command was carried out, with this result.
    Answered(T),
    /// The store could not be reached or the command failed.
    Unavailable,
}

/// A command to the remote store.
pub enum Command {
    /// Read the value under a key.
    Get { key: Seq<char> },
    /// Write a value under a key, to expire after so many seconds.
    SetEx { key: Seq<char>, value: Seq<char>, ttl_seconds: u64 },
    /// Remove a key.
    Del { key: Seq<char> },
    /// Add to the number under a key.
    IncrBy { key: Seq<char>, delta: i64 },
}

/// What the remote store said to a command, as plain values.
pub enum Reply {
    /// The value under the key, if there is one.
    Value(Option<Seq<char>>),
    /// The command was carried out.
    Done,
    /// The number that now stands under the key.
    Sum(i64),
    /// The store could not be reached or the command failed.
    Unavailable,
}

/// A command that went out to the remote store, and what the store said.
pub struct Exchange {
    pub command: Command,
    pub reply: Reply,
}

/// What a remote store was sent and what it said, in order.
pub type CommandLog = Seq<Exchange>;

/// What the remote store said to a lookup.
pub open spec fn said_value(reply: PrimaryReply<Option<String>>) -> Reply {
    match reply {
        PrimaryReply::Answered(value) => Reply::Value(optional_text(value)),
        PrimaryReply::Unavailable => Reply::Unavailable,
    }
}

/// What the remote store said to a write or a removal.
pub open spec fn said_done(reply: PrimaryReply<()>) -> Reply {
    match reply {
        PrimaryReply::Answered(_) => Reply::Done,
        PrimaryReply::Unavailable => Reply::Unavailable,
    }
}

/// What the remote store said to an increment.
pub open spec fn said_sum(reply: PrimaryReply<i64>) -> Reply {
    match reply {
        PrimaryReply::Answered(sum) => Reply::Sum(sum),
        PrimaryReply::Unavailable => Reply::Unavailable,
    }
}

/// The remote key-value store that the cache asks first. Nothing is
/// assumed of what it answers; `sent` keeps the record of what it was asked
/// and what it said.
///
/// `sent` exists for contracts alone and is never run: an implementation in
/// ordinary Rust gives it a body that panics.
pub trait PrimaryStore {
    /// What this store was sent and what it said, in order.
    spec fn sent(&self) -> CommandLog;

    /// The value under `key`, if the store holds one.
    fn get(&mut self, key: &str) -> (reply: PrimaryReply<Option<String>>)
        ensures
            final(self).sent() == old(self).sent().push(
                Exchange { command: Command::Get { key: key@ }, reply: said_value(reply) },
            ),
    ;

    /// Writes `value` under `key`, to expire after `ttl_seconds`.
    fn set_ex(&mut self, key: &str, value: &str, ttl_seconds: u64) -> (reply: PrimaryReply<()>)
        ensures
            final(self).sent() == old(self).sent().push(
                Exchange {
                    command: Command::SetEx { key: key@, value: value@, ttl_seconds },
                    reply: said_done(reply),
                },
            ),
    ;

    /// Removes `key`.
    fn del(&mut self, key: &str) -> (reply: PrimaryReply<()>)
        ensures
            final(self).sent() == old(self).sent().push(
                Exchange { command: Command::Del { key: key@ }, reply: said_done(reply) },
            ),
    ;

    /// Adds `delta` to the number under `key` in one step and returns the sum.
    fn incr(&mut self, key: &str, delta: i64) -> (reply: PrimaryReply<i64>)
        ensures
            final(self).sent() == old(self).sent().push(
                Exchange { command: Command::IncrBy { key: key@, delta }, reply: said_sum(reply) },
            ),
    ;
}

/// A remote store that is never there: a cache built on it works from the
/// in-process tier alone.
pub struct NoPrimary {
    sent: Ghost<CommandLog>,
}

impl NoPrimary {
    /// A remote store that is never there and has been asked nothing.
    pub fn new() -> (store: Self)
        ensures
            store.sent() == CommandLog::empty(),
    {
        NoPrimary { sent: Ghost(Seq::empty()) }
    }
}

impl PrimaryStore for NoPrimary {
    closed spec fn sent(&self) -> CommandLog {
        self.sent@
    }

    fn get(&mut self, key: &str) -> (reply: PrimaryReply<Option<String>>)
        ensures
            reply is Unavailable,
    {
        proof {
            self.sent@ = self.sent@.push(
                Exchange { command: Command::Get { key: key@ }, reply: Reply::Unavailable },
            );
        }
        PrimaryReply::Unavailable
    }

    fn set_ex(&mut self, key: &str, value: &str, ttl_seconds: u64) -> (reply: PrimaryReply<()>)
        ensures
            reply is Unavailable,
    {
        proof {
            self.sent@ = self.sent@.push(
                Exchange {
                    command: Command::SetEx { key: key@, value: value@, ttl_seconds },
                    reply: Reply::Unavailable,
                },
            );
        }
        PrimaryReply::Unavailable
    }

    fn del(&mut self, key: &str) -> (reply: PrimaryReply<()>)
        ensures
            reply is Unavailable,
    {
        proof {
            self.sent@ = self.sent@.push(
                Exchange { command: Command::Del { key: key@ }, reply: Reply::Unavailable },
            );
        }
        PrimaryReply::Unavailable
    }

    fn incr(&mut self, key: &str, delta: i64) -> (reply: PrimaryReply<i64>)
        ensures
            reply is Unavailable,
    {
        proof {
            self.sent@ = self.sent@.push(
                Exchange {
                    command: Command::IncrBy { key: key@, delta },
                    reply: Reply::Unavailable,
                },
            );
        }
        PrimaryReply::Unavailable
    }
}

/// The values of what the in-process tier holds, without their expiry.
pub open spec fn values_of(stored: Stored) -> Map<Seq<char>, Seq<char>> {
    stored.map_values(|entry: (Seq<char>, u128)| entry.0)
}

/// What a lookup of `key` at `now` answers and what it leaves in the
/// in-process tier, given what the remote store said: a value from the
/// remote store is the answer and the tier stays as it is; otherwise the tier
/// is swept and answers.
pub open spec fn looked_up(stored: Stored, key: Seq<char>, reply: Reply, now: u128) -> (
    Option<Seq<char>>,
    Stored,
) {
    match reply {
        Reply::Value(Some(value)) => (Some(value), stored),
        _ => (live_value(stored, key, now), live_part(stored, now)),
    }
}

/// The count a click on the counter under `key` at `now` gives and what it
/// leaves in the in-process tier, given what the remote store said: a sum
/// from the remote store is the count and the tier stays as it is; otherwise
/// the counter in the tier is raised, starting at one with a time to live of
/// `ttl_seconds` where there is none.
pub open spec fn click_counted(
    stored: Stored,
    key: Seq<char>,
    reply: Reply,
    ttl_seconds: u64,
    now: u128,
) -> (i64, Stored) {
    match reply {
        Reply::Sum(sum) => (sum, stored),
        _ => (
            if stored.contains_key(key) {
                next_count(count_of(stored[key].0))
            } else {
                next_count(0)
            },
            stored.insert(key, clicked(stored, key, expiry(now, ttl_seconds))),
        ),
    }
}

/// Whether `command`, and nothing else, went out to the remote store and
/// `reply` is what it said. Where there is no remote store nothing goes out,
/// and that counts as a store that is unavailable.
pub open spec fn heard<P: PrimaryStore>(
    before: Option<P>,
    after: Option<P>,
    command: Command,
    reply: Reply,
) -> bool {
    match before {
        Some(store) => after matches Some(then) && then.sent() == store.sent().push(
            Exchange { command, reply },
        ),
        None => after is None && reply is Unavailable,
    }
}

/// The two-tier cache. `primary` is the remote store, if one is configured;
/// `fallback_cache` is the in-process tier.
pub struct RedisCacheService<P: PrimaryStore> {
    pub primary: Option<P>,
    pub fallback_cache: ExpiringMap,
    pub default_ttl: u64,
    pub started: Instant,
    pub written: Ghost<WriteLog>,
}

/// The time to live, in seconds, of a click counter that starts in the
/// in-process tier.
pub const DEFAULT_TTL_SECONDS: u64 = 3600;

impl<P: PrimaryStore> RedisCacheService<P> {
    /// A cache over `primary`, or over the in-process tier alone where there
    /// is none. The in-process tier starts empty.
    pub fn new(primary: Option<P>) -> (r: Result<Self, AppError>)
        ensures
            r matches Ok(cache) && cache.fallback_cache@ == Stored::empty() && cache.default_ttl
                == DEFAULT_TTL_SECONDS && cache.primary == primary && cache.written@
                == WriteLog::empty(),
    {
        Ok(
            RedisCacheService {
                primary,
                fallback_cache: ExpiringMap::new(),
                default_ttl: DEFAULT_TTL_SECONDS,
                started: Instant::now(),
                written: Ghost(Seq::empty()),
            },
        )
    }

    /// The reading of this cache's clock: nanoseconds since it was made.
    pub fn now(&self) -> u128 {
        self.started.elapsed().as_nanos()
    }

    /// Removes from the in-process tier what is dead at `now`.
    pub fn cleanup_expired(&mut self, now: u128)
        ensures
            final(self).fallback_cache@ == live_part(old(self).fallback_cache@, now),
            final(self).primary == old(self).primary,
            final(self).default_ttl == old(self).default_ttl,
            final(self).written == old(self).written,
    {
        self.fallback_cache.sweep(now);
    }

    /// Settles a lookup of `key` at `now`, given what the remote store said.
    /// A value from the remote store is the answer. Where it had none or was
    /// unavailable, the in-process tier is swept and then answers.
    pub fn get_with(&mut self, key: &str, reply: PrimaryReply<Option<String>>, now: u128) -> (value:
        Option<String>)
        ensures
            final(self).primary == old(self).primary,
            final(self).default_ttl == old(self).default_ttl,
            final(self).written == old(self).written,
            (optional_text(value), final(self).fallback_cache@) == looked_up(
                old(self).fallback_cache@,
                key@,
                said_value(reply),
                now,
            ),
    {
        if let PrimaryReply::Answered(Some(v)) = reply {
            return Some(v);
        }
        self.cleanup_expired(now);
        let value = self.fallback_cache.lookup(key, now);
        assert(live_value(live_part(old(self).fallback_cache@, now), key@, now) == live_value(
            old(self).fallback_cache@,
            key@,
            now,
        ));
        value
    }

    /// Writes `value` under `key` into the in-process tier at `now`, to
    /// expire `ttl_seconds` later.
    pub fn set_at(&mut self, key: &str, value: &str, ttl_seconds: u64, now: u128)
        ensures
            final(self).primary == old(self).primary,
            final(self).default_ttl == old(self).default_ttl,
            final(self).written == old(self).written,
            final(self).fallback_cache@ == old(self).fallback_cache@.insert(
                key@,
                (value@, expiry(now, ttl_seconds)),
            ),
    {
        self.fallback_cache.put(key, value, ttl_seconds, now);
    }

    /// Settles a click on `short_code` at `now`, given what the remote store
    /// said to the increment of its counter. A sum from the remote store is
    /// the count. Where it was unavailable the counter in the in-process tier
    /// is raised, starting at one with the default time to live where there
    /// is none.
    pub fn increment_with(
        &mut self,
        short_code: &str,
        reply: PrimaryReply<i64>,
        now: u128,
    ) -> (count: i64)
        ensures
            final(self).primary == old(self).primary,
            final(self).default_ttl == old(self).default_ttl,
            final(self).written == old(self).written,
            (count, final(self).fallback_cache@) == click_counted(
                old(self).fallback_cache@,
                counter_key(short_code@),
                said_sum(reply),
                old(self).default_ttl,
                now,
            ),
    {
        match reply {
            PrimaryReply::Answered(n) => n,
            PrimaryReply::Unavailable => {
                let key = clicks_key(short_code);
                self.fallback_cache.count_click(key.as_str(), self.default_ttl, now)
            },
        }
    }
}

impl<P: PrimaryStore> CacheService for RedisCacheService<P> {
    open spec fn entries(&self) -> Map<Seq<char>, Seq<char>> {
        values_of(self.fallback_cache@)
    }

    open spec fn authoritative(&self) -> bool {
        self.primary is None
    }

    open spec fn writes(&self) -> WriteLog {
        self.written@
    }

    open spec fn reliable(&self) -> bool {
        true
    }

    /// Asks the remote store, then settles the lookup with `get_with` on
    /// this cache's clock. Never fails: a failure of the remote store only
    /// makes the in-process tier answer, and where there is no remote store
    /// the tier always does.
    fn get(&mut self, key: &str) -> (r: Result<Option<String>, AppError>)
        ensures
            final(self).default_ttl == old(self).default_ttl,
            r matches Ok(value) && exists|reply: Reply, now: u128|
                heard(old(self).primary, final(self).primary, Command::Get { key: key@ }, reply)
                    && (optional_text(value), final(self).fallback_cache@) == #[trigger] looked_up(
                    old(self).fallback_cache@,
                    key@,
                    reply,
                    now,
                ),
    {
        let reply = match &mut self.primary {
            Some(primary) => primary.get(key),
            None => PrimaryReply::Unavailable,
        };
        let now = self.now();
        let ghost before = self.fallback_cache@;
        let value = self.get_with(key, reply, now);
        proof {
            assert(values_of(live_part(before, now)).submap_of(values_of(before)));
            assert((optional_text(value), self.fallback_cache@) == looked_up(
                before,
                key@,
                said_value(reply),
                now,
            ));
        }
        Ok(value)
    }

    /// Writes to the remote store, whatever comes of it, and to the
    /// in-process tier, where the value expires `ttl_seconds` after the
    /// reading of this cache's clock. Never fails.
    fn set(&mut self, key: &str, value: &str, ttl_seconds: u64) -> (r: Result<(), AppError>)
        ensures
            r is Ok,
            final(self).default_ttl == old(self).default_ttl,
            exists|reply: Reply| #[trigger]
                heard(
                    old(self).primary,
                    final(self).primary,
                    Command::SetEx { key: key@, value: value@, ttl_seconds },
                    reply,
                ),
            exists|now: u128|
                final(self).fallback_cache@ == old(self).fallback_cache@.insert(
                    key@,
                    (value@, #[trigger] expiry(now, ttl_seconds)),
                ),
    {
        let reply = match &mut self.primary {
            Some(primary) => primary.set_ex(key, value, ttl_seconds),
            None => PrimaryReply::Unavailable,
        };
        let now = self.now();
        let ghost before = self.fallback_cache@;
        self.set_at(key, value, ttl_seconds, now);
        proof {
            self.written@ = self.written@.push((key@, value@, ttl_seconds));
        }
        proof {
            assert(values_of(before.insert(key@, (value@, expiry(now, ttl_seconds)))) =~= values_of(
                before,
            ).insert(key@, value@));
            assert(heard(
                old(self).primary,
                self.primary,
                Command::SetEx { key: key@, value: value@, ttl_seconds },
                said_done(reply),
            ));
        }
        Ok(())
    }

    /// Removes the key from the remote store, whatever comes of it, and from
    /// the in-process tier. Never fails.
    fn delete(&mut self, key: &str) -> (r: Result<(), AppError>)
        ensures
            r is Ok,
            final(self).default_ttl == old(self).default_ttl,
            exists|reply: Reply| #[trigger]
                heard(old(self).primary, final(self).primary, Command::Del { key: key@ }, reply),
            final(self).fallback_cache@ == old(self).fallback_cache@.remove(key@),
    {
        let reply = match &mut self.primary {
            Some(primary) => primary.del(key),
            None => PrimaryReply::Unavailable,
        };
        let ghost before = self.fallback_cache@;
        self.fallback_cache.remove(key);
        proof {
            assert(values_of(before.remove(key@)) =~= values_of(before).remove(key@));
            assert(heard(
                old(self).primary,
                self.primary,
                Command::Del { key: key@ },
                said_done(reply),
            ));
        }
        Ok(())
    }

    /// Asks the remote store to raise the counter by one, then settles the
    /// click with `increment_with` on this cache's clock. Never fails: where
    /// the remote store is unavailable, or there is none, the in-process tier
    /// counts.
    fn increment_clicks(&mut self, short_code: &str) -> (r: Result<i64, AppError>)
        ensures
            final(self).default_ttl == old(self).default_ttl,
            r matches Ok(count) && exists|reply: Reply, now: u128|
                heard(
                    old(self).primary,
                    final(self).primary,
                    Command::IncrBy { key: counter_key(short_code@), delta: 1 },
                    reply,
                ) && (count, final(self).fallback_cache@) == #[trigger] click_counted(
                    old(self).fallback_cache@,
                    counter_key(short_code@),
                    reply,
                    old(self).default_ttl,
                    now,
                ),
    {
        let key = clicks_key(short_code);
        let reply = match &mut self.primary {
            Some(primary) => primary.incr(key.as_str(), 1),
            None => PrimaryReply::Unavailable,
        };
        let now = self.now();
        let ghost before = self.fallback_cache@;
        let count = self.increment_with(short_code, reply, now);
        proof {
            let ck = counter_key(short_code@);
            assert((count, self.fallback_cache@) == click_counted(
                before,
                ck,
                said_sum(reply),
                old(self).default_ttl,
                now,
            ));
            if reply is Unavailable {
                let entry = clicked(before, ck, expiry(now, self.default_ttl));
                let values = values_of(before);
                assert(values_of(before.insert(ck, entry)) =~= values.insert(ck, entry.0));
                assert(values.insert(ck, entry.0).remove(ck) =~= values.remove(ck));
            }
        }
        Ok(count)
    }
}

/// A value that was written is served until the clock passes its time to
/// live: where the remote store has no value to offer, a lookup no later than
/// the expiry of the value answers with it.
pub proof fn law_fresh_value_is_served(
    stored: Stored,
    key: Seq<char>,
    value: Seq<char>,
    ttl_seconds: u64,
    written_at: u128,
    reply: Reply,
    now: u128,
)
    requires
        !(reply matches Reply::Value(Some(_))),
        now <= expiry(written_at, ttl_seconds),
    ensures
        looked_up(stored.insert(key, (value, expiry(written_at, ttl_seconds))), key, reply, now).0
            == Some(value),
{
}

/// A value that was written is gone once the clock has passed its time to
/// live: where the remote store has no value to offer, a lookup after the
/// expiry of the value answers with nothing and leaves no entry behind.
pub proof fn law_expired_value_is_gone(
    stored: Stored,
    key: Seq<char>,
    value: Seq<char>,
    ttl_seconds: u64,
    written_at: u128,
    reply: Reply,
    now: u128,
)
    requires
        !(reply matches Reply::Value(Some(_))),
        now > expiry(written_at, ttl_seconds),
    ensures
        looked_up(stored.insert(key, (value, expiry(written_at, ttl_seconds))), key, reply, now).0
            is None,
        !looked_up(
            stored.insert(key, (value, expiry(written_at, ttl_seconds))),
            key,
            reply,
            now,
        ).1.contains_key(key),
{
}

/// A counter in the in-process tier never falls: a click there gives a count
/// no lower than the one that stood before, and the counter then reads as
/// that count.
pub proof fn law_counter_never_falls(stored: Stored, key: Seq<char>, ttl_seconds: u64, now: u128)
    ensures
        stored.contains_key(key) ==> count_of(stored[key].0) <= click_counted(
            stored,
            key,
            Reply::Unavailable,
            ttl_seconds,
            now,
        ).0,
        click_counted(stored, key, Reply::Unavailable, ttl_seconds, now).0 == count_of(
            click_counted(stored, key, Reply::Unavailable, ttl_seconds, now).1[key].0,
        ),
{
    let counted = click_counted(stored, key, Reply::Unavailable, ttl_seconds, now);
    lemma_parse_decimal_string(counted.0 as int);
}

} // verus!
