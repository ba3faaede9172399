use std::collections::HashMap;
use tinyurl_rs::services::cache_service::{
    CommandLog, NoPrimary, PrimaryReply, PrimaryStore, RedisCacheService,
};
use tinyurl_rs::services::fallback::{expires_after, CacheEntry, ExpiringMap};
use tinyurl_rs::traits::service::CacheService;

const SECOND: u128 = 1_000_000_000;

/// A remote store in memory that can be switched off and counts what reaches
/// it.
struct FakeRemote {
    data: HashMap<String, String>,
    up: bool,
    calls: Vec<String>,
}

impl FakeRemote {
    fn new(up: bool) -> Self {
        FakeRemote { data: HashMap::new(), up, calls: Vec::new() }
    }
}

impl PrimaryStore for FakeRemote {
    fn sent(&self) -> CommandLog {
        unreachable!()
    }

    fn get(&mut self, key: &str) -> PrimaryReply<Option<String>> {
        self.calls.push(format!("GET {}", key));
        if self.up {
            PrimaryReply::Answered(self.data.get(key).cloned())
        } else {
            PrimaryReply::Unavailable
        }
    }

    fn set_ex(&mut self, key: &str, value: &str, ttl_seconds: u64) -> PrimaryReply<()> {
        self.calls.push(format!("SETEX {} {} {}", key, ttl_seconds, value));
        if self.up {
            self.data.insert(key.to_string(), value.to_string());
            PrimaryReply::Answered(())
        } else {
            PrimaryReply::Unavailable
        }
    }

    fn del(&mut self, key: &str) -> PrimaryReply<()> {
        self.calls.push(format!("DEL {}", key));
        if self.up {
            self.data.remove(key);
            PrimaryReply::Answered(())
        } else {
            PrimaryReply::Unavailable
        }
    }

    fn incr(&mut self, key: &str, delta: i64) -> PrimaryReply<i64> {
        self.calls.push(format!("INCRBY {} {}", key, delta));
        if self.up {
            let next = self.data.get(key).and_then(|v| v.parse::<i64>().ok()).unwrap_or(0) + delta;
            self.data.insert(key.to_string(), next.to_string());
            PrimaryReply::Answered(next)
        } else {
            PrimaryReply::Unavailable
        }
    }
}

fn local() -> RedisCacheService<NoPrimary> {
    RedisCacheService::new(None).unwrap()
}

#[test]
fn expiry_adds_the_time_to_live() {
    assert_eq!(expires_after(0, 0), 0);
    assert_eq!(expires_after(5, 1), 5 + SECOND);
    assert_eq!(expires_after(7, 3600), 7 + 3600 * SECOND);
    assert_eq!(expires_after(0, u64::MAX), u64::MAX as u128 * SECOND);
    assert_eq!(expires_after(u128::MAX, 1), u128::MAX);
    assert_eq!(expires_after(u128::MAX - SECOND, 1), u128::MAX);
    assert_eq!(expires_after(u128::MAX - SECOND + 1, 1), u128::MAX);
}

#[test]
fn an_entry_is_alive_up_to_its_expiry() {
    let entry = CacheEntry { value: "v".to_string(), expires_at: 10 };
    assert!(entry.live_at(0));
    assert!(entry.live_at(10));
    assert!(!entry.live_at(11));
}

#[test]
fn an_entry_counts_clicks_in_its_value() {
    let mut entry = CacheEntry { value: "41".to_string(), expires_at: 10 };
    entry.count_click();
    assert_eq!(entry.value, "42");
    assert_eq!(entry.expires_at, 10);
    assert_eq!(entry.count(), 42);
    let mut garbage = CacheEntry { value: "many".to_string(), expires_at: 10 };
    assert_eq!(garbage.count(), 0);
    garbage.count_click();
    assert_eq!(garbage.value, "1");
    let mut negative = CacheEntry { value: "-3".to_string(), expires_at: 10 };
    negative.count_click();
    assert_eq!(negative.value, "-2");
    let mut full = CacheEntry { value: i64::MAX.to_string(), expires_at: 10 };
    full.count_click();
    assert_eq!(full.value, i64::MAX.to_string());
    let first = CacheEntry::first_click(99);
    assert_eq!(first.value, "1");
    assert_eq!(first.expires_at, 99);
}

#[test]
fn the_tier_finds_what_was_put_until_it_expires() {
    let mut tier = ExpiringMap::new();
    assert_eq!(tier.lookup("k", 0), None);
    tier.put("k", "v", 1, 100);
    assert_eq!(tier.lookup("k", 100), Some("v".to_string()));
    assert_eq!(tier.lookup("k", 100 + SECOND), Some("v".to_string()));
    assert_eq!(tier.lookup("other", 100), None);
    assert_eq!(tier.lookup("k", 101 + SECOND), None);
    // found dead, the entry was removed: an earlier clock does not bring it back
    assert_eq!(tier.lookup("k", 100), None);
}

#[test]
fn the_tier_replaces_and_removes() {
    let mut tier = ExpiringMap::new();
    tier.put("k", "old", 10, 0);
    tier.put("k", "new", 10, 0);
    assert_eq!(tier.lookup("k", 1), Some("new".to_string()));
    tier.remove("k");
    assert_eq!(tier.lookup("k", 1), None);
    tier.remove("never there");
}

#[test]
fn a_sweep_removes_what_is_dead_and_nothing_else() {
    let mut tier = ExpiringMap::new();
    tier.put("short", "a", 1, 0);
    tier.put("long", "b", 100, 0);
    tier.sweep(SECOND);
    assert_eq!(tier.lookup("short", 0), Some("a".to_string()));
    tier.sweep(SECOND + 1);
    assert_eq!(tier.lookup("short", 0), None);
    assert_eq!(tier.lookup("long", 0), Some("b".to_string()));
}

#[test]
fn the_tier_counts_clicks_under_a_key() {
    let mut tier = ExpiringMap::new();
    assert_eq!(tier.count_click("clicks:a", 10, 0), 1);
    assert_eq!(tier.count_click("clicks:a", 10, 5), 2);
    assert_eq!(tier.count_click("clicks:b", 10, 5), 1);
    assert_eq!(tier.lookup("clicks:a", 5), Some("2".to_string()));
    // the counter keeps the expiry of its first click
    assert_eq!(tier.lookup("clicks:a", 10 * SECOND), Some("2".to_string()));
    assert_eq!(tier.count_click("clicks:b", 10, 5 + 10 * SECOND + 1), 2);
    assert_eq!(tier.lookup("clicks:a", 10 * SECOND + 1), None);
    tier.put("clicks:c", "garbage", 10, 0);
    assert_eq!(tier.count_click("clicks:c", 10, 0), 1);
    tier.put("clicks:d", "7", 10, 0);
    assert_eq!(tier.count_click("clicks:d", 10, 0), 8);
}

#[test]
fn cache_serves_a_value_until_the_clock_passes_its_ttl() {
    let mut cache = local();
    cache.set_at("k", "v", 1, 0);
    assert_eq!(cache.get_with("k", PrimaryReply::Unavailable, 0), Some("v".to_string()));
    assert_eq!(cache.get_with("k", PrimaryReply::Unavailable, SECOND), Some("v".to_string()));
    assert_eq!(cache.get_with("k", PrimaryReply::Unavailable, SECOND + 1), None);
    assert_eq!(cache.get_with("k", PrimaryReply::Unavailable, 0), None);
}

#[test]
fn cache_on_the_real_clock_serves_what_was_just_set() {
    let mut cache = local();
    assert_eq!(cache.get("k").unwrap(), None);
    cache.set("k", "v", 3600).unwrap();
    assert_eq!(cache.get("k").unwrap(), Some("v".to_string()));
    cache.set("k", "w", 3600).unwrap();
    assert_eq!(cache.get("k").unwrap(), Some("w".to_string()));
    cache.delete("k").unwrap();
    assert_eq!(cache.get("k").unwrap(), None);
    cache.delete("k").unwrap();
}

#[test]
fn cache_clock_does_not_run_backwards() {
    let cache = local();
    let a = cache.now();
    let b = cache.now();
    assert!(a <= b);
}

#[test]
fn a_value_from_the_remote_store_is_the_answer() {
    let mut cache = local();
    cache.set_at("k", "local", 10, 0);
    let hit = PrimaryReply::Answered(Some("remote".to_string()));
    assert_eq!(cache.get_with("k", hit, 0), Some("remote".to_string()));
    // the in-process tier was not swept on the way
    cache.set_at("dead", "x", 0, 0);
    let hit = PrimaryReply::Answered(Some("remote".to_string()));
    assert_eq!(cache.get_with("k", hit, 5 * SECOND), Some("remote".to_string()));
    assert_eq!(cache.fallback_cache.lookup("dead", 0), Some("x".to_string()));
}

#[test]
fn a_miss_of_the_remote_store_falls_back() {
    let mut cache = local();
    cache.set_at("k", "local", 10, 0);
    assert_eq!(cache.get_with("k", PrimaryReply::Answered(None), 0), Some("local".to_string()));
    assert_eq!(cache.get_with("other", PrimaryReply::Answered(None), 0), None);
    cache.set_at("dead", "x", 0, 0);
    assert_eq!(cache.get_with("k", PrimaryReply::Answered(None), 1), Some("local".to_string()));
    // the lookup swept the tier
    assert_eq!(cache.fallback_cache.lookup("dead", 0), None);
}

#[test]
fn clicks_are_counted_by_the_remote_store_or_the_tier() {
    let mut cache = local();
    assert_eq!(cache.increment_with("abc", PrimaryReply::Answered(41), 0), 41);
    assert_eq!(cache.fallback_cache.lookup("clicks:abc", 0), None);
    assert_eq!(cache.increment_with("abc", PrimaryReply::Unavailable, 0), 1);
    assert_eq!(cache.increment_with("abc", PrimaryReply::Unavailable, 0), 2);
    assert_eq!(cache.fallback_cache.lookup("clicks:abc", 0), Some("2".to_string()));
    // a counter that starts in the tier lives for the default hour
    assert_eq!(cache.fallback_cache.lookup("clicks:abc", 3600 * SECOND), Some("2".to_string()));
    assert_eq!(cache.fallback_cache.lookup("clicks:abc", 3600 * SECOND + 1), None);
}

#[test]
fn increment_clicks_counts_up_from_one() {
    let mut cache = local();
    assert_eq!(cache.increment_clicks("abc").unwrap(), 1);
    assert_eq!(cache.increment_clicks("abc").unwrap(), 2);
    assert_eq!(cache.increment_clicks("xyz").unwrap(), 1);
    assert_eq!(cache.get("clicks:abc").unwrap(), Some("2".to_string()));
    cache.set("clicks:abc", "seven", 60).unwrap();
    assert_eq!(cache.increment_clicks("abc").unwrap(), 1);
}

#[test]
fn a_new_cache_is_empty_and_keeps_its_remote_store() {
    let cache = RedisCacheService::new(Some(FakeRemote::new(true))).unwrap();
    assert_eq!(cache.default_ttl, 3600);
    assert!(cache.primary.is_some());
    let mut cache = cache;
    assert_eq!(cache.fallback_cache.lookup("anything", 0), None);
    assert!(local().primary.is_none());
}

#[test]
fn writes_reach_both_tiers() {
    let mut cache = RedisCacheService::new(Some(FakeRemote::new(true))).unwrap();
    cache.set("k", "v", 60).unwrap();
    assert_eq!(cache.primary.as_ref().unwrap().data.get("k"), Some(&"v".to_string()));
    assert_eq!(cache.fallback_cache.lookup("k", 0), Some("v".to_string()));
    assert_eq!(cache.primary.as_ref().unwrap().calls, vec!["SETEX k 60 v".to_string()]);
    cache.delete("k").unwrap();
    assert_eq!(cache.primary.as_ref().unwrap().data.get("k"), None);
    assert_eq!(cache.fallback_cache.lookup("k", 0), None);
}

#[test]
fn a_remote_store_that_is_down_is_never_an_error() {
    let mut cache = RedisCacheService::new(Some(FakeRemote::new(false))).unwrap();
    cache.set("k", "v", 60).unwrap();
    assert_eq!(cache.get("k").unwrap(), Some("v".to_string()));
    assert_eq!(cache.increment_clicks("abc").unwrap(), 1);
    assert_eq!(cache.increment_clicks("abc").unwrap(), 2);
    cache.delete("k").unwrap();
    assert_eq!(cache.get("k").unwrap(), None);
    assert_eq!(
        cache.primary.as_ref().unwrap().calls,
        vec![
            "SETEX k 60 v".to_string(),
            "GET k".to_string(),
            "INCRBY clicks:abc 1".to_string(),
            "INCRBY clicks:abc 1".to_string(),
            "DEL k".to_string(),
            "GET k".to_string(),
        ]
    );
}

#[test]
fn a_remote_store_that_is_up_answers_first() {
    let mut cache = RedisCacheService::new(Some(FakeRemote::new(true))).unwrap();
    cache.primary.as_mut().unwrap().data.insert("k".to_string(), "remote".to_string());
    cache.set_at("k", "local", 60, 0);
    assert_eq!(cache.get("k").unwrap(), Some("remote".to_string()));
    assert_eq!(cache.increment_clicks("abc").unwrap(), 1);
    assert_eq!(cache.increment_clicks("abc").unwrap(), 2);
    // the remote store counted: the tier holds no counter
    assert_eq!(cache.fallback_cache.lookup("clicks:abc", 0), None);
    cache.primary.as_mut().unwrap().data.remove("k");
    assert_eq!(cache.get("k").unwrap(), Some("local".to_string()));
}

#[test]
fn no_primary_is_never_there() {
    let mut none = NoPrimary::new();
    assert!(matches!(none.get("k"), PrimaryReply::Unavailable));
    assert!(matches!(none.set_ex("k", "v", 1), PrimaryReply::Unavailable));
    assert!(matches!(none.del("k"), PrimaryReply::Unavailable));
    assert!(matches!(none.incr("k", 1), PrimaryReply::Unavailable));
}
