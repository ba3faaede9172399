use std::cell::Cell;
use tinyurl_rs::models::dto::{ClickFollowUp, CreateUrlRequest};
use tinyurl_rs::models::error::AppError;
use tinyurl_rs::models::url::{Timestamp, TinyUrl};
use tinyurl_rs::repository::InMemoryUrlRepository;
use tinyurl_rs::services::cache_service::{NoPrimary, RedisCacheService};
use tinyurl_rs::services::short_code_generator::DefaultShortCodeGenerator;
use tinyurl_rs::services::url_service::{preferred_clicks, DefaultUrlService};
use tinyurl_rs::traits::repository::{Records, UrlRepository};
use tinyurl_rs::traits::service::{
    CacheService, Entries, ShortCodeGenerator, UrlService, WriteLog,
};

/// The store in memory, which can be made to fail and counts how often a
/// record is read by its code.
struct MemRepository {
    inner: InMemoryUrlRepository,
    failing: bool,
    reads: Cell<u32>,
}

impl MemRepository {
    fn new() -> Self {
        MemRepository { inner: InMemoryUrlRepository::new(), failing: false, reads: Cell::new(0) }
    }

    fn down(&self) -> Result<(), AppError> {
        if self.failing {
            Err(AppError::Database("connection refused".to_string()))
        } else {
            Ok(())
        }
    }

    fn count(&self) -> usize {
        self.inner.len()
    }

    fn row(&self, short_code: &str) -> TinyUrl {
        self.inner.find_by_short_code(short_code).unwrap().unwrap()
    }
}

impl UrlRepository for MemRepository {
    fn records(&self) -> Records {
        unreachable!()
    }

    fn reliable(&self) -> bool {
        unreachable!()
    }

    fn create(&mut self, url: &TinyUrl) -> Result<TinyUrl, AppError> {
        self.down()?;
        self.inner.create(url)
    }

    fn find_by_short_code(&self, short_code: &str) -> Result<Option<TinyUrl>, AppError> {
        self.down()?;
        self.reads.set(self.reads.get() + 1);
        self.inner.find_by_short_code(short_code)
    }

    fn find_by_long_url(&self, long_url: &str) -> Result<Option<TinyUrl>, AppError> {
        self.down()?;
        self.inner.find_by_long_url(long_url)
    }

    fn update(&mut self, url: &TinyUrl) -> Result<TinyUrl, AppError> {
        self.down()?;
        self.inner.update(url)
    }

    fn delete_by_short_code(&mut self, short_code: &str) -> Result<bool, AppError> {
        self.down()?;
        self.inner.delete_by_short_code(short_code)
    }

    fn get_stats(&self, short_code: &str) -> Result<Option<TinyUrl>, AppError> {
        self.down()?;
        self.reads.set(self.reads.get() + 1);
        self.inner.get_stats(short_code)
    }

    fn code_exists(&self, short_code: &str) -> Result<bool, AppError> {
        self.down()?;
        self.inner.code_exists(short_code)
    }
}

/// A generator that hands out the same code every time and counts how often
/// it is asked.
struct StuckGenerator {
    code: String,
    asked: Cell<u32>,
}

impl ShortCodeGenerator for StuckGenerator {
    fn generate(&self, _url: &str, _length: usize) -> String {
        self.asked.set(self.asked.get() + 1);
        self.code.clone()
    }

    fn generate_custom(&self, custom_code: &str) -> Result<String, AppError> {
        DefaultShortCodeGenerator::new().generate_custom(custom_code)
    }
}

/// A generator that hands out the codes it was given, one after the other.
struct ListGenerator {
    codes: Vec<String>,
    asked: Cell<usize>,
}

impl ShortCodeGenerator for ListGenerator {
    fn generate(&self, _url: &str, _length: usize) -> String {
        let i = self.asked.get();
        self.asked.set(i + 1);
        self.codes[i].clone()
    }

    fn generate_custom(&self, custom_code: &str) -> Result<String, AppError> {
        DefaultShortCodeGenerator::new().generate_custom(custom_code)
    }
}

/// A cache that fails every call.
struct BrokenCache;

impl CacheService for BrokenCache {
    fn entries(&self) -> Entries {
        unreachable!()
    }

    fn authoritative(&self) -> bool {
        unreachable!()
    }

    fn writes(&self) -> WriteLog {
        unreachable!()
    }

    fn reliable(&self) -> bool {
        unreachable!()
    }

    fn get(&mut self, _key: &str) -> Result<Option<String>, AppError> {
        Err(AppError::Redis("down".to_string()))
    }

    fn set(&mut self, _key: &str, _value: &str, _ttl_seconds: u64) -> Result<(), AppError> {
        Err(AppError::Redis("down".to_string()))
    }

    fn delete(&mut self, _key: &str) -> Result<(), AppError> {
        Err(AppError::Redis("down".to_string()))
    }

    fn increment_clicks(&mut self, _short_code: &str) -> Result<i64, AppError> {
        Err(AppError::Redis("down".to_string()))
    }
}

type Local = RedisCacheService<NoPrimary>;

fn service_with<G: ShortCodeGenerator>(generator: G) -> DefaultUrlService<MemRepository, Local, G> {
    DefaultUrlService::new(
        MemRepository::new(),
        RedisCacheService::new(None).unwrap(),
        generator,
        "http://sho.rt/".to_string(),
        8,
        3600,
    )
}

fn service() -> DefaultUrlService<MemRepository, Local, DefaultShortCodeGenerator> {
    service_with(DefaultShortCodeGenerator::new())
}

fn request(url: &str, custom_code: Option<&str>) -> CreateUrlRequest {
    CreateUrlRequest { url: url.to_string(), custom_code: custom_code.map(|c| c.to_string()) }
}

const URL: &str = "https://www.example.com/very/long/url";

#[test]
fn new_keeps_what_it_is_given() {
    let svc = service();
    assert_eq!(svc.base_url, "http://sho.rt/");
    assert_eq!(svc.default_short_code_length, 8);
    assert_eq!(svc.cache_ttl, 3600);
    assert_eq!(svc.repository.count(), 0);
}

#[test]
fn short_urls_are_built_on_the_base_url() {
    let svc = service();
    assert_eq!(svc.build_short_url("abc"), "http://sho.rt/abc");
    let bare = DefaultUrlService::new(
        MemRepository::new(),
        BrokenCache,
        DefaultShortCodeGenerator::new(),
        "https://tiny.url".to_string(),
        8,
        60,
    );
    assert_eq!(bare.build_short_url("x-1"), "https://tiny.url/x-1");
}

#[test]
fn a_shortened_url_resolves_to_itself() {
    let mut svc = service();
    let response = svc.create_short_url(request(URL, None)).unwrap();
    assert_eq!(response.long_url, URL);
    assert_eq!(response.short_code.len(), 8);
    assert_eq!(response.short_url, format!("http://sho.rt/{}", response.short_code));
    assert_eq!(response.qr_code, None);
    let resolution = svc.get_original_url(&response.short_code).unwrap();
    assert_eq!(resolution.long_url, URL);
}

#[test]
fn a_shortened_url_resolves_from_the_store_when_the_cache_is_cold() {
    let mut svc = service();
    let response = svc.create_short_url(request(URL, Some("cold"))).unwrap();
    svc.cache.delete("cold").unwrap();
    let resolution = svc.get_original_url(&response.short_code).unwrap();
    assert_eq!(resolution.long_url, URL);
    assert!(matches!(resolution.follow_up, ClickFollowUp::Persist { .. }));
    // the miss filled the cache again
    assert_eq!(svc.cache.get("cold").unwrap(), Some(URL.to_string()));
}

#[test]
fn shortening_writes_record_and_cache() {
    let mut svc = service();
    let response = svc.create_short_url(request(URL, Some("mine"))).unwrap();
    assert_eq!(response.short_code, "mine");
    assert_eq!(svc.repository.count(), 1);
    let row = svc.repository.row("mine");
    assert_eq!(row.short_code, "mine");
    assert_eq!(row.long_url, URL);
    assert_eq!(row.clicks, 0);
    assert_eq!(row.id, 1);
    assert_eq!(svc.cache.get("mine").unwrap(), Some(URL.to_string()));
}

#[test]
fn shortening_twice_gives_the_same_code_and_one_record() {
    let mut svc = service();
    let first = svc.create_short_url(request(URL, None)).unwrap();
    let second = svc.create_short_url(request(URL, None)).unwrap();
    assert_eq!(first.short_code, second.short_code);
    assert_eq!(first.short_url, second.short_url);
    assert_eq!(second.long_url, URL);
    assert_eq!(svc.repository.count(), 1);
}

#[test]
fn the_record_created_last_is_the_one_reused() {
    let mut svc = service();
    let mut old = TinyUrl::new("old".to_string(), URL.to_string());
    old.qr_code = Some("qr-old".to_string());
    svc.repository.create(&old).unwrap();
    let mut new = TinyUrl::new("new".to_string(), URL.to_string());
    new.qr_code = Some("qr-new".to_string());
    svc.repository.create(&new).unwrap();
    let response = svc.create_short_url(request(URL, Some("another"))).unwrap();
    assert_eq!(response.short_code, "new");
    assert_eq!(response.qr_code, Some("qr-new".to_string()));
    assert_eq!(svc.repository.count(), 2);
    // nothing was cached for a record that was reused
    assert_eq!(svc.cache.get("new").unwrap(), None);
}

#[test]
fn unsound_custom_codes_are_rejected_by_the_service() {
    let mut svc = service();
    for bad in ["", "abcdefghijklmnopqrstu", "abc!"] {
        assert!(matches!(
            svc.create_short_url(request(URL, Some(bad))),
            Err(AppError::Validation(_))
        ));
    }
    assert_eq!(svc.repository.count(), 0);
    let ok = svc.create_short_url(request(URL, Some("abc-123"))).unwrap();
    assert_eq!(ok.short_code, "abc-123");
}

#[test]
fn a_url_that_does_not_parse_is_rejected_by_the_service() {
    let mut svc = service();
    match svc.create_short_url(request("not a url", None)) {
        Err(AppError::InvalidUrl(m)) => assert_eq!(m, "Invalid URL format"),
        other => panic!("unexpected: {:?}", other),
    }
    assert_eq!(svc.repository.count(), 0);
}

#[test]
fn generation_gives_up_after_ten_taken_codes() {
    let mut svc = service_with(StuckGenerator { code: "taken".to_string(), asked: Cell::new(0) });
    let taken = TinyUrl::new("taken".to_string(), "https://other.example".to_string());
    svc.repository.create(&taken).unwrap();
    match svc.create_short_url(request(URL, None)) {
        Err(AppError::Internal(m)) => {
            assert_eq!(m, "Failed to generate unique short code after maximum attempts")
        }
        other => panic!("unexpected: {:?}", other),
    }
    assert_eq!(svc.generator.asked.get(), 10);
    assert_eq!(svc.repository.count(), 1);
    assert_eq!(svc.cache.get("taken").unwrap(), None);
}

#[test]
fn generation_takes_the_first_free_code() {
    let codes = ["taken", "taken", "free", "spare"].iter().map(|c| c.to_string()).collect();
    let mut svc = service_with(ListGenerator { codes, asked: Cell::new(0) });
    let taken = TinyUrl::new("taken".to_string(), "https://other.example".to_string());
    svc.repository.create(&taken).unwrap();
    let response = svc.create_short_url(request(URL, None)).unwrap();
    assert_eq!(response.short_code, "free");
    assert_eq!(svc.generator.asked.get(), 3);
}

#[test]
fn the_tenth_code_is_still_tried() {
    let mut codes: Vec<String> = (0..9).map(|_| "taken".to_string()).collect();
    codes.push("last".to_string());
    let mut svc = service_with(ListGenerator { codes, asked: Cell::new(0) });
    let taken = TinyUrl::new("taken".to_string(), "https://other.example".to_string());
    svc.repository.create(&taken).unwrap();
    let response = svc.create_short_url(request(URL, None)).unwrap();
    assert_eq!(response.short_code, "last");
    assert_eq!(svc.generator.asked.get(), 10);
}

#[test]
fn the_search_for_a_code_reports_what_it_found() {
    let mut svc = service_with(StuckGenerator { code: "taken".to_string(), asked: Cell::new(0) });
    let taken = TinyUrl::new("taken".to_string(), "https://other.example".to_string());
    svc.repository.create(&taken).unwrap();
    let (free, _) = svc.generate_unique_short_code(URL, &Some("free".to_string()));
    assert_eq!(free.unwrap(), "free");
    let (taken, _) = svc.generate_unique_short_code(URL, &Some("taken".to_string()));
    match taken {
        Err(AppError::AlreadyExists(m)) => assert_eq!(m, "Custom code 'taken' already exists"),
        other => panic!("unexpected: {:?}", other),
    }
    let (unsound, _) = svc.generate_unique_short_code(URL, &Some("a b".to_string()));
    assert!(matches!(unsound, Err(AppError::Validation(_))));
    assert_eq!(svc.generator.asked.get(), 0);
    let (stuck, _) = svc.generate_unique_short_code(URL, &None);
    assert!(matches!(stuck, Err(AppError::Internal(_))));
    assert_eq!(svc.generator.asked.get(), 10);
}

#[test]
fn a_taken_custom_code_is_refused() {
    let mut svc = service();
    svc.create_short_url(request(URL, Some("x"))).unwrap();
    match svc.create_short_url(request("https://other.example/", Some("x"))) {
        Err(AppError::AlreadyExists(m)) => assert_eq!(m, "Custom code 'x' already exists"),
        other => panic!("unexpected: {:?}", other),
    }
    assert_eq!(svc.repository.count(), 1);
    assert_eq!(svc.cache.get("x").unwrap(), Some(URL.to_string()));
}

#[test]
fn the_same_url_with_the_same_custom_code_is_answered_with_its_record() {
    let mut svc = service();
    let first = svc.create_short_url(request(URL, Some("x"))).unwrap();
    let second = svc.create_short_url(request(URL, Some("x"))).unwrap();
    assert_eq!(first.short_code, "x");
    assert_eq!(second.short_code, "x");
    assert_eq!(svc.repository.count(), 1);
}

#[test]
fn a_hit_does_not_touch_the_store() {
    let mut svc = service();
    svc.create_short_url(request(URL, Some("hit"))).unwrap();
    let resolution = svc.get_original_url("hit").unwrap();
    assert_eq!(resolution.long_url, URL);
    match &resolution.follow_up {
        ClickFollowUp::CountInCache { short_code } => assert_eq!(short_code, "hit"),
        other => panic!("unexpected: {:?}", other),
    }
    assert_eq!(svc.repository.reads.get(), 0);
    // the click is counted only when the follow-up is done
    assert_eq!(svc.cache.get("clicks:hit").unwrap(), None);
    svc.complete(resolution.follow_up).unwrap();
    assert_eq!(svc.cache.get("clicks:hit").unwrap(), Some("1".to_string()));
    let again = svc.get_original_url("hit").unwrap();
    svc.complete(again.follow_up).unwrap();
    assert_eq!(svc.cache.get("clicks:hit").unwrap(), Some("2".to_string()));
    assert_eq!(svc.repository.reads.get(), 0);
    assert_eq!(svc.repository.row("hit").clicks, 0);
}

#[test]
fn a_miss_leaves_the_raised_count_to_be_written_back() {
    let mut svc = service();
    let mut stored = TinyUrl::new("miss".to_string(), URL.to_string());
    stored.clicks = 3;
    svc.repository.create(&stored).unwrap();
    let resolution = svc.get_original_url("miss").unwrap();
    assert_eq!(resolution.long_url, URL);
    match &resolution.follow_up {
        ClickFollowUp::Persist { record } => {
            assert_eq!(record.short_code, "miss");
            assert_eq!(record.long_url, URL);
            assert_eq!(record.clicks, 4);
            assert_eq!(record.id, 1);
        }
        other => panic!("unexpected: {:?}", other),
    }
    // the answer did not wait for the store to be written
    assert_eq!(svc.repository.row("miss").clicks, 3);
    svc.complete(resolution.follow_up).unwrap();
    assert_eq!(svc.repository.row("miss").clicks, 4);
    assert_eq!(svc.repository.row("miss").long_url, URL);
}

#[test]
fn two_misses_for_one_code_both_start_from_the_same_count() {
    let mut svc = service();
    svc.repository.create(&TinyUrl::new("race".to_string(), URL.to_string())).unwrap();
    let first = svc.get_original_url("race").unwrap();
    svc.cache.delete("race").unwrap();
    let second = svc.get_original_url("race").unwrap();
    svc.complete(first.follow_up).unwrap();
    svc.complete(second.follow_up).unwrap();
    assert_eq!(svc.repository.row("race").clicks, 1);
}

#[test]
fn a_follow_up_that_fails_says_so() {
    let mut svc = service();
    svc.repository.create(&TinyUrl::new("gone".to_string(), URL.to_string())).unwrap();
    let resolution = svc.get_original_url("gone").unwrap();
    svc.repository.delete_by_short_code("gone").unwrap();
    assert!(matches!(svc.complete(resolution.follow_up), Err(AppError::Database(_))));
    assert_eq!(svc.repository.count(), 0);
}

#[test]
fn an_unknown_code_is_not_found() {
    let mut svc = service();
    match svc.get_original_url("nope") {
        Err(AppError::NotFound(m)) => assert_eq!(m, "Short code 'nope' not found"),
        other => panic!("unexpected: {:?}", other),
    }
    match svc.get_url_stats("nope") {
        Err(AppError::NotFound(m)) => assert_eq!(m, "Short code 'nope' not found"),
        other => panic!("unexpected: {:?}", other),
    }
    assert_eq!(svc.delete_url("nope").unwrap(), false);
}

#[test]
fn a_deleted_code_is_not_found() {
    let mut svc = service();
    svc.create_short_url(request(URL, Some("bye"))).unwrap();
    let hit = svc.get_original_url("bye").unwrap();
    svc.complete(hit.follow_up).unwrap();
    assert_eq!(svc.cache.get("bye").unwrap(), Some(URL.to_string()));
    assert_eq!(svc.cache.get("clicks:bye").unwrap(), Some("1".to_string()));
    assert_eq!(svc.delete_url("bye").unwrap(), true);
    assert_eq!(svc.repository.count(), 0);
    assert_eq!(svc.cache.get("bye").unwrap(), None);
    assert_eq!(svc.cache.get("clicks:bye").unwrap(), None);
    assert!(matches!(svc.get_original_url("bye"), Err(AppError::NotFound(_))));
    assert_eq!(svc.delete_url("bye").unwrap(), false);
}

#[test]
fn statistics_prefer_the_cached_count() {
    let mut svc = service();
    let mut stored = TinyUrl::new("stat".to_string(), URL.to_string());
    stored.clicks = 3;
    let saved = svc.repository.create(&stored).unwrap();
    let durable = svc.get_url_stats("stat").unwrap();
    assert_eq!(durable.clicks, 3);
    svc.cache.set("clicks:stat", "7", 60).unwrap();
    let stats = svc.get_url_stats("stat").unwrap();
    assert_eq!(stats.clicks, 7);
    assert_eq!(stats.short_code, "stat");
    assert_eq!(stats.long_url, URL);
    assert_eq!(stats.created_at, saved.created_at);
    assert_eq!(stats.updated_at, saved.updated_at);
    svc.cache.set("clicks:stat", "seven", 60).unwrap();
    assert_eq!(svc.get_url_stats("stat").unwrap().clicks, 3);
    svc.cache.set("clicks:stat", "2147483648", 60).unwrap();
    assert_eq!(svc.get_url_stats("stat").unwrap().clicks, 3);
}

#[test]
fn the_cached_count_wins_where_it_is_a_number() {
    assert_eq!(preferred_clicks(&Some("7".to_string()), 3), 7);
    assert_eq!(preferred_clicks(&Some("0".to_string()), 3), 0);
    assert_eq!(preferred_clicks(&Some("-1".to_string()), 3), -1);
    assert_eq!(preferred_clicks(&Some("".to_string()), 3), 3);
    assert_eq!(preferred_clicks(&Some("7 ".to_string()), 3), 3);
    assert_eq!(preferred_clicks(&None, 3), 3);
}

#[test]
fn a_failing_store_fails_the_operation() {
    let mut svc = service();
    svc.create_short_url(request(URL, Some("kept"))).unwrap();
    svc.cache.delete("kept").unwrap();
    svc.repository.failing = true;
    assert!(matches!(
        svc.create_short_url(request("https://other.example/", None)),
        Err(AppError::Database(_))
    ));
    assert!(matches!(svc.get_original_url("kept"), Err(AppError::Database(_))));
    assert!(matches!(svc.get_url_stats("kept"), Err(AppError::Database(_))));
    assert!(matches!(svc.delete_url("kept"), Err(AppError::Database(_))));
    svc.repository.failing = false;
    assert_eq!(svc.repository.count(), 1);
}

#[test]
fn a_failing_store_does_not_matter_on_a_hit() {
    let mut svc = service();
    svc.create_short_url(request(URL, Some("warm"))).unwrap();
    svc.repository.failing = true;
    assert_eq!(svc.get_original_url("warm").unwrap().long_url, URL);
}

#[test]
fn a_failing_cache_fails_the_operation() {
    let mut svc = DefaultUrlService::new(
        MemRepository::new(),
        BrokenCache,
        DefaultShortCodeGenerator::new(),
        "http://sho.rt".to_string(),
        8,
        60,
    );
    assert!(matches!(svc.create_short_url(request(URL, Some("c"))), Err(AppError::Redis(_))));
    // the record was stored before the cache failed
    assert_eq!(svc.repository.count(), 1);
    assert!(matches!(svc.get_original_url("c"), Err(AppError::Redis(_))));
    assert!(matches!(svc.get_url_stats("c"), Err(AppError::Redis(_))));
    assert!(matches!(svc.delete_url("c"), Err(AppError::Redis(_))));
    assert_eq!(svc.repository.count(), 1);
    let click = ClickFollowUp::CountInCache { short_code: "c".to_string() };
    assert!(matches!(svc.complete(click), Err(AppError::Redis(_))));
}

#[test]
fn whatever_is_cached_under_a_key_is_served_for_it() {
    let mut svc = service();
    svc.create_short_url(request(URL, Some("abc"))).unwrap();
    let hit = svc.get_original_url("abc").unwrap();
    svc.complete(hit.follow_up).unwrap();
    // the counter key is a cache key like any other
    assert_eq!(svc.get_original_url("clicks:abc").unwrap().long_url, "1");
}

#[test]
fn the_store_in_memory_keeps_one_record_for_each_code() {
    let mut store = InMemoryUrlRepository::new();
    assert_eq!(store.len(), 0);
    let first = store.create(&TinyUrl::new("a".to_string(), URL.to_string())).unwrap();
    assert_eq!(first.id, 1);
    assert_eq!(first.short_code, "a");
    assert_eq!(first.long_url, URL);
    assert!(matches!(
        store.create(&TinyUrl::new("a".to_string(), "https://other.example".to_string())),
        Err(AppError::Database(_))
    ));
    let second = store.create(&TinyUrl::new("b".to_string(), URL.to_string())).unwrap();
    assert_eq!(second.id, 2);
    assert_eq!(store.len(), 2);
    assert_eq!(store.code_exists("a").unwrap(), true);
    assert_eq!(store.code_exists("c").unwrap(), false);
    assert_eq!(store.find_by_short_code("b").unwrap().unwrap().id, 2);
    assert!(store.find_by_short_code("c").unwrap().is_none());
    assert_eq!(store.get_stats("a").unwrap().unwrap().id, 1);
}

#[test]
fn the_store_in_memory_finds_the_latest_record_for_a_url() {
    let mut store = InMemoryUrlRepository::new();
    let at = |seconds: i64, nanos: u32| Timestamp { seconds, nanos };
    for (code, created) in [("old", at(10, 0)), ("new", at(20, 5)), ("mid", at(20, 4))] {
        let mut url = TinyUrl::new(code.to_string(), URL.to_string());
        url.created_at = created;
        store.create(&url).unwrap();
    }
    let mut other = TinyUrl::new("other".to_string(), "https://other.example".to_string());
    other.created_at = at(99, 0);
    store.create(&other).unwrap();
    assert_eq!(store.find_by_long_url(URL).unwrap().unwrap().short_code, "new");
    assert!(store.find_by_long_url("https://none.example").unwrap().is_none());
    store.delete_by_short_code("new").unwrap();
    assert_eq!(store.find_by_long_url(URL).unwrap().unwrap().short_code, "mid");
}

#[test]
fn the_store_in_memory_updates_and_deletes() {
    let mut store = InMemoryUrlRepository::new();
    let created = store.create(&TinyUrl::new("a".to_string(), URL.to_string())).unwrap();
    let mut changed = created.clone();
    changed.id = 77;
    changed.clicks = 5;
    changed.qr_code = Some("qr".to_string());
    changed.created_at = Timestamp { seconds: 1, nanos: 1 };
    let saved = store.update(&changed).unwrap();
    assert_eq!(saved.id, created.id);
    assert_eq!(saved.created_at, created.created_at);
    assert_eq!(saved.clicks, 5);
    assert_eq!(saved.qr_code, Some("qr".to_string()));
    assert_eq!(store.find_by_short_code("a").unwrap().unwrap().clicks, 5);
    let missing = TinyUrl::new("zz".to_string(), URL.to_string());
    assert!(matches!(store.update(&missing), Err(AppError::Database(_))));
    assert_eq!(store.delete_by_short_code("a").unwrap(), true);
    assert_eq!(store.delete_by_short_code("a").unwrap(), false);
    assert_eq!(store.len(), 0);
}
