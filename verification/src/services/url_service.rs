//! The URL service: shortening, resolving, statistics and deletion over a
//! durable store, a cache and a code generator.

use vstd::prelude::*;
use vstd::string::*;
use crate::models::dto::{request_verdict, url_parses, ClickFollowUp,
    CreateUrlRequest, CreateUrlResponse, Resolution, UrlStatsResponse};
use crate::models::error::AppError;
use crate::models::url::{clicks_after, TinyUrl, TinyUrlView};
use crate::services::codes::{clicks_key, counter_key, lemma_code_is_no_counter_key,
    lemma_counter_key, valid_custom_code};
use crate::services::coherence::{agree, lemma_agree_rewritten, lemma_agree_with,
    lemma_agree_without, lemma_changed_cache_follows, lemma_shrunk_cache_follows,
    one_record_per_url, well_keyed};
use crate::text::chars::{all_code_chars, optional_text};
use crate::text::decimal::{decimal_string, parse_i32, parse_i32_spec};
use crate::traits::repository::{latest_for, none_for, updated_as, Records, UrlRepository};
use crate::traits::service::{counted, CacheService, Entries, ShortCodeGenerator, UrlService};

verus! {

/// How often a code is generated before the search for a free one is given
/// up.
pub const MAX_ATTEMPTS: u32 = 10;

/// `text` without the slashes at its end.
pub open spec fn without_trailing_slashes(text: Seq<char>) -> Seq<char>
    decreases text.len(),
{
    if text.len() > 0 && text.last() == '/' {
        without_trailing_slashes(text.drop_last())
    } else {
        text
    }
}

/// The short URL for `code` under `base_url`: the base without the slashes at
/// its end, one slash, the code.
pub open spec fn short_url_of(base_url: Seq<char>, code: Seq<char>) -> Seq<char> {
    without_trailing_slashes(base_url) + seq!['/'] + code
}

/// `count` slashes.
pub open spec fn slashes(count: nat) -> Seq<char> {
    Seq::new(count, |i: int| '/')
}

/// Slashes behind text that does not end in one are exactly what is cut off.
pub proof fn lemma_cut_trailing_slashes(kept: Seq<char>, count: nat)
    requires
        kept.len() == 0 || kept.last() != '/',
    ensures
        without_trailing_slashes(kept + slashes(count)) == kept,
    decreases count,
{
    let text = kept + slashes(count);
    if count == 0 {
        assert(text =~= kept);
    } else {
        assert(text.last() == '/');
        assert(text.drop_last() =~= kept + slashes((count - 1) as nat));
        lemma_cut_trailing_slashes(kept, (count - 1) as nat);
    }
}

/// `text` without the slashes at its end.
pub fn trim_trailing_slashes(text: &str) -> (kept: String)
    ensures
        kept@ == without_trailing_slashes(text@),
{
    let mut kept = String::new();
    let mut pending: usize = 0;
    let total = text.unicode_len();
    for c in it: text.chars()
        invariant
            it.seq() == text@,
            text@.len() == total,
            pending <= it.index(),
            kept@ + slashes(pending as nat) == text@.take(it.index() as int),
            kept@.len() == 0 || kept@.last() != '/',
    {
        let ghost i = it.index() as int;
        let ghost before = kept@;
        assert(c == text@[i]);
        if c == '/' {
            assert(before.len() + pending == i);
            pending = pending + 1;
            assert(kept@ + slashes(pending as nat) =~= text@.take(i + 1));
        } else {
            let ghost due = pending;
            while pending > 0
                invariant
                    pending <= due,
                    kept@ == before + slashes((due - pending) as nat),
                decreases pending,
            {
                kept.push('/');
                pending = pending - 1;
                assert(kept@ =~= before + slashes((due - pending) as nat));
            }
            kept.push(c);
            assert(kept@ + slashes(0) =~= text@.take(i + 1));
        }
    }
    proof {
        assert(text@.take(text@.len() as int) =~= text@);
        lemma_cut_trailing_slashes(kept@, pending as nat);
    }
    kept
}

/// The detail of the error for a custom code that is taken.
pub open spec fn taken_detail(code: Seq<char>) -> Seq<char> {
    "Custom code '"@ + code + "' already exists"@
}

/// The detail of the error for a short code that is not known.
pub open spec fn unknown_detail(code: Seq<char>) -> Seq<char> {
    "Short code '"@ + code + "' not found"@
}

/// The detail of the error for a search that found no free code.
pub open spec fn exhausted_detail() -> Seq<char> {
    "Failed to generate unique short code after maximum attempts"@
}

/// Whether every one of `codes` has a record.
pub open spec fn all_taken(records: Records, codes: Seq<Seq<char>>) -> bool {
    forall|i: int| 0 <= i < codes.len() ==> records.contains_key(#[trigger] codes[i])
}

/// What a search for a free short code yields. `tried` are the generated
/// codes that were looked up and found taken, in order.
///
/// With a custom code nothing is generated: the code is accepted where it is
/// valid and free, and refused as invalid or as taken otherwise. Without one,
/// codes of `length` characters are generated until one is free; when
/// `MAX_ATTEMPTS` of them were taken the search fails. A failure of the store
/// ends either search.
pub open spec fn code_search(
    records: Records,
    custom: Option<Seq<char>>,
    length: usize,
    r: Result<String, AppError>,
    tried: Seq<Seq<char>>,
) -> bool {
    match custom {
        Some(wanted) => {
            &&& tried.len() == 0
            &&& (!valid_custom_code(wanted) ==> (r matches Err(AppError::Validation(_))))
            &&& match r {
                Ok(code) => valid_custom_code(wanted) && code@ == wanted && !records.contains_key(
                    wanted,
                ),
                Err(AppError::Validation(_)) => !valid_custom_code(wanted),
                Err(AppError::AlreadyExists(m)) => valid_custom_code(wanted)
                    && records.contains_key(wanted) && m@ == taken_detail(wanted),
                Err(AppError::Database(_)) => valid_custom_code(wanted),
                Err(_) => false,
            }
        },
        None => {
            &&& all_taken(records, tried)
            &&& match r {
                Ok(code) => tried.len() < MAX_ATTEMPTS && code@.len() == length && all_code_chars(
                    code@,
                ) && !records.contains_key(code@),
                Err(AppError::Internal(m)) => tried.len() == MAX_ATTEMPTS && m@
                    == exhausted_detail(),
                Err(AppError::Database(_)) => tried.len() < MAX_ATTEMPTS,
                Err(_) => false,
            }
        },
    }
}

/// Whether `record` is new under `code` for `long_url`: no clicks, no QR
/// code.
pub open spec fn fresh_record(record: TinyUrlView, code: Seq<char>, long_url: Seq<char>) -> bool {
    &&& record.short_code == code
    &&& record.long_url == long_url
    &&& record.clicks == 0
    &&& record.qr_code is None
}

/// Whether `after` is `before` with one more click. The time of the update
/// is left open.
pub open spec fn one_more_click(before: TinyUrlView, after: TinyUrlView) -> bool {
    &&& after.id == before.id
    &&& after.short_code == before.short_code
    &&& after.long_url == before.long_url
    &&& after.qr_code == before.qr_code
    &&& after.clicks == clicks_after(before.clicks)
    &&& after.created_at == before.created_at
}

/// The click count to report: the cached count where there is one and it
/// reads as a number an `i32` holds, the durable count otherwise.
pub open spec fn preferred(cached: Option<Seq<char>>, durable: i32) -> i32 {
    match cached {
        Some(text) => match parse_i32_spec(text) {
            Some(count) => count,
            None => durable,
        },
        None => durable,
    }
}

/// The click count to report, given what the cache holds for the counter and
/// what the durable record says.
pub fn preferred_clicks(cached: &Option<String>, durable: i32) -> (clicks: i32)
    ensures
        clicks == preferred(optional_text(*cached), durable),
{
    match cached {
        Some(text) => match parse_i32(text.as_str()) {
            Some(count) => count,
            None => durable,
        },
        None => durable,
    }
}

/// The URL service over a durable store, a cache and a code generator.
pub struct DefaultUrlService<R: UrlRepository, C: CacheService, G: ShortCodeGenerator> {
    pub repository: R,
    pub cache: C,
    pub generator: G,
    pub base_url: String,
    pub default_short_code_length: usize,
    pub cache_ttl: u64,
}

impl<R: UrlRepository, C: CacheService, G: ShortCodeGenerator> DefaultUrlService<R, C, G> {
    pub fn new(
        repository: R,
        cache: C,
        generator: G,
        base_url: String,
        default_short_code_length: usize,
        cache_ttl: u64,
    ) -> (service: Self)
        ensures
            service.repository == repository,
            service.cache == cache,
            service.generator == generator,
            service.base_url == base_url,
            service.default_short_code_length == default_short_code_length,
            service.cache_ttl == cache_ttl,
    {
        DefaultUrlService {
            repository,
            cache,
            generator,
            base_url,
            default_short_code_length,
            cache_ttl,
        }
    }

    /// The records of the durable store, by short code.
    pub open spec fn records(&self) -> Records {
        self.repository.records()
    }

    /// The entries of the cache, by key.
    pub open spec fn cached(&self) -> Entries {
        self.cache.entries()
    }

    /// Whether cache and durable store agree: every cache entry is a click
    /// counter or holds the long URL of the record with its key, every record
    /// stands under its own short code, which is no counter key, and no two
    /// records are for the same long URL.
    pub open spec fn coherent(&self) -> bool {
        agree(self.cached(), self.records())
    }

    /// Whether store and cache fail only where they must, so that every
    /// failure of the service is one of its own.
    pub open spec fn dependable(&self) -> bool {
        self.repository.reliable() && self.cache.reliable()
    }

    /// Whether an operation left the settings of the service alone, and what
    /// store and cache are like.
    pub open spec fn same_settings(pre: Self, post: Self) -> bool {
        &&& post.base_url@ == pre.base_url@
        &&& post.default_short_code_length == pre.default_short_code_length
        &&& post.cache_ttl == pre.cache_ttl
        &&& post.cache.authoritative() == pre.cache.authoritative()
        &&& post.cache.reliable() == pre.cache.reliable()
        &&& post.repository.reliable() == pre.repository.reliable()
    }

    /// Whether `e` is a failure that store or cache handed up.
    pub open spec fn handed_up(e: AppError) -> bool {
        e is Database || e is Redis
    }

    /// Whether an operation changed neither a record nor a cache entry, and
    /// asked the cache for no write.
    pub open spec fn untouched(pre: Self, post: Self) -> bool {
        post.records() == pre.records() && post.cached() == pre.cached() && Self::wrote_nothing(
            pre,
            post,
        )
    }

    /// Whether an operation asked the cache for no write.
    pub open spec fn wrote_nothing(pre: Self, post: Self) -> bool {
        post.cache.writes() == pre.cache.writes()
    }

    /// Whether an operation asked the cache for one write: `long_url` under
    /// `code`, to live for the time the service is set to.
    pub open spec fn wrote(pre: Self, post: Self, code: Seq<char>, long_url: Seq<char>) -> bool {
        post.cache.writes() == pre.cache.writes().push((code, long_url, pre.cache_ttl))
    }

    /// Whether `response` hands out the record that was there for the URL of
    /// `request`: the one created last, with nothing stored or cached anew.
    pub open spec fn reused(
        pre: Self,
        request: CreateUrlRequest,
        post: Self,
        response: CreateUrlResponse,
    ) -> bool {
        &&& pre.records().contains_key(response.short_code@)
        &&& latest_for(pre.records(), request.url@, pre.records()[response.short_code@])
        &&& optional_text(response.qr_code) == pre.records()[response.short_code@].qr_code
        &&& Self::untouched(pre, post)
    }

    /// Whether the store gained exactly one record, under `code`, for the URL
    /// of `request`, for which there was none: under the custom code where one
    /// was asked for, under a generated code of the default length otherwise.
    pub open spec fn newly_stored(
        pre: Self,
        request: CreateUrlRequest,
        post: Self,
        code: Seq<char>,
    ) -> bool {
        &&& none_for(pre.records(), request.url@)
        &&& !pre.records().contains_key(code)
        &&& all_code_chars(code)
        &&& match optional_text(request.custom_code) {
            Some(wanted) => code == wanted,
            None => code.len() == pre.default_short_code_length,
        }
        &&& post.records().contains_key(code)
        &&& fresh_record(post.records()[code], code, request.url@)
        &&& post.records() == pre.records().insert(code, post.records()[code])
        &&& Self::wrote(pre, post, code, request.url@)
    }

    /// What `create_short_url` does.
    ///
    /// A request that is not acceptable fails with the error that validating
    /// it gives and changes nothing. An acceptable one succeeds with the
    /// record that is there for its URL, or with a new record that is also
    /// written to the cache. It fails with `AlreadyExists` where the custom
    /// code is taken, with `Internal` where `MAX_ATTEMPTS` generated codes
    /// were taken, and with the store's or the cache's own error where one of
    /// them fails, which dependable ones do not; only a failure of the cache
    /// leaves a new record behind.
    pub open spec fn shortened(
        pre: Self,
        request: CreateUrlRequest,
        post: Self,
        r: Result<CreateUrlResponse, AppError>,
    ) -> bool {
        &&& Self::same_settings(pre, post)
        &&& (!request.acceptable() ==> r is Err)
        &&& (pre.dependable() ==> !(r matches Err(e) && Self::handed_up(e)))
        &&& match r {
            Ok(response) => {
                &&& request.acceptable()
                &&& response.long_url@ == request.url@
                &&& response.short_url@ == short_url_of(pre.base_url@, response.short_code@)
                &&& (Self::reused(pre, request, post, response) || (Self::newly_stored(
                    pre,
                    request,
                    post,
                    response.short_code@,
                ) && response.qr_code is None && post.cached() == pre.cached().insert(
                    response.short_code@,
                    request.url@,
                )))
            },
            Err(AppError::InvalidUrl(_)) => !request.acceptable() && Self::untouched(pre, post)
                && request_verdict(
                url_parses(request.url@),
                optional_text(request.custom_code),
                Err(r->Err_0),
            ),
            Err(AppError::Validation(_)) => !request.acceptable() && Self::untouched(pre, post)
                && request_verdict(
                url_parses(request.url@),
                optional_text(request.custom_code),
                Err(r->Err_0),
            ),
            Err(AppError::AlreadyExists(m)) => {
                &&& request.acceptable()
                &&& Self::untouched(pre, post)
                &&& none_for(pre.records(), request.url@)
                &&& request.custom_code matches Some(wanted)
                &&& pre.records().contains_key(wanted@)
                &&& m@ == taken_detail(wanted@)
            },
            Err(AppError::Internal(m)) => {
                &&& request.acceptable()
                &&& Self::untouched(pre, post)
                &&& none_for(pre.records(), request.url@)
                &&& request.custom_code is None
                &&& m@ == exhausted_detail()
                &&& exists|tried: Seq<Seq<char>>|
                    tried.len() == MAX_ATTEMPTS && #[trigger] all_taken(pre.records(), tried)
            },
            Err(AppError::Database(_)) => request.acceptable() && Self::untouched(pre, post),
            Err(AppError::Redis(_)) => {
                &&& request.acceptable()
                &&& post.cached() == pre.cached()
                &&& exists|code: Seq<char>| #[trigger] Self::newly_stored(pre, request, post, code)
            },
            Err(AppError::NotFound(_)) => false,
        }
    }

    /// What `get_original_url` does for `code`.
    ///
    /// It never changes a record. On a hit the cached URL is the answer and
    /// the click is left to be counted in the cache. On a miss the record
    /// decides: where there is none the answer is `NotFound`; where there is
    /// one its URL is the answer, it is written to the cache, and the record
    /// with one more click is left to be written back. The cache may drop
    /// entries on the way. A failure of store or cache is handed up;
    /// dependable ones do not fail.
    pub open spec fn resolved(
        pre: Self,
        code: Seq<char>,
        post: Self,
        r: Result<Resolution, AppError>,
    ) -> bool {
        &&& Self::same_settings(pre, post)
        &&& post.records() == pre.records()
        &&& (pre.dependable() ==> !(r matches Err(e) && Self::handed_up(e)))
        &&& match r {
            Ok(resolution) => match resolution.follow_up {
                ClickFollowUp::CountInCache { short_code } => {
                    &&& short_code@ == code
                    &&& Self::wrote_nothing(pre, post)
                    &&& post.cached().submap_of(pre.cached())
                    &&& (pre.cache.authoritative() ==> post.cached().contains_key(code)
                        && post.cached()[code] == resolution.long_url@)
                },
                ClickFollowUp::Persist { record } => {
                    &&& pre.records().contains_key(code)
                    &&& resolution.long_url@ == pre.records()[code].long_url
                    &&& one_more_click(pre.records()[code], record@)
                    &&& Self::wrote(pre, post, code, resolution.long_url@)
                    &&& post.cached().contains_key(code)
                    &&& post.cached()[code] == resolution.long_url@
                    &&& post.cached().remove(code).submap_of(pre.cached())
                },
            },
            Err(AppError::NotFound(m)) => !pre.records().contains_key(code) && m@ == unknown_detail(
                code,
            ) && post.cached().submap_of(pre.cached()) && Self::wrote_nothing(pre, post),
            Err(AppError::Database(_)) => post.cached().submap_of(pre.cached())
                && Self::wrote_nothing(pre, post),
            Err(AppError::Redis(_)) => {
                &&& post.cached().submap_of(pre.cached())
                &&& Self::wrote_nothing(pre, post) || (pre.records().contains_key(code)
                    && Self::wrote(pre, post, code, pre.records()[code].long_url))
            },
            Err(_) => false,
        }
    }

    /// What `complete` does with a follow-up.
    ///
    /// Counting in the cache touches the counter of the code and nothing
    /// else; an authoritative cache then holds the raised count. Writing back
    /// touches the record of the code and nothing else; where the store fails
    /// nothing is changed, and a reliable store fails only where the record
    /// is gone.
    pub open spec fn completed(
        pre: Self,
        follow_up: ClickFollowUp,
        post: Self,
        r: Result<(), AppError>,
    ) -> bool {
        &&& Self::same_settings(pre, post)
        &&& Self::wrote_nothing(pre, post)
        &&& match follow_up {
            ClickFollowUp::CountInCache { short_code } => {
                &&& post.records() == pre.records()
                &&& post.cached().remove(counter_key(short_code@)) == pre.cached().remove(
                    counter_key(short_code@),
                )
                &&& (r matches Err(e) ==> e is Redis)
                &&& (pre.cache.reliable() ==> r is Ok)
                &&& (pre.cache.authoritative() && r is Ok ==> post.cached() == pre.cached().insert(
                    counter_key(short_code@),
                    decimal_string(counted(pre.cached(), counter_key(short_code@)) as int),
                ))
            },
            ClickFollowUp::Persist { record } => {
                &&& post.cached() == pre.cached()
                &&& (pre.repository.reliable() ==> (r is Ok <==> pre.records().contains_key(
                    record@.short_code,
                )))
                &&& match r {
                    Ok(()) => {
                        &&& pre.records().contains_key(record@.short_code)
                        &&& post.records().contains_key(record@.short_code)
                        &&& updated_as(
                            pre.records()[record@.short_code],
                            record@,
                            post.records()[record@.short_code],
                        )
                        &&& post.records() == pre.records().insert(
                            record@.short_code,
                            post.records()[record@.short_code],
                        )
                    },
                    Err(e) => e is Database && post.records() == pre.records(),
                }
            },
        }
    }

    /// Whether a follow-up still fits the store: a record to write back has
    /// the long URL that the store holds for its code.
    pub open spec fn fits(&self, follow_up: ClickFollowUp) -> bool {
        follow_up matches ClickFollowUp::Persist { record } ==> (self.records().contains_key(
            record@.short_code,
        ) ==> self.records()[record@.short_code].long_url == record@.long_url)
    }

    /// What `get_url_stats` does for `code`.
    ///
    /// It never changes a record; the cache may drop entries. Where there is
    /// no record the answer is `NotFound` and the cache is not asked. Where
    /// there is one, the statistics are those of the record, but for the
    /// clicks: they are the record's, or what the cache served for the
    /// counter, which for an authoritative cache is the counter it holds. A
    /// failure of store or cache is handed up; dependable ones do not fail.
    pub open spec fn reported(
        pre: Self,
        code: Seq<char>,
        post: Self,
        r: Result<UrlStatsResponse, AppError>,
    ) -> bool {
        &&& Self::same_settings(pre, post)
        &&& Self::wrote_nothing(pre, post)
        &&& post.records() == pre.records()
        &&& post.cached().submap_of(pre.cached())
        &&& (pre.dependable() ==> !(r matches Err(e) && Self::handed_up(e)))
        &&& match r {
            Ok(stats) => {
                &&& pre.records().contains_key(code)
                &&& stats.short_code@ == pre.records()[code].short_code
                &&& stats.long_url@ == pre.records()[code].long_url
                &&& stats.created_at == pre.records()[code].created_at
                &&& stats.updated_at == pre.records()[code].updated_at
                &&& (stats.clicks == pre.records()[code].clicks || !pre.cache.authoritative() || (
                    pre.cached().contains_key(counter_key(code)) && parse_i32_spec(
                        pre.cached()[counter_key(code)],
                    ) == Some(stats.clicks)))
            },
            Err(AppError::NotFound(m)) => !pre.records().contains_key(code) && m@ == unknown_detail(
                code,
            ) && post.cached() == pre.cached(),
            Err(AppError::Database(_)) => post.cached() == pre.cached(),
            Err(AppError::Redis(_)) => pre.records().contains_key(code),
            Err(_) => false,
        }
    }

    /// What `delete_url` does for `code`.
    ///
    /// The cache goes first: the entry of the code, then its counter. Then
    /// the record is removed, and the answer says whether there was one.
    /// Where the cache fails the store is not touched; where the store fails
    /// the record stays and the cache entries are gone. With a dependable
    /// store and cache it succeeds.
    pub open spec fn deleted(
        pre: Self,
        code: Seq<char>,
        post: Self,
        r: Result<bool, AppError>,
    ) -> bool {
        &&& Self::same_settings(pre, post)
        &&& Self::wrote_nothing(pre, post)
        &&& (pre.dependable() ==> r is Ok)
        &&& match r {
            Ok(removed) => {
                &&& removed == pre.records().contains_key(code)
                &&& post.records() == pre.records().remove(code)
                &&& post.cached() == pre.cached().remove(code).remove(counter_key(code))
            },
            Err(AppError::Redis(_)) => post.records() == pre.records() && post.cached().submap_of(
                pre.cached(),
            ),
            Err(AppError::Database(_)) => post.records() == pre.records() && post.cached()
                == pre.cached().remove(code).remove(counter_key(code)),
            Err(_) => false,
        }
    }

    /// Finds a short code that has no record yet: the custom code where one
    /// is asked for, a generated one otherwise. The second part of the result
    /// lists the generated codes that were found taken.
    pub fn generate_unique_short_code(&self, url: &str, custom_code: &Option<String>) -> (found: (
        Result<String, AppError>,
        Ghost<Seq<Seq<char>>>,
    ))
        ensures
            code_search(
                self.records(),
                optional_text(*custom_code),
                self.default_short_code_length,
                found.0,
                found.1@,
            ),
            self.repository.reliable() ==> !(found.0 matches Err(AppError::Database(_))),
    {
        if let Some(custom) = custom_code {
            let code = match self.generator.generate_custom(custom.as_str()) {
                Ok(code) => code,
                Err(e) => {
                    return (Err(e), Ghost(Seq::empty()));
                },
            };
            match self.repository.code_exists(code.as_str()) {
                Err(e) => {
                    return (Err(e), Ghost(Seq::empty()));
                },
                Ok(true) => {
                    let mut detail = "Custom code '".to_owned();
                    detail.append(custom.as_str());
                    detail.append("' already exists");
                    return (Err(AppError::AlreadyExists(detail)), Ghost(Seq::empty()));
                },
                Ok(false) => {
                    return (Ok(code), Ghost(Seq::empty()));
                },
            }
        }
        let mut attempts: u32 = 0;
        let ghost mut tried: Seq<Seq<char>> = Seq::empty();
        while attempts < MAX_ATTEMPTS
            invariant
                attempts <= MAX_ATTEMPTS,
                *custom_code is None,
                tried.len() == attempts,
                all_taken(self.records(), tried),
            decreases MAX_ATTEMPTS - attempts,
        {
            let code = self.generator.generate(url, self.default_short_code_length);
            match self.repository.code_exists(code.as_str()) {
                Err(e) => {
                    return (Err(e), Ghost(tried));
                },
                Ok(false) => {
                    return (Ok(code), Ghost(tried));
                },
                Ok(true) => {},
            }
            proof {
                let longer = tried.push(code@);
                assert forall|i: int| 0 <= i < longer.len() implies self.records().contains_key(
                    #[trigger] longer[i],
                ) by {
                    if i < tried.len() {
                        assert(longer[i] == tried[i]);
                    }
                }
                tried = longer;
            }
            attempts = attempts + 1;
        }
        (
            Err(
                AppError::Internal(
                    "Failed to generate unique short code after maximum attempts".to_owned(),
                ),
            ),
            Ghost(tried),
        )
    }

    /// The short URL for `short_code` under the base URL of this service.
    pub fn build_short_url(&self, short_code: &str) -> (short_url: String)
        ensures
            short_url@ == short_url_of(self.base_url@, short_code@),
    {
        let mut short_url = trim_trailing_slashes(self.base_url.as_str());
        short_url.push('/');
        short_url.append(short_code);
        assert(short_url@ =~= short_url_of(self.base_url@, short_code@));
        short_url
    }
    /// Shortening a URL keeps cache and store coherent, however it ends.
    pub proof fn law_shortening_keeps_coherence(
        pre: Self,
        request: CreateUrlRequest,
        post: Self,
        r: Result<CreateUrlResponse, AppError>,
    )
        requires
            pre.coherent(),
            Self::shortened(pre, request, post, r),
        ensures
            post.coherent(),
    {
        match r {
            Ok(response) => {
                if !Self::reused(pre, request, post, response) {
                    let code = response.short_code@;
                    lemma_code_is_no_counter_key(code);
                    lemma_agree_with(
                        pre.cached(),
                        pre.records(),
                        post.cached(),
                        post.records(),
                        code,
                    );
                }
            },
            Err(AppError::Redis(_)) => {
                let code = choose|code: Seq<char>| #[trigger]
                    Self::newly_stored(pre, request, post, code);
                lemma_code_is_no_counter_key(code);
                lemma_agree_with(
                    pre.cached(),
                    pre.records(),
                    post.cached(),
                    post.records(),
                    code,
                );
            },
            Err(_) => {},
        }
    }

    /// Resolving a short code keeps cache and store coherent, however it
    /// ends, and the follow-up it hands out fits the store.
    pub proof fn law_resolving_keeps_coherence(
        pre: Self,
        code: Seq<char>,
        post: Self,
        r: Result<Resolution, AppError>,
    )
        requires
            pre.coherent(),
            Self::resolved(pre, code, post, r),
        ensures
            post.coherent(),
            r matches Ok(resolution) ==> post.fits(resolution.follow_up),
    {
        match r {
            Ok(Resolution { follow_up: ClickFollowUp::Persist { .. }, .. }) => {
                lemma_changed_cache_follows(pre.cached(), post.cached(), pre.records(), code);
            },
            _ => {
                lemma_shrunk_cache_follows(pre.cached(), post.cached(), pre.records());
            },
        }
    }

    /// Doing a follow-up that fits the store keeps cache and store coherent,
    /// however it ends.
    pub proof fn law_completing_keeps_coherence(
        pre: Self,
        follow_up: ClickFollowUp,
        post: Self,
        r: Result<(), AppError>,
    )
        requires
            pre.coherent(),
            pre.fits(follow_up),
            Self::completed(pre, follow_up, post, r),
        ensures
            post.coherent(),
    {
        match follow_up {
            ClickFollowUp::CountInCache { short_code } => {
                let key = counter_key(short_code@);
                lemma_counter_key(short_code@);
                assert(post.cached().remove(key).submap_of(pre.cached())) by {
                    assert(post.cached().remove(key) == pre.cached().remove(key));
                }
                lemma_changed_cache_follows(pre.cached(), post.cached(), pre.records(), key);
            },
            ClickFollowUp::Persist { record } => {
                if r is Ok {
                    lemma_agree_rewritten(
                        pre.cached(),
                        pre.records(),
                        post.records(),
                        record@.short_code,
                    );
                }
            },
        }
    }

    /// Reporting statistics keeps cache and store coherent, however it ends.
    pub proof fn law_reporting_keeps_coherence(
        pre: Self,
        code: Seq<char>,
        post: Self,
        r: Result<UrlStatsResponse, AppError>,
    )
        requires
            pre.coherent(),
            Self::reported(pre, code, post, r),
        ensures
            post.coherent(),
    {
        lemma_shrunk_cache_follows(pre.cached(), post.cached(), pre.records());
    }

    /// Deleting a short code keeps cache and store coherent, however it ends.
    pub proof fn law_deleting_keeps_coherence(
        pre: Self,
        code: Seq<char>,
        post: Self,
        r: Result<bool, AppError>,
    )
        requires
            pre.coherent(),
            Self::deleted(pre, code, post, r),
        ensures
            post.coherent(),
    {
        match r {
            Ok(_) => {
                assert(post.cached().submap_of(pre.cached().remove(code)));
                lemma_agree_without(pre.cached(), pre.records(), post.cached(), code);
            },
            Err(AppError::Database(_)) => {
                assert(post.cached().submap_of(pre.cached()));
                lemma_shrunk_cache_follows(pre.cached(), post.cached(), pre.records());
            },
            Err(_) => {
                lemma_shrunk_cache_follows(pre.cached(), post.cached(), pre.records());
            },
        }
    }

    /// An empty cache is coherent with every store that holds each record
    /// under its own short code, no code being a counter key, and no long URL
    /// twice.
    pub proof fn law_empty_cache_is_coherent(service: Self)
        requires
            service.cached() == Entries::empty(),
            well_keyed(service.records()),
            one_record_per_url(service.records()),
        ensures
            service.coherent(),
    {
    }
}

impl<R: UrlRepository, C: CacheService, G: ShortCodeGenerator> UrlService for DefaultUrlService<
    R,
    C,
    G,
> {
    /// Shortens the URL of `request`.
    fn create_short_url(&mut self, request: CreateUrlRequest) -> (r: Result<
        CreateUrlResponse,
        AppError,
    >)
        ensures
            Self::shortened(*old(self), request, *final(self), r),
    {
        match request.validate() {
            Ok(()) => {},
            Err(e) => {
                return Err(e);
            },
        }
        match self.repository.find_by_long_url(request.url.as_str()) {
            Err(e) => {
                return Err(e);
            },
            Ok(Some(existing)) => {
                let short_url = self.build_short_url(existing.short_code.as_str());
                return Ok(
                    CreateUrlResponse {
                        short_url,
                        long_url: existing.long_url,
                        short_code: existing.short_code,
                        qr_code: existing.qr_code,
                    },
                );
            },
            Ok(None) => {},
        }
        let (found, Ghost(tried)) = self.generate_unique_short_code(
            request.url.as_str(),
            &request.custom_code,
        );
        let short_code = match found {
            Ok(code) => code,
            Err(e) => {
                return Err(e);
            },
        };
        let url = TinyUrl::new(short_code.clone(), request.url.clone());
        let saved = match self.repository.create(&url) {
            Ok(saved) => saved,
            Err(e) => {
                return Err(e);
            },
        };
        match self.cache.set(short_code.as_str(), saved.long_url.as_str(), self.cache_ttl) {
            Ok(()) => {},
            Err(e) => {
                proof {
                    assert(Self::newly_stored(*old(self), request, *self, short_code@));
                }
                return Err(e);
            },
        }
        let short_url = self.build_short_url(saved.short_code.as_str());
        Ok(
            CreateUrlResponse {
                short_url,
                long_url: saved.long_url,
                short_code: saved.short_code,
                qr_code: saved.qr_code,
            },
        )
    }

    /// Resolves `short_code` to its long URL.
    fn get_original_url(&mut self, short_code: &str) -> (r: Result<Resolution, AppError>)
        ensures
            Self::resolved(*old(self), short_code@, *final(self), r),
            r matches Ok(resolution) ==> final(self).fits(resolution.follow_up),
    {
        let outcome = self.cache.get(short_code);
        let ghost looked = *self;
        match outcome {
            Err(e) => {
                return Err(e);
            },
            Ok(Some(cached_url)) => {
                return Ok(
                    Resolution {
                        long_url: cached_url,
                        follow_up: ClickFollowUp::CountInCache {
                            short_code: short_code.to_owned(),
                        },
                    },
                );
            },
            Ok(None) => {},
        }
        let url = match self.repository.find_by_short_code(short_code) {
            Err(e) => {
                return Err(e);
            },
            Ok(None) => {
                let mut detail = "Short code '".to_owned();
                detail.append(short_code);
                detail.append("' not found");
                return Err(AppError::NotFound(detail));
            },
            Ok(Some(url)) => url,
        };
        match self.cache.set(short_code, url.long_url.as_str(), self.cache_ttl) {
            Ok(()) => {},
            Err(e) => {
                return Err(e);
            },
        }
        proof {
            assert(self.cached().remove(short_code@) =~= looked.cached().remove(short_code@));
            assert(looked.cached().remove(short_code@).submap_of(old(self).cached()));
        }
        let mut updated = url.clone();
        updated.increment_clicks();
        Ok(
            Resolution {
                long_url: url.long_url,
                follow_up: ClickFollowUp::Persist { record: updated },
            },
        )
    }

    /// Does what was left to do for a click. A failure is handed back for the
    /// caller to note; it is no failure of the request that caused it.
    fn complete(&mut self, follow_up: ClickFollowUp) -> (r: Result<(), AppError>)
        ensures
            Self::completed(*old(self), follow_up, *final(self), r),
    {
        match &follow_up {
            ClickFollowUp::CountInCache { short_code } => {
                match self.cache.increment_clicks(short_code.as_str()) {
                    Ok(_) => Ok(()),
                    Err(e) => Err(e),
                }
            },
            ClickFollowUp::Persist { record } => {
                match self.repository.update(record) {
                    Ok(_) => Ok(()),
                    Err(e) => Err(e),
                }
            },
        }
    }

    /// The statistics of `short_code`.
    fn get_url_stats(&mut self, short_code: &str) -> (r: Result<UrlStatsResponse, AppError>)
        ensures
            Self::reported(*old(self), short_code@, *final(self), r),
    {
        let url = match self.repository.get_stats(short_code) {
            Err(e) => {
                return Err(e);
            },
            Ok(None) => {
                let mut detail = "Short code '".to_owned();
                detail.append(short_code);
                detail.append("' not found");
                return Err(AppError::NotFound(detail));
            },
            Ok(Some(url)) => url,
        };
        let key = clicks_key(short_code);
        let cached_clicks = match self.cache.get(key.as_str()) {
            Ok(cached) => cached,
            Err(e) => {
                return Err(e);
            },
        };
        let clicks = preferred_clicks(&cached_clicks, url.clicks);
        Ok(
            UrlStatsResponse {
                short_code: url.short_code,
                long_url: url.long_url,
                clicks,
                created_at: url.created_at,
                updated_at: url.updated_at,
            },
        )
    }

    /// Deletes `short_code`: its cache entries first, then its record.
    fn delete_url(&mut self, short_code: &str) -> (r: Result<bool, AppError>)
        ensures
            Self::deleted(*old(self), short_code@, *final(self), r),
    {
        let first = self.cache.delete(short_code);
        let ghost halfway = *self;
        match first {
            Ok(()) => {},
            Err(e) => {
                return Err(e);
            },
        }
        let key = clicks_key(short_code);
        let second = self.cache.delete(key.as_str());
        proof {
            assert(self.cached().submap_of(halfway.cached()));
            assert(self.cached().submap_of(old(self).cached())) by {
                assert forall|k: Seq<char>| #[trigger] self.cached().dom().contains(k) implies old(
                    self,
                ).cached().dom().contains(k) && self.cached()[k] == old(self).cached()[k] by {
                    assert(halfway.cached().dom().contains(k));
                }
            }
        }
        match second {
            Ok(()) => {},
            Err(e) => {
                return Err(e);
            },
        }
        self.repository.delete_by_short_code(short_code)
    }
}

} // verus!
