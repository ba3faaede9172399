//! What holds of the URL service across calls.
//!
//! Each law speaks of service states before and after operations, tied
//! together by what the operations promise of them.

use vstd::prelude::*;
use crate::models::dto::{ClickFollowUp, CreateUrlRequest, CreateUrlResponse, Resolution};
use crate::models::error::AppError;
use crate::services::codes::counter_key;
use crate::services::url_service::{preferred, DefaultUrlService};
use crate::text::decimal::{decimal_string, lemma_parse_decimal_string};
use crate::traits::repository::{none_for, UrlRepository};
use crate::traits::service::{CacheService, ShortCodeGenerator};

verus! {

/// A URL that has been shortened resolves to itself.
///
/// Where cache and store are coherent and the cache is authoritative, a code
/// that shortening handed out for a URL resolves to that URL whenever
/// resolving succeeds, and resolving never says that the code is unknown.
/// It fails only where store or cache fail: with dependable ones it succeeds.
pub proof fn law_shortened_url_resolves<
    R: UrlRepository,
    C: CacheService,
    G: ShortCodeGenerator,
>(
    before: DefaultUrlService<R, C, G>,
    request: CreateUrlRequest,
    between: DefaultUrlService<R, C, G>,
    response: CreateUrlResponse,
    after: DefaultUrlService<R, C, G>,
    outcome: Result<Resolution, AppError>,
)
    requires
        before.coherent(),
        before.cache.authoritative(),
        DefaultUrlService::shortened(before, request, between, Ok(response)),
        DefaultUrlService::resolved(between, response.short_code@, after, outcome),
    ensures
        outcome matches Ok(resolution) ==> resolution.long_url@ == request.url@,
        !(outcome matches Err(AppError::NotFound(_))),
        before.dependable() ==> outcome is Ok,
{
    DefaultUrlService::law_shortening_keeps_coherence(before, request, between, Ok(response));
    let code = response.short_code@;
    assert(between.records().contains_key(code));
    assert(between.records()[code].long_url == request.url@);
    if let Ok(Resolution { follow_up: ClickFollowUp::CountInCache { .. }, .. }) = outcome {
        assert(between.cache.authoritative());
        assert(after.cached().submap_of(between.cached()));
        assert(after.cached().dom().contains(code));
        assert(between.cached().dom().contains(code));
        assert(between.cached()[code] == after.cached()[code]);
    }
}

/// Shortening the same URL again hands out the same code and stores nothing.
///
/// Where cache and store are coherent, a second request for a URL that has
/// just been shortened, without a custom code, leaves the records as they
/// are; it answers with the code of the first request or fails because the
/// store fails, which a dependable one does not.
pub proof fn law_shortening_is_idempotent<
    R: UrlRepository,
    C: CacheService,
    G: ShortCodeGenerator,
>(
    before: DefaultUrlService<R, C, G>,
    request: CreateUrlRequest,
    between: DefaultUrlService<R, C, G>,
    first: CreateUrlResponse,
    after: DefaultUrlService<R, C, G>,
    second: Result<CreateUrlResponse, AppError>,
)
    requires
        before.coherent(),
        request.custom_code is None,
        DefaultUrlService::shortened(before, request, between, Ok(first)),
        DefaultUrlService::shortened(between, request, after, second),
    ensures
        after.records() == between.records(),
        after.cached() == between.cached(),
        match second {
            Ok(again) => again.short_code@ == first.short_code@,
            Err(e) => e is Database,
        },
        before.dependable() ==> second is Ok,
{
    DefaultUrlService::law_shortening_keeps_coherence(before, request, between, Ok(first));
    let code = first.short_code@;
    assert(between.records().contains_key(code));
    assert(between.records()[code].long_url == request.url@);
    assert(!none_for(between.records(), request.url@));
    match second {
        Ok(again) => {
            assert(DefaultUrlService::reused(between, request, after, again));
            assert(between.records().contains_key(again.short_code@));
        },
        Err(_) => {},
    }
}

/// A custom code that is taken is refused.
///
/// Where a request was answered with the custom code it asked for, a later
/// acceptable request that asks for the same code, for a URL that has no
/// record, fails and changes nothing: with `AlreadyExists`, unless the store
/// fails, which a dependable one does not. A request for a URL that has a
/// record is answered with that record instead, whatever code it asks for,
/// and so is left out here.
pub proof fn law_taken_custom_code_is_refused<
    R: UrlRepository,
    C: CacheService,
    G: ShortCodeGenerator,
>(
    before: DefaultUrlService<R, C, G>,
    first_request: CreateUrlRequest,
    between: DefaultUrlService<R, C, G>,
    first: CreateUrlResponse,
    second_request: CreateUrlRequest,
    after: DefaultUrlService<R, C, G>,
    second: Result<CreateUrlResponse, AppError>,
)
    requires
        DefaultUrlService::shortened(before, first_request, between, Ok(first)),
        second_request.custom_code matches Some(wanted) && wanted@ == first.short_code@,
        second_request.acceptable(),
        none_for(between.records(), second_request.url@),
        DefaultUrlService::shortened(between, second_request, after, second),
    ensures
        second matches Err(e) && (e is AlreadyExists || e is Database),
        before.dependable() ==> second matches Err(AppError::AlreadyExists(_)),
        DefaultUrlService::untouched(between, after),
{
    assert(between.records().contains_key(first.short_code@));
}

/// A short code that has been deleted is not found.
///
/// Where the cache is authoritative and deleting a code succeeded, neither
/// its record nor its cache entries are left, and resolving the code fails:
/// it says that the code is unknown, unless store or cache fail, which
/// dependable ones do not.
pub proof fn law_deleted_code_is_not_found<
    R: UrlRepository,
    C: CacheService,
    G: ShortCodeGenerator,
>(
    before: DefaultUrlService<R, C, G>,
    code: Seq<char>,
    between: DefaultUrlService<R, C, G>,
    removed: bool,
    after: DefaultUrlService<R, C, G>,
    outcome: Result<Resolution, AppError>,
)
    requires
        before.cache.authoritative(),
        DefaultUrlService::deleted(before, code, between, Ok(removed)),
        DefaultUrlService::resolved(between, code, after, outcome),
    ensures
        !between.records().contains_key(code),
        !between.cached().contains_key(code),
        !between.cached().contains_key(counter_key(code)),
        outcome matches Err(e) && (e is NotFound || e is Database || e is Redis),
        before.dependable() ==> outcome matches Err(AppError::NotFound(_)),
{
    if let Ok(Resolution { follow_up: ClickFollowUp::CountInCache { .. }, .. }) = outcome {
        assert(after.cached().dom().contains(code));
        assert(between.cached().contains_key(code));
    }
}

/// A cached click count is preferred to the durable one: whatever the
/// record says, the decimal text of a count in the cache is what is reported.
pub proof fn law_cached_count_is_preferred(cached: i32, durable: i32)
    ensures
        preferred(Some(decimal_string(cached as int)), durable) == cached,
{
    lemma_parse_decimal_string(cached as int);
}

} // verus!
