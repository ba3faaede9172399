//! Requests and responses of the service.

use vstd::prelude::*;
use vstd::string::*;
use crate::models::error::AppError;
use crate::models::url::{Timestamp, TinyUrl};
use crate::services::codes::{check_custom_code, custom_code_verdict};
use crate::text::chars::optional_text;

verus! {

/// A request to shorten `url`, under `custom_code` where one is given.
#[derive(Debug)]
pub struct CreateUrlRequest {
    pub url: String,
    pub custom_code: Option<String>,
}

/// The answer to a request to shorten a URL.
#[derive(Debug)]
pub struct CreateUrlResponse {
    pub short_url: String,
    pub long_url: String,
    pub short_code: String,
    pub qr_code: Option<String>,
}

/// The statistics of a shortened URL.
#[derive(Debug)]
pub struct UrlStatsResponse {
    pub short_code: String,
    pub long_url: String,
    pub clicks: i32,
    pub created_at: Timestamp,
    pub updated_at: Timestamp,
}

/// The answer to a health check.
#[derive(Debug)]
pub struct HealthResponse {
    pub status: String,
    pub timestamp: Timestamp,
}

/// What is left to do for a click once the caller has its answer. The
/// service hands it out instead of doing it, so that the answer need not wait
/// for it; `UrlService::complete` does it.
#[derive(Debug)]
pub enum ClickFollowUp {
    /// The URL came from the cache: count the click in the cache.
    CountInCache { short_code: String },
    /// The URL came from the durable store: write back the record, which
    /// holds the raised count.
    Persist { record: TinyUrl },
}

/// The long URL a short code stands for, and what is left to do for the click.
#[derive(Debug)]
pub struct Resolution {
    pub long_url: String,
    pub follow_up: ClickFollowUp,
}

/// Whether `text` parses as a URL.
pub uninterp spec fn url_parses(text: Seq<char>) -> bool;

/// Asks `url::Url::parse` whether `text` is a URL.
///
/// The parser reads the text and nothing else, so the answer is a function
/// of the text. Which texts it accepts is left to the `url` crate.
#[verifier::external_body]
fn parses_as_url(text: &str) -> (ok: bool)
    ensures
        ok == url_parses(text@),
{
    ::url::Url::parse(text).is_ok()
}

/// The detail of the error for a URL that does not parse.
pub open spec fn invalid_url_detail() -> Seq<char> {
    "Invalid URL format"@
}

/// What validating a request yields, given whether its URL parses: the
/// URL is judged first, then the custom code where one is given.
pub open spec fn request_verdict(
    url_ok: bool,
    custom_code: Option<Seq<char>>,
    r: Result<(), AppError>,
) -> bool {
    if !url_ok {
        r matches Err(AppError::InvalidUrl(m)) && m@ == invalid_url_detail()
    } else {
        match custom_code {
            Some(code) => custom_code_verdict(code, r),
            None => r is Ok,
        }
    }
}

/// Judges a request whose URL has been put to the parser: `url_ok` says
/// whether it parsed.
pub fn validate_parsed(url_ok: bool, custom_code: &Option<String>) -> (r: Result<(), AppError>)
    ensures
        request_verdict(url_ok, optional_text(*custom_code), r),
{
    if !url_ok {
        return Err(AppError::InvalidUrl("Invalid URL format".to_owned()));
    }
    match custom_code {
        Some(code) => check_custom_code(code.as_str()),
        None => Ok(()),
    }
}

impl CreateUrlRequest {
    /// Whether this request is acceptable.
    pub open spec fn acceptable(&self) -> bool {
        url_parses(self.url@) && (self.custom_code matches Some(code)
            ==> crate::services::codes::valid_custom_code(code@))
    }

    /// Checks the URL and, where one is given, the custom code.
    pub fn validate(&self) -> (r: Result<(), AppError>)
        ensures
            request_verdict(url_parses(self.url@), optional_text(self.custom_code), r),
            r is Ok <==> self.acceptable(),
    {
        let url_ok = parses_as_url(self.url.as_str());
        validate_parsed(url_ok, &self.custom_code)
    }
}

} // verus!
