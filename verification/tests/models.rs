use tinyurl_rs::models::dto::{validate_parsed, CreateUrlRequest};
use tinyurl_rs::models::error::{AppError, ErrorKind, ErrorResponse};
use tinyurl_rs::models::url::{Timestamp, TinyUrl};

fn every_error() -> Vec<(AppError, ErrorKind, &'static str, u16, &'static str)> {
    let d = || "detail".to_string();
    let server = "Internal server error";
    vec![
        (AppError::Database(d()), ErrorKind::Database, "Database error: detail", 500, server),
        (AppError::Redis(d()), ErrorKind::Redis, "Redis error: detail", 500, server),
        (
            AppError::NotFound(d()),
            ErrorKind::NotFound,
            "URL not found: detail",
            404,
            "Resource not found",
        ),
        (
            AppError::InvalidUrl(d()),
            ErrorKind::InvalidUrl,
            "Invalid URL: detail",
            400,
            "Invalid URL provided",
        ),
        (
            AppError::AlreadyExists(d()),
            ErrorKind::AlreadyExists,
            "URL already exists: detail",
            409,
            "Resource already exists",
        ),
        (
            AppError::Internal(d()),
            ErrorKind::Internal,
            "Internal server error: detail",
            500,
            server,
        ),
        (
            AppError::Validation(d()),
            ErrorKind::Validation,
            "Validation error: detail",
            400,
            "Validation failed",
        ),
    ]
}

#[test]
fn errors_render_with_their_prefix() {
    for (error, kind, text, _, _) in every_error() {
        assert_eq!(error.kind(), kind);
        assert_eq!(error.to_string(), text);
    }
    assert_eq!(AppError::NotFound(String::new()).to_string(), "URL not found: ");
}

#[test]
fn errors_map_to_status_codes() {
    for (error, _, _, code, _) in every_error() {
        assert_eq!(error.status_code(), code);
    }
}

#[test]
fn error_responses_carry_text_summary_and_code() {
    for (error, _, text, code, summary) in every_error() {
        let response = error.error_response();
        assert_eq!(response.error, text);
        assert_eq!(response.message, summary);
        assert_eq!(response.code, code);
    }
}

#[test]
fn a_missing_short_code_is_answered_with_404() {
    let response: ErrorResponse = ErrorResponse::short_code_not_found();
    assert_eq!(response.error, "Short code not found");
    assert_eq!(response.message, "The specified short code does not exist");
    assert_eq!(response.code, 404);
}

#[test]
fn a_new_record_has_no_id_and_no_clicks() {
    let url = TinyUrl::new("abc".to_string(), "https://example.com".to_string());
    assert_eq!(url.id, 0);
    assert_eq!(url.short_code, "abc");
    assert_eq!(url.long_url, "https://example.com");
    assert_eq!(url.qr_code, None);
    assert_eq!(url.clicks, 0);
    assert_eq!(url.created_at, url.updated_at);
    assert!(url.created_at.seconds > 1_600_000_000);
}

#[test]
fn a_click_raises_the_count_by_one() {
    let mut url = TinyUrl::new("abc".to_string(), "https://example.com".to_string());
    let created = url.created_at;
    url.increment_clicks();
    assert_eq!(url.clicks, 1);
    url.increment_clicks();
    assert_eq!(url.clicks, 2);
    assert_eq!(url.created_at, created);
    assert_eq!(url.short_code, "abc");
    assert_eq!(url.long_url, "https://example.com");
    assert!(created.seconds <= url.updated_at.seconds);
}

#[test]
fn a_full_click_count_stays_full() {
    let mut url = TinyUrl::new("abc".to_string(), "https://example.com".to_string());
    url.clicks = i32::MAX - 1;
    url.increment_clicks();
    assert_eq!(url.clicks, i32::MAX);
    url.increment_clicks();
    assert_eq!(url.clicks, i32::MAX);
}

#[test]
fn statistics_copy_the_record() {
    let mut url = TinyUrl::new("abc".to_string(), "https://example.com".to_string());
    url.clicks = 5;
    url.created_at = Timestamp { seconds: 10, nanos: 1 };
    url.updated_at = Timestamp { seconds: 20, nanos: 2 };
    let stats = url.to_stats();
    assert_eq!(stats.short_code, "abc");
    assert_eq!(stats.long_url, "https://example.com");
    assert_eq!(stats.clicks, 5);
    assert_eq!(stats.created_at, Timestamp { seconds: 10, nanos: 1 });
    assert_eq!(stats.updated_at, Timestamp { seconds: 20, nanos: 2 });
}

#[test]
fn a_copy_of_a_record_holds_the_same() {
    let mut url = TinyUrl::new("abc".to_string(), "https://example.com".to_string());
    url.id = 9;
    url.qr_code = Some("qr".to_string());
    url.clicks = 4;
    let copy = url.clone();
    assert_eq!(copy.id, 9);
    assert_eq!(copy.short_code, "abc");
    assert_eq!(copy.long_url, "https://example.com");
    assert_eq!(copy.qr_code, Some("qr".to_string()));
    assert_eq!(copy.clicks, 4);
    assert_eq!(copy.created_at, url.created_at);
    assert_eq!(copy.updated_at, url.updated_at);
}

fn request(url: &str, custom_code: Option<&str>) -> CreateUrlRequest {
    CreateUrlRequest { url: url.to_string(), custom_code: custom_code.map(|c| c.to_string()) }
}

#[test]
fn a_request_with_a_url_and_a_sound_code_is_valid() {
    assert!(request("https://www.example.com/very/long/url", None).validate().is_ok());
    assert!(request("https://www.example.com/", Some("abc-123")).validate().is_ok());
    assert!(request("ftp://files.example.com/a?b=c#d", Some("a")).validate().is_ok());
}

#[test]
fn a_request_whose_url_does_not_parse_is_invalid() {
    for bad in ["", "not a url", "www.example.com", "/just/a/path", "http://"] {
        match request(bad, None).validate() {
            Err(AppError::InvalidUrl(m)) => assert_eq!(m, "Invalid URL format"),
            other => panic!("{:?} gave {:?}", bad, other),
        }
    }
    // the URL is judged before the custom code
    assert!(matches!(request("nope", Some("")).validate(), Err(AppError::InvalidUrl(_))));
}

#[test]
fn a_request_with_an_unsound_code_is_invalid() {
    for bad in ["", "abcdefghijklmnopqrstu", "abc!"] {
        assert!(matches!(
            request("https://example.com", Some(bad)).validate(),
            Err(AppError::Validation(_))
        ));
    }
}

#[test]
fn a_parsed_request_is_judged_by_its_code() {
    assert!(validate_parsed(true, &None).is_ok());
    assert!(validate_parsed(true, &Some("abc-123".to_string())).is_ok());
    assert!(matches!(validate_parsed(false, &None), Err(AppError::InvalidUrl(_))));
    assert!(matches!(
        validate_parsed(false, &Some("abc-123".to_string())),
        Err(AppError::InvalidUrl(_))
    ));
    assert!(matches!(
        validate_parsed(true, &Some("a b".to_string())),
        Err(AppError::Validation(_))
    ));
}
