use tinyurl_rs::models::error::AppError;
use tinyurl_rs::services::codes::{check_custom_code, clicks_key};
use tinyurl_rs::services::short_code_generator::{
    base62_symbol, fold_bytes, seed_message, DefaultShortCodeGenerator, RandomShortCodeGenerator,
};
use tinyurl_rs::traits::service::ShortCodeGenerator;

const ALPHABET: &str = "0123456789ABCDEFGHIJKLMNOPQRSTUVWXYZabcdefghijklmnopqrstuvwxyz";

struct FixedGenerator;

impl ShortCodeGenerator for FixedGenerator {
    fn generate(&self, _url: &str, _length: usize) -> String {
        "fixed".to_string()
    }

    fn generate_custom(&self, custom_code: &str) -> Result<String, AppError> {
        Ok(custom_code.to_string())
    }
}

#[test]
fn a_generator_can_be_written_outside_the_crate() {
    assert_eq!(FixedGenerator.generate("https://example.com", 3), "fixed");
}

#[test]
fn base62_symbols_follow_the_alphabet() {
    for (i, c) in ALPHABET.chars().enumerate() {
        assert_eq!(base62_symbol(i as u8), c);
    }
}

#[test]
fn fold_bytes_is_little_endian() {
    assert_eq!(fold_bytes(&[]), 0);
    assert_eq!(fold_bytes(&[1]), 1);
    assert_eq!(fold_bytes(&[0, 1]), 256);
    assert_eq!(fold_bytes(&[0x78, 0x56, 0x34, 0x12]), 0x1234_5678);
    assert_eq!(fold_bytes(&[0xff; 8]), u64::MAX);
    assert_eq!(fold_bytes(&[1, 0, 0, 0, 0, 0, 0, 0, 9, 9]), 1);
}

#[test]
fn bytes_to_base62_writes_least_significant_digit_first() {
    let generator = DefaultShortCodeGenerator::new();
    // 62 * 62 * 3 + 62 * 2 + 1 = 11657 = 0x2d89
    assert_eq!(generator.bytes_to_base62(&[0x89, 0x2d], 3), "123");
    assert_eq!(generator.bytes_to_base62(&[0x89, 0x2d], 2), "12");
    assert_eq!(generator.bytes_to_base62(&[0x89, 0x2d], 0), "");
    // u64::MAX = "LygHa16AHYF" read from the most significant digit
    assert_eq!(generator.bytes_to_base62(&[0xff; 8], 11), "FYHA61aHgyL");
    assert_eq!(generator.bytes_to_base62(&[0xff; 8], 8), "FYHA61aH");
}

#[test]
fn bytes_to_base62_fills_up_after_the_number_runs_out() {
    let generator = DefaultShortCodeGenerator::new();
    let code = generator.bytes_to_base62(&[61], 12);
    assert_eq!(code.len(), 12);
    assert!(code.starts_with('z'));
    assert!(code.chars().all(|c| ALPHABET.contains(c)));
    let zero = generator.bytes_to_base62(&[], 5);
    assert_eq!(zero.len(), 5);
    assert!(zero.starts_with('0'));
}

#[test]
fn seed_message_joins_url_timestamp_and_nonce() {
    assert_eq!(seed_message("http://a.b/", 1700000000, 42), b"http://a.b/170000000042".to_vec());
    assert_eq!(seed_message("", -5, 0), b"-50".to_vec());
    assert_eq!(
        seed_message("x", i64::MIN, u64::MAX),
        b"x-922337203685477580818446744073709551615".to_vec()
    );
}

#[test]
fn default_generator_makes_base62_codes_of_the_length_asked() {
    let generator = DefaultShortCodeGenerator::new();
    for length in [0usize, 1, 8, 11, 20, 64] {
        let code = generator.generate("https://www.example.com/very/long/url", length);
        assert_eq!(code.chars().count(), length);
        assert!(code.chars().all(|c| ALPHABET.contains(c)));
    }
}

#[test]
fn random_generator_makes_base62_codes_of_the_length_asked() {
    let generator = RandomShortCodeGenerator;
    for length in [0usize, 1, 8, 40] {
        let code = generator.generate("ignored", length);
        assert_eq!(code.chars().count(), length);
        assert!(code.chars().all(|c| ALPHABET.contains(c)));
    }
}

#[test]
fn custom_code_validation_rejects_empty_long_and_odd_codes() {
    let generator = DefaultShortCodeGenerator::new();
    for bad in ["", "abcdefghijklmnopqrstu", "abc!"] {
        assert!(matches!(generator.generate_custom(bad), Err(AppError::Validation(_))));
        assert!(matches!(
            RandomShortCodeGenerator.generate_custom(bad),
            Err(AppError::Validation(_))
        ));
    }
    assert_eq!(generator.generate_custom("abc-123").unwrap(), "abc-123");
    assert_eq!(RandomShortCodeGenerator.generate_custom("abc-123").unwrap(), "abc-123");
    assert_eq!(generator.generate_custom("abcdefghijklmnopqrst").unwrap(), "abcdefghijklmnopqrst");
}

#[test]
fn custom_code_errors_name_the_rule_broken() {
    match check_custom_code("") {
        Err(AppError::Validation(m)) => {
            assert_eq!(m, "Custom code must be between 1 and 20 characters")
        }
        other => panic!("unexpected: {:?}", other),
    }
    match check_custom_code("a b") {
        Err(AppError::Validation(m)) => {
            assert_eq!(m, "Custom code can only contain alphanumeric characters and hyphens")
        }
        other => panic!("unexpected: {:?}", other),
    }
    // length is judged before the characters
    match check_custom_code("!!!!!!!!!!!!!!!!!!!!!") {
        Err(AppError::Validation(m)) => {
            assert_eq!(m, "Custom code must be between 1 and 20 characters")
        }
        other => panic!("unexpected: {:?}", other),
    }
}

#[test]
fn custom_code_length_is_counted_in_bytes() {
    // ten letters of two bytes each: twenty bytes
    assert!(check_custom_code("éééééééééé").is_ok());
    // eleven of them: twenty-two bytes
    assert!(matches!(check_custom_code("ééééééééééé"), Err(AppError::Validation(_))));
    // letters and digits beyond ASCII count as alphanumeric
    assert!(check_custom_code("код-٣").is_ok());
    assert!(matches!(check_custom_code("a:b"), Err(AppError::Validation(_))));
    assert!(matches!(check_custom_code("a_b"), Err(AppError::Validation(_))));
}

#[test]
fn clicks_key_prefixes_the_code() {
    assert_eq!(clicks_key("abc"), "clicks:abc");
    assert_eq!(clicks_key(""), "clicks:");
}
