//! The settings of the service and what is derived from them.

use vstd::prelude::*;
use vstd::string::*;
use crate::text::chars::optional_text;
use crate::text::decimal::{decimal_string, format_i64, format_u64, parse_i32, parse_i32_spec};

verus! {

/// The settings of the service.
#[derive(Debug)]
pub struct Config {
    pub app: String,
    pub port: i32,
    pub host: String,
    pub db_host: String,
    pub db_port: i32,
    pub db_user: String,
    pub db_password: String,
    pub db_name: String,
    pub redis_url: Option<String>,
}

/// The text of a setting: what was given, or the default where nothing was.
pub open spec fn text_or(given: Option<Seq<char>>, default: Seq<char>) -> Seq<char> {
    match given {
        Some(text) => text,
        None => default,
    }
}

/// The number of a setting: what was given where it reads as an `i32`, the
/// default where nothing was given or it does not.
pub open spec fn number_or(given: Option<Seq<char>>, default: i32) -> i32 {
    match given {
        Some(text) => match parse_i32_spec(text) {
            Some(number) => number,
            None => default,
        },
        None => default,
    }
}

/// The base URL for a host and a port: `https` on port 443 and `http`
/// elsewhere, and the port named unless it is 80 or 443.
pub open spec fn base_url_of(host: Seq<char>, port: i32) -> Seq<char> {
    (if port == 443 {
        "https"@
    } else {
        "http"@
    }) + "://"@ + (if port == 80 || port == 443 {
        host
    } else {
        host + ":"@ + decimal_string(port as int)
    })
}

/// The address of the database for the given credentials and place.
pub open spec fn database_url_of(
    username: Seq<char>,
    password: Seq<char>,
    host: Seq<char>,
    port: u16,
    database: Seq<char>,
) -> Seq<char> {
    "postgres://"@ + username + ":"@ + password + "@"@ + host + ":"@ + decimal_string(port as int)
        + "/"@ + database
}

/// The text of a setting.
fn setting(given: Option<String>, default: &str) -> (text: String)
    ensures
        text@ == text_or(optional_text(given), default@),
{
    match given {
        Some(text) => text,
        None => default.to_owned(),
    }
}

/// The number of a setting.
fn number_setting(given: Option<String>, default: i32) -> (number: i32)
    ensures
        number == number_or(optional_text(given), default),
{
    match given {
        Some(text) => match parse_i32(text.as_str()) {
            Some(number) => number,
            None => default,
        },
        None => default,
    }
}

impl Config {
    /// The settings for what the environment holds. Each argument is the
    /// value of one variable, `None` where it is not set. A setting that is
    /// not set takes its default, and so does a port that is no number.
    pub fn from_values(
        app: Option<String>,
        port: Option<String>,
        host: Option<String>,
        db_host: Option<String>,
        db_port: Option<String>,
        db_user: Option<String>,
        db_password: Option<String>,
        db_name: Option<String>,
        redis_url: Option<String>,
    ) -> (config: Config)
        ensures
            config.app@ == text_or(optional_text(app), "tinyurl-rs"@),
            config.port == number_or(optional_text(port), 8080),
            config.host@ == text_or(optional_text(host), "127.0.0.1"@),
            config.db_host@ == text_or(optional_text(db_host), "localhost"@),
            config.db_port == number_or(optional_text(db_port), 5432),
            config.db_user@ == text_or(optional_text(db_user), "postgres"@),
            config.db_password@ == text_or(optional_text(db_password), "postgres"@),
            config.db_name@ == text_or(optional_text(db_name), "tinyurl"@),
            optional_text(config.redis_url) == optional_text(redis_url),
    {
        Config {
            app: setting(app, "tinyurl-rs"),
            port: number_setting(port, 8080),
            host: setting(host, "127.0.0.1"),
            db_host: setting(db_host, "localhost"),
            db_port: number_setting(db_port, 5432),
            db_user: setting(db_user, "postgres"),
            db_password: setting(db_password, "postgres"),
            db_name: setting(db_name, "tinyurl"),
            redis_url,
        }
    }

    /// The base URL under which short URLs are handed out.
    pub fn base_url(&self) -> (url: String)
        ensures
            url@ == base_url_of(self.host@, self.port),
    {
        let mut url = if self.port == 443 {
            "https".to_owned()
        } else {
            "http".to_owned()
        };
        url.append("://");
        url.append(self.host.as_str());
        if !(self.port == 80 || self.port == 443) {
            url.append(":");
            let port = format_i64(self.port as i64);
            url.append(port.as_str());
        }
        assert(url@ =~= base_url_of(self.host@, self.port));
        url
    }
}

/// The address of the database for the given credentials and place.
pub fn database_url(username: &str, password: &str, host: &str, port: u16, database: &str) -> (url:
    String)
    ensures
        url@ == database_url_of(username@, password@, host@, port, database@),
{
    let mut url = "postgres://".to_owned();
    url.append(username);
    url.append(":");
    url.append(password);
    url.append("@");
    url.append(host);
    url.append(":");
    let port_text = format_u64(port as u64);
    url.append(port_text.as_str());
    url.append("/");
    url.append(database);
    assert(url@ =~= database_url_of(username@, password@, host@, port, database@));
    url
}

} // verus!
