//! Records, requests, responses and errors.

pub mod dto;
pub mod error;
pub mod url;

pub use dto::{ClickFollowUp, CreateUrlRequest, CreateUrlResponse, HealthResponse, Resolution,
    UrlStatsResponse};
pub use error::{AppError, ErrorKind, ErrorResponse};
pub use url::{Timestamp, TinyUrl, TinyUrlView, UrlStats};
