//! Interfaces of the collaborators the service is built from.

pub mod repository;
pub mod service;

pub use repository::UrlRepository;
pub use service::{CacheService, ShortCodeGenerator, UrlService};
