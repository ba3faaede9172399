//! The generator, the cache and the service that ties them together.

pub mod cache_service;
pub mod codes;
pub mod coherence;
pub mod fallback;
pub mod laws;
pub mod short_code_generator;
pub mod url_service;

pub use cache_service::{Command, CommandLog, Exchange, NoPrimary, PrimaryReply, PrimaryStore,
    RedisCacheService, Reply};
pub use short_code_generator::{DefaultShortCodeGenerator, RandomShortCodeGenerator};
pub use url_service::DefaultUrlService;
