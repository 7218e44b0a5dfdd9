//! Settings of the proxy, each with a built-in default.

use vstd::prelude::*;
use vstd::string::*;
use crate::text::{owned, text_is};

verus! {

/// The origin that requests go to unless configured otherwise.
pub const BACKEND_HOST: &'static str = "http://stubr.rs:9191";

/// The key-value store used unless configured otherwise.
pub const REDIS_URL: &'static str = "redis://127.0.0.1:6379/";

/// How long a stored response lives, in seconds, unless configured otherwise.
pub const CACHE_TTL_SECS: u64 = 5;

/// The proxy's settings.
#[derive(Debug, Clone)]
pub struct CacherConfig {
    /// Base URL of the origin, scheme and authority.
    pub backend_host: String,
    /// Whether keys take the origin's `Vary` header into account.
    pub handle_vary: bool,
    /// Connection string of the key-value store.
    pub redis_url: String,
    /// Lifetime of a stored response, in seconds.
    pub ttl_secs: u64,
    /// Whether every request goes to the origin untouched by the store.
    pub bypass: bool,
}

/// The value of an override, or the default.
pub open spec fn setting_or(o: Option<String>, default: Seq<char>) -> Seq<char> {
    match o {
        Some(s) => s@,
        None => default,
    }
}

fn string_or(o: Option<String>, default: &str) -> (r: String)
    ensures
        r@ == setting_or(o, default@),
{
    match o {
        Some(s) => s,
        None => owned(default),
    }
}

impl CacherConfig {
    /// Builds the settings from optional overrides: the origin, the
    /// `Vary` switch (on only for the exact text `true`) and the store's
    /// connection string. Responses live five seconds and nothing is bypassed.
    pub fn from_overrides(backend: Option<String>, vary: Option<String>, redis: Option<String>) -> (r: CacherConfig)
        ensures
            r.backend_host@ == setting_or(backend, BACKEND_HOST@),
            r.handle_vary == (setting_or(vary, "false"@) == "true"@),
            r.redis_url@ == setting_or(redis, REDIS_URL@),
            r.ttl_secs == CACHE_TTL_SECS,
            !r.bypass,
    {
        let vary_text = string_or(vary, "false");
        let handle_vary = text_is(vary_text.as_str(), "true");
        CacherConfig {
            backend_host: string_or(backend, BACKEND_HOST),
            handle_vary,
            redis_url: string_or(redis, REDIS_URL),
            ttl_secs: CACHE_TTL_SECS,
            bypass: false,
        }
    }

    /// The origin's base URL.
    pub fn get_backend(&self) -> (r: &str)
        ensures
            r@ == self.backend_host@,
    {
        self.backend_host.as_str()
    }

    /// The store's connection string.
    pub fn get_redis(&self) -> (r: &str)
        ensures
            r@ == self.redis_url@,
    {
        self.redis_url.as_str()
    }
}

} // verus!
