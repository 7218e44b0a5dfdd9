use cacher::cache_control::{CacheControlRequest, CacheControlResponse};
use cacher::error::ProxyError;

#[test]
fn request_directives_are_found_by_prefix_and_lowercased() {
    let c = CacheControlRequest::try_from(Some("Max-Age=60 , No-Cache,only-if-cached")).unwrap();
    assert_eq!(c.max_age.as_deref(), Some("max-age=60"));
    assert_eq!(c.no_cache.as_deref(), Some("no-cache"));
    assert_eq!(c.only_if_cached.as_deref(), Some("only-if-cached"));
    assert_eq!(c.no_store, None);
    assert_eq!(c.max_stale, None);
}

#[test]
fn request_directive_takes_first_matching_token() {
    let c = CacheControlRequest::try_from(Some("max-age=1, max-age=2")).unwrap();
    assert_eq!(c.max_age.as_deref(), Some("max-age=1"));
}

#[test]
fn missing_header_is_an_error() {
    assert!(matches!(CacheControlRequest::try_from(None), Err(ProxyError::MissingCacheControl)));
    assert!(matches!(CacheControlResponse::try_from(None), Err(ProxyError::MissingCacheControl)));
}

#[test]
fn missing_header_falls_back_to_defaults() {
    let c = CacheControlRequest::from_header_or_default(None);
    assert!(c.max_age.is_none() && c.no_cache.is_none() && c.stale_if_error.is_none());
    let r = CacheControlResponse::from_header_or_default(None);
    assert!(r.public.is_none() && r.private.is_none() && r.immutable.is_none());
}

#[test]
fn empty_header_gives_empty_set() {
    let c = CacheControlRequest::try_from(Some("")).unwrap();
    assert!(c.max_age.is_none() && c.no_store.is_none());
}

#[test]
fn response_directives_keep_values_verbatim() {
    let r = CacheControlResponse::try_from(Some("public, s-maxage=300, stale-while-revalidate=30")).unwrap();
    assert_eq!(r.public.as_deref(), Some("public"));
    assert_eq!(r.s_maxage.as_deref(), Some("s-maxage=300"));
    assert_eq!(r.stale_while_revalidate.as_deref(), Some("stale-while-revalidate=30"));
    assert_eq!(r.max_age, None);
}

#[test]
fn response_prefix_match_accepts_longer_token() {
    let r = CacheControlResponse::from_header_or_default(Some("privateXYZ"));
    assert_eq!(r.private.as_deref(), Some("privatexyz"));
}
