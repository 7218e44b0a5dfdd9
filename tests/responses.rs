use cacher::error::ProxyError;
use cacher::response::{get_http_version, http_version_as_str, CacheStatus, HttpVersion, ProxyResponse};

fn response(status: u16, headers: &[(&str, &str)], body: &str) -> ProxyResponse {
    ProxyResponse {
        status,
        version: HttpVersion::Http11,
        headers: headers.iter().map(|(k, v)| (k.to_string(), v.to_string())).collect(),
        body: body.to_string(),
    }
}

#[test]
fn versions_round_trip() {
    for v in [HttpVersion::Http09, HttpVersion::Http10, HttpVersion::Http11, HttpVersion::Http2, HttpVersion::Http3] {
        assert_eq!(get_http_version(http_version_as_str(v)), v);
    }
    assert_eq!(http_version_as_str(HttpVersion::Http2), "HTTP/2");
    assert_eq!(get_http_version("HTTP/1.0"), HttpVersion::Http10);
}

#[test]
fn unknown_version_reads_as_http11() {
    assert_eq!(get_http_version("SPDY/3"), HttpVersion::Http11);
    assert_eq!(get_http_version(""), HttpVersion::Http11);
}

#[test]
fn valid_response_passes_wire_check() {
    let r = response(200, &[("content-type", "text/plain"), ("x-tab", "a\tb")], "ok");
    assert!(r.check_wire().is_ok());
}

#[test]
fn status_out_of_range_is_refused() {
    assert!(matches!(response(99, &[], "").check_wire(), Err(ProxyError::InvalidStatus(99))));
    assert!(matches!(response(1000, &[], "").check_wire(), Err(ProxyError::InvalidStatus(1000))));
    assert!(response(999, &[], "").check_wire().is_ok());
}

#[test]
fn bad_header_name_is_refused() {
    match response(200, &[("ok", "1"), ("bad name", "1")], "").check_wire() {
        Err(ProxyError::InvalidHeader(name)) => assert_eq!(name, "bad name"),
        other => panic!("unexpected {:?}", other),
    }
    assert!(matches!(response(200, &[("", "1")], "").check_wire(), Err(ProxyError::InvalidHeader(_))));
}

#[test]
fn bad_header_value_is_refused() {
    match response(200, &[("x-line", "a\nb")], "").check_wire() {
        Err(ProxyError::InvalidHeader(name)) => assert_eq!(name, "x-line"),
        other => panic!("unexpected {:?}", other),
    }
    assert!(matches!(response(200, &[("x-del", "\u{7f}")], "").check_wire(), Err(ProxyError::InvalidHeader(_))));
}

#[test]
fn non_ascii_header_value_is_refused() {
    match response(200, &[("x-ok", "plain"), ("x-accent", "caf\u{e9}")], "").check_wire() {
        Err(ProxyError::InvalidHeader(name)) => assert_eq!(name, "x-accent"),
        other => panic!("unexpected {:?}", other),
    }
    assert!(response(200, &[("x-edge", " ~")], "").check_wire().is_ok());
}

#[test]
fn cache_status_is_appended_never_replacing() {
    let r = response(200, &[("cacher_status", "OLD")], "b").with_cache_status(CacheStatus::Hit);
    assert_eq!(r.headers.len(), 2);
    assert_eq!(r.headers[0], ("cacher_status".to_string(), "OLD".to_string()));
    assert_eq!(r.headers[1], ("cacher_status".to_string(), "HIT".to_string()));
    assert_eq!(r.body, "b");
    assert_eq!(CacheStatus::Miss.as_str(), "MISS");
    assert_eq!(CacheStatus::Dynamic.as_str(), "DYNAMIC");
}

#[test]
fn copy_keeps_every_part() {
    let r = response(404, &[("a", "1"), ("b", "2")], "missing");
    let c = r.copy();
    assert_eq!(c.status, 404);
    assert_eq!(c.version, HttpVersion::Http11);
    assert_eq!(c.headers, r.headers);
    assert_eq!(c.body, "missing");
}

#[test]
fn header_name_edges_follow_the_token_rules() {
    assert!(response(200, &[("x\"q!#$%&'*+-.^_`|~9", "1")], "").check_wire().is_ok());
    assert!(matches!(response(200, &[("x:y", "1")], "").check_wire(), Err(ProxyError::InvalidHeader(_))));
    assert!(matches!(response(200, &[("caf\u{e9}", "1")], "").check_wire(), Err(ProxyError::InvalidHeader(_))));
    let longest = "a".repeat(65535);
    assert!(response(200, &[(longest.as_str(), "1")], "").check_wire().is_ok());
    let too_long = "a".repeat(65536);
    assert!(matches!(response(200, &[(too_long.as_str(), "1")], "").check_wire(), Err(ProxyError::InvalidHeader(_))));
}
