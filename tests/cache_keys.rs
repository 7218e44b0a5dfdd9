use cacher::cache::{CacheKey, CacheKeyNoVary, CacheKeyWithVary};
use cacher::request::ProxyRequest;

fn request(method: &str, host: &str, port: Option<&str>, uri: &str, headers: &[(&str, &str)]) -> ProxyRequest {
    ProxyRequest {
        method: method.to_string(),
        scheme: "http".to_string(),
        host: host.to_string(),
        port: port.map(|p| p.to_string()),
        uri: uri.to_string(),
        headers: headers.iter().map(|(k, v)| (k.to_string(), v.to_string())).collect(),
    }
}

#[test]
fn no_vary_key_of_plain_get() {
    let req = request("GET", "host", None, "/a", &[]);
    assert_eq!(CacheKeyNoVary::from(&req).get(), "GET_http://host/a");
}

#[test]
fn no_vary_key_with_port_query_and_language() {
    let req = request("GET", "stubr.rs", Some("9191"), "/a?x=1", &[("accept-language", "fr-CH")]);
    assert_eq!(CacheKeyNoVary::from(&req).get(), "GET_http://stubr.rs:9191/a?x=1fr-CH");
}

#[test]
fn no_vary_key_language_lookup_ignores_case() {
    let req = request("POST", "h", None, "/", &[("Accept-Language", "en")]);
    assert_eq!(CacheKeyNoVary::from(&req).get(), "POST_http://h/en");
}

#[test]
fn no_vary_key_is_stable_across_calls() {
    let a = request("GET", "h", None, "/p", &[("x-other", "1"), ("accept-language", "de")]);
    let b = request("GET", "h", None, "/p", &[("accept-language", "de"), ("x-other", "2")]);
    let ka = CacheKeyNoVary::from(&a).get();
    assert_eq!(ka, CacheKeyNoVary::from(&a).get());
    assert_eq!(ka, CacheKeyNoVary::from(&b).get());
}

#[test]
fn vary_key_orders_values_by_header_name() {
    let req = request("GET", "h", None, "/v", &[("b-head", "2"), ("a-head", "1"), ("c-head", "3")]);
    let key = CacheKeyWithVary::new_from_proxy("c-head, a-head,b-head", &req).get();
    assert_eq!(key, "GET_http://h/v123");
}

#[test]
fn vary_key_ignores_header_order() {
    let a = request("GET", "h", Some("80"), "/v", &[("accept", "json"), ("accept-encoding", "gzip")]);
    let b = request("GET", "h", Some("80"), "/v", &[("accept-encoding", "gzip"), ("accept", "json")]);
    let ka = CacheKeyWithVary::new_from_proxy("Accept-Encoding, Accept", &a).get();
    let kb = CacheKeyWithVary::new_from_proxy("Accept, Accept-Encoding", &b).get();
    assert_eq!(ka, kb);
    assert_eq!(ka, "GET_http://h:80/vjsongzip");
}

#[test]
fn vary_key_counts_a_repeated_name_once_and_absent_as_empty() {
    let req = request("GET", "h", None, "/v", &[("x", "1")]);
    let key = CacheKeyWithVary::new_from_proxy("x, y, x", &req).get();
    assert_eq!(key, "GET_http://h/v1");
}

#[test]
fn vary_key_with_empty_vary_is_the_base() {
    let req = request("GET", "h", None, "/v", &[("x", "1")]);
    assert_eq!(CacheKeyWithVary::new_from_proxy("", &req).get(), "GET_http://h/v");
}

#[test]
fn header_lookup_takes_first_match() {
    let req = request("GET", "h", None, "/", &[("X-A", "1"), ("x-a", "2")]);
    assert_eq!(req.header("x-a"), "1");
    assert_eq!(req.header("missing"), "");
    assert_eq!(req.get_headers().len(), 2);
}

#[test]
fn vary_key_parts_hold_base_and_sorted_pairs() {
    let req = request("GET", "h", Some("8080"), "/v?q", &[("Zeta", "z"), ("alpha", "a")]);
    let parts = CacheKeyWithVary::new_from_proxy(" zeta ,alpha, missing", &req);
    assert_eq!(parts.uri, "GET_http://h:8080/v?q");
    assert_eq!(
        parts.vary_headers,
        vec![
            ("alpha".to_string(), "a".to_string()),
            ("missing".to_string(), "".to_string()),
            ("zeta".to_string(), "z".to_string()),
        ]
    );
    assert_eq!(parts.get(), "GET_http://h:8080/v?qaz");
}

#[test]
fn vary_names_are_trimmed_of_unicode_white_space() {
    let req = request("GET", "h", None, "/v", &[("x", "1")]);
    let key = CacheKeyWithVary::new_from_proxy("\u{a0}x\u{3000}", &req).get();
    assert_eq!(key, "GET_http://h/v1");
}
