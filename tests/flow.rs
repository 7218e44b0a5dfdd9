use std::collections::HashMap;

use cacher::config::CacherConfig;
use cacher::error::ProxyError;
use cacher::proxy::{get_proxy_uri, rewrite_target, vary_registration_key, Action, ProxyFlow, Stage};
use cacher::request::ProxyRequest;
use cacher::response::{HttpVersion, ProxyResponse};

/// A store with expiry on a clock that the test moves by hand.
struct FakeStore {
    now: u64,
    entries: HashMap<String, (ProxyResponse, u64)>,
    registrations: HashMap<String, String>,
    reads: usize,
    writes: usize,
}

impl FakeStore {
    fn new() -> Self {
        FakeStore { now: 0, entries: HashMap::new(), registrations: HashMap::new(), reads: 0, writes: 0 }
    }

    fn get(&mut self, key: &str) -> Option<ProxyResponse> {
        self.reads += 1;
        match self.entries.get(key) {
            Some((r, expires)) if *expires > self.now => Some(r.clone()),
            _ => None,
        }
    }
}

fn config(handle_vary: bool) -> CacherConfig {
    let c = CacherConfig::from_overrides(None, Some(handle_vary.to_string()), None);
    c
}

fn request(uri: &str, headers: &[(&str, &str)]) -> ProxyRequest {
    ProxyRequest {
        method: "GET".to_string(),
        scheme: "http".to_string(),
        host: "host".to_string(),
        port: None,
        uri: uri.to_string(),
        headers: headers.iter().map(|(k, v)| (k.to_string(), v.to_string())).collect(),
    }
}

fn origin(body: &str, headers: &[(&str, &str)]) -> ProxyResponse {
    ProxyResponse {
        status: 200,
        version: HttpVersion::Http11,
        headers: headers.iter().map(|(k, v)| (k.to_string(), v.to_string())).collect(),
        body: body.to_string(),
    }
}

fn status_of(r: &ProxyResponse) -> String {
    r.headers.iter().rev().find(|(k, _)| k == "cacher_status").map(|(_, v)| v.clone()).unwrap_or_default()
}

/// Drives one request through the flow; returns the reply and the key used
/// to store it, if any.
fn run(cfg: &CacherConfig, store: &mut FakeStore, req: ProxyRequest, from_origin: ProxyResponse) -> (ProxyResponse, Option<String>) {
    let (mut flow, mut action) = ProxyFlow::start(cfg, req);
    loop {
        match action {
            Action::ReadVary(key) => {
                store.reads += 1;
                let found = store.registrations.get(&key).cloned();
                let next = flow.on_vary(Ok(found));
                flow = next.0;
                action = next.1;
            }
            Action::Lookup(key) => {
                let found = store.get(&key);
                let next = flow.on_lookup(Ok(found));
                flow = next.0;
                action = next.1;
            }
            Action::FetchOrigin => {
                let next = flow.on_origin(Ok(from_origin.clone()));
                flow = next.0;
                action = next.1;
            }
            Action::Store(plan) => {
                store.writes += 1;
                store.entries.insert(plan.key.clone(), (plan.entry, store.now + plan.ttl_secs));
                if let Some((k, v)) = plan.registration {
                    store.registrations.insert(k, v);
                }
                assert_eq!(flow.stage, Stage::Done);
                return (plan.reply.unwrap(), Some(plan.key));
            }
            Action::Respond(r) => return (r, None),
            Action::ForwardUncached => return (from_origin, None),
            Action::Fail(e) => panic!("request failed: {:?}", e),
        }
    }
}

#[test]
fn plain_get_misses_then_hits_then_misses_after_ttl() {
    let cfg = config(false);
    assert_eq!(cfg.ttl_secs, 5);
    let mut store = FakeStore::new();
    let (first, key) = run(&cfg, &mut store, request("/a", &[]), origin("ok", &[]));
    assert_eq!(key.as_deref(), Some("GET_http://host/a"));
    assert_eq!(status_of(&first), "MISS");
    assert_eq!(first.body, "ok");
    assert_eq!(first.status, 200);
    assert_eq!(store.entries["GET_http://host/a"].1, 5);

    store.now = 4;
    let (second, key) = run(&cfg, &mut store, request("/a", &[]), origin("other", &[]));
    assert_eq!(key, None);
    assert_eq!(status_of(&second), "HIT");
    assert_eq!(second.body, "ok");

    store.now = 6;
    let (third, key) = run(&cfg, &mut store, request("/a", &[]), origin("ok", &[]));
    assert_eq!(key.as_deref(), Some("GET_http://host/a"));
    assert_eq!(status_of(&third), "MISS");
}

#[test]
fn bypass_is_dynamic_and_leaves_store_alone() {
    let mut cfg = config(false);
    cfg.bypass = true;
    let (flow, action) = ProxyFlow::start(&cfg, request("/a", &[]));
    assert!(matches!(action, Action::ForwardUncached));
    assert_eq!(flow.stage, Stage::Done);
    let mut store = FakeStore::new();
    let _ = run(&cfg, &mut store, request("/a", &[]), origin("ok", &[]));
    assert_eq!(store.reads, 0);
    assert_eq!(store.writes, 0);
}

#[test]
fn vary_registration_drives_later_lookups() {
    let cfg = config(true);
    let mut store = FakeStore::new();
    let req = || request("/Page?q=1", &[("accept-language", "fr"), ("accept", "html")]);
    let (first, key) = run(&cfg, &mut store, req(), origin("v1", &[("vary", "Accept-Language")]));
    assert_eq!(status_of(&first), "MISS");
    assert_eq!(key.as_deref(), Some("GET_http://host/Page?q=1fr"));
    assert_eq!(store.registrations.get("/page").map(|s| s.as_str()), Some("Accept-Language"));

    let (second, key) = run(&cfg, &mut store, req(), origin("v2", &[("vary", "Accept-Language")]));
    assert_eq!(key, None);
    assert_eq!(status_of(&second), "HIT");
    assert_eq!(second.body, "v1");
}

#[test]
fn first_vary_lookup_uses_empty_registration() {
    let cfg = config(true);
    let (flow, action) = ProxyFlow::start(&cfg, request("/x", &[]));
    assert!(matches!(action, Action::ReadVary(ref k) if k == "/x"));
    let (_, action) = flow.on_vary(Ok(None));
    assert!(matches!(action, Action::Lookup(ref k) if k == "GET_http://host/x"));
}

#[test]
fn store_read_failure_fails_the_request() {
    let cfg = config(true);
    let (flow, _) = ProxyFlow::start(&cfg, request("/x", &[]));
    let (flow, action) = flow.on_vary(Err(ProxyError::StoreRead("down".to_string())));
    assert_eq!(flow.stage, Stage::Done);
    assert!(matches!(action, Action::Fail(ProxyError::StoreRead(_))));

    let (flow, _) = ProxyFlow::start(&config(false), request("/x", &[]));
    let (_, action) = flow.on_lookup(Err(ProxyError::StoreRead("down".to_string())));
    assert!(matches!(action, Action::Fail(ProxyError::StoreRead(_))));
}

#[test]
fn unreconstructable_hit_fails() {
    let (flow, _) = ProxyFlow::start(&config(false), request("/x", &[]));
    let bad = origin("b", &[("bad name", "v")]);
    let (_, action) = flow.on_lookup(Ok(Some(bad)));
    assert!(matches!(action, Action::Fail(ProxyError::InvalidHeader(_))));
}

#[test]
fn origin_failure_fails_the_request() {
    let (flow, _) = ProxyFlow::start(&config(false), request("/x", &[]));
    let (flow, action) = flow.on_lookup(Ok(None));
    assert!(matches!(action, Action::FetchOrigin));
    let (_, action) = flow.on_origin(Err(ProxyError::Origin("refused".to_string())));
    assert!(matches!(action, Action::Fail(ProxyError::Origin(_))));
}

#[test]
fn target_is_rewritten_onto_the_backend() {
    assert_eq!(get_proxy_uri("http://stubr.rs:9191", "/a?b=c"), "http://stubr.rs:9191/a?b=c");
    assert_eq!(rewrite_target("http://stubr.rs:9191", "/a?b=c").unwrap(), "http://stubr.rs:9191/a?b=c");
    assert!(matches!(rewrite_target("http://bad host", "/a"), Err(ProxyError::InvalidTarget(_))));
    assert!(matches!(rewrite_target("", ""), Err(ProxyError::InvalidTarget(_))));
}

#[test]
fn registration_key_is_lowercased_path() {
    assert_eq!(vary_registration_key("/A/b?Q=1"), "/a/b");
    assert_eq!(vary_registration_key("/Plain"), "/plain");
    assert_eq!(vary_registration_key(""), "");
}

#[test]
fn config_defaults_and_overrides() {
    let c = CacherConfig::from_overrides(None, None, None);
    assert_eq!(c.get_backend(), "http://stubr.rs:9191");
    assert_eq!(c.get_redis(), "redis://127.0.0.1:6379/");
    assert!(!c.handle_vary);
    assert!(!c.bypass);
    let c = CacherConfig::from_overrides(Some("http://o:1".to_string()), Some("true".to_string()), Some("redis://r/".to_string()));
    assert_eq!(c.get_backend(), "http://o:1");
    assert!(c.handle_vary);
    assert_eq!(c.get_redis(), "redis://r/");
    assert!(!CacherConfig::from_overrides(None, Some("TRUE".to_string()), None).handle_vary);
}
