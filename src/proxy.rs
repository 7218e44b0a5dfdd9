//! The per-request flow of the proxy as a state machine.
//!
//! Each transition takes what the outside world answered (a store read, an
//! origin response) and names the next thing to do. The caller performs that
//! action and feeds the outcome back. Store reads that fail end the request;
//! store writes are reported as a plan whose failures the caller ignores.

use vstd::prelude::*;
use vstd::string::*;
use crate::cache::{
    lemma_vary_key_header_order, no_vary_key, same_target, vary_key, vary_tokens, CacheKey, CacheKeyNoVary,
    CacheKeyWithVary,
};
use crate::config::CacherConfig;
use crate::error::ProxyError;
use crate::request::{find_header, header_value, pairs_view, ProxyRequest};
use crate::response::{status_header_name, status_text, CacheStatus, ProxyResponse};
use crate::text::{ascii_lower, ascii_lowercase_text, owned};

verus! {

/// Whether `http` accepts a text as a URI.
pub uninterp spec fn uri_accepted(s: Seq<char>) -> bool;

/// Relies on `http::Uri::try_from` on an owned text: its verdict depends on
/// the text alone, and the empty text is refused.
#[verifier::external_body]
fn uri_valid(s: &String) -> (r: bool)
    ensures
        r == uri_accepted(s@),
        s@.len() == 0 ==> !r,
{
    http::Uri::try_from(s.clone()).is_ok()
}

/// The target on the origin: its base URL followed by the path and query.
pub fn get_proxy_uri(backend_host: &str, path_query: &str) -> (r: String)
    ensures
        r@ == backend_host@ + path_query@,
{
    let mut s = owned(backend_host);
    s.append(path_query);
    s
}

/// The target on the origin, where it is a valid URI.
pub fn rewrite_target(backend_host: &str, path_query: &str) -> (r: Result<String, ProxyError>)
    ensures
        r is Ok <==> uri_accepted(backend_host@ + path_query@),
        r is Ok ==> r->Ok_0@ == backend_host@ + path_query@,
        r is Err ==> r->Err_0 is InvalidTarget && r->Err_0.detail() == backend_host@ + path_query@,
{
    let target = get_proxy_uri(backend_host, path_query);
    if uri_valid(&target) {
        Ok(target)
    } else {
        Err(ProxyError::InvalidTarget(target))
    }
}

/// The path of a path-and-query text: everything before the first `?`.
pub open spec fn path_of(pq: Seq<char>) -> Seq<char>
    decreases pq.len(),
{
    if pq.len() == 0 || pq[0] == '?' {
        Seq::empty()
    } else {
        seq![pq[0]] + path_of(pq.drop_first())
    }
}

proof fn lemma_path_of_prefix(pq: Seq<char>, i: int)
    requires
        0 <= i <= pq.len(),
        forall|k: int| 0 <= k < i ==> pq[k] != '?',
    ensures
        path_of(pq) == pq.subrange(0, i) + path_of(pq.subrange(i, pq.len() as int)),
    decreases i,
{
    if i > 0 {
        assert(pq[0] != '?');
        let t = pq.drop_first();
        assert forall|k: int| 0 <= k < i - 1 implies t[k] != '?' by {
            assert(t[k] == pq[k + 1]);
        }
        lemma_path_of_prefix(t, i - 1);
        assert(t.subrange(i - 1, t.len() as int) == pq.subrange(i, pq.len() as int));
        assert(seq![pq[0]] + t.subrange(0, i - 1) == pq.subrange(0, i));
        assert(path_of(pq) == seq![pq[0]] + path_of(t));
        assert(seq![pq[0]] + (t.subrange(0, i - 1) + path_of(t.subrange(i - 1, t.len() as int)))
            == (seq![pq[0]] + t.subrange(0, i - 1)) + path_of(t.subrange(i - 1, t.len() as int)));
    } else {
        assert(pq.subrange(0, pq.len() as int) == pq);
        assert(pq.subrange(0, 0) + pq == pq);
    }
}

/// The key under which the last `Vary` value seen for a path is kept: the
/// path, lower-cased.
pub open spec fn registration_key(pq: Seq<char>) -> Seq<char> {
    ascii_lower(path_of(pq))
}

/// The registration key of a path-and-query text.
pub fn vary_registration_key(path_query: &str) -> (r: String)
    ensures
        r@ == registration_key(path_query@),
{
    let n = path_query.unicode_len();
    let mut i: usize = 0;
    while i < n && path_query.get_char(i) != '?'
        invariant
            n == path_query@.len(),
            i <= n,
            forall|k: int| 0 <= k < i ==> path_query@[k] != '?',
        decreases n - i,
    {
        i = i + 1;
    }
    proof {
        lemma_path_of_prefix(path_query@, i as int);
        let rest = path_query@.subrange(i as int, n as int);
        assert(rest.len() == 0 || rest[0] == '?');
        assert(path_query@.subrange(0, i as int) + Seq::<char>::empty() == path_query@.subrange(0, i as int));
    }
    let path = path_query.substring_char(0, i);
    ascii_lowercase_text(path)
}

/// Whether two responses hold the same status, version, headers and body.
pub open spec fn same_response(a: ProxyResponse, b: ProxyResponse) -> bool {
    &&& a.status == b.status
    &&& a.version == b.version
    &&& a.header_pairs() == b.header_pairs()
    &&& a.body@ == b.body@
}

impl ProxyResponse {
    /// A copy of the response.
    pub fn copy(&self) -> (r: ProxyResponse)
        ensures
            same_response(r, *self),
    {
        let mut headers: Vec<(String, String)> = Vec::new();
        let mut i: usize = 0;
        while i < self.headers.len()
            invariant
                i <= self.headers@.len(),
                headers@.len() == i,
                forall|k: int| 0 <= k < i ==> (#[trigger] headers@[k]).0@ == self.headers@[k].0@
                    && headers@[k].1@ == self.headers@[k].1@,
            decreases self.headers@.len() - i,
        {
            let pair = (owned(self.headers[i].0.as_str()), owned(self.headers[i].1.as_str()));
            headers.push(pair);
            i = i + 1;
        }
        assert(pairs_view(headers@) =~= pairs_view(self.headers@));
        ProxyResponse { status: self.status, version: self.version, headers, body: owned(self.body.as_str()) }
    }
}

/// Where a request's flow stands.
#[derive(Debug, Clone, Copy, PartialEq, Eq, Structural)]
pub enum Stage {
    /// Waiting for the `Vary` registration of the path.
    AwaitVary,
    /// Waiting for the store's answer under the lookup key.
    AwaitLookup,
    /// Waiting for the origin's complete response.
    AwaitOrigin,
    /// Nothing is left to do.
    Done,
}

/// The writes that follow an origin fetch, and the reply to send after them.
#[derive(Debug)]
pub struct StorePlan {
    /// Where the response is stored.
    pub key: String,
    /// What is stored (serialized by the caller).
    pub entry: ProxyResponse,
    /// How long the stored response lives, in seconds.
    pub ttl_secs: u64,
    /// The `Vary` registration to write: the path's key and the `Vary` value.
    pub registration: Option<(String, String)>,
    /// What goes back to the client once the writes were attempted.
    pub reply: Result<ProxyResponse, ProxyError>,
}

/// What the caller does next.
#[derive(Debug)]
pub enum Action {
    /// Forward the request untouched, mark the response `DYNAMIC`, and leave
    /// the store alone.
    ForwardUncached,
    /// Read the `Vary` registration under this key.
    ReadVary(String),
    /// Read the stored response under this key.
    Lookup(String),
    /// Forward the request and wait for the whole response.
    FetchOrigin,
    /// Attempt the writes, ignore their failures, then send the reply.
    Store(StorePlan),
    /// Send this response.
    Respond(ProxyResponse),
    /// Fail the request with this error.
    Fail(ProxyError),
}

/// The state of one request's flow.
#[derive(Debug)]
pub struct ProxyFlow {
    pub handle_vary: bool,
    pub ttl_secs: u64,
    /// The request, with its target already rewritten.
    pub request: ProxyRequest,
    /// The key of the path's `Vary` registration.
    pub vary_key: String,
    /// The key the store was asked for (empty before the lookup).
    pub lookup_key: String,
    pub stage: Stage,
}

impl ProxyFlow {
    /// The registration key is the one of the request's path.
    pub open spec fn wf(self) -> bool {
        self.vary_key@ == registration_key(self.request.uri@)
    }

    /// Whether the flow still describes `req` under the settings it began with.
    pub open spec fn describes(self, handle_vary: bool, ttl: u64, req: ProxyRequest) -> bool {
        &&& self.wf()
        &&& self.handle_vary == handle_vary
        &&& self.ttl_secs == ttl
        &&& self.request == req
    }

    /// Begins the flow of a request: bypass, read the path's `Vary`
    /// registration, or look the request up under its plain key.
    pub fn start(config: &CacherConfig, request: ProxyRequest) -> (r: (ProxyFlow, Action))
        ensures
            r.0.describes(config.handle_vary, config.ttl_secs, request),
            config.bypass ==> r.0.stage == Stage::Done && r.1 is ForwardUncached,
            !config.bypass && config.handle_vary ==> r.0.stage == Stage::AwaitVary && r.1 is ReadVary
                && r.1->ReadVary_0@ == registration_key(request.uri@),
            !config.bypass && !config.handle_vary ==> r.0.stage == Stage::AwaitLookup && r.1 is Lookup
                && r.1->Lookup_0@ == no_vary_key(request) && r.0.lookup_key@ == no_vary_key(request),
    {
        let vary_key = vary_registration_key(request.uri.as_str());
        if config.bypass {
            let flow = ProxyFlow {
                handle_vary: config.handle_vary,
                ttl_secs: config.ttl_secs,
                request,
                vary_key,
                lookup_key: String::new(),
                stage: Stage::Done,
            };
            (flow, Action::ForwardUncached)
        } else if config.handle_vary {
            let key = owned(vary_key.as_str());
            let flow = ProxyFlow {
                handle_vary: true,
                ttl_secs: config.ttl_secs,
                request,
                vary_key,
                lookup_key: String::new(),
                stage: Stage::AwaitVary,
            };
            (flow, Action::ReadVary(key))
        } else {
            let key = CacheKeyNoVary::from(&request).get();
            let lookup = owned(key.as_str());
            let flow = ProxyFlow {
                handle_vary: false,
                ttl_secs: config.ttl_secs,
                request,
                vary_key,
                lookup_key: lookup,
                stage: Stage::AwaitLookup,
            };
            (flow, Action::Lookup(key))
        }
    }

    /// Takes the path's `Vary` registration (none reads as the empty text)
    /// and asks for the stored response under the `Vary`-aware key.
    pub fn on_vary(self, read: Result<Option<String>, ProxyError>) -> (r: (ProxyFlow, Action))
        requires
            self.wf(),
            self.stage == Stage::AwaitVary,
        ensures
            r.0.describes(self.handle_vary, self.ttl_secs, self.request),
            read is Err ==> r.0.stage == Stage::Done && r.1 == Action::Fail(read->Err_0),
            read is Ok ==> ({
                let v = match read->Ok_0 {
                    Some(s) => s@,
                    None => Seq::empty(),
                };
                &&& r.0.stage == Stage::AwaitLookup
                &&& r.1 is Lookup
                &&& r.1->Lookup_0@ == vary_key(v, self.request)
                &&& r.0.lookup_key@ == vary_key(v, self.request)
            }),
    {
        let mut flow = self;
        match read {
            Err(e) => {
                flow.stage = Stage::Done;
                (flow, Action::Fail(e))
            },
            Ok(found) => {
                let vary = match found {
                    Some(s) => s,
                    None => String::new(),
                };
                let key = CacheKeyWithVary::new_from_proxy(vary.as_str(), &flow.request).get();
                flow.lookup_key = owned(key.as_str());
                flow.stage = Stage::AwaitLookup;
                (flow, Action::Lookup(key))
            },
        }
    }

    /// Takes the store's answer: a live entry is sent back marked `HIT`
    /// (where it can go on the wire), none sends the request to the origin.
    pub fn on_lookup(self, found: Result<Option<ProxyResponse>, ProxyError>) -> (r: (ProxyFlow, Action))
        requires
            self.wf(),
            self.stage == Stage::AwaitLookup,
        ensures
            r.0.describes(self.handle_vary, self.ttl_secs, self.request),
            r.0.lookup_key == self.lookup_key,
            found is Err ==> r.0.stage == Stage::Done && r.1 == Action::Fail(found->Err_0),
            found == Ok::<Option<ProxyResponse>, ProxyError>(None) ==> r.0.stage == Stage::AwaitOrigin && r.1 is FetchOrigin,
            found is Ok && found->Ok_0 is Some ==> ({
                let e = found->Ok_0->Some_0;
                &&& r.0.stage == Stage::Done
                &&& e.wire_ok() ==> r.1 is Respond && r.1->Respond_0.status == e.status
                    && r.1->Respond_0.version == e.version && r.1->Respond_0.body@ == e.body@
                    && r.1->Respond_0.header_pairs() == e.header_pairs().push(
                        (status_header_name(), status_text(CacheStatus::Hit)))
                &&& !e.wire_ok() ==> r.1 is Fail && e.wire_error(r.1->Fail_0)
            }),
    {
        let mut flow = self;
        match found {
            Err(e) => {
                flow.stage = Stage::Done;
                (flow, Action::Fail(e))
            },
            Ok(None) => {
                flow.stage = Stage::AwaitOrigin;
                (flow, Action::FetchOrigin)
            },
            Ok(Some(entry)) => {
                flow.stage = Stage::Done;
                match entry.check_wire() {
                    Err(e) => (flow, Action::Fail(e)),
                    Ok(()) => (flow, Action::Respond(entry.with_cache_status(CacheStatus::Hit))),
                }
            },
        }
    }

    /// Takes the origin's response and plans the writes: the response is
    /// stored with the flow's lifetime under the lookup key, or, with `Vary`
    /// handling, under the key that the response's own `Vary` value gives,
    /// which is registered for the path. The reply is marked `MISS`.
    pub fn on_origin(self, fetched: Result<ProxyResponse, ProxyError>) -> (r: (ProxyFlow, Action))
        requires
            self.wf(),
            self.stage == Stage::AwaitOrigin,
        ensures
            r.0.describes(self.handle_vary, self.ttl_secs, self.request),
            r.0.stage == Stage::Done,
            fetched is Err ==> r.1 == Action::Fail(fetched->Err_0),
            fetched is Ok ==> ({
                let resp = fetched->Ok_0;
                let vary = header_value(resp.header_pairs(), "vary"@);
                &&& r.1 is Store
                &&& same_response(r.1->Store_0.entry, resp)
                &&& r.1->Store_0.ttl_secs == self.ttl_secs
                &&& self.handle_vary ==> r.1->Store_0.key@ == vary_key(vary, self.request)
                    && r.1->Store_0.registration is Some
                    && r.1->Store_0.registration->Some_0.0@ == registration_key(self.request.uri@)
                    && r.1->Store_0.registration->Some_0.1@ == vary
                &&& !self.handle_vary ==> r.1->Store_0.key@ == self.lookup_key@
                    && r.1->Store_0.registration is None
                &&& resp.wire_ok() ==> r.1->Store_0.reply is Ok
                    && r.1->Store_0.reply->Ok_0.status == resp.status
                    && r.1->Store_0.reply->Ok_0.version == resp.version
                    && r.1->Store_0.reply->Ok_0.body@ == resp.body@
                    && r.1->Store_0.reply->Ok_0.header_pairs() == resp.header_pairs().push(
                        (status_header_name(), status_text(CacheStatus::Miss)))
                &&& !resp.wire_ok() ==> r.1->Store_0.reply is Err && resp.wire_error(r.1->Store_0.reply->Err_0)
            }),
    {
        let mut flow = self;
        flow.stage = Stage::Done;
        match fetched {
            Err(e) => (flow, Action::Fail(e)),
            Ok(resp) => {
                let (key, registration) = if flow.handle_vary {
                    let vary = find_header(&resp.headers, "vary");
                    let key = CacheKeyWithVary::new_from_proxy(vary.as_str(), &flow.request).get();
                    (key, Some((owned(flow.vary_key.as_str()), vary)))
                } else {
                    (owned(flow.lookup_key.as_str()), None)
                };
                let entry = resp.copy();
                let reply = match resp.check_wire() {
                    Err(e) => Err(e),
                    Ok(()) => Ok(resp.with_cache_status(CacheStatus::Miss)),
                };
                let plan = StorePlan { key, entry, ttl_secs: flow.ttl_secs, registration, reply };
                (flow, Action::Store(plan))
            },
        }
    }
}

/// A miss registers the response's `Vary` value under the path's key and
/// stores the response under the key that value gives. A later request for
/// the same target reads that registration under the same key, and, where the
/// listed headers carry the same values, looks up the very key that was stored.
pub proof fn lemma_vary_registration_reused(vary: Seq<char>, first: ProxyRequest, later: ProxyRequest)
    requires
        same_target(first, later),
        forall|n: Seq<char>| #[trigger] vary_tokens(vary).contains(n)
            ==> header_value(first.header_pairs(), n) == header_value(later.header_pairs(), n),
    ensures
        registration_key(first.uri@) == registration_key(later.uri@),
        vary_key(vary, first) == vary_key(vary, later),
{
    lemma_vary_key_header_order(vary, first, later);
}

} // verus!
