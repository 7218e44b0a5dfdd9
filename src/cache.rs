//! Cache keys: the string identity under which a response is stored.
//!
//! A key is a plain concatenation, not a hash: identical requests give
//! identical keys, distinct requests are only expected to differ.

use vstd::prelude::*;
use vstd::string::*;
use crate::cache_control::opt_view;
use crate::request::{header_value, same_name, ProxyRequest};
use crate::text::{split_spec, split_trimmed, trim_of};

verus! {

/// Lexicographic order of texts, character by character.
pub open spec fn text_lt(a: Seq<char>, b: Seq<char>) -> bool
    decreases a.len(),
{
    if a.len() == 0 {
        b.len() > 0
    } else if b.len() == 0 {
        false
    } else if a[0] != b[0] {
        a[0] < b[0]
    } else {
        text_lt(a.drop_first(), b.drop_first())
    }
}

/// `names` with `x` added in its ordered place, unless it is there already.
pub open spec fn insert_name(names: Seq<Seq<char>>, x: Seq<char>) -> Seq<Seq<char>>
    decreases names.len(),
{
    if names.len() == 0 {
        seq![x]
    } else if names[0] == x {
        names
    } else if text_lt(names[0], x) {
        seq![names[0]] + insert_name(names.drop_first(), x)
    } else {
        seq![x] + names
    }
}

/// The distinct names of `ts` in ascending order.
pub open spec fn sorted_names(ts: Seq<Seq<char>>) -> Seq<Seq<char>>
    decreases ts.len(),
{
    if ts.len() == 0 {
        Seq::empty()
    } else {
        insert_name(sorted_names(ts.drop_last()), ts.last())
    }
}

/// The header names that a `Vary` value lists, trimmed.
pub open spec fn vary_tokens(vary: Seq<char>) -> Seq<Seq<char>> {
    split_spec(vary, ',').map_values(|t: Seq<char>| trim_of(t))
}

/// The header names that a `Vary` value lists, distinct and in ascending order.
pub open spec fn vary_names(vary: Seq<char>) -> Seq<Seq<char>> {
    sorted_names(vary_tokens(vary))
}

/// The texts of `s` one after the other.
pub open spec fn concat_all(s: Seq<Seq<char>>) -> Seq<char>
    decreases s.len(),
{
    if s.len() == 0 {
        Seq::empty()
    } else {
        concat_all(s.drop_last()) + s.last()
    }
}

/// `{method}_{scheme}://{host}[:{port}]{path+query}`.
pub open spec fn request_base(req: ProxyRequest) -> Seq<char> {
    let head = req.method@ + "_"@ + req.scheme@ + "://"@ + req.host@;
    match req.port {
        Some(p) => head + ":"@ + p@ + req.uri@,
        None => head + req.uri@,
    }
}

/// The key of a request when `Vary` is not taken into account: the base
/// followed by the raw `Accept-Language` value.
pub open spec fn no_vary_key(req: ProxyRequest) -> Seq<char> {
    request_base(req) + header_value(req.header_pairs(), "accept-language"@)
}

/// The values of the named headers, in the order of the names.
pub open spec fn values_of(names: Seq<Seq<char>>, req: ProxyRequest) -> Seq<Seq<char>> {
    names.map_values(|n: Seq<char>| header_value(req.header_pairs(), n))
}

/// The key of a request under the `Vary` value `vary`: the base followed by
/// the values of the listed headers, ordered by header name.
pub open spec fn vary_key(vary: Seq<char>, req: ProxyRequest) -> Seq<char> {
    request_base(req) + concat_all(values_of(vary_names(vary), req))
}

/// Something that yields a cache key.
pub trait CacheKey: Sized {
    /// The key as a text.
    spec fn key_view(&self) -> Seq<char>;

    /// Whether the parts are in the shape the key requires.
    spec fn key_wf(&self) -> bool;

    /// The key.
    fn get(self) -> (r: String)
        requires
            self.key_wf(),
        ensures
            r@ == self.key_view(),
    ;
}

/// The key of a request when `Vary` handling is off.
#[derive(Debug)]
pub struct CacheKeyNoVary {
    pub key: String,
}

/// The parts of a `Vary`-aware key: the base, and the listed headers with
/// their values in ascending order of name.
#[derive(Debug)]
pub struct CacheKeyWithVary {
    pub uri: String,
    pub vary_headers: Vec<(String, String)>,
}

/// Builds `{method}_{scheme}://{host}[:{port}]{path+query}`.
pub fn base_of(req: &ProxyRequest) -> (r: String)
    ensures
        r@ == request_base(*req),
{
    let mut s = String::new();
    s.append(req.method.as_str());
    s.append("_");
    s.append(req.scheme.as_str());
    s.append("://");
    s.append(req.host.as_str());
    match &req.port {
        Some(p) => {
            s.append(":");
            s.append(p.as_str());
        },
        None => {},
    }
    s.append(req.uri.as_str());
    s
}

impl CacheKeyNoVary {
    /// The key of `req` without `Vary` handling.
    pub fn from(req: &ProxyRequest) -> (r: CacheKeyNoVary)
        ensures
            r.key_view() == no_vary_key(*req),
    {
        let mut key = base_of(req);
        let lang = req.header("accept-language");
        key.append(lang.as_str());
        CacheKeyNoVary { key }
    }
}

impl CacheKey for CacheKeyNoVary {
    open spec fn key_view(&self) -> Seq<char> {
        self.key@
    }

    open spec fn key_wf(&self) -> bool {
        true
    }

    fn get(self) -> (r: String) {
        self.key
    }
}

impl CacheKey for CacheKeyWithVary {
    open spec fn key_view(&self) -> Seq<char> {
        self.uri@ + concat_all(self.vary_headers@.map_values(|p: (String, String)| p.1@))
    }

    /// The header names are distinct and strictly ascending, so the values
    /// come out in the order of their names.
    open spec fn key_wf(&self) -> bool {
        strictly_sorted(self.names())
    }

    fn get(self) -> (r: String) {
        let ghost vals = self.vary_headers@.map_values(|p: (String, String)| p.1@);
        let mut key = self.uri;
        let mut i: usize = 0;
        while i < self.vary_headers.len()
            invariant
                i <= self.vary_headers@.len(),
                vals == self.vary_headers@.map_values(|p: (String, String)| p.1@),
                key@ == self.uri@ + concat_all(vals.subrange(0, i as int)),
            decreases self.vary_headers@.len() - i,
        {
            key.append(self.vary_headers[i].1.as_str());
            proof {
                let sub = vals.subrange(0, i + 1);
                assert(sub.drop_last() == vals.subrange(0, i as int));
            }
            i = i + 1;
        }
        assert(vals.subrange(0, vals.len() as int) == vals);
        key
    }
}

/// Lexicographic comparison of two texts.
pub fn less_than(a: &str, b: &str) -> (r: bool)
    ensures
        r == text_lt(a@, b@),
{
    let n = a.unicode_len();
    let m = b.unicode_len();
    let mut i: usize = 0;
    assert(a@.subrange(0, n as int) == a@);
    assert(b@.subrange(0, m as int) == b@);
    while i < n && i < m
        invariant
            n == a@.len(),
            m == b@.len(),
            i <= n,
            i <= m,
            a@.subrange(0, i as int) == b@.subrange(0, i as int),
            text_lt(a@, b@) == text_lt(a@.subrange(i as int, n as int), b@.subrange(i as int, m as int)),
        decreases n - i,
    {
        let ca = a.get_char(i);
        let cb = b.get_char(i);
        let ghost ra = a@.subrange(i as int, n as int);
        let ghost rb = b@.subrange(i as int, m as int);
        assert(ra[0] == ca && rb[0] == cb);
        if ca != cb {
            return ca < cb;
        }
        assert(ra.drop_first() == a@.subrange(i + 1, n as int));
        assert(rb.drop_first() == b@.subrange(i + 1, m as int));
        assert(a@.subrange(0, i + 1) == a@.subrange(0, i as int).push(ca));
        assert(b@.subrange(0, i + 1) == b@.subrange(0, i as int).push(cb));
        i = i + 1;
    }
    i == n && i < m
}

/// Adds `x` to the ascending, duplicate-free `names` in its place.
fn insert_in_order(names: &mut Vec<String>, x: String)
    ensures
        final(names)@.map_values(|s: String| s@) == insert_name(old(names)@.map_values(|s: String| s@), x@),
{
    let ghost all = old(names)@.map_values(|s: String| s@);
    let mut i: usize = 0;
    assert(all.subrange(0, 0) + all.subrange(0, all.len() as int) == all);
    while i < names.len() && less_than(names[i].as_str(), x.as_str()) && !(names[i] == x)
        invariant
            i <= names@.len(),
            names@ == old(names)@,
            all == old(names)@.map_values(|s: String| s@),
            insert_name(all, x@) == all.subrange(0, i as int) + insert_name(all.subrange(i as int, all.len() as int), x@),
        decreases names@.len() - i,
    {
        let ghost rest = all.subrange(i as int, all.len() as int);
        assert(rest.drop_first() == all.subrange(i + 1, all.len() as int));
        assert(all.subrange(0, i + 1) == all.subrange(0, i as int) + seq![rest[0]]);
        i = i + 1;
    }
    let ghost rest = all.subrange(i as int, all.len() as int);
    if i < names.len() && names[i] == x {
        assert(rest[0] == x@);
        assert(all.subrange(0, i as int) + rest == all);
        return;
    }
    if i < names.len() {
        assert(rest[0] != x@);
        assert(!text_lt(rest[0], x@));
    }
    names.insert(i, x);
    assert(names@.map_values(|s: String| s@) == all.subrange(0, i as int) + insert_name(rest, x@));
}

impl CacheKeyWithVary {
    /// The header names held, in the order in which they are held.
    pub open spec fn names(&self) -> Seq<Seq<char>> {
        self.vary_headers@.map_values(|p: (String, String)| p.0@)
    }

    /// The key parts of `proxy_req` under the `Vary` value `vary_content`:
    /// each listed header once, ordered by name, with its value in the
    /// request (empty where it is absent).
    pub fn new_from_proxy(vary_content: &str, proxy_req: &ProxyRequest) -> (r: CacheKeyWithVary)
        ensures
            r.key_wf(),
            r.uri@ == request_base(*proxy_req),
            r.names() == vary_names(vary_content@),
            forall|k: int| 0 <= k < r.vary_headers@.len() ==> (#[trigger] r.vary_headers@[k]).1@
                == header_value(proxy_req.header_pairs(), vary_names(vary_content@)[k]),
            r.key_view() == vary_key(vary_content@, *proxy_req),
    {
        let uri = base_of(proxy_req);
        let tokens = split_trimmed(vary_content, ',');
        let ghost ts = vary_tokens(vary_content@);
        assert(tokens@.map_values(|s: String| s@) == ts);
        let mut names: Vec<String> = Vec::new();
        let mut i: usize = 0;
        while i < tokens.len()
            invariant
                i <= tokens@.len(),
                ts == tokens@.map_values(|s: String| s@),
                names@.map_values(|s: String| s@) == sorted_names(ts.subrange(0, i as int)),
            decreases tokens@.len() - i,
        {
            insert_in_order(&mut names, tokens[i].clone());
            proof {
                let sub = ts.subrange(0, i + 1);
                assert(sub.drop_last() == ts.subrange(0, i as int));
            }
            i = i + 1;
        }
        assert(ts.subrange(0, ts.len() as int) == ts);
        let ghost ns = names@.map_values(|s: String| s@);
        let mut vary_headers: Vec<(String, String)> = Vec::new();
        let mut j: usize = 0;
        while j < names.len()
            invariant
                j <= names@.len(),
                ns == names@.map_values(|s: String| s@),
                vary_headers@.len() == j,
                forall|k: int| 0 <= k < j ==> (#[trigger] vary_headers@[k]).0@ == ns[k]
                    && vary_headers@[k].1@ == header_value(proxy_req.header_pairs(), ns[k]),
            decreases names@.len() - j,
        {
            let v = proxy_req.header(names[j].as_str());
            vary_headers.push((names[j].clone(), v));
            j = j + 1;
        }
        let r = CacheKeyWithVary { uri, vary_headers };
        assert(r.names() =~= ns);
        proof {
            lemma_vary_names_ordered(vary_content@);
        }
        assert(r.vary_headers@.map_values(|p: (String, String)| p.1@) == values_of(vary_names(vary_content@), *proxy_req));
        r
    }
}

/// Whether two requests agree on method, scheme, host, port and path with query.
pub open spec fn same_target(a: ProxyRequest, b: ProxyRequest) -> bool {
    &&& a.method@ == b.method@
    &&& a.scheme@ == b.scheme@
    &&& a.host@ == b.host@
    &&& opt_view(a.port) == opt_view(b.port)
    &&& a.uri@ == b.uri@
}

/// The plain key is a function of method, scheme, authority, path with query
/// and the `Accept-Language` value alone: requests that agree on these get
/// the same key.
pub proof fn lemma_no_vary_key_deterministic(a: ProxyRequest, b: ProxyRequest)
    requires
        same_target(a, b),
        header_value(a.header_pairs(), "accept-language"@) == header_value(b.header_pairs(), "accept-language"@),
    ensures
        no_vary_key(a) == no_vary_key(b),
{
}

proof fn lemma_insert_name_members(names: Seq<Seq<char>>, x: Seq<char>)
    ensures
        forall|n: Seq<char>| #[trigger] insert_name(names, x).contains(n) ==> n == x || names.contains(n),
    decreases names.len(),
{
    if names.len() > 0 && names[0] != x && text_lt(names[0], x) {
        lemma_insert_name_members(names.drop_first(), x);
        let r = insert_name(names, x);
        assert forall|n: Seq<char>| #[trigger] r.contains(n) implies n == x || names.contains(n) by {
            let k = choose|k: int| 0 <= k < r.len() && r[k] == n;
            if k == 0 {
                assert(names[0] == n);
            } else {
                assert(insert_name(names.drop_first(), x)[k - 1] == n);
                assert(insert_name(names.drop_first(), x).contains(n));
                if n != x {
                    let j = choose|j: int| 0 <= j < names.drop_first().len() && names.drop_first()[j] == n;
                    assert(names[j + 1] == n);
                }
            }
        }
    } else if names.len() > 0 && names[0] != x {
        let r = insert_name(names, x);
        assert forall|n: Seq<char>| #[trigger] r.contains(n) implies n == x || names.contains(n) by {
            let k = choose|k: int| 0 <= k < r.len() && r[k] == n;
            if k > 0 {
                assert(names[k - 1] == n);
            }
        }
    }
}

proof fn lemma_sorted_names_members(ts: Seq<Seq<char>>)
    ensures
        forall|n: Seq<char>| #[trigger] sorted_names(ts).contains(n) ==> ts.contains(n),
    decreases ts.len(),
{
    if ts.len() > 0 {
        let init = ts.drop_last();
        lemma_sorted_names_members(init);
        lemma_insert_name_members(sorted_names(init), ts.last());
        assert forall|n: Seq<char>| #[trigger] sorted_names(ts).contains(n) implies ts.contains(n) by {
            if n == ts.last() {
                assert(ts[ts.len() - 1] == n);
            } else {
                assert(init.contains(n));
                let j = choose|j: int| 0 <= j < init.len() && init[j] == n;
                assert(ts[j] == n);
            }
        }
    }
}

/// The `Vary`-aware key depends on the values of the listed headers, not on
/// where they stand among the request's headers: requests with the same
/// target whose listed headers have the same values get the same key.
pub proof fn lemma_vary_key_header_order(vary: Seq<char>, a: ProxyRequest, b: ProxyRequest)
    requires
        same_target(a, b),
        forall|n: Seq<char>| #[trigger] vary_tokens(vary).contains(n)
            ==> header_value(a.header_pairs(), n) == header_value(b.header_pairs(), n),
    ensures
        vary_key(vary, a) == vary_key(vary, b),
{
    let names = vary_names(vary);
    lemma_sorted_names_members(vary_tokens(vary));
    assert forall|k: int| 0 <= k < names.len() implies #[trigger] values_of(names, a)[k] == values_of(names, b)[k] by {
        assert(names.contains(names[k]));
    }
    assert(values_of(names, a) =~= values_of(names, b));
}

/// Whether no two headers of `hs` share a name (ASCII case ignored).
pub open spec fn names_distinct(hs: Seq<(Seq<char>, Seq<char>)>) -> bool {
    forall|i: int, j: int| 0 <= i < j < hs.len() ==> !same_name(#[trigger] hs[i].0, #[trigger] hs[j].0)
}

proof fn lemma_header_value_at(hs: Seq<(Seq<char>, Seq<char>)>, n: Seq<char>, k: int)
    requires
        0 <= k < hs.len(),
        same_name(hs[k].0, n),
        forall|j: int| 0 <= j < k ==> !same_name(#[trigger] hs[j].0, n),
    ensures
        header_value(hs, n) == hs[k].1,
    decreases k,
{
    if k > 0 {
        assert(!same_name(hs[0].0, n));
        let t = hs.drop_first();
        assert forall|j: int| 0 <= j < k - 1 implies !same_name(#[trigger] t[j].0, n) by {
            assert(t[j] == hs[j + 1]);
        }
        lemma_header_value_at(t, n, k - 1);
    }
}

proof fn lemma_header_value_none(hs: Seq<(Seq<char>, Seq<char>)>, n: Seq<char>)
    requires
        forall|j: int| 0 <= j < hs.len() ==> !same_name(#[trigger] hs[j].0, n),
    ensures
        header_value(hs, n) == Seq::<char>::empty(),
    decreases hs.len(),
{
    if hs.len() > 0 {
        assert(!same_name(hs[0].0, n));
        let t = hs.drop_first();
        assert forall|j: int| 0 <= j < t.len() implies !same_name(#[trigger] t[j].0, n) by {
            assert(t[j] == hs[j + 1]);
        }
        lemma_header_value_none(t, n);
    }
}

proof fn lemma_header_value_member(hs: Seq<(Seq<char>, Seq<char>)>, n: Seq<char>, k: int)
    requires
        names_distinct(hs),
        0 <= k < hs.len(),
        same_name(hs[k].0, n),
    ensures
        header_value(hs, n) == hs[k].1,
{
    assert forall|j: int| 0 <= j < k implies !same_name(#[trigger] hs[j].0, n) by {
        assert(!same_name(hs[j].0, hs[k].0));
    }
    lemma_header_value_at(hs, n, k);
}

proof fn lemma_same_pairs_same_value(a: Seq<(Seq<char>, Seq<char>)>, b: Seq<(Seq<char>, Seq<char>)>, n: Seq<char>)
    requires
        names_distinct(a),
        names_distinct(b),
        forall|p: (Seq<char>, Seq<char>)| a.contains(p) <==> b.contains(p),
    ensures
        header_value(a, n) == header_value(b, n),
{
    if exists|k: int| 0 <= k < a.len() && same_name(a[k].0, n) {
        let k = choose|k: int| 0 <= k < a.len() && same_name(a[k].0, n);
        lemma_header_value_member(a, n, k);
        assert(a.contains(a[k]));
        let m = choose|m: int| 0 <= m < b.len() && b[m] == a[k];
        lemma_header_value_member(b, n, m);
    } else {
        lemma_header_value_none(a, n);
        assert forall|j: int| 0 <= j < b.len() implies !same_name(#[trigger] b[j].0, n) by {
            if same_name(b[j].0, n) {
                assert(b.contains(b[j]));
                let i = choose|i: int| 0 <= i < a.len() && a[i] == b[j];
                assert(same_name(a[i].0, n));
            }
        }
        lemma_header_value_none(b, n);
    }
}

/// Requests with the same target that carry the same header pairs, no name
/// twice, in whatever order, get the same `Vary`-aware key.
pub proof fn lemma_vary_key_reordered_headers(vary: Seq<char>, a: ProxyRequest, b: ProxyRequest)
    requires
        same_target(a, b),
        names_distinct(a.header_pairs()),
        names_distinct(b.header_pairs()),
        forall|p: (Seq<char>, Seq<char>)| a.header_pairs().contains(p) <==> b.header_pairs().contains(p),
    ensures
        vary_key(vary, a) == vary_key(vary, b),
{
    assert forall|n: Seq<char>| #[trigger] vary_tokens(vary).contains(n)
        implies header_value(a.header_pairs(), n) == header_value(b.header_pairs(), n) by {
        lemma_same_pairs_same_value(a.header_pairs(), b.header_pairs(), n);
    }
    lemma_vary_key_header_order(vary, a, b);
}

/// Whether each text of `s` is below every later one.
pub open spec fn strictly_sorted(s: Seq<Seq<char>>) -> bool {
    forall|i: int, j: int| 0 <= i < j < s.len() ==> text_lt(#[trigger] s[i], #[trigger] s[j])
}

proof fn lemma_text_lt_transitive(a: Seq<char>, b: Seq<char>, c: Seq<char>)
    requires
        text_lt(a, b),
        text_lt(b, c),
    ensures
        text_lt(a, c),
    decreases a.len(),
{
    if a.len() > 0 && b.len() > 0 && c.len() > 0 && a[0] == b[0] && b[0] == c[0] {
        lemma_text_lt_transitive(a.drop_first(), b.drop_first(), c.drop_first());
    }
}

proof fn lemma_text_lt_total(a: Seq<char>, b: Seq<char>)
    requires
        a != b,
    ensures
        text_lt(a, b) || text_lt(b, a),
    decreases a.len(),
{
    if a.len() > 0 && b.len() > 0 && a[0] == b[0] {
        if a.drop_first() == b.drop_first() {
            assert(a.drop_first().len() == b.drop_first().len());
            assert(a.len() == b.len());
            assert forall|i: int| 0 <= i < a.len() implies a[i] == b[i] by {
                if i > 0 {
                    assert(a[i] == a.drop_first()[i - 1]);
                    assert(b[i] == b.drop_first()[i - 1]);
                }
            }
            assert(a =~= b);
        }
        lemma_text_lt_total(a.drop_first(), b.drop_first());
    } else if a.len() == 0 && b.len() == 0 {
        assert(a =~= b);
    }
}

proof fn lemma_insert_name_keeps(names: Seq<Seq<char>>, x: Seq<char>)
    ensures
        insert_name(names, x).contains(x),
        forall|n: Seq<char>| #[trigger] names.contains(n) ==> insert_name(names, x).contains(n),
    decreases names.len(),
{
    let r = insert_name(names, x);
    if names.len() == 0 {
        assert(r[0] == x);
    } else if names[0] == x {
        assert(r[0] == x);
    } else if text_lt(names[0], x) {
        let t = names.drop_first();
        lemma_insert_name_keeps(t, x);
        let rt = insert_name(t, x);
        assert(r == seq![names[0]] + rt);
        let k = choose|k: int| 0 <= k < rt.len() && rt[k] == x;
        assert(r[k + 1] == x);
        assert forall|n: Seq<char>| #[trigger] names.contains(n) implies r.contains(n) by {
            let j = choose|j: int| 0 <= j < names.len() && names[j] == n;
            if j == 0 {
                assert(r[0] == n);
            } else {
                assert(t[j - 1] == n);
                assert(t.contains(n));
                let m = choose|m: int| 0 <= m < rt.len() && rt[m] == n;
                assert(r[m + 1] == n);
            }
        }
    } else {
        assert(r[0] == x);
        assert forall|n: Seq<char>| #[trigger] names.contains(n) implies r.contains(n) by {
            let j = choose|j: int| 0 <= j < names.len() && names[j] == n;
            assert(r[j + 1] == n);
        }
    }
}

proof fn lemma_insert_name_sorted(names: Seq<Seq<char>>, x: Seq<char>)
    requires
        strictly_sorted(names),
    ensures
        strictly_sorted(insert_name(names, x)),
    decreases names.len(),
{
    let r = insert_name(names, x);
    if names.len() > 0 && names[0] != x {
        if text_lt(names[0], x) {
            let t = names.drop_first();
            assert forall|i: int, j: int| 0 <= i < j < t.len() implies text_lt(#[trigger] t[i], #[trigger] t[j]) by {
                assert(t[i] == names[i + 1] && t[j] == names[j + 1]);
            }
            lemma_insert_name_sorted(t, x);
            lemma_insert_name_members(t, x);
            let rt = insert_name(t, x);
            assert forall|i: int, j: int| 0 <= i < j < r.len() implies text_lt(#[trigger] r[i], #[trigger] r[j]) by {
                if i == 0 {
                    assert(r[j] == rt[j - 1]);
                    assert(rt.contains(rt[j - 1]));
                    if rt[j - 1] != x {
                        let m = choose|m: int| 0 <= m < t.len() && t[m] == rt[j - 1];
                        assert(names[m + 1] == t[m]);
                        assert(text_lt(names[0], names[m + 1]));
                    }
                } else {
                    assert(r[i] == rt[i - 1] && r[j] == rt[j - 1]);
                }
            }
        } else {
            lemma_text_lt_total(names[0], x);
            assert forall|i: int, j: int| 0 <= i < j < r.len() implies text_lt(#[trigger] r[i], #[trigger] r[j]) by {
                assert(r[j] == names[j - 1]);
                if i == 0 {
                    if j > 1 {
                        assert(text_lt(names[0], names[j - 1]));
                        lemma_text_lt_transitive(x, names[0], names[j - 1]);
                    }
                } else {
                    assert(r[i] == names[i - 1]);
                }
            }
        }
    }
}

proof fn lemma_sorted_names_ordered(ts: Seq<Seq<char>>)
    ensures
        strictly_sorted(sorted_names(ts)),
        forall|n: Seq<char>| #[trigger] ts.contains(n) ==> sorted_names(ts).contains(n),
    decreases ts.len(),
{
    if ts.len() > 0 {
        let init = ts.drop_last();
        lemma_sorted_names_ordered(init);
        lemma_insert_name_sorted(sorted_names(init), ts.last());
        lemma_insert_name_keeps(sorted_names(init), ts.last());
        assert forall|n: Seq<char>| #[trigger] ts.contains(n) implies sorted_names(ts).contains(n) by {
            let j = choose|j: int| 0 <= j < ts.len() && ts[j] == n;
            if j < ts.len() - 1 {
                assert(init[j] == n);
                assert(init.contains(n));
            }
        }
    }
}

/// The names that a `Vary` value lists are taken each once, in strictly
/// ascending order, and they are exactly the listed names.
pub proof fn lemma_vary_names_ordered(vary: Seq<char>)
    ensures
        strictly_sorted(vary_names(vary)),
        forall|n: Seq<char>| #[trigger] vary_names(vary).contains(n) <==> vary_tokens(vary).contains(n),
{
    lemma_sorted_names_ordered(vary_tokens(vary));
    lemma_sorted_names_members(vary_tokens(vary));
}

} // verus!
