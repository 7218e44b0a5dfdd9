//! Parsing of `Cache-Control` header values into directive sets.
//!
//! A token is a comma-separated piece of the header, trimmed and lower-cased.
//! A directive is present when some token starts with its name; its value is
//! the first such token, kept verbatim (no numeric parsing).

use vstd::prelude::*;
use vstd::string::*;
use crate::error::ProxyError;
use crate::text::{is_prefix, lower_of, lowercase_text, split_spec, split_trimmed, starts_with, trim_of};

verus! {

/// The lower-cased, trimmed tokens of a `Cache-Control` header value.
pub open spec fn directive_tokens(header: Seq<char>) -> Seq<Seq<char>> {
    split_spec(header, ',').map_values(|t: Seq<char>| lower_of(trim_of(t)))
}

/// The first token that starts with `name`.
pub open spec fn first_with_prefix(tokens: Seq<Seq<char>>, name: Seq<char>) -> Option<Seq<char>>
    decreases tokens.len(),
{
    if tokens.len() == 0 {
        None
    } else if is_prefix(name, tokens[0]) {
        Some(tokens[0])
    } else {
        first_with_prefix(tokens.drop_first(), name)
    }
}

/// The value of directive `name` in the header value `header`.
pub open spec fn directive(header: Seq<char>, name: Seq<char>) -> Option<Seq<char>> {
    first_with_prefix(directive_tokens(header), name)
}

/// The view of an optional text.
pub open spec fn opt_view(o: Option<String>) -> Option<Seq<char>> {
    match o {
        Some(s) => Some(s@),
        None => None,
    }
}

/// The tokens of a header value, trimmed and lower-cased.
pub fn header_tokens(header: &str) -> (r: Vec<String>)
    ensures
        r@.len() == directive_tokens(header@).len(),
        forall|k: int| 0 <= k < r@.len() ==> #[trigger] r@[k]@ == directive_tokens(header@)[k],
{
    let pieces = split_trimmed(header, ',');
    let mut out: Vec<String> = Vec::new();
    let mut i: usize = 0;
    while i < pieces.len()
        invariant
            i <= pieces@.len(),
            pieces@.len() == split_spec(header@, ',').len(),
            forall|k: int| 0 <= k < pieces@.len() ==> #[trigger] pieces@[k]@ == trim_of(split_spec(header@, ',')[k]),
            out@.len() == i,
            forall|k: int| 0 <= k < i ==> #[trigger] out@[k]@ == directive_tokens(header@)[k],
        decreases pieces@.len() - i,
    {
        let t = lowercase_text(pieces[i].as_str());
        out.push(t);
        i = i + 1;
    }
    out
}

/// The first of `tokens` that starts with `name`, copied.
pub fn find_directive(tokens: &Vec<String>, name: &str) -> (r: Option<String>)
    ensures
        opt_view(r) == first_with_prefix(tokens@.map_values(|t: String| t@), name@),
{
    let ghost all = tokens@.map_values(|t: String| t@);
    let mut i: usize = 0;
    assert(all.subrange(0, all.len() as int) == all);
    while i < tokens.len()
        invariant
            i <= tokens@.len(),
            all == tokens@.map_values(|t: String| t@),
            first_with_prefix(all, name@) == first_with_prefix(all.subrange(i as int, all.len() as int), name@),
        decreases tokens@.len() - i,
    {
        let ghost rest = all.subrange(i as int, all.len() as int);
        assert(rest[0] == tokens@[i as int]@);
        assert(rest.drop_first() == all.subrange(i + 1, all.len() as int));
        if starts_with(tokens[i].as_str(), name) {
            return Some(tokens[i].clone());
        }
        i = i + 1;
    }
    None
}

/// Directives that a request may carry.
#[derive(Debug, Clone)]
pub struct CacheControlRequest {
    pub max_age: Option<String>,
    pub max_stale: Option<String>,
    pub min_fresh: Option<String>,
    pub no_cache: Option<String>,
    pub no_store: Option<String>,
    pub no_transform: Option<String>,
    pub only_if_cached: Option<String>,
    pub stale_if_error: Option<String>,
}

/// Directives that a response may carry.
#[derive(Debug, Clone)]
pub struct CacheControlResponse {
    pub max_age: Option<String>,
    pub s_maxage: Option<String>,
    pub no_cache: Option<String>,
    pub no_store: Option<String>,
    pub no_transform: Option<String>,
    pub must_revalidate: Option<String>,
    pub proxy_revalidate: Option<String>,
    pub must_understand: Option<String>,
    pub private: Option<String>,
    pub public: Option<String>,
    pub immutable: Option<String>,
    pub stale_while_revalidate: Option<String>,
    pub stale_if_error: Option<String>,
}

impl CacheControlRequest {
    /// Whether every directive is absent.
    pub open spec fn is_empty(self) -> bool {
        &&& self.max_age is None
        &&& self.max_stale is None
        &&& self.min_fresh is None
        &&& self.no_cache is None
        &&& self.no_store is None
        &&& self.no_transform is None
        &&& self.only_if_cached is None
        &&& self.stale_if_error is None
    }

    /// Whether the directives are those of the header value `h`.
    pub open spec fn parsed_from(self, h: Seq<char>) -> bool {
        &&& opt_view(self.max_age) == directive(h, "max-age"@)
        &&& opt_view(self.max_stale) == directive(h, "max-stale"@)
        &&& opt_view(self.min_fresh) == directive(h, "min-fresh"@)
        &&& opt_view(self.no_cache) == directive(h, "no-cache"@)
        &&& opt_view(self.no_store) == directive(h, "no-store"@)
        &&& opt_view(self.no_transform) == directive(h, "no-transform"@)
        &&& opt_view(self.only_if_cached) == directive(h, "only-if-cached"@)
        &&& opt_view(self.stale_if_error) == directive(h, "stale-if-error"@)
    }

    /// Parses the value of a request's `Cache-Control` header; a missing
    /// header is an error of its own, not an empty set.
    pub fn try_from(header: Option<&str>) -> (r: Result<CacheControlRequest, ProxyError>)
        ensures
            header is None <==> r is Err,
            r is Err ==> r->Err_0 is MissingCacheControl,
            header is Some ==> r->Ok_0.parsed_from(header->Some_0@),
    {
        match header {
            None => Err(ProxyError::MissingCacheControl),
            Some(h) => {
                let tokens = header_tokens(h);
                assert(tokens@.map_values(|t: String| t@) == directive_tokens(h@));
                Ok(CacheControlRequest {
                    max_age: find_directive(&tokens, "max-age"),
                    max_stale: find_directive(&tokens, "max-stale"),
                    min_fresh: find_directive(&tokens, "min-fresh"),
                    no_cache: find_directive(&tokens, "no-cache"),
                    no_store: find_directive(&tokens, "no-store"),
                    no_transform: find_directive(&tokens, "no-transform"),
                    only_if_cached: find_directive(&tokens, "only-if-cached"),
                    stale_if_error: find_directive(&tokens, "stale-if-error"),
                })
            },
        }
    }

    /// Parses the header where present, and falls back to the empty set.
    pub fn from_header_or_default(header: Option<&str>) -> (r: CacheControlRequest)
        ensures
            header is None ==> r.is_empty(),
            header is Some ==> r.parsed_from(header->Some_0@),
    {
        match CacheControlRequest::try_from(header) {
            Ok(c) => c,
            Err(_) => CacheControlRequest::default(),
        }
    }
}

impl Default for CacheControlRequest {
    fn default() -> (r: CacheControlRequest)
        ensures
            r.is_empty(),
    {
        CacheControlRequest {
            max_age: None,
            max_stale: None,
            min_fresh: None,
            no_cache: None,
            no_store: None,
            no_transform: None,
            only_if_cached: None,
            stale_if_error: None,
        }
    }
}

impl CacheControlResponse {
    /// Whether every directive is absent.
    pub open spec fn is_empty(self) -> bool {
        &&& self.max_age is None
        &&& self.s_maxage is None
        &&& self.no_cache is None
        &&& self.no_store is None
        &&& self.no_transform is None
        &&& self.must_revalidate is None
        &&& self.proxy_revalidate is None
        &&& self.must_understand is None
        &&& self.private is None
        &&& self.public is None
        &&& self.immutable is None
        &&& self.stale_while_revalidate is None
        &&& self.stale_if_error is None
    }

    /// Whether the directives are those of the header value `h`.
    pub open spec fn parsed_from(self, h: Seq<char>) -> bool {
        &&& opt_view(self.max_age) == directive(h, "max-age"@)
        &&& opt_view(self.s_maxage) == directive(h, "s-maxage"@)
        &&& opt_view(self.no_cache) == directive(h, "no-cache"@)
        &&& opt_view(self.no_store) == directive(h, "no-store"@)
        &&& opt_view(self.no_transform) == directive(h, "no-transform"@)
        &&& opt_view(self.must_revalidate) == directive(h, "must-revalidate"@)
        &&& opt_view(self.proxy_revalidate) == directive(h, "proxy-revalidate"@)
        &&& opt_view(self.must_understand) == directive(h, "must-understand"@)
        &&& opt_view(self.private) == directive(h, "private"@)
        &&& opt_view(self.public) == directive(h, "public"@)
        &&& opt_view(self.immutable) == directive(h, "immutable"@)
        &&& opt_view(self.stale_while_revalidate) == directive(h, "stale-while-revalidate"@)
        &&& opt_view(self.stale_if_error) == directive(h, "stale-if-error"@)
    }

    /// Parses the value of a response's `Cache-Control` header; a missing
    /// header is an error of its own, not an empty set.
    pub fn try_from(header: Option<&str>) -> (r: Result<CacheControlResponse, ProxyError>)
        ensures
            header is None <==> r is Err,
            r is Err ==> r->Err_0 is MissingCacheControl,
            header is Some ==> r->Ok_0.parsed_from(header->Some_0@),
    {
        match header {
            None => Err(ProxyError::MissingCacheControl),
            Some(h) => {
                let tokens = header_tokens(h);
                assert(tokens@.map_values(|t: String| t@) == directive_tokens(h@));
                Ok(CacheControlResponse {
                    max_age: find_directive(&tokens, "max-age"),
                    s_maxage: find_directive(&tokens, "s-maxage"),
                    no_cache: find_directive(&tokens, "no-cache"),
                    no_store: find_directive(&tokens, "no-store"),
                    no_transform: find_directive(&tokens, "no-transform"),
                    must_revalidate: find_directive(&tokens, "must-revalidate"),
                    proxy_revalidate: find_directive(&tokens, "proxy-revalidate"),
                    must_understand: find_directive(&tokens, "must-understand"),
                    private: find_directive(&tokens, "private"),
                    public: find_directive(&tokens, "public"),
                    immutable: find_directive(&tokens, "immutable"),
                    stale_while_revalidate: find_directive(&tokens, "stale-while-revalidate"),
                    stale_if_error: find_directive(&tokens, "stale-if-error"),
                })
            },
        }
    }

    /// Parses the header where present, and falls back to the empty set.
    pub fn from_header_or_default(header: Option<&str>) -> (r: CacheControlResponse)
        ensures
            header is None ==> r.is_empty(),
            header is Some ==> r.parsed_from(header->Some_0@),
    {
        match CacheControlResponse::try_from(header) {
            Ok(c) => c,
            Err(_) => CacheControlResponse::default(),
        }
    }
}

impl Default for CacheControlResponse {
    fn default() -> (r: CacheControlResponse)
        ensures
            r.is_empty(),
    {
        CacheControlResponse {
            max_age: None,
            s_maxage: None,
            no_cache: None,
            no_store: None,
            no_transform: None,
            must_revalidate: None,
            proxy_revalidate: None,
            must_understand: None,
            private: None,
            public: None,
            immutable: None,
            stale_while_revalidate: None,
            stale_if_error: None,
        }
    }
}

} // verus!
