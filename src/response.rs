//! The normalized, storable form of an origin response, and the checks that
//! a stored response must pass before it can go back on the wire.

use vstd::prelude::*;
use vstd::string::*;
use crate::error::ProxyError;
use crate::request::pairs_view;
use crate::text::{owned, text_is};

verus! {

/// The protocol versions a stored response can carry.
#[derive(Debug, Clone, Copy, PartialEq, Eq, Structural)]
pub enum HttpVersion {
    Http09,
    Http10,
    Http11,
    Http2,
    Http3,
}

/// The wire text of a version.
pub open spec fn version_text(v: HttpVersion) -> Seq<char> {
    match v {
        HttpVersion::Http09 => "HTTP/0.9"@,
        HttpVersion::Http10 => "HTTP/1.0"@,
        HttpVersion::Http11 => "HTTP/1.1"@,
        HttpVersion::Http2 => "HTTP/2"@,
        HttpVersion::Http3 => "HTTP/3"@,
    }
}

/// The version a text names; anything unrecognized is HTTP/1.1.
pub open spec fn version_of(s: Seq<char>) -> HttpVersion {
    if s == "HTTP/0.9"@ {
        HttpVersion::Http09
    } else if s == "HTTP/1.0"@ {
        HttpVersion::Http10
    } else if s == "HTTP/1.1"@ {
        HttpVersion::Http11
    } else if s == "HTTP/2"@ {
        HttpVersion::Http2
    } else if s == "HTTP/3"@ {
        HttpVersion::Http3
    } else {
        HttpVersion::Http11
    }
}

/// The wire text of a version.
pub fn http_version_as_str(version: HttpVersion) -> (r: &'static str)
    ensures
        r@ == version_text(version),
{
    match version {
        HttpVersion::Http09 => "HTTP/0.9",
        HttpVersion::Http10 => "HTTP/1.0",
        HttpVersion::Http11 => "HTTP/1.1",
        HttpVersion::Http2 => "HTTP/2",
        HttpVersion::Http3 => "HTTP/3",
    }
}

/// The version that a wire text names, HTTP/1.1 where it names none.
pub fn get_http_version(version: &str) -> (r: HttpVersion)
    ensures
        r == version_of(version@),
{
    if text_is(version, "HTTP/0.9") {
        HttpVersion::Http09
    } else if text_is(version, "HTTP/1.0") {
        HttpVersion::Http10
    } else if text_is(version, "HTTP/1.1") {
        HttpVersion::Http11
    } else if text_is(version, "HTTP/2") {
        HttpVersion::Http2
    } else if text_is(version, "HTTP/3") {
        HttpVersion::Http3
    } else {
        HttpVersion::Http11
    }
}

/// Whether a status code is one that HTTP can carry.
pub open spec fn status_ok(code: u16) -> bool {
    100 <= code < 1000
}

/// Whether a character may stand in a header name: a letter, a digit, or
/// one of ``!"#$%&'*+-.^_`|~``.
pub open spec fn header_name_char(c: char) -> bool {
    ||| ('a' <= c && c <= 'z')
    ||| ('A' <= c && c <= 'Z')
    ||| ('0' <= c && c <= '9')
    ||| c == '!' || c == '"' || c == '#' || c == '$' || c == '%' || c == '&' || c == '\''
    ||| c == '*' || c == '+' || c == '-' || c == '.' || c == '^' || c == '_' || c == '`'
    ||| c == '|' || c == '~'
}

/// Whether `http` accepts a text as a header name: 1 to 65535 characters,
/// each allowed in a name.
pub open spec fn header_name_accepted(name: Seq<char>) -> bool {
    &&& 1 <= name.len() <= 65535
    &&& forall|i: int| 0 <= i < name.len() ==> header_name_char(#[trigger] name[i])
}

/// Whether every character of a header value may stand on the wire: a tab,
/// or anything from the space up but DEL.
pub open spec fn header_value_accepted(value: Seq<char>) -> bool {
    forall|i: int| 0 <= i < value.len() ==> {
        let c = #[trigger] value[i];
        c == '\t' || (' ' <= c && c != '\x7f')
    }
}

/// Whether a header value is visible ASCII, spaces and tabs only: what
/// `http` accepts, without any character above `~`.
pub open spec fn header_value_visible(value: Seq<char>) -> bool {
    forall|i: int| 0 <= i < value.len() ==> {
        let c = #[trigger] value[i];
        c == '\t' || (' ' <= c && c <= '~')
    }
}

/// Whether no character of a text is above `~`.
pub open spec fn at_most_tilde(value: Seq<char>) -> bool {
    forall|i: int| 0 <= i < value.len() ==> #[trigger] value[i] <= '~'
}

/// Whether no character of a text is above `~`.
pub fn no_char_above_tilde(value: &str) -> (r: bool)
    ensures
        r == at_most_tilde(value@),
{
    let n = value.unicode_len();
    let mut i: usize = 0;
    while i < n
        invariant
            n == value@.len(),
            i <= n,
            forall|k: int| 0 <= k < i ==> #[trigger] value@[k] <= '~',
        decreases n - i,
    {
        if value.get_char(i) > '~' {
            return false;
        }
        i = i + 1;
    }
    true
}

/// A header value may go on the wire when `http` accepts it and it holds no
/// character above `~`.
pub fn header_value_ok(value: &String) -> (r: bool)
    ensures
        r == header_value_visible(value@),
{
    let accepted = header_value_valid(value);
    let low = no_char_above_tilde(value.as_str());
    proof {
        if accepted && low {
            assert forall|i: int| 0 <= i < value@.len() implies {
                let c = #[trigger] value@[i];
                c == '\t' || (' ' <= c && c <= '~')
            } by {
                assert(value@[i] <= '~');
            }
        }
        if header_value_visible(value@) {
            assert forall|i: int| 0 <= i < value@.len() implies #[trigger] value@[i] <= '~' by {}
        }
    }
    accepted && low
}

/// Relies on `http::StatusCode::from_u16`: codes from 100 to 999 are accepted.
#[verifier::external_body]
fn status_code_valid(code: u16) -> (r: bool)
    ensures
        r == status_ok(code),
{
    http::StatusCode::from_u16(code).is_ok()
}

/// Relies on `http::HeaderName::try_from`: a name of 1 to 65535 bytes is
/// accepted when every byte is a token character (its table maps every
/// other byte, and every byte of a non-ASCII character, to 0).
#[verifier::external_body]
fn header_name_valid(name: &String) -> (r: bool)
    ensures
        r == header_name_accepted(name@),
{
    http::HeaderName::try_from(name).is_ok()
}

/// Relies on `http::HeaderValue::from_bytes`: every byte must be a tab or at
/// least a space and not DEL, so every byte of a non-ASCII character passes.
#[verifier::external_body]
fn header_value_valid(value: &String) -> (r: bool)
    ensures
        r == header_value_accepted(value@),
{
    http::HeaderValue::from_bytes(value.as_bytes()).is_ok()
}

/// The marker that tells a client where a response came from.
#[derive(Debug, Clone, Copy, PartialEq, Eq, Structural)]
pub enum CacheStatus {
    Hit,
    Miss,
    Dynamic,
}

/// The name of the header that carries the cache status.
pub open spec fn status_header_name() -> Seq<char> {
    "cacher_status"@
}

/// The text of a cache status.
pub open spec fn status_text(s: CacheStatus) -> Seq<char> {
    match s {
        CacheStatus::Hit => "HIT"@,
        CacheStatus::Miss => "MISS"@,
        CacheStatus::Dynamic => "DYNAMIC"@,
    }
}

impl CacheStatus {
    /// The text of the marker.
    pub fn as_str(&self) -> (r: &'static str)
        ensures
            r@ == status_text(*self),
    {
        match self {
            CacheStatus::Hit => "HIT",
            CacheStatus::Miss => "MISS",
            CacheStatus::Dynamic => "DYNAMIC",
        }
    }
}

/// A response as stored: status, version, headers and the whole body.
#[derive(Debug, Clone)]
pub struct ProxyResponse {
    pub status: u16,
    pub version: HttpVersion,
    /// Header names and values, in the order in which they arrived.
    pub headers: Vec<(String, String)>,
    pub body: String,
}

/// The first of `hs` whose name or value the wire refuses.
pub open spec fn first_bad_header(hs: Seq<(Seq<char>, Seq<char>)>) -> Option<int>
    decreases hs.len(),
{
    if hs.len() == 0 {
        None
    } else if !header_name_accepted(hs[0].0) || !header_value_visible(hs[0].1) {
        Some(0)
    } else {
        match first_bad_header(hs.drop_first()) {
            Some(i) => Some(i + 1),
            None => None,
        }
    }
}

impl ProxyResponse {
    /// The headers as pairs of texts.
    pub open spec fn header_pairs(self) -> Seq<(Seq<char>, Seq<char>)> {
        pairs_view(self.headers@)
    }

    /// Whether the response can be put back on the wire.
    pub open spec fn wire_ok(self) -> bool {
        status_ok(self.status) && first_bad_header(self.header_pairs()) is None
    }

    /// Whether `e` is the error that reconstruction reports for this
    /// response: the bad status, or else the name of the first bad header.
    pub open spec fn wire_error(self, e: ProxyError) -> bool {
        if !status_ok(self.status) {
            e == ProxyError::InvalidStatus(self.status)
        } else {
            let i = first_bad_header(self.header_pairs())->Some_0;
            &&& 0 <= i < self.headers@.len()
            &&& e is InvalidHeader
            &&& e.detail() == self.headers@[i].0@
        }
    }

    /// Checks that the status and every header can go back on the wire; the
    /// first header that cannot is named in the error.
    pub fn check_wire(&self) -> (r: Result<(), ProxyError>)
        ensures
            r is Ok <==> self.wire_ok(),
            r is Err ==> self.wire_error(r->Err_0),
    {
        if !status_code_valid(self.status) {
            return Err(ProxyError::InvalidStatus(self.status));
        }
        let ghost all = self.header_pairs();
        let mut i: usize = 0;
        assert(all.subrange(0, all.len() as int) == all);
        while i < self.headers.len()
            invariant
                i <= self.headers@.len(),
                status_ok(self.status),
                all == self.header_pairs(),
                first_bad_header(all) == match first_bad_header(all.subrange(i as int, all.len() as int)) {
                    Some(j) => Some(j + i),
                    None => None::<int>,
                },
            decreases self.headers@.len() - i,
        {
            let ghost rest = all.subrange(i as int, all.len() as int);
            assert(rest[0] == (self.headers@[i as int].0@, self.headers@[i as int].1@));
            assert(rest.drop_first() == all.subrange(i + 1, all.len() as int));
            if !header_name_valid(&self.headers[i].0) || !header_value_ok(&self.headers[i].1) {
                return Err(ProxyError::InvalidHeader(owned(self.headers[i].0.as_str())));
            }
            i = i + 1;
        }
        assert(all.subrange(i as int, all.len() as int).len() == 0);
        Ok(())
    }

    /// The response with the cache-status marker added as one more header;
    /// a header of the same name that is already there stays.
    pub fn with_cache_status(self, status: CacheStatus) -> (r: ProxyResponse)
        ensures
            r.status == self.status,
            r.version == self.version,
            r.body@ == self.body@,
            r.header_pairs() == self.header_pairs().push((status_header_name(), status_text(status))),
    {
        let mut resp = self;
        let name = owned("cacher_status");
        let value = owned(status.as_str());
        resp.headers.push((name, value));
        proof {
            assert(pairs_view(resp.headers@) =~= pairs_view(self.headers@).push((status_header_name(), status_text(status))));
        }
        resp
    }
}

/// A version written out and read back is the same version.
pub proof fn lemma_version_round_trip(v: HttpVersion)
    ensures
        version_of(version_text(v)) == v,
{
    reveal_strlit("HTTP/0.9");
    reveal_strlit("HTTP/1.0");
    reveal_strlit("HTTP/1.1");
    reveal_strlit("HTTP/2");
    reveal_strlit("HTTP/3");
    assert("HTTP/0.9"@ != "HTTP/1.0"@ && "HTTP/0.9"@ != "HTTP/1.1"@) by {
        assert("HTTP/0.9"@[5] != "HTTP/1.0"@[5]);
        assert("HTTP/0.9"@[5] != "HTTP/1.1"@[5]);
    }
    assert("HTTP/1.0"@ != "HTTP/1.1"@) by {
        assert("HTTP/1.0"@[7] != "HTTP/1.1"@[7]);
    }
    assert("HTTP/2"@.len() == 6 && "HTTP/3"@.len() == 6);
    assert("HTTP/0.9"@.len() == 8 && "HTTP/1.0"@.len() == 8 && "HTTP/1.1"@.len() == 8);
    assert("HTTP/3"@ != "HTTP/2"@) by {
        assert("HTTP/3"@[5] != "HTTP/2"@[5]);
    }
}

proof fn lemma_no_bad_header(hs: Seq<(Seq<char>, Seq<char>)>)
    requires
        forall|k: int| 0 <= k < hs.len() ==> header_name_accepted(#[trigger] hs[k].0) && header_value_visible(hs[k].1),
    ensures
        first_bad_header(hs) is None,
    decreases hs.len(),
{
    if hs.len() > 0 {
        assert(header_name_accepted(hs[0].0) && header_value_visible(hs[0].1));
        let t = hs.drop_first();
        assert forall|k: int| 0 <= k < t.len() implies header_name_accepted(#[trigger] t[k].0) && header_value_visible(t[k].1) by {
            assert(t[k] == hs[k + 1]);
        }
        lemma_no_bad_header(t);
    }
}

/// A stored response with a status from 100 to 999, header names that
/// `http` accepts and visible-ASCII header values passes reconstruction, and
/// its version, written out and read back, is the same version; marking it
/// keeps status, version, body and every header, and adds one header last.
pub proof fn lemma_reconstruct_round_trip(p: ProxyResponse, status: CacheStatus)
    requires
        status_ok(p.status),
        forall|k: int| 0 <= k < p.headers@.len() ==> header_name_accepted(#[trigger] p.headers@[k].0@)
            && header_value_visible(p.headers@[k].1@),
    ensures
        p.wire_ok(),
        version_of(version_text(p.version)) == p.version,
        p.header_pairs().push((status_header_name(), status_text(status))).subrange(0, p.header_pairs().len() as int)
            == p.header_pairs(),
{
    let hs = p.header_pairs();
    assert forall|k: int| 0 <= k < hs.len() implies header_name_accepted(#[trigger] hs[k].0) && header_value_visible(hs[k].1) by {
        assert(hs[k] == (p.headers@[k].0@, p.headers@[k].1@));
        assert(header_name_accepted(p.headers@[k].0@) && header_value_visible(p.headers@[k].1@));
    }
    lemma_no_bad_header(hs);
    lemma_version_round_trip(p.version);
    assert(p.header_pairs().push((status_header_name(), status_text(status))).subrange(0, p.header_pairs().len() as int)
        =~= p.header_pairs());
}

} // verus!
