//! The normalized, storage-friendly form of an inbound request.

use vstd::prelude::*;
use vstd::string::*;
use crate::text::{ascii_lower, owned};

verus! {

/// The view of a list of header pairs.
pub open spec fn pairs_view(hs: Seq<(String, String)>) -> Seq<(Seq<char>, Seq<char>)> {
    hs.map_values(|p: (String, String)| (p.0@, p.1@))
}

/// Header names compare without regard to ASCII case.
pub open spec fn same_name(a: Seq<char>, b: Seq<char>) -> bool {
    ascii_lower(a) == ascii_lower(b)
}

/// The value of the first header named `name`, or the empty text.
pub open spec fn header_value(hs: Seq<(Seq<char>, Seq<char>)>, name: Seq<char>) -> Seq<char>
    decreases hs.len(),
{
    if hs.len() == 0 {
        Seq::empty()
    } else if same_name(hs[0].0, name) {
        hs[0].1
    } else {
        header_value(hs.drop_first(), name)
    }
}

/// Relies on `str::eq_ignore_ascii_case`: equal once ASCII capitals are
/// made small.
#[verifier::external_body]
fn names_match(a: &str, b: &str) -> (r: bool)
    ensures
        r == same_name(a@, b@),
{
    a.eq_ignore_ascii_case(b)
}

/// A request's method, target parts and headers, copied once on arrival.
#[derive(Debug, Clone)]
pub struct ProxyRequest {
    pub method: String,
    pub scheme: String,
    pub host: String,
    pub port: Option<String>,
    /// Path and query.
    pub uri: String,
    /// Header names and values, in the order in which they arrived.
    pub headers: Vec<(String, String)>,
}

impl ProxyRequest {
    /// The headers as pairs of texts.
    pub open spec fn header_pairs(self) -> Seq<(Seq<char>, Seq<char>)> {
        pairs_view(self.headers@)
    }

    /// The headers, in arrival order.
    pub fn get_headers(&self) -> (r: &Vec<(String, String)>)
        ensures
            r@ == self.headers@,
    {
        &self.headers
    }

    /// The value of the first header named `name` (ASCII case ignored), or
    /// the empty text where there is none.
    pub fn header(&self, name: &str) -> (r: String)
        ensures
            r@ == header_value(self.header_pairs(), name@),
    {
        find_header(&self.headers, name)
    }
}

/// The value of the first of `headers` named `name` (ASCII case ignored),
/// or the empty text where there is none.
pub fn find_header(headers: &Vec<(String, String)>, name: &str) -> (r: String)
    ensures
        r@ == header_value(pairs_view(headers@), name@),
{
    let ghost all = pairs_view(headers@);
    let mut i: usize = 0;
    assert(all.subrange(0, all.len() as int) == all);
    while i < headers.len()
        invariant
            i <= headers@.len(),
            all == pairs_view(headers@),
            header_value(all, name@) == header_value(all.subrange(i as int, all.len() as int), name@),
        decreases headers@.len() - i,
    {
        let ghost rest = all.subrange(i as int, all.len() as int);
        assert(rest[0] == (headers@[i as int].0@, headers@[i as int].1@));
        assert(rest.drop_first() == all.subrange(i + 1, all.len() as int));
        if names_match(headers[i].0.as_str(), name) {
            return owned(headers[i].1.as_str());
        }
        i = i + 1;
    }
    String::new()
}

} // verus!
