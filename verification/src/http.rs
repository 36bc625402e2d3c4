//! What the program reads from an HTTP status code, and the GET requests it
//! makes.

use vstd::prelude::*;

verus! {

/// A status that reqwest's `error_for_status` turns into an error: a client
/// error (4xx) or a server error (5xx).
pub open spec fn is_error_status(status: u16) -> bool {
    400 <= status <= 599
}

/// A status that reqwest's `is_success` accepts (2xx).
pub open spec fn is_success_status(status: u16) -> bool {
    200 <= status <= 299
}

/// Whether `error_for_status` fails on this status.
pub fn error_status(status: u16) -> (b: bool)
    ensures
        b == is_error_status(status),
{
    400 <= status && status <= 599
}

/// Whether the status is a success.
pub fn success_status(status: u16) -> (b: bool)
    ensures
        b == is_success_status(status),
{
    200 <= status && status <= 299
}

/// A GET request: the full URL and the query parameters, in order.
pub struct HttpGet {
    pub url: String,
    pub query: Vec<(String, String)>,
}

/// The query of a request as texts.
pub open spec fn query_view(q: Seq<(String, String)>) -> Seq<(Seq<char>, Seq<char>)> {
    q.map_values(|p: (String, String)| (p.0@, p.1@))
}

} // verus!
