//! The scrape endpoint: which path is answered with what.
//!
//! The metrics live in a registry that the caller owns, and only the caller
//! can gather and encode them. This module decides everything else: what a
//! path asks for, the replies that need no scrape, and the reply that a
//! finished scrape gives.

use vstd::prelude::*;
use vstd::string::StringSliceAdditionalSpecFns;

verus! {

/// What a request path asks for.
#[derive(Clone, Copy, Debug, PartialEq, Eq, Structural)]
pub enum Route {
    /// `/metrics`: the metrics in text format.
    Metrics,
    /// `/health`: whether the process is alive.
    Health,
    /// Any other path.
    NotFound,
}

/// Status and body of a reply.
#[derive(Debug, PartialEq, Eq)]
pub struct HttpReply {
    pub status: u16,
    pub body: Vec<u8>,
}

/// What it takes to answer a request.
#[derive(Debug, PartialEq, Eq)]
pub enum Answer {
    /// The reply is known as it stands.
    Fixed(HttpReply),
    /// The metrics were asked for: gather and encode them, and hand the
    /// outcome to [`metrics_reply`].
    Scrape,
}

/// The route of a path.
pub open spec fn route_of(path: Seq<char>) -> Route {
    if path == "/metrics"@ {
        Route::Metrics
    } else if path == "/health"@ {
        Route::Health
    } else {
        Route::NotFound
    }
}

/// The route of a request path.
pub fn route(path: &str) -> (r: Route)
    ensures
        r == route_of(path@),
{
    let p = path.to_owned();
    if p == "/metrics".to_owned() {
        Route::Metrics
    } else if p == "/health".to_owned() {
        Route::Health
    } else {
        Route::NotFound
    }
}

/// The reply to a scrape: the encoded metrics with status 200, or, where
/// encoding failed and there are none, status 500 and an empty body.
pub fn metrics_reply(encoded: Option<Vec<u8>>) -> (r: HttpReply)
    ensures
        encoded matches Some(bytes) ==> r.status == 200 && r.body@ == bytes@,
        encoded.is_none() ==> r.status == 500 && r.body@ == Seq::<u8>::empty(),
{
    match encoded {
        Some(bytes) => HttpReply { status: 200, body: bytes },
        None => HttpReply { status: 500, body: Vec::new() },
    }
}

/// The reply that has the bytes of `text` as its body.
fn text_reply(status: u16, text: &str) -> (r: HttpReply)
    ensures
        r.status == status,
        r.body@ == text.spec_bytes(),
{
    HttpReply { status, body: vstd::slice::slice_to_vec(text.as_bytes()) }
}

/// Answers a request for `path`, as far as that can be done without the
/// registry: `/metrics` asks for a scrape; `/health` is answered with status
/// 200 and the body `OK`; any other path with status 404 and the body
/// `Not Found`.
pub fn serve_metrics(path: &str) -> (r: Answer)
    ensures
        route_of(path@) == Route::Metrics ==> r is Scrape,
        route_of(path@) == Route::Health ==> (r matches Answer::Fixed(reply) && reply.status
            == 200 && reply.body@ == "OK".spec_bytes()),
        route_of(path@) == Route::NotFound ==> (r matches Answer::Fixed(reply) && reply.status
            == 404 && reply.body@ == "Not Found".spec_bytes()),
{
    match route(path) {
        Route::Metrics => Answer::Scrape,
        Route::Health => Answer::Fixed(text_reply(200, "OK")),
        Route::NotFound => Answer::Fixed(text_reply(404, "Not Found")),
    }
}

} // verus!
