//! Planned HTTP requests and the methods that may be replayed.

use vstd::prelude::*;

use crate::headers::{entry_texts, str_eq};
use crate::service_url::ServiceUrl;

verus! {

/// The HTTP methods the library issues.
#[derive(Debug, Clone, Copy, PartialEq, Eq, Structural)]
pub enum Method {
    /// `GET`, for health checks and task status and results.
    Get,
    /// `POST`, for endpoint calls and task submission and retry.
    Post,
    /// `PUT`, for task cancellation.
    Put,
}

impl Method {
    /// The method's name on the wire.
    pub open spec fn spec_as_str(self) -> Seq<char> {
        match self {
            Method::Get => "GET"@,
            Method::Post => "POST"@,
            Method::Put => "PUT"@,
        }
    }

    /// The method's name on the wire.
    pub fn as_str(self) -> (r: &'static str)
        ensures
            r@ == self.spec_as_str(),
    {
        match self {
            Method::Get => "GET",
            Method::Post => "POST",
            Method::Put => "PUT",
        }
    }
}

/// A request ready to be sent: its method, its URL, and the per-request headers
/// to add to the client's default headers.
#[derive(Debug, Clone)]
pub struct RequestPlan {
    /// The HTTP method.
    pub method: Method,
    /// The absolute URL.
    pub url: ServiceUrl,
    /// The per-request headers, as (normalized name, value) pairs.
    pub headers: Vec<(String, String)>,
}

impl RequestPlan {
    /// The per-request headers as text.
    pub open spec fn header_texts(&self) -> Seq<(Seq<char>, Seq<char>)> {
        entry_texts(self.headers@)
    }
}

/// Whether a request with this method can be repeated without running the work a
/// second time: `GET`, `HEAD`, `OPTIONS`, `TRACE`, `PUT` and `DELETE`.
pub open spec fn spec_is_idempotent(method: Seq<char>) -> bool {
    ||| method == "GET"@
    ||| method == "HEAD"@
    ||| method == "OPTIONS"@
    ||| method == "TRACE"@
    ||| method == "PUT"@
    ||| method == "DELETE"@
}

/// Whether a request with this method (its name on the wire, as `http::Method`
/// writes it) can be repeated without running the work a second time.
///
/// Retries of transient failures apply only to these. BentoML's `POST` endpoints
/// run inference and create tasks: a replayed `POST` that landed after the server
/// accepted the first attempt would run inference twice or queue a duplicate task.
/// Task `status` and result reads are `GET`s and `cancel` is a `PUT`, so polling
/// keeps its retries.
pub fn is_idempotent(method: &str) -> (r: bool)
    ensures
        r == spec_is_idempotent(method@),
{
    str_eq(method, "GET") || str_eq(method, "HEAD") || str_eq(method, "OPTIONS") || str_eq(
        method,
        "TRACE",
    ) || str_eq(method, "PUT") || str_eq(method, "DELETE")
}

/// Of the requests the library issues, exactly the `POST`s (endpoint calls, task
/// submission and retry, which run inference or queue work) are not replayed on
/// transient failure; the `GET`s and `PUT`s of health checks and task polling
/// and cancellation are.
pub proof fn lemma_only_posts_are_not_replayed(method: Method)
    ensures
        spec_is_idempotent(method.spec_as_str()) <==> method != Method::Post,
{
    reveal_strlit("GET");
    reveal_strlit("POST");
    reveal_strlit("PUT");
    reveal_strlit("HEAD");
    reveal_strlit("OPTIONS");
    reveal_strlit("TRACE");
    reveal_strlit("DELETE");
    if method == Method::Post {
        assert("POST"@.len() != "GET"@.len());
        assert("POST"@[0] != "HEAD"@[0]);
        assert("POST"@.len() != "OPTIONS"@.len());
        assert("POST"@[0] != "TRACE"@[0]);
        assert("POST"@.len() != "PUT"@.len());
        assert("POST"@.len() != "DELETE"@.len());
    }
}

} // verus!
