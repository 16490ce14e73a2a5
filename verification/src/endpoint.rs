//! The [`Endpoint`] handle for synchronous endpoints (`@bentoml.api`).

use vstd::prelude::*;

use crate::client::Client;
use crate::error::Error;
use crate::headers::{names_distinct, opt_str_view, request_id_of};
use crate::headers::{effective_headers, inserted, inserted_all, Headers};
use crate::request::{Method, RequestPlan};
use crate::service_url::ServiceUrl;
use crate::routes::trim_leading_slashes;
use crate::service_url::url_join;

verus! {

/// What planning a request with method `method` to the URL `url` resolves to
/// gives, for a client whose default headers are `defaults` and a handle whose
/// headers are `headers` (with the recorded failure `header_error`): an `invalid
/// url` error carrying the parse error when the route does not resolve, then an
/// `invalid header` error when a header was invalid, and otherwise a plan for the
/// resolved URL whose headers are the client's defaults with the handle's headers
/// set over them.
pub open spec fn plan_matches(
    r: Result<RequestPlan, Error>,
    method: Method,
    url: core::result::Result<Seq<char>, Seq<char>>,
    defaults: Seq<(Seq<char>, Seq<char>)>,
    headers: Seq<(Seq<char>, Seq<char>)>,
    header_error: Option<Seq<char>>,
) -> bool {
    match url {
        Err(e) => r matches Err(Error::InvalidRequest { message: msg, source: Some(s) }) && msg@
            == "invalid url"@ && s@ == e,
        Ok(u) => match header_error {
            Some(m) => r matches Err(Error::InvalidRequest { message: msg, source: None })
                && msg@ == "invalid header "@ + m,
            None => r matches Ok(p) && p.method == method && p.url@ == u && p.header_texts()
                == effective_headers(defaults, headers),
        },
    }
}

/// Plans a request with method `method` to `url` (the outcome of resolving its
/// route), with the client's default headers and a handle's `headers` set over
/// them.
pub(crate) fn plan(
    method: Method,
    url: Result<ServiceUrl, Error>,
    client: &Client,
    headers: &Headers,
) -> (r: Result<RequestPlan, Error>)
    ensures
        url matches Err(e) ==> (r matches Err(f) && f == e),
        url matches Ok(u) ==> match headers.error() {
            Some(m) => r matches Err(Error::InvalidRequest { message: msg, source: None }) && msg@
                == "invalid header "@ + m,
            None => r matches Ok(p) && p.method == method && p.url@ == u@ && p.header_texts()
                == effective_headers(client.spec_default_headers(), headers.entries()),
        },
        r matches Ok(p) ==> names_distinct(p.header_texts()),
{
    let url = match url {
        Ok(u) => u,
        Err(e) => return Err(e),
    };
    match headers.apply_over(client.header_set()) {
        Ok(all) => Ok(RequestPlan { method, url, headers: all }),
        Err(e) => Err(e),
    }
}

/// A handle to a single service endpoint, pairing a route with its [`Client`].
///
/// Obtain one with [`Client::endpoint`]. Per-call headers are attached with
/// [`with_header`](Endpoint::with_header): build a fresh handle per request when
/// they vary.
#[derive(Clone)]
pub struct Endpoint {
    client: Client,
    route: String,
    headers: Headers,
}

impl Endpoint {
    /// The route of this endpoint.
    pub closed spec fn spec_route(&self) -> Seq<char> {
        self.route@
    }

    /// The client this endpoint belongs to.
    pub closed spec fn spec_client(&self) -> Client {
        self.client
    }

    /// The per-call headers added so far.
    pub closed spec fn spec_headers(&self) -> Seq<(Seq<char>, Seq<char>)> {
        self.headers.entries()
    }

    /// The first invalid per-call header recorded, if any.
    pub closed spec fn spec_header_error(&self) -> Option<Seq<char>> {
        self.headers.error()
    }

    /// A handle to `route` on `client`, with no per-call headers.
    pub(crate) fn new(client: Client, route: String) -> (r: Endpoint)
        ensures
            r.spec_client() == client,
            r.spec_route() == route@,
            r.spec_headers() == Seq::<(Seq<char>, Seq<char>)>::empty(),
            r.spec_header_error() is None,
    {
        Endpoint { client, route, headers: Headers::new() }
    }

    /// This endpoint's route.
    pub fn route(&self) -> (r: &str)
        ensures
            r@ == self.spec_route(),
    {
        self.route.as_str()
    }

    /// The client this endpoint belongs to.
    pub fn client(&self) -> (r: &Client)
        ensures
            *r == self.spec_client(),
    {
        &self.client
    }

    /// This endpoint's per-call headers.
    pub fn headers(&self) -> (r: &Headers)
        ensures
            r.entries() == self.spec_headers(),
            r.error() == self.spec_header_error(),
    {
        &self.headers
    }

    /// The `x-request-id` set on this handle, if any, for enriching traces.
    pub fn request_id(&self) -> (r: Option<&str>)
        ensures
            opt_str_view(r) == request_id_of(self.spec_headers()),
    {
        self.headers.request_id()
    }

    /// Adds a header sent with every request made through this handle.
    ///
    /// Sent in addition to any configured on the client, overriding those on a name
    /// clash. An invalid name or value surfaces as an error when the request is
    /// planned.
    pub fn with_header(self, name: &str, value: &str) -> (r: Endpoint)
        ensures
            r.spec_client() == self.spec_client(),
            r.spec_route() == self.spec_route(),
            (r.spec_headers(), r.spec_header_error()) == inserted(
                self.spec_headers(),
                self.spec_header_error(),
                name@,
                value@,
            ),
    {
        let mut e = self;
        e.headers.insert(name, value);
        e
    }

    /// Adds several headers, in order, sent with every request made through this
    /// handle.
    pub fn with_headers(self, headers: Vec<(String, String)>) -> (r: Endpoint)
        ensures
            r.spec_client() == self.spec_client(),
            r.spec_route() == self.spec_route(),
            (r.spec_headers(), r.spec_header_error()) == inserted_all(
                self.spec_headers(),
                self.spec_header_error(),
                crate::headers::entry_texts(headers@),
            ),
    {
        let mut e = self;
        e.headers.insert_all(&headers);
        e
    }

    /// Sets the `x-request-id` header for this request: [`with_header`] with the
    /// `x-request-id` name, for correlating a single call in server logs and traces.
    ///
    /// [`with_header`]: Self::with_header
    pub fn with_request_id(self, id: &str) -> (r: Endpoint)
        ensures
            r.spec_client() == self.spec_client(),
            r.spec_route() == self.spec_route(),
            (r.spec_headers(), r.spec_header_error()) == inserted(
                self.spec_headers(),
                self.spec_header_error(),
                "x-request-id"@,
                id@,
            ),
    {
        self.with_header("x-request-id", id)
    }

    /// Plans the `POST` request that invokes this endpoint, with the client's default
    /// headers and this handle's headers set over them (a per-call header replaces
    /// a default of the same name). Every body encoding (JSON, raw bytes, multipart) and the streaming
    /// read go through this plan.
    pub fn request(&self) -> (r: Result<RequestPlan, Error>)
        ensures
            plan_matches(
                r,
                Method::Post,
                url_join(self.spec_client().spec_base_url(), trim_leading_slashes(self.spec_route())),
                self.spec_client().spec_default_headers(),
                self.spec_headers(),
                self.spec_header_error(),
            ),
            r matches Ok(p) ==> names_distinct(p.header_texts()),
    {
        plan(Method::Post, self.client.route_url(self.route.as_str()), &self.client, &self.headers)
    }
}

} // verus!
