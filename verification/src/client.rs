//! The client configuration, its builder, and route resolution.

use vstd::prelude::*;
use vstd::string::{StrSliceExecFns, StringExecFns};
use vstd::utf8::encode_utf8;

use crate::endpoint::Endpoint;
use crate::error::Error;
use crate::task::TaskEndpoint;
use crate::headers::{header_value_valid, set_entry, Headers};
use crate::render::concat;
use crate::routes::{trim_leading_slashes, trim_start_slashes};
use crate::service_url::{url_join, url_parse, url_path, url_with_path, url_with_query_pair, ServiceUrl};

verus! {

/// The base URL used when none is configured.
pub const DEFAULT_BASE_URL: &'static str = "http://localhost:3000";

/// The number of retries of transient failures used when none is configured.
pub const DEFAULT_MAX_RETRIES: u32 = 3;

/// The duration of `secs` whole seconds, as `Duration::from_secs` makes it.
pub uninterp spec fn duration_of_secs(secs: u64) -> core::time::Duration;

/// A duration of whole seconds (`Duration::from_secs`).
///
/// Trusted: the result is the duration named by `duration_of_secs` for `secs`.
/// `Duration` is opaque here, so nothing more is said of its length.
#[verifier::external_body]
fn seconds(secs: u64) -> (r: core::time::Duration)
    ensures
        r == duration_of_secs(secs),
{
    core::time::Duration::from_secs(secs)
}

/// Resolved configuration for a client.
///
/// Most users construct this indirectly through [`ClientBuilder`] rather than by
/// hand.
#[derive(Debug, Clone)]
pub struct Config {
    /// The base URL of the BentoML service, e.g. `http://localhost:3000`.
    pub base_url: String,
    /// An optional bearer token sent on each request.
    pub token: Option<String>,
    /// The per-request timeout.
    pub timeout: core::time::Duration,
}

impl Default for Config {
    /// The local default service, without a token, with a 30 second timeout.
    fn default() -> (r: Config)
        ensures
            r.base_url@ == DEFAULT_BASE_URL@,
            r.token is None,
            r.timeout == duration_of_secs(30),
    {
        Config { base_url: DEFAULT_BASE_URL.to_owned(), token: None, timeout: seconds(30) }
    }
}

/// The base URL as used for joining routes: the path ends with `/`, so that a
/// relative route is resolved inside it rather than replacing its last segment.
pub open spec fn directory_url(url: Seq<char>) -> Seq<char> {
    let path = url_path(url);
    if path.len() > 0 && path.last() == '/' {
        url
    } else {
        url_with_path(url, path + seq!['/'])
    }
}

/// The value of the `authorization` header for a bearer token.
pub open spec fn bearer_value(token: Seq<char>) -> Seq<char> {
    "Bearer "@ + token
}

/// Whether a bearer token, if there is one, makes a valid header value.
pub open spec fn token_valid(token: Option<Seq<char>>) -> bool {
    match token {
        Some(t) => header_value_valid(encode_utf8(bearer_value(t))),
        None => true,
    }
}

/// The text of an optional string.
pub open spec fn opt_text(s: Option<String>) -> Option<Seq<char>> {
    match s {
        Some(t) => Some(t@),
        None => None,
    }
}

/// The client's default headers: the builder's headers, with `authorization` set
/// from the token when there is one.
pub open spec fn default_header_entries(
    headers: Seq<(Seq<char>, Seq<char>)>,
    token: Option<Seq<char>>,
) -> Seq<(Seq<char>, Seq<char>)> {
    match token {
        Some(t) => set_entry(headers, "authorization"@, bearer_value(t)),
        None => headers,
    }
}

/// The `authorization` value of a token is `Bearer `, a space, then the whole
/// token, however long: its first seven characters are `Bearer ` and the rest is
/// the token itself.
pub proof fn lemma_bearer_value_holds_the_token(token: Seq<char>)
    ensures
        bearer_value(token).len() == token.len() + 7,
        bearer_value(token).take(7) == "Bearer "@,
        bearer_value(token).skip(7) == token,
{
    reveal_strlit("Bearer ");
    assert(bearer_value(token).take(7) =~= "Bearer "@);
    assert(bearer_value(token).skip(7) =~= token);
}

/// With a bearer token, the client's default headers hold exactly one
/// `authorization` entry, `Bearer <token>`, whatever custom headers were set
/// (a custom `authorization` is replaced in place), and no name twice.
pub proof fn lemma_token_is_the_authorization(headers: Seq<(Seq<char>, Seq<char>)>, token: Seq<char>)
    requires
        crate::headers::names_distinct(headers),
    ensures
        crate::headers::names_distinct(default_header_entries(headers, Some(token))),
        exists|i: int|
            0 <= i < default_header_entries(headers, Some(token)).len()
                && #[trigger] default_header_entries(headers, Some(token))[i] == (
                "authorization"@,
                bearer_value(token),
            ),
        forall|i: int|
            0 <= i < default_header_entries(headers, Some(token)).len() && (
            #[trigger] default_header_entries(headers, Some(token))[i]).0 == "authorization"@
                ==> default_header_entries(headers, Some(token))[i].1 == bearer_value(token)
                && default_header_entries(headers, Some(token))[i].1.take(7) == "Bearer "@
                && default_header_entries(headers, Some(token))[i].1.skip(7) == token,
{
    crate::headers::lemma_set_entry(headers, "authorization"@, bearer_value(token));
    lemma_bearer_value_holds_the_token(token);
}

/// The state shared by the handles of one BentoML service: the base URL, the
/// default headers sent on every request, the per-request timeout and the number
/// of retries of transient failures.
///
/// Construct one with [`Client::builder`], then plan requests through an
/// `Endpoint` handle from [`Client::endpoint`] (synchronous `@bentoml.api`) or a
/// `TaskEndpoint` from [`Client::task`] (async `@bentoml.task`).
///
/// It has no `Debug` form: its default headers hold the bearer token, which must
/// not be printed.
#[derive(Clone)]
pub struct Client {
    base_url: ServiceUrl,
    headers: Headers,
    timeout: Option<core::time::Duration>,
    max_retries: u32,
    authorized: bool,
}

/// A builder for [`Client`]. Each unset field falls back to a default, noted on
/// the corresponding setter.
#[derive(Debug, Clone)]
pub struct ClientBuilder {
    base_url: Option<String>,
    token: Option<String>,
    timeout: Option<core::time::Duration>,
    max_retries: Option<u32>,
    headers: Headers,
}

impl ClientBuilder {
    /// The configured base URL, if set.
    pub closed spec fn spec_base_url(&self) -> Option<Seq<char>> {
        match self.base_url {
            Some(u) => Some(u@),
            None => None,
        }
    }

    /// The configured bearer token, if set.
    pub closed spec fn spec_token(&self) -> Option<Seq<char>> {
        match self.token {
            Some(t) => Some(t@),
            None => None,
        }
    }

    /// The configured timeout, if set.
    pub closed spec fn spec_timeout(&self) -> Option<core::time::Duration> {
        self.timeout
    }

    /// The configured number of retries, if set.
    pub closed spec fn spec_max_retries(&self) -> Option<u32> {
        self.max_retries
    }

    /// The custom headers added so far.
    pub closed spec fn spec_headers(&self) -> Seq<(Seq<char>, Seq<char>)> {
        self.headers.entries()
    }

    /// The first invalid custom header recorded, if any.
    pub closed spec fn spec_header_error(&self) -> Option<Seq<char>> {
        self.headers.error()
    }

    /// A builder with nothing configured.
    pub fn new() -> (r: ClientBuilder)
        ensures
            r.spec_base_url() is None,
            r.spec_token() is None,
            r.spec_timeout() is None,
            r.spec_max_retries() is None,
            r.spec_headers() == Seq::<(Seq<char>, Seq<char>)>::empty(),
            r.spec_header_error() is None,
    {
        ClientBuilder {
            base_url: None,
            token: None,
            timeout: None,
            max_retries: None,
            headers: Headers::new(),
        }
    }

    /// Sets the base URL of the BentoML service, e.g. `http://localhost:3000`.
    ///
    /// Defaults to `http://localhost:3000`. The URL is parsed when [`build`] is
    /// called.
    ///
    /// [`build`]: Self::build
    pub fn with_base_url(self, base_url: &str) -> (r: ClientBuilder)
        ensures
            r.spec_base_url() == Some(base_url@),
            r.spec_token() == self.spec_token(),
            r.spec_timeout() == self.spec_timeout(),
            r.spec_max_retries() == self.spec_max_retries(),
            r.spec_headers() == self.spec_headers(),
            r.spec_header_error() == self.spec_header_error(),
    {
        ClientBuilder { base_url: Some(base_url.to_owned()), ..self }
    }

    /// Sets the bearer token sent on each request, as `Authorization: Bearer <token>`.
    /// Unset by default.
    ///
    /// This is the scheme BentoML uses. For a non-bearer scheme, set the header
    /// directly with [`with_header`](Self::with_header).
    pub fn with_token(self, token: &str) -> (r: ClientBuilder)
        ensures
            r.spec_base_url() == self.spec_base_url(),
            r.spec_token() == Some(token@),
            r.spec_timeout() == self.spec_timeout(),
            r.spec_max_retries() == self.spec_max_retries(),
            r.spec_headers() == self.spec_headers(),
            r.spec_header_error() == self.spec_header_error(),
    {
        ClientBuilder { token: Some(token.to_owned()), ..self }
    }

    /// Sets the per-request timeout. Unset by default (no timeout); suited to
    /// long-running inference, tasks, and streaming.
    pub fn with_timeout(self, timeout: core::time::Duration) -> (r: ClientBuilder)
        ensures
            r.spec_base_url() == self.spec_base_url(),
            r.spec_token() == self.spec_token(),
            r.spec_timeout() == Some(timeout),
            r.spec_max_retries() == self.spec_max_retries(),
            r.spec_headers() == self.spec_headers(),
            r.spec_header_error() == self.spec_header_error(),
    {
        ClientBuilder { timeout: Some(timeout), ..self }
    }

    /// Sets the maximum number of times a transient request failure is retried with
    /// exponential backoff. Defaults to `3`; set to `0` to disable retries.
    pub fn with_max_retries(self, max_retries: u32) -> (r: ClientBuilder)
        ensures
            r.spec_base_url() == self.spec_base_url(),
            r.spec_token() == self.spec_token(),
            r.spec_timeout() == self.spec_timeout(),
            r.spec_max_retries() == Some(max_retries),
            r.spec_headers() == self.spec_headers(),
            r.spec_header_error() == self.spec_header_error(),
    {
        ClientBuilder { max_retries: Some(max_retries), ..self }
    }

    /// Adds a custom header sent on every request.
    ///
    /// May be called multiple times; an invalid name or value is reported when
    /// [`build`](Self::build) is called. Note that `Authorization` is managed by
    /// [`with_token`](Self::with_token).
    pub fn with_header(self, name: &str, value: &str) -> (r: ClientBuilder)
        ensures
            r.spec_base_url() == self.spec_base_url(),
            r.spec_token() == self.spec_token(),
            r.spec_timeout() == self.spec_timeout(),
            r.spec_max_retries() == self.spec_max_retries(),
            self.spec_header_error() is Some ==> r.spec_headers() == self.spec_headers()
                && r.spec_header_error() == self.spec_header_error(),
            self.spec_header_error() is None ==> match crate::headers::insert_spec(
                self.spec_headers(),
                name@,
                value@,
            ) {
                Ok(es) => r.spec_headers() == es && r.spec_header_error() is None,
                Err(m) => r.spec_headers() == self.spec_headers() && r.spec_header_error()
                    == Some(m),
            },
    {
        let mut b = self;
        b.headers.insert(name, value);
        b
    }

    /// Sets the `User-Agent` header sent on every request: [`with_header`] with the
    /// `user-agent` name.
    ///
    /// [`with_header`]: Self::with_header
    pub fn with_user_agent(self, value: &str) -> (r: ClientBuilder)
        ensures
            r.spec_base_url() == self.spec_base_url(),
            r.spec_token() == self.spec_token(),
            r.spec_timeout() == self.spec_timeout(),
            r.spec_max_retries() == self.spec_max_retries(),
            self.spec_header_error() is Some ==> r.spec_headers() == self.spec_headers()
                && r.spec_header_error() == self.spec_header_error(),
            self.spec_header_error() is None ==> match crate::headers::insert_spec(
                self.spec_headers(),
                "user-agent"@,
                value@,
            ) {
                Ok(es) => r.spec_headers() == es && r.spec_header_error() is None,
                Err(m) => r.spec_headers() == self.spec_headers() && r.spec_header_error()
                    == Some(m),
            },
    {
        self.with_header("user-agent", value)
    }

    /// The base URL that [`build`](Self::build) parses.
    pub open spec fn resolved_base_url(&self) -> Seq<char> {
        match self.spec_base_url() {
            Some(u) => u,
            None => DEFAULT_BASE_URL@,
        }
    }

    /// Builds the [`Client`], consuming the builder.
    ///
    /// Fails, in this order, when a custom header was invalid (`invalid header
    /// <failure>`), when the bearer token does not make a valid header value
    /// (`invalid bearer token`), or when the base URL cannot be parsed (`invalid
    /// url`); each is an `InvalidRequest` error. Otherwise the client's base URL is
    /// the parsed URL with its path made to end in `/`, its default headers are the
    /// custom headers with `authorization: Bearer <token>` set when a token is, and
    /// its retries default to 3.
    pub fn build(self) -> (r: Result<Client, Error>)
        ensures
            self.spec_header_error() matches Some(m) ==> (r matches Err(
                Error::InvalidRequest { message: msg, source: None },
            ) && msg@ == "invalid header "@ + m),
            self.spec_header_error() is None && !token_valid(self.spec_token()) ==> (r matches Err(
                Error::InvalidRequest { message: msg, source: Some(s) },
            ) && msg@ == "invalid bearer token"@ && s@ == "failed to parse header value"@),
            self.spec_header_error() is None && token_valid(self.spec_token()) ==> match url_parse(
                self.resolved_base_url(),
            ) {
                Err(e) => r matches Err(Error::InvalidRequest { message: msg, source: Some(s) })
                    && msg@ == "invalid url"@ && s@ == e,
                Ok(u) => r matches Ok(c) && c.spec_base_url() == directory_url(u)
                    && c.spec_default_headers() == default_header_entries(
                    self.spec_headers(),
                    self.spec_token(),
                ) && c.spec_timeout() == self.spec_timeout() && c.spec_max_retries() == (
                match self.spec_max_retries() {
                    Some(n) => n,
                    None => DEFAULT_MAX_RETRIES,
                }) && c.spec_authorized() == self.spec_token() is Some,
            },
    {
        let base_url = match self.base_url {
            Some(u) => u,
            None => DEFAULT_BASE_URL.to_owned(),
        };
        let max_retries = match self.max_retries {
            Some(n) => n,
            None => DEFAULT_MAX_RETRIES,
        };
        let entries = self.headers.apply();
        match entries {
            Err(e) => return Err(e),
            Ok(_) => {},
        }
        Client::assemble(base_url, self.token, self.timeout, max_retries, self.headers)
    }
}

impl Client {
    /// The base URL requests are resolved against; its path ends with `/`.
    pub closed spec fn spec_base_url(&self) -> Seq<char> {
        self.base_url@
    }

    /// The headers sent on every request.
    pub closed spec fn spec_default_headers(&self) -> Seq<(Seq<char>, Seq<char>)> {
        self.headers.entries()
    }

    /// The per-request timeout, if any.
    pub closed spec fn spec_timeout(&self) -> Option<core::time::Duration> {
        self.timeout
    }

    /// The number of retries of transient failures of idempotent requests.
    pub closed spec fn spec_max_retries(&self) -> u32 {
        self.max_retries
    }

    /// Whether the default headers carry a bearer token, whose value should be
    /// kept out of logs.
    pub closed spec fn spec_authorized(&self) -> bool {
        self.authorized
    }

    /// Returns a new [`ClientBuilder`].
    pub fn builder() -> (r: ClientBuilder)
        ensures
            r.spec_base_url() is None,
            r.spec_token() is None,
            r.spec_timeout() is None,
            r.spec_max_retries() is None,
            r.spec_headers() == Seq::<(Seq<char>, Seq<char>)>::empty(),
            r.spec_header_error() is None,
    {
        ClientBuilder::new()
    }

    /// Assembles a client from resolved configuration: sets the bearer token as
    /// the `authorization` default header and parses the base URL, making its path
    /// end in `/` so that routes join inside it.
    fn assemble(
        base_url: String,
        token: Option<String>,
        timeout: Option<core::time::Duration>,
        max_retries: u32,
        headers: Headers,
    ) -> (r: Result<Client, Error>)
        requires
            headers.error() is None,
        ensures
            !token_valid(opt_text(token)) ==> (r matches Err(
                Error::InvalidRequest { message: msg, source: Some(s) },
            ) && msg@ == "invalid bearer token"@ && s@ == "failed to parse header value"@),
            token_valid(opt_text(token)) ==> match url_parse(base_url@) {
                Err(e) => r matches Err(Error::InvalidRequest { message: msg, source: Some(s) })
                    && msg@ == "invalid url"@ && s@ == e,
                Ok(u) => r matches Ok(c) && c.spec_base_url() == directory_url(u)
                    && c.spec_default_headers() == default_header_entries(
                    headers.entries(),
                    opt_text(token),
                ) && c.spec_timeout() == timeout && c.spec_max_retries() == max_retries
                    && c.spec_authorized() == token is Some,
            },
    {
        let mut headers = headers;
        let authorized = token.is_some();
        if let Some(token) = token {
            let value = concat("Bearer ", token.as_str());
            match crate::headers::check_header_value(value.as_str()) {
                Err(e) => {
                    return Err(Error::invalid_request("invalid bearer token".to_string(), e));
                },
                Ok(()) => {
                    proof {
                        reveal_strlit("authorization");
                    }
                    headers.set("authorization".to_owned(), value);
                },
            }
        }
        let mut url = match ServiceUrl::parse(base_url.as_str()) {
            Ok(u) => u,
            Err(e) => return Err(Error::invalid_request("invalid url".to_string(), e)),
        };
        let path = url.path();
        let len = path.unicode_len();
        if !(len > 0 && path.get_char(len - 1) == '/') {
            let mut dir = path.to_owned();
            dir.append("/");
            proof {
                reveal_strlit("/");
            }
            assert(dir@ =~= url_path(url@) + seq!['/']);
            url.set_path(dir.as_str());
        }
        Ok(Client { base_url: url, headers, timeout, max_retries, authorized })
    }

    /// Whether two clients have the same configuration: base URL, default headers,
    /// timeout, retries, and whether they carry a bearer token.
    pub open spec fn same_config(&self, other: Client) -> bool {
        &&& self.spec_base_url() == other.spec_base_url()
        &&& self.spec_default_headers() == other.spec_default_headers()
        &&& self.spec_timeout() == other.spec_timeout()
        &&& self.spec_max_retries() == other.spec_max_retries()
        &&& self.spec_authorized() == other.spec_authorized()
    }

    /// A copy of this client.
    pub fn duplicate(&self) -> (r: Client)
        ensures
            r.same_config(*self),
    {
        Client {
            base_url: self.base_url.duplicate(),
            headers: self.headers.clone(),
            timeout: self.timeout,
            max_retries: self.max_retries,
            authorized: self.authorized,
        }
    }

    /// Returns a handle to the synchronous endpoint (`@bentoml.api`) at `route`.
    ///
    /// `route` is the endpoint name with or without a leading slash. The handle
    /// carries the route, so calls are planned on it rather than passing the route
    /// to each method. For an async task endpoint (`@bentoml.task`), use
    /// [`task`](Self::task) instead.
    pub fn endpoint(&self, route: &str) -> (r: Endpoint)
        ensures
            r.spec_client().same_config(*self),
            r.spec_route() == route@,
            r.spec_headers() == Seq::<(Seq<char>, Seq<char>)>::empty(),
            r.spec_header_error() is None,
    {
        Endpoint::new(self.duplicate(), route.to_owned())
    }

    /// Returns a handle to the async task endpoint (`@bentoml.task`) at `route`.
    ///
    /// The handle exposes only the task surface: submitting returns a
    /// `TaskHandle`. For a synchronous endpoint, use [`endpoint`](Self::endpoint).
    pub fn task(&self, route: &str) -> (r: TaskEndpoint)
        ensures
            r.spec_client().same_config(*self),
            r.spec_route() == route@,
            r.spec_headers() == Seq::<(Seq<char>, Seq<char>)>::empty(),
            r.spec_header_error() is None,
    {
        TaskEndpoint::new(self.duplicate(), route.to_owned())
    }

    /// The base URL this client targets.
    pub fn base_url(&self) -> (r: &ServiceUrl)
        ensures
            r@ == self.spec_base_url(),
    {
        &self.base_url
    }

    /// The default headers, as the accumulator that holds them.
    pub(crate) fn header_set(&self) -> (r: &Headers)
        ensures
            r.entries() == self.spec_default_headers(),
    {
        &self.headers
    }

    /// The headers sent on every request, as (normalized name, value) pairs.
    pub fn default_headers(&self) -> (r: Vec<(String, String)>)
        ensures
            crate::headers::entry_texts(r@) == self.spec_default_headers(),
            crate::headers::names_distinct(crate::headers::entry_texts(r@)),
    {
        self.headers.to_vec()
    }

    /// The per-request timeout, if any.
    pub fn timeout(&self) -> (r: Option<core::time::Duration>)
        ensures
            r == self.spec_timeout(),
    {
        self.timeout
    }

    /// The number of retries of transient failures of idempotent requests.
    pub fn max_retries(&self) -> (r: u32)
        ensures
            r == self.spec_max_retries(),
    {
        self.max_retries
    }

    /// Whether the default headers carry a bearer token.
    pub fn is_authorized(&self) -> (r: bool)
        ensures
            r == self.spec_authorized(),
    {
        self.authorized
    }

    /// Joins a route onto the base URL, tolerating leading slashes. An unparseable
    /// route is an `InvalidRequest` error (`invalid url`).
    pub fn route_url(&self, route: &str) -> (r: Result<ServiceUrl, Error>)
        ensures
            match url_join(self.spec_base_url(), trim_leading_slashes(route@)) {
                Ok(u) => r matches Ok(url) && url@ == u,
                Err(e) => r matches Err(Error::InvalidRequest { message: msg, source: Some(s) })
                    && msg@ == "invalid url"@ && s@ == e,
            },
    {
        let route = trim_start_slashes(route);
        match self.base_url.join(route) {
            Ok(u) => Ok(u),
            Err(e) => Err(Error::invalid_request("invalid url".to_string(), e)),
        }
    }

    /// Like [`route_url`](Self::route_url), but appends a single query parameter.
    pub fn endpoint_query(&self, route: &str, key: &str, value: &str) -> (r: Result<
        ServiceUrl,
        Error,
    >)
        ensures
            match url_join(self.spec_base_url(), trim_leading_slashes(route@)) {
                Ok(u) => r matches Ok(url) && url@ == url_with_query_pair(u, key@, value@),
                Err(e) => r matches Err(Error::InvalidRequest { message: msg, source: Some(s) })
                    && msg@ == "invalid url"@ && s@ == e,
            },
    {
        let mut url = match self.route_url(route) {
            Ok(u) => u,
            Err(e) => return Err(e),
        };
        url.append_pair(key, value);
        Ok(url)
    }
}

} // verus!
