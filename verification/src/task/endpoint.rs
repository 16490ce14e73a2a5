//! The [`TaskEndpoint`] handle for async task queues (`@bentoml.task`).

use vstd::prelude::*;

use super::handle::TaskHandle;
use super::model::TaskInfo;
use crate::client::Client;
use crate::endpoint::{plan, plan_matches};
use crate::headers::{inserted, inserted_all};
use crate::error::Error;
use crate::headers::{names_distinct, opt_str_view, request_id_of};
use crate::headers::Headers;
use crate::request::{Method, RequestPlan};
use crate::routes::{join, task_route, trim_leading_slashes};
use crate::service_url::url_join;

verus! {

/// A handle to an async task endpoint (`@bentoml.task`), pairing a route with its
/// [`Client`].
///
/// Obtain one with [`Client::task`]. Submitting returns a [`TaskHandle`] that
/// carries the id-based operations (`status`, `wait`, result readers, `retry`,
/// `cancel`). Per-call headers are attached with
/// [`with_header`](TaskEndpoint::with_header) and propagate to the [`TaskHandle`],
/// covering its status/result/retry/cancel requests too.
#[derive(Clone)]
pub struct TaskEndpoint {
    client: Client,
    route: String,
    headers: Headers,
}

impl TaskEndpoint {
    /// The route of this endpoint.
    pub closed spec fn spec_route(&self) -> Seq<char> {
        self.route@
    }

    /// The client this endpoint belongs to.
    pub closed spec fn spec_client(&self) -> Client {
        self.client
    }

    /// The per-call headers added so far.
    pub closed spec fn spec_headers(&self) -> Seq<(Seq<char>, Seq<char>)> {
        self.headers.entries()
    }

    /// The first invalid per-call header recorded, if any.
    pub closed spec fn spec_header_error(&self) -> Option<Seq<char>> {
        self.headers.error()
    }

    /// A handle to `route` on `client`, with no per-call headers.
    pub(crate) fn new(client: Client, route: String) -> (r: TaskEndpoint)
        ensures
            r.spec_client() == client,
            r.spec_route() == route@,
            r.spec_headers() == Seq::<(Seq<char>, Seq<char>)>::empty(),
            r.spec_header_error() is None,
    {
        TaskEndpoint { client, route, headers: Headers::new() }
    }

    /// This endpoint's route.
    pub fn route(&self) -> (r: &str)
        ensures
            r@ == self.spec_route(),
    {
        self.route.as_str()
    }

    /// The client this endpoint belongs to.
    pub fn client(&self) -> (r: &Client)
        ensures
            *r == self.spec_client(),
    {
        &self.client
    }

    /// The `x-request-id` set on this handle, if any, for enriching traces.
    pub fn request_id(&self) -> (r: Option<&str>)
        ensures
            opt_str_view(r) == request_id_of(self.spec_headers()),
    {
        self.headers.request_id()
    }

    /// Adds a header sent with every request made through this handle and the task
    /// handles it creates.
    ///
    /// Sent in addition to any configured on the client, overriding those on a name
    /// clash. An invalid name or value surfaces as an error when a request is
    /// planned.
    pub fn with_header(self, name: &str, value: &str) -> (r: TaskEndpoint)
        ensures
            r.spec_client() == self.spec_client(),
            r.spec_route() == self.spec_route(),
            (r.spec_headers(), r.spec_header_error()) == inserted(
                self.spec_headers(),
                self.spec_header_error(),
                name@,
                value@,
            ),
    {
        let mut e = self;
        e.headers.insert(name, value);
        e
    }

    /// Adds several headers, in order, sent with every request made through this
    /// handle.
    pub fn with_headers(self, headers: Vec<(String, String)>) -> (r: TaskEndpoint)
        ensures
            r.spec_client() == self.spec_client(),
            r.spec_route() == self.spec_route(),
            (r.spec_headers(), r.spec_header_error()) == inserted_all(
                self.spec_headers(),
                self.spec_header_error(),
                crate::headers::entry_texts(headers@),
            ),
    {
        let mut e = self;
        e.headers.insert_all(&headers);
        e
    }

    /// Sets the `x-request-id` header: [`with_header`] with the `x-request-id` name,
    /// for correlating a task in server logs and traces.
    ///
    /// [`with_header`]: Self::with_header
    pub fn with_request_id(self, id: &str) -> (r: TaskEndpoint)
        ensures
            r.spec_client() == self.spec_client(),
            r.spec_route() == self.spec_route(),
            (r.spec_headers(), r.spec_header_error()) == inserted(
                self.spec_headers(),
                self.spec_header_error(),
                "x-request-id"@,
                id@,
            ),
    {
        self.with_header("x-request-id", id)
    }

    /// Plans the `POST {route}/submit` request that submits a task, with this
    /// handle's headers. Every body encoding (JSON, raw bytes, multipart) goes
    /// through this plan.
    pub fn submit_request(&self) -> (r: Result<RequestPlan, Error>)
        ensures
            plan_matches(
                r,
                Method::Post,
                url_join(
                    self.spec_client().spec_base_url(),
                    trim_leading_slashes(task_route(self.spec_route(), "submit"@)),
                ),
                self.spec_client().spec_default_headers(),
                self.spec_headers(),
                self.spec_header_error(),
            ),
            r matches Ok(p) ==> names_distinct(p.header_texts()),
    {
        let route = join(self.route.as_str(), "submit");
        plan(Method::Post, self.client.route_url(route.as_str()), &self.client, &self.headers)
    }

    /// The handle of the task the service accepted, from the `submit` response.
    ///
    /// It carries this endpoint's client, route and per-call headers.
    pub fn submitted(&self, info: TaskInfo) -> (r: TaskHandle)
        ensures
            r.spec_task_id() == info.task_id@,
            r.spec_route() == self.spec_route(),
            r.spec_headers() == self.spec_headers(),
            r.spec_header_error() == self.spec_header_error(),
            r.spec_client().same_config(self.spec_client()),
    {
        TaskHandle::new(
            self.client.duplicate(),
            self.route.clone(),
            info.task_id,
            self.headers.clone(),
        )
    }

    /// A handle to an already submitted task, resumed from its id.
    ///
    /// It carries this endpoint's client, route and per-call headers, so status,
    /// result, retry and cancel requests made through it include them.
    pub fn handle(&self, task_id: &str) -> (r: TaskHandle)
        ensures
            r.spec_task_id() == task_id@,
            r.spec_route() == self.spec_route(),
            r.spec_headers() == self.spec_headers(),
            r.spec_header_error() == self.spec_header_error(),
            r.spec_client().same_config(self.spec_client()),
    {
        TaskHandle::new(
            self.client.duplicate(),
            self.route.clone(),
            task_id.to_owned(),
            self.headers.clone(),
        )
    }
}

} // verus!
