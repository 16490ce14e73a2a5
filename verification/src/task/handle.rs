//! The [`TaskHandle`] of a submitted task.

use vstd::prelude::*;

use super::model::{TaskInfo, TaskStatus};
use crate::client::Client;
use crate::endpoint::{plan, plan_matches};
use crate::error::Error;
use crate::headers::{names_distinct, opt_str_view, request_id_of};
use crate::headers::Headers;
use crate::request::{Method, RequestPlan};
use crate::routes::{join, task_route, trim_leading_slashes};
use crate::service_url::{url_join, url_with_query_pair};

verus! {

/// The URL of operation `op` of task `task_id` on the task endpoint at `route`,
/// for a client whose base URL is `base`: `route/op?task_id=<task_id>`, or the
/// parse error when the route does not resolve.
pub open spec fn task_op_url(base: Seq<char>, route: Seq<char>, op: Seq<char>, task_id: Seq<char>) -> Result<
    Seq<char>,
    Seq<char>,
> {
    match url_join(base, trim_leading_slashes(task_route(route, op))) {
        Ok(u) => Ok(url_with_query_pair(u, "task_id"@, task_id)),
        Err(e) => Err(e),
    }
}

/// A handle to a submitted task, pairing its id with the client that created it.
///
/// Carries the per-call headers from the [`TaskEndpoint`](super::TaskEndpoint)
/// that submitted it, so they apply to every status/result/retry/cancel request
/// too.
#[derive(Clone)]
pub struct TaskHandle {
    client: Client,
    route: String,
    task_id: String,
    headers: Headers,
}

impl TaskHandle {
    /// The task's id.
    pub closed spec fn spec_task_id(&self) -> Seq<char> {
        self.task_id@
    }

    /// The route of the task endpoint.
    pub closed spec fn spec_route(&self) -> Seq<char> {
        self.route@
    }

    /// The client the task was submitted through.
    pub closed spec fn spec_client(&self) -> Client {
        self.client
    }

    /// The per-call headers carried from the submitting endpoint.
    pub closed spec fn spec_headers(&self) -> Seq<(Seq<char>, Seq<char>)> {
        self.headers.entries()
    }

    /// The first invalid per-call header recorded, if any.
    pub closed spec fn spec_header_error(&self) -> Option<Seq<char>> {
        self.headers.error()
    }

    /// A handle to task `task_id` on the task endpoint at `route`.
    pub(crate) fn new(client: Client, route: String, task_id: String, headers: Headers) -> (r:
        TaskHandle)
        ensures
            r.spec_client() == client,
            r.spec_route() == route@,
            r.spec_task_id() == task_id@,
            r.spec_headers() == headers.entries(),
            r.spec_header_error() == headers.error(),
    {
        TaskHandle { client, route, task_id, headers }
    }

    /// The unique identifier of the task.
    pub fn task_id(&self) -> (r: &str)
        ensures
            r@ == self.spec_task_id(),
    {
        self.task_id.as_str()
    }

    /// The route of the task endpoint.
    pub fn route(&self) -> (r: &str)
        ensures
            r@ == self.spec_route(),
    {
        self.route.as_str()
    }

    /// The client the task was submitted through.
    pub fn client(&self) -> (r: &Client)
        ensures
            *r == self.spec_client(),
    {
        &self.client
    }

    /// The `x-request-id` carried from the submitting endpoint, for traces.
    pub fn request_id(&self) -> (r: Option<&str>)
        ensures
            opt_str_view(r) == request_id_of(self.spec_headers()),
    {
        self.headers.request_id()
    }

    /// Plans the `task_id`-scoped request for operation `op`, with the carried
    /// headers.
    pub fn request(&self, op: &str, method: Method) -> (r: Result<RequestPlan, Error>)
        ensures
            plan_matches(
                r,
                method,
                task_op_url(
                    self.spec_client().spec_base_url(),
                    self.spec_route(),
                    op@,
                    self.spec_task_id(),
                ),
                self.spec_client().spec_default_headers(),
                self.spec_headers(),
                self.spec_header_error(),
            ),
            r matches Ok(p) ==> names_distinct(p.header_texts()),
    {
        let route = join(self.route.as_str(), op);
        plan(
            method,
            self.client.endpoint_query(route.as_str(), "task_id", self.task_id.as_str()),
            &self.client,
            &self.headers,
        )
    }

    /// Plans `GET {route}/status?task_id=...`, which fetches the task's status.
    pub fn status_request(&self) -> (r: Result<RequestPlan, Error>)
        ensures
            plan_matches(
                r,
                Method::Get,
                task_op_url(
                    self.spec_client().spec_base_url(),
                    self.spec_route(),
                    "status"@,
                    self.spec_task_id(),
                ),
                self.spec_client().spec_default_headers(),
                self.spec_headers(),
                self.spec_header_error(),
            ),
            r matches Ok(p) ==> names_distinct(p.header_texts()),
    {
        self.request("status", Method::Get)
    }

    /// Plans the fetch of the completed result, given the task's current status.
    ///
    /// A task that has not `Completed` (pending, failed, or canceled) gives a
    /// `TaskNotComplete` error carrying its id and status, rather than a request
    /// whose answer would fail to deserialize. A completed one gives
    /// `GET {route}/get?task_id=...`.
    pub fn result_request(&self, status: TaskStatus) -> (r: Result<RequestPlan, Error>)
        ensures
            status != TaskStatus::Completed ==> (r matches Err(
                Error::TaskNotComplete { task_id: id, status: s },
            ) && id@ == self.spec_task_id() && s == status),
            status == TaskStatus::Completed ==> plan_matches(
                r,
                Method::Get,
                task_op_url(
                    self.spec_client().spec_base_url(),
                    self.spec_route(),
                    "get"@,
                    self.spec_task_id(),
                ),
                self.spec_client().spec_default_headers(),
                self.spec_headers(),
                self.spec_header_error(),
            ),
            r matches Ok(p) ==> names_distinct(p.header_texts()),
    {
        if status != TaskStatus::Completed {
            return Err(Error::TaskNotComplete { task_id: self.task_id.clone(), status });
        }
        self.request("get", Method::Get)
    }

    /// Plans `POST {route}/retry?task_id=...`, which re-runs the task.
    pub fn retry_request(&self) -> (r: Result<RequestPlan, Error>)
        ensures
            plan_matches(
                r,
                Method::Post,
                task_op_url(
                    self.spec_client().spec_base_url(),
                    self.spec_route(),
                    "retry"@,
                    self.spec_task_id(),
                ),
                self.spec_client().spec_default_headers(),
                self.spec_headers(),
                self.spec_header_error(),
            ),
            r matches Ok(p) ==> names_distinct(p.header_texts()),
    {
        self.request("retry", Method::Post)
    }

    /// Plans `PUT {route}/cancel?task_id=...`, which cancels the task before it
    /// starts executing.
    pub fn cancel_request(&self) -> (r: Result<RequestPlan, Error>)
        ensures
            plan_matches(
                r,
                Method::Put,
                task_op_url(
                    self.spec_client().spec_base_url(),
                    self.spec_route(),
                    "cancel"@,
                    self.spec_task_id(),
                ),
                self.spec_client().spec_default_headers(),
                self.spec_headers(),
                self.spec_header_error(),
            ),
            r matches Ok(p) ==> names_distinct(p.header_texts()),
    {
        self.request("cancel", Method::Put)
    }

    /// The handle of the new run, from the `retry` response: the same endpoint,
    /// client and headers, with the new task id.
    pub fn retried(&self, info: TaskInfo) -> (r: TaskHandle)
        ensures
            r.spec_task_id() == info.task_id@,
            r.spec_route() == self.spec_route(),
            r.spec_headers() == self.spec_headers(),
            r.spec_header_error() == self.spec_header_error(),
            r.spec_client().same_config(self.spec_client()),
    {
        TaskHandle::new(
            self.client.duplicate(),
            self.route.clone(),
            info.task_id,
            self.headers.clone(),
        )
    }
}

} // verus!
