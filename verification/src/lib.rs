//! A client for BentoML services whose request planning, header handling,
//! error classification and streaming decoders are specified and proved.
//!
//! BentoML services expose their `@bentoml.api` methods as HTTP `POST` endpoints
//! whose route is derived from the method name. A handle names the route once:
//! `client.endpoint(route)` for an `@bentoml.api`, `client.task(route)` for an
//! `@bentoml.task`. The library computes what to send (method, URL, headers,
//! multipart form) and how to read what comes back (status, error envelope,
//! streamed lines and JSON values); sending and awaiting is left to the transport.

mod opaque;
mod render;

pub mod client;
pub mod endpoint;
pub mod error;
pub mod headers;
pub mod multipart;
pub mod poll;
pub mod prelude;
pub mod request;
pub mod response;
pub mod routes;
pub mod service_url;
pub mod stream;
pub mod task;

pub use crate::client::{Client, ClientBuilder, Config};
pub use crate::endpoint::Endpoint;
pub use crate::error::{Error, ErrorEnvelope, Result};
pub use crate::multipart::{Multipart, Part};
pub use crate::request::{is_idempotent, Method, RequestPlan};
pub use crate::service_url::ServiceUrl;
pub use crate::task::{HealthStatus, TaskEndpoint, TaskHandle, TaskInfo, TaskStatus};
