//! Error and result types for the crate.

use vstd::prelude::*;

use crate::task::TaskStatus;

verus! {

/// A convenient alias for results returned by this crate.
pub type Result<T> = core::result::Result<T, Error>;

/// The error type returned by client operations.
#[derive(Debug)]
#[non_exhaustive]
#[allow(inconsistent_fields)]
pub enum Error {
    /// The request could not be constructed: an unparseable base URL or route, an
    /// invalid header, or a malformed multipart body.
    InvalidRequest {
        /// What was invalid.
        message: String,
        /// The rendered underlying cause, if any.
        source: Option<String>,
    },
    /// A response could not be decoded (e.g. invalid UTF-8 or malformed JSON in a
    /// streamed response).
    Decode {
        /// What failed to decode.
        message: String,
        /// The rendered underlying cause, if any.
        source: Option<String>,
    },
    /// The HTTP request failed: connection, timeout, retries exhausted, or the
    /// client could not be built.
    Transport {
        /// The rendered transport failure.
        message: String,
        /// The status of the response the failure was generated from, if any.
        status: Option<u16>,
    },
    /// The service did not become ready (or a task did not finish) within the
    /// configured timeout.
    Timeout {
        /// The timeout that elapsed.
        timeout: core::time::Duration,
    },
    /// The service responded with a non-success status code.
    ///
    /// `message` is the `error` field of BentoML's JSON error envelope when present,
    /// otherwise the raw response body. `detail` carries the `detail` field, present
    /// on validation errors.
    Service {
        /// The HTTP status code returned by the service.
        status: u16,
        /// The error message from the envelope, or the raw body.
        message: String,
        /// Structured error detail, when the service provides it, as raw JSON.
        detail: Option<serde_json::Value>,
    },
    /// A task result was requested but the task is not in the `Completed` state.
    TaskNotComplete {
        /// The task identifier.
        task_id: String,
        /// The task's current status.
        status: TaskStatus,
    },
}

/// BentoML's JSON error envelope: `{"error": "...", "detail": ...}`.
#[derive(Debug, Clone)]
pub struct ErrorEnvelope {
    /// The `error` field.
    pub error: String,
    /// The optional `detail` field.
    pub detail: Option<serde_json::Value>,
}

impl Error {
    /// The HTTP status code this error carries, if any.
    pub open spec fn spec_status(&self) -> Option<u16> {
        match self {
            Error::Service { status, .. } => Some(*status),
            Error::Transport { status, .. } => *status,
            _ => None,
        }
    }

    /// The HTTP status code, if this error carries one (a `Service` response, or a
    /// transport error generated from a response).
    pub fn status(&self) -> (r: Option<u16>)
        ensures
            r == self.spec_status(),
    {
        match self {
            Error::Service { status, .. } => Some(*status),
            Error::Transport { status, .. } => *status,
            _ => None,
        }
    }

    /// An `InvalidRequest` error with a message and a rendered source cause.
    pub fn invalid_request(message: String, source: String) -> (r: Error)
        ensures
            r matches Error::InvalidRequest { message: m, source: Some(s) } && m@ == message@
                && s@ == source@,
    {
        Error::InvalidRequest { message, source: Some(source) }
    }

    /// An `InvalidRequest` error with just a message.
    pub fn invalid_message(message: String) -> (r: Error)
        ensures
            r matches Error::InvalidRequest { message: m, source: None } && m@ == message@,
    {
        Error::InvalidRequest { message, source: None }
    }

    /// A `Decode` error with a message and a rendered source cause.
    pub fn decode(message: String, source: String) -> (r: Error)
        ensures
            r matches Error::Decode { message: m, source: Some(s) } && m@ == message@ && s@
                == source@,
    {
        Error::Decode { message, source: Some(source) }
    }

    /// A `Decode` error with just a message.
    pub fn decode_message(message: String) -> (r: Error)
        ensures
            r matches Error::Decode { message: m, source: None } && m@ == message@,
    {
        Error::Decode { message, source: None }
    }

    /// Builds a `Service` error from a status code and raw response body, using
    /// BentoML's `{"error", "detail"}` envelope when the body parsed as one.
    ///
    /// `envelope` is the body read as an envelope, `None` when it is not one (HTML,
    /// empty, plain text); the raw body is then kept as the message.
    pub fn service(status: u16, body: &str, envelope: Option<ErrorEnvelope>) -> (r: Error)
        ensures
            match envelope {
                Some(env) => r matches Error::Service { status: s, message: m, detail: d }
                    && s == status && m@ == env.error@ && d == env.detail,
                None => r matches Error::Service { status: s, message: m, detail: None }
                    && s == status && m@ == body@,
            },
    {
        match envelope {
            Some(env) => Error::Service { status, message: env.error, detail: env.detail },
            None => Error::Service { status, message: body.to_owned(), detail: None },
        }
    }
}

} // verus!
