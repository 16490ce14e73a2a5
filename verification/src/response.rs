//! Reading a response's status.

use vstd::prelude::*;

use crate::error::{Error, ErrorEnvelope};

verus! {

/// Whether an HTTP status is a success (2xx).
pub open spec fn spec_is_success(status: u16) -> bool {
    200 <= status < 300
}

/// A status is a success exactly when it lies in `200..=299`: every 2xx status
/// (200 OK, 201 Created, 202 Accepted, 204 No Content, ...) and nothing else, so
/// `is_success` and `check_status` accept all of these and reject every other
/// status.
pub proof fn lemma_success_is_2xx(status: u16)
    ensures
        spec_is_success(status) <==> (200 <= status && status <= 299),
        status == 200 || status == 201 || status == 202 || status == 203 || status == 204
            ==> spec_is_success(status),
{
}

/// Whether an HTTP status is a success (2xx). A health check (`/readyz`,
/// `/livez`) reports healthy exactly when its response status is one.
pub fn is_success(status: u16) -> (r: bool)
    ensures
        r == spec_is_success(status),
{
    200 <= status && status < 300
}

/// Maps a response to success or a `Service` error.
///
/// A 2xx status is a success. Any other status is a `Service` error built from
/// the status and the body (see `Error::service`): the envelope's `error` and
/// `detail` when the body parsed as BentoML's `{"error", "detail"}` envelope,
/// otherwise the raw body as the message.
pub fn check_status(status: u16, body: &str, envelope: Option<ErrorEnvelope>) -> (r: Result<
    (),
    Error,
>)
    ensures
        spec_is_success(status) ==> r is Ok,
        !spec_is_success(status) ==> match envelope {
            Some(env) => r matches Err(Error::Service { status: s, message: m, detail: d }) && s
                == status && m@ == env.error@ && d == env.detail,
            None => r matches Err(Error::Service { status: s, message: m, detail: None }) && s
                == status && m@ == body@,
        },
{
    if is_success(status) {
        Ok(())
    } else {
        Err(Error::service(status, body, envelope))
    }
}

} // verus!
