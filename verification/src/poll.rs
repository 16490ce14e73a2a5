//! The decisions of the polling loops: waiting for readiness and for a task.
//!
//! The caller performs each check, reads the clock and sleeps; these functions
//! decide, from what a check returned and whether the deadline has passed,
//! whether to stop (and with what) or to sleep and check again.

use vstd::prelude::*;

use crate::error::Error;
use crate::task::TaskStatus;

verus! {

/// One step of `TaskHandle::wait`, after a status check.
///
/// A failed check ends the wait with its error. A terminal status (completed,
/// failed, canceled) ends it with that status, which may be non-`Completed`. A
/// status still running ends it with `Timeout` once the deadline has passed;
/// otherwise the caller sleeps for the interval (`Ok(None)`) and checks again.
pub fn wait_step(
    status: Result<TaskStatus, Error>,
    deadline_reached: bool,
    timeout: core::time::Duration,
) -> (r: Result<Option<TaskStatus>, Error>)
    ensures
        status matches Err(e) ==> r == Err::<Option<TaskStatus>, Error>(e),
        status matches Ok(s) ==> {
            &&& s.spec_is_terminal() ==> r == Ok::<Option<TaskStatus>, Error>(Some(s))
            &&& !s.spec_is_terminal() && deadline_reached ==> (r matches Err(
                Error::Timeout { timeout: t },
            ) && t == timeout)
            &&& !s.spec_is_terminal() && !deadline_reached ==> r == Ok::<
                Option<TaskStatus>,
                Error,
            >(None)
        },
{
    let s = match status {
        Ok(s) => s,
        Err(e) => return Err(e),
    };
    if s.is_terminal() {
        return Ok(Some(s));
    }
    if deadline_reached {
        return Err(Error::Timeout { timeout });
    }
    Ok(None)
}

/// One step of `Client::wait_until_ready`, after a readiness check.
///
/// A check that reported ready ends the wait (`Ok(true)`). Failed checks are
/// ignored (e.g. connection refused during startup): only the deadline ends the
/// loop otherwise, with `Timeout`; before it, the caller sleeps for the interval
/// (`Ok(false)`) and checks again.
pub fn ready_step(
    ready: Result<bool, Error>,
    deadline_reached: bool,
    timeout: core::time::Duration,
) -> (r: Result<bool, Error>)
    ensures
        ready == Ok::<bool, Error>(true) ==> r == Ok::<bool, Error>(true),
        ready != Ok::<bool, Error>(true) && deadline_reached ==> (r matches Err(
            Error::Timeout { timeout: t },
        ) && t == timeout),
        ready != Ok::<bool, Error>(true) && !deadline_reached ==> r == Ok::<bool, Error>(false),
{
    if let Ok(true) = ready {
        return Ok(true);
    }
    if deadline_reached {
        return Err(Error::Timeout { timeout });
    }
    Ok(false)
}

} // verus!
