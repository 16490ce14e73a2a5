//! Async task-queue endpoints (`@bentoml.task`).
//!
//! A task endpoint named `generate` is served at five routes derived from its base
//! route: `POST generate/submit`, `GET generate/status`, `GET generate/get`,
//! `POST generate/retry`, and `PUT generate/cancel`. The latter four identify the
//! task with a `task_id` query parameter.
//!
//! Obtain a [`TaskEndpoint`] with `Client::task`, submit to get a [`TaskHandle`],
//! then track it with `status` / `wait` / the result readers.

pub mod endpoint;
pub mod handle;
pub mod model;

pub use self::endpoint::TaskEndpoint;
pub use self::handle::TaskHandle;
pub use self::model::{HealthStatus, TaskInfo, TaskStatus};
pub use crate::routes::join;
