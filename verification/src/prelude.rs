//! Convenient re-exports of the most commonly used items.

pub use crate::error::{Error, Result};
pub use crate::multipart::{Multipart, Part};
pub use crate::task::{TaskEndpoint, TaskHandle, TaskStatus};
pub use crate::{Client, ClientBuilder, Endpoint};
