//! Decoders for streamed response bodies.
//!
//! BentoML streaming endpoints return the response body as a sequence of chunks.
//! The transport does not impose SSE or other framing: a `Generator[str]` endpoint
//! streams raw text, a `Generator[Model]` endpoint streams concatenated JSON values,
//! and chunk boundaries follow the network, not logical records. The decoders here
//! turn chunks into text, lines, and JSON values, buffering across boundaries.

pub mod json;
pub mod lines;
pub mod text;

pub use self::json::{JsonDecoder, JsonOutput, JsonStop};
pub use self::lines::{LineDecoder, LineOutput};
pub use self::text::decode_chunk;
