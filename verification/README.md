# bentoml

A client for [BentoML](https://bentoml.com) services, in two layers.

- `src/` is the library, specified and proved with Verus. It plans every request
  (method, URL, per-call headers, `multipart/form-data` body), validates headers
  the way the HTTP stack does, classifies responses into errors, decodes streamed
  bodies into text, lines and JSON values across chunk boundaries, and makes the
  decisions of the readiness and task polling loops.
- `app/` is the async client around it, ordinary Rust that is not verified: it
  owns the HTTP stack (reqwest with retries of transient failures, scoped to
  idempotent requests), serializes and deserializes the caller's `serde` types,
  sends the planned requests, sleeps between polls and drives the decoders as
  `Stream`s. What it decides (which methods are retried, when a poll stops) it
  asks the library.

Calls into outside crates that the library makes (`http` header parsing, `url`
parsing and joining, the reqwest multipart form) go through small trusted
functions whose contracts name what the outside function returns.

## Layout

| module | contents |
| --- | --- |
| `client` | `ClientBuilder`, `Client`, `Config`, route resolution |
| `endpoint` | the `Endpoint` handle of an `@bentoml.api` |
| `task` | `TaskEndpoint`, `TaskHandle` and the task models |
| `headers` | the per-call header accumulator |
| `multipart` | `Multipart` bodies and their `Part`s |
| `request`, `response` | planned requests, idempotent methods, status checks |
| `routes`, `service_url` | route text and the service URL |
| `stream` | UTF-8 chunks, line and JSON value decoders |
| `poll` | the steps of `wait` and `wait_until_ready` |
| `error` | the error type |

The tests under `tests/` run the library with the real outside crates linked.
