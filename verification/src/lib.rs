//! App Frame: the decisions of a dependency-injected application framework
//! with a service orchestrator, verified. Backoff tracking, queue-receive
//! configuration, batch bookkeeping, service health assessment, reporting and
//! recovery decisions live here; the asynchronous runtime that performs them
//! lives beside the library.

/// Exponential backoff tracker to inform callers when to take an action.
pub mod backoff;
/// Define a type as a dependent or a dependency provider.
pub mod dependency_injection;
/// Reports of `anyhow` errors.
pub mod error;
/// Externally facing http endpoint to report service health.
pub mod health_endpoint;
/// How to consume and process items from a queue.
pub mod queue_consumer;
/// What a looping job needs to pace itself and report its health.
pub mod service;
/// Service health assessment, reports and recovery decisions.
pub mod service_manager;
/// Text building blocks: decimal rendering, replacement, comparison.
pub mod text;
/// Clock dependencies that are easily swapped out and mocked.
pub mod time;
/// Small items that are too small to get their own files.
pub mod util;
