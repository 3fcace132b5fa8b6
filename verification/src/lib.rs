//! Session core of a long-polling gateway that proxies WebSocket connections
//! for clients limited to short HTTP requests.
//!
//! The crate holds the decisions of the gateway as verified functions on plain
//! values; the server around it does the waiting and the traffic.
//!
//! - [`app_state`]: the sessions and the registry that holds them.
//! - [`driver`]: what a session's driver does on each command, upstream frame,
//!   heartbeat and expiry, from connection to removal.
//! - [`lifecycle`]: the life of a session over a whole run of its driver.
//! - [`endpoints`]: the four operations on sessions: connect, read, send and
//!   close.
//! - [`authentication`]: the guard in front of the protected operations.
//! - [`api_error`], [`api_response`]: what a request is answered with.
//! - [`config`]: the time limits.
//!
//! Time is a count of milliseconds on a monotonic clock that the caller reads
//! and hands in with each call.

pub mod api_error;
pub mod api_response;
pub mod app_state;
pub mod authentication;
pub mod config;
pub mod driver;
pub mod endpoints;
pub mod lifecycle;
