//! The core of a path-based URL redirection service: the auth gate that turns
//! a basic credential header into a user, the handlers that create, list and
//! resolve redirects, the registry whose conditional insert keeps each path
//! unique, and the mapping of errors to responses.
//!
//! Storage, the HTTP server and the pool that runs password checks live
//! outside; they hand this library plain values and take its answers back.
pub mod auth;
pub mod config;
pub mod error;
pub mod model;
pub mod registry;
pub mod server;
pub mod text;
