//! A streaming rendezvous relay: the in-memory engine of an HTTP server that
//! pairs one uploader with one downloader through an opaque identifier, so
//! that bytes flow from the uploader's request body into the downloader's
//! response body without ever being buffered in full.
//!
//! The crate holds the verified core: the registry of pending transfers, the
//! identifier/secret lifecycle, the forwarder state machine that relays one
//! body into another, the query-string handling for every endpoint, the
//! request router, and the expiration sweep. The HTTP transport itself, the
//! timers and the completion channels live outside, driven by the decision
//! functions exported here.

pub mod config;
pub mod forwarder;
pub mod handlers;
pub mod laws;
pub mod query;
pub mod registry;
pub mod response;
pub mod text;
pub mod token;
