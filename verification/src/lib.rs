//! Core logic of a single-node container-deployment daemon.
//!
//! The library owns the decision-making half of the daemon: reconciling a
//! declarative list of desired deployments against the container engine's
//! live inventory, sequencing lifecycle steps, and interpreting the engine's
//! wire responses.  All socket, file and process I/O lives outside the
//! library and hands plain values in and out.

pub mod api;
pub mod config;
pub mod engine;
mod errors;
pub mod lifecycle;
pub mod manager;
pub mod strutil;

pub use errors::Error;
