//! Routing core of a client for a clustered, replicated key-value store.
//!
//! The library decides where each command goes (which primary owns a hash slot,
//! which replica backs it), follows the redirections that servers answer with,
//! requeues work when a connection fails, and keeps batch results in submission
//! order. Transport, wire encoding and task plumbing live outside it.
use vstd::prelude::*;

pub mod server;
pub mod topology;
pub mod slot;
pub mod error;
pub mod command;
pub mod routing;
pub mod redirect;
pub mod connection;
pub mod batch;
pub mod router;
pub mod clients;
pub mod laws;
