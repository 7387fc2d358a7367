//! A connection-and-routing broker for a two-role relay protocol.
//!
//! Connections claim an identity and may authenticate as a target (an agent
//! that executes run requests) or as a controller (an operator that issues
//! them).  The broker tracks presence per role, routes run requests to the
//! addressed target, relays run responses to all controllers, and keeps
//! controllers informed of the current target list.  Transport and sink I/O
//! live outside the library: a sink is an opaque token here, and every
//! routing decision is returned as data.

pub mod codec;
pub mod dispatcher;
pub mod laws;
pub mod protocol;
pub mod registry;
