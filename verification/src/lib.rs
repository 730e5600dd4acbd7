//! The decisions of a small HTTP upload service, verified.
//!
//! A request is routed by its method and path. A `POST` starts a bridge
//! task that opens a destination named after the last segment of the path,
//! writes the chunks of the body to it in the order in which they arrive,
//! and reports one outcome on a one-shot signal. The handler that waits at
//! the other end of the signal turns that outcome into the response.
//!
//! Whatever touches the network, the file system or the executor is done by
//! the caller. This crate decides what is done next and proves what follows
//! from it.

pub mod bridge;
pub mod destination;
pub mod outcome;
pub mod response;
pub mod route;
pub mod service;
pub mod signal;
pub mod world;
