//! Verified core of a `dd`-like stream copier.
//!
//! The crate moves a byte stream from one endpoint to another through a
//! bounded pool of reusable buffers, while accounting for progress and
//! gating destructive writes behind device-safety checks.  Endpoints are
//! modelled as closed tagged variants over plain byte values; the pieces
//! that touch the operating system (real file handles, threads, the
//! progress bar) live outside this library and drive it with plain values.

pub mod advisor;
pub mod buffer;
pub mod cli;
pub mod device;
pub mod endpoint;
pub mod errors;
pub mod pipeline;
pub mod progress;
pub mod strutil;
