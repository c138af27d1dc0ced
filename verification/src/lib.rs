//! Encoder for an in-memory distributed-tracing snapshot.
//!
//! A `TraceDetails` snapshot — timestamps, batches of spans with their
//! parent/continuation links, and opaque per-span property payloads — is
//! packed into a compact, self-describing binary buffer of fixed-width,
//! column-oriented records.  Two strategies are offered: a compact mode
//! that remaps span identifiers into a dense 16-bit space, and a
//! passthrough mode that truncates the original identifiers.

pub mod model;
pub mod mapper;
pub mod wire;
pub mod encode;
pub mod decode;
pub mod laws;
