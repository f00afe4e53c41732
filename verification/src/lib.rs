//! A randomly named, collision-resistant endpoint naming scheme for
//! single-shot inter-process rendezvous points.
//!
//! The library owns the naming layer: it generates a fresh 128-bit
//! identifier, renders it in the canonical hyphenated form, and prepends
//! the platform namespace prefix, all under exact contracts.  The
//! surrounding transport (binding the endpoint, accepting and connecting,
//! and the duplex byte streams) is asynchronous operating-system I/O and
//! lives outside the verified core.

pub mod naming;

pub use naming::generate;
pub use naming::render_name;
pub use naming::EndpointName;
