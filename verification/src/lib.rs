//! A remote-control engine for a PipeWire audio system: an in-memory model
//! of the routing topology (nodes, ports, links) kept consistent under an
//! out-of-order event stream, a fan-out broadcaster with bounded buffering
//! and explicit loss accounting, and the pure translation logic between
//! subsystem notifications, cache mutations, and outbound commands.
//!
//! Everything here is synchronous and free of I/O; the surrounding service
//! wires these pieces to the subsystem connection, the HTTP layer, and the
//! clock.

pub mod broadcast;
pub mod cli;
pub mod controller;
pub mod events;
pub mod logger;
pub mod manager;
pub mod models;
pub mod presets;
pub mod seqs;
pub mod strings;
pub mod systemd;
