//! A local control plane that supervises a network-proxy core binary.
//!
//! The library is the verified supervision logic: status bookkeeping for the
//! logical ("enabled") and physical ("core binary") slots, command planning
//! for starting and stopping the core process, reconciliation of stray
//! processes, and the dry-run validation scan of the core binary's log
//! output. All operating-system work (spawning, killing, scanning the
//! process table, file creation, the HTTP front end) is performed by the
//! embedding application, which feeds the results back into these verified
//! state transitions as plain values.

pub mod config;
pub mod manager;
pub mod scan;
pub mod status;
