//! A local, single-host runner for declarative container workflows.
//!
//! The library decides; a driver performs. Every runtime invocation that a
//! workflow run needs is issued by a verified state machine, one at a time,
//! and the driver hands back whether it succeeded.
//!
//! Jobs run one at a time, in declared order. There is no timeout: an
//! attached main container that never exits holds up the whole run.
pub mod model;
pub mod ordered;
pub mod env;
pub mod runtime;
pub mod executor;
pub mod engine;
pub mod laws;
