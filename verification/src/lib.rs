//! Decision logic of a TCP byte sink driven by a kernel submission/completion
//! ring: correlation tags, the registered buffer pool, the classification of
//! ring errors and the per-completion state machine of a worker.
//!
//! The library performs no I/O. A driver owns the ring, hands each completion
//! record to a [`worker::Worker`] and carries out the actions it gets back.

pub mod completion;
pub mod correlation;
pub mod laws;
pub mod orchestrator;
pub mod pool;
pub mod submit;
pub mod worker;
