//! A cancellable, progressively-reporting network path-discovery core.
//!
//! Given a destination (literal address text or a hostname's lookup answer),
//! the library resolves it, and runs one trace as a verified state machine:
//! each hop observation handed in by the probing engine becomes an observer
//! event in receive order, cancellation is honored between messages, and
//! exactly one closing event ends every run. The probing engine, the
//! hostname lookup and the observer sink do I/O and live outside; callers
//! drive the orchestrator with what they returned.

pub mod addr;
pub mod event;
pub mod orchestrator;
pub mod resolve;
