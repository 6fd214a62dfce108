//! A lazy state-hydration hook for a bytecode interpreter under fuzzing.
//!
//! The hook watches every instruction. The first time a storage slot is read, or a contract is
//! called, it asks for the real value from a chain-data endpoint; a call site that keeps
//! calling is cut off after a fixed number of observations.
//!
//! The library decides and remembers; it does no I/O. [`OnChain::on_step`] says what is to be
//! fetched, the caller fetches it, and [`Lookup::resolve`] turns the answer into the update
//! for the interpreter.
pub mod dedup;
pub mod encoding;
pub mod frame;
pub mod hook;
pub mod laws;
pub mod middleware;
pub mod throttle;
pub mod word;

pub use dedup::{VisitedCode, VisitedSlots};
pub use frame::Frame;
pub use hook::{OnChain, StepError};
pub use middleware::{Lookup, MiddlewareOp, Reply};
pub use throttle::{CallSite, CallSiteCounters};
pub use word::{Address, Word};
