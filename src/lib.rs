//! Userspace side of a system-call telemetry collector: decoding of the
//! events that a capture driver publishes in per-CPU rings, the cursor and
//! back-off logic that drains those rings, and the value types handed to a
//! downstream sink.
pub mod aggregator;
pub mod bytes;
pub mod collector;
pub mod config;
pub mod error;
pub mod state;
pub mod syscall;
pub mod value;
