//! A host-metrics collection library.
//!
//! The library gathers platform identity, CPU utilization, memory, disk and
//! network statistics handed to it as plain values, merges and converts them
//! into one immutable snapshot, and prepares the response envelopes and the
//! notifier decisions that a thin I/O layer acts on.

pub mod collect;
pub mod config;
pub mod device;
pub mod net;
pub mod notify;
pub mod result;
pub mod system_info;
pub mod text;
