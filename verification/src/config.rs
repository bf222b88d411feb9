//! Read-only configuration, constructed once at startup and shared by
//! reference with every task; it is never mutated after load.

use vstd::prelude::*;

verus! {

/// The whole configuration file.
pub struct Config {
    pub sys: Sys,
    pub http: Http,
    pub notification: Notification,
}

/// Sampling settings: `timer` is the CPU sample interval in milliseconds.
pub struct Sys {
    pub timer: u64,
}

/// HTTP listener settings.
pub struct Http {
    pub bind: String,
    pub port: u16,
}

/// Webhook notifier settings: when `enable` is set, a snapshot is pushed to
/// `url` every `interval` milliseconds.
pub struct Notification {
    pub enable: bool,
    pub url: String,
    pub interval: u64,
}

} // verus!
