//! SSH-side logic: hosts, probe output, service analysis, metrics text,
//! key setup, the reconnect schedule and the bytes of terminal keys.

pub mod client;
pub mod discovery;
pub mod key_setup;
pub mod metrics;
pub mod pool;
pub mod probe;
pub mod pty;
pub mod services;
