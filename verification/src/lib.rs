//! pm3, a process manager for development scripts: the daemon's process
//! pool and per-client output buffers, the paths it keeps its files in,
//! the answers of its service, and how a client reaches the daemon.
pub mod boot;
pub mod dir;
pub mod log_buffer;
pub mod pool;
pub mod service;
