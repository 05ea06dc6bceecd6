//! Serial-device bridge engine: connection lifecycle, bounded scrollback,
//! and the per-step decisions of the pumps and client sessions.

pub mod scrollback;
pub mod config;
pub mod bridge;
pub mod session;
