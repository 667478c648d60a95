//! Notifier core: prompt sessions over a long-polling chat transport.
//!
//! The library decides; it performs no call. A driver sends what a session
//! asks for and reports back what the service replied.

pub mod config;
pub mod cursor;
pub mod dispatch;
pub mod laws;
pub mod outcome;
pub mod payload;
pub mod protocol;
pub mod session;
pub mod text;
pub mod transport;
