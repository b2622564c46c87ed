//! The herdr session: its protocol, its events, and what becomes of them.
pub mod cli;
pub mod detect;
pub mod detect_laws;
pub mod json;
pub mod log;
pub mod prompt;
pub mod pump;
pub mod recorder;
pub mod session;
pub mod settle;
pub mod settle_laws;
pub mod supervise;
pub mod turn_history;
pub mod turn_laws;
pub mod watch_laws;
pub mod wire;
pub mod wire_laws;
