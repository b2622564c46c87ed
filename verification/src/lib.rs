//! Undo for AI coding agents: the verified core.
pub mod calendar;
pub mod call_laws;
pub mod calls;
pub mod digest;
pub mod git;
pub mod herdr;
pub mod lock;
pub mod model_laws;
pub mod ops;
pub mod order;
pub mod paths;
pub mod repo;
pub mod report;
pub mod shadow;
pub mod store;
pub mod store_laws;
pub mod strings;
pub mod table;
pub mod text_laws;
pub mod tui;
pub mod word_laws;
