//! The terminal interface.
pub mod app;
pub mod app_laws;
pub mod cli;
pub mod dock;
pub mod engine;
pub mod loop_laws;
pub mod render;
pub mod frame_laws;
pub mod key_laws;
pub mod render_laws;
pub mod rewind;
pub mod rows;
pub mod runtime;
pub mod scene;
pub mod screen_laws;
pub mod text;
pub mod theme;
