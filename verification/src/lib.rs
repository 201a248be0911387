pub mod text;
pub mod common;
pub mod config;
pub mod agent;
pub mod launcher;
pub mod compositor;
pub mod mode;
pub mod ai;
pub mod repl;
pub mod tui;
pub mod session;
pub mod settings;
pub mod voice;
pub mod setup;
