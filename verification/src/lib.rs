pub mod client;
pub mod clock;
pub mod config;
pub mod daemon;
pub mod doctor;
pub mod hermes;
pub mod json;
pub mod protocol;
pub mod repo_sync;
pub mod state;
pub mod text;
pub mod tui;
