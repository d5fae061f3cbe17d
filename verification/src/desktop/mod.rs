pub mod client;
pub mod clipboard;
pub mod command;
pub mod config;
pub mod sync;
pub mod tray;
