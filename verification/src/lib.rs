//! Verified core of a terminal multiplexer: layouts, styles, copy mode,
//! key bindings, hooks and command handling.

pub mod text;
pub mod clock;
pub mod assoc;
pub mod hooks;
pub mod style;
pub mod client;
pub mod screen;
pub mod copymode;
pub mod keybind;
pub mod layout;
pub mod server;
pub mod command;
pub mod config;
pub mod cli;
pub mod overlay;
pub mod format;
pub mod render;
