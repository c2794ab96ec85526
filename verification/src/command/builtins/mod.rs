//! Built-in command implementations.

pub mod util;
pub mod session;
pub mod client;
pub mod server_cmds;
pub mod display;
pub mod options;
pub mod environment;
pub mod paste;
pub mod window;
pub mod pane;
