//! Client-side logic: predictive local echo, selections and copy-mode
//! helpers.

pub mod predictive_echo;
pub mod grid_renderer;
pub mod terminal;
pub mod terminal_client;
