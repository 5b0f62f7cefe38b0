//! Client-side core of the Beach terminal-sharing tool: the grid caches that
//! hold terminal cells, the predictive local echo, copy-mode helpers and
//! small configuration and diagnostic types.

pub mod assoc;
pub mod auth;
pub mod cache;
pub mod config;
pub mod debug;
pub mod client;
pub mod protocol;
pub mod text;
