//! Diagnostics that a running client answers over a local socket.

use vstd::prelude::*;

pub mod ipc;

verus! {

/// What a diagnostics client asks for.
#[derive(Debug, Clone, Copy, PartialEq, Eq, Structural)]
pub enum DiagnosticRequest {
    GetCursorState,
    GetTerminalDimensions,
    GetCacheState,
    GetRendererState,
}

/// The cursor as the client's cache knows it.
#[derive(Debug, Clone, Copy, PartialEq, Eq, Structural)]
pub struct CursorState {
    pub row: usize,
    pub col: usize,
    pub seq: u64,
    pub visible: bool,
    pub authoritative: bool,
    pub cursor_support: bool,
}

/// The grid and viewport sizes.
#[derive(Debug, Clone, Copy, PartialEq, Eq, Structural)]
pub struct TerminalDimensions {
    pub rows: usize,
    pub cols: usize,
    pub viewport_rows: usize,
    pub viewport_cols: usize,
}

/// The extent of the client's grid cache.
#[derive(Debug, Clone, Copy, PartialEq, Eq, Structural)]
pub struct CacheState {
    pub grid_rows: usize,
    pub grid_cols: usize,
    pub row_offset: u64,
    pub first_row_id: Option<u64>,
    pub last_row_id: Option<u64>,
}

/// What the renderer actually draws.
#[derive(Debug, Clone, Copy)]
pub struct RendererState {
    pub cursor_row: u64,
    pub cursor_col: usize,
    pub cursor_visible: bool,
    pub base_row: u64,
    pub viewport_top: u64,
    pub cursor_viewport_position: Option<(u16, u16)>,
}

/// The answer to a diagnostic request.
#[derive(Debug, Clone)]
pub enum DiagnosticResponse {
    CursorState(CursorState),
    TerminalDimensions(TerminalDimensions),
    CacheState(CacheState),
    RendererState(RendererState),
    Error(String),
}

} // verus!
