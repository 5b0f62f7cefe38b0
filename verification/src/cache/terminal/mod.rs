//! Terminal-specific cache: packed cells, a style table and a grid with
//! scrollback history.

use vstd::prelude::*;

pub mod cache;
mod grid_cache;
pub mod packed;

pub use cache::TrimEvent;
pub use packed::{Cell, PackedCell, Style, StyleId, StyleTable, pack_cell, unpack_cell};

verus! {

} // verus!
