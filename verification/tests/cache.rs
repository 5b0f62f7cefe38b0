use beach::cache::grid::AtomicGrid;
use beach::cache::terminal::cache::TerminalGrid;
use beach::cache::terminal::packed::{pack_cell, unpack_cell, PackedCell, Style, StyleId, StyleTable};
use beach::cache::{CellSnapshot, GridCache, WriteError, WriteOutcome};

#[test]
fn atomic_grid_writes_only_newer_sequences() {
    let mut grid = AtomicGrid::new(2, 3, 0, 5);
    assert_eq!(grid.dims(), (2, 3));
    assert_eq!(grid.write_cell_if_newer(0, 1, 4, 9), Ok(WriteOutcome::SkippedOlder));
    assert_eq!(grid.write_cell_if_newer(0, 1, 5, 9), Ok(WriteOutcome::SkippedEqual));
    assert_eq!(grid.write_cell_if_newer(0, 1, 6, 9), Ok(WriteOutcome::Written));
    assert_eq!(grid.get_cell_relaxed(0, 1), Some(CellSnapshot::new(9, 6)));
    assert_eq!(grid.get_cell_relaxed(0, 0), Some(CellSnapshot::new(0, 5)));
    assert_eq!(grid.write_cell_if_newer(2, 0, 7, 1), Err(WriteError::CoordOutOfBounds));
    assert_eq!(grid.write_cell_if_newer(0, 3, 7, 1), Err(WriteError::CoordOutOfBounds));
    assert_eq!(grid.get_cell_relaxed(0, 3), None);
}

#[test]
fn atomic_grid_fill_counts_written_and_skipped() {
    let mut grid = AtomicGrid::new(2, 3, 0, 0);
    grid.write_cell_if_newer(1, 1, 10, 4).unwrap();
    assert_eq!(grid.fill_rect_if_newer(0, 0, 2, 3, 5, 8), Ok((5, 1)));
    assert_eq!(grid.get_cell_relaxed(1, 1), Some(CellSnapshot::new(4, 10)));
    assert_eq!(grid.get_cell_relaxed(1, 2), Some(CellSnapshot::new(8, 5)));
    assert_eq!(grid.fill_rect_if_newer(1, 0, 0, 3, 9, 1), Ok((0, 0)));
    assert_eq!(grid.fill_rect_if_newer(0, 0, 3, 1, 9, 1), Err(WriteError::CoordOutOfBounds));
}

#[test]
fn atomic_grid_frozen_rows_refuse_writes_and_thaw_back() {
    let mut grid = AtomicGrid::new(1, 2, 3, 1);
    grid.write_cell_if_newer(0, 0, 2, 7).unwrap();
    assert_eq!(grid.freeze_row(0), Ok(()));
    assert_eq!(grid.write_cell_if_newer(0, 0, 9, 1), Err(WriteError::CoordOutOfBounds));
    assert_eq!(grid.get_cell_relaxed(0, 0), Some(CellSnapshot::new(7, 2)));
    let mut out = [0u64; 2];
    assert_eq!(grid.snapshot_row_into(0, &mut out), Ok(()));
    assert_eq!(out, [7, 3]);
    assert_eq!(grid.thaw_row(0, 0), Ok(()));
    assert_eq!(grid.write_cell_if_newer(0, 0, 9, 1), Ok(WriteOutcome::Written));
    assert_eq!(grid.freeze_row(4), Err(WriteError::CoordOutOfBounds));
    let mut short = [0u64; 1];
    assert_eq!(grid.snapshot_row_into(0, &mut short), Err(WriteError::CoordOutOfBounds));
}

#[test]
fn packed_cells_round_trip() {
    let cell = pack_cell('🌊', StyleId(42));
    assert_eq!(cell.raw(), (('🌊' as u64) << 32) | 42);
    assert_eq!(unpack_cell(cell), ('🌊', StyleId(42)));
    assert_eq!(PackedCell::from_raw(cell.raw()), cell);
    let raw: u64 = cell.into();
    assert_eq!(PackedCell::from(raw), cell);
}

#[test]
fn style_table_deduplicates() {
    let mut table = StyleTable::new();
    assert_eq!(table.len(), 1);
    assert_eq!(table.get(StyleId::default_id()), Some(Style::default()));
    let red = Style { fg: 0x0200_0000 | 0xff0000, bg: 0, attrs: 1 };
    let id = table.ensure_id(red);
    assert_eq!(id, StyleId(1));
    assert_eq!(table.ensure_id(red), StyleId(1));
    assert_eq!(table.ensure_id(Style::default()), StyleId(0));
    assert_eq!(table.get(id), Some(red));
    assert_eq!(table.get(StyleId(5)), None);
    assert_eq!(table.len(), 2);
}

#[test]
fn terminal_grid_write_then_read() {
    let mut grid = TerminalGrid::new(2, 3);
    let cell = TerminalGrid::pack_char_with_style('H', StyleId::default_id());
    assert_eq!(grid.write_packed_cell_if_newer(1, 2, 5, cell), Ok(WriteOutcome::Written));
    assert_eq!(grid.write_packed_cell_if_newer(1, 2, 5, cell), Ok(WriteOutcome::SkippedEqual));
    assert_eq!(grid.write_packed_cell_if_newer(1, 2, 4, cell), Ok(WriteOutcome::SkippedOlder));
    let snap = grid.get_cell_relaxed(1, 2).unwrap();
    assert_eq!(snap.seq, 5);
    assert_eq!(snap.cell, cell);
    let heavy = snap.unpack(&grid.style_table);
    assert_eq!(heavy.ch, 'H');
    assert_eq!(heavy.style, Style::default());
}

#[test]
fn terminal_grid_grows_rows_and_columns_on_write() {
    let mut grid = TerminalGrid::new(1, 1);
    let cell = pack_cell('z', StyleId(0));
    assert_eq!(grid.write_packed_cell_if_newer(3, 4, 1, cell), Ok(WriteOutcome::Written));
    assert_eq!(grid.rows(), 4);
    assert_eq!(grid.cols(), 5);
    assert_eq!(grid.first_row_id(), Some(0));
    assert_eq!(grid.last_row_id(), Some(3));
    assert_eq!(grid.next_row_id(), 4);
    assert_eq!(grid.get_cell_relaxed(0, 4).unwrap().cell, pack_cell(' ', StyleId(0)));
}

#[test]
fn history_trims_emit_events() {
    let mut grid = TerminalGrid::with_history_limit(2, 1, 3);
    let style_id = grid.ensure_style_id(Style::default());
    let packed = TerminalGrid::pack_char_with_style('x', style_id);
    for row in 0..10 {
        grid.write_packed_cell_if_newer(row, 0, row as u64 + 1, packed).expect("write row");
    }
    let events = grid.drain_trim_events();
    assert!(!events.is_empty());
    let total_trimmed: usize = events.iter().map(|event| event.count).sum();
    assert!(total_trimmed >= 7);
    assert!(grid.rows() <= 3);
    assert_eq!(grid.history_limit(), 3);
    assert_eq!(grid.row_offset(), 7);
    assert_eq!(grid.first_row_id(), Some(7));
    assert_eq!(grid.index_of_row(8), Some(1));
    assert_eq!(grid.index_of_row(6), None);
    assert!(grid.drain_trim_events().is_empty());
}

#[test]
fn writes_below_the_trimmed_base_are_refused() {
    let mut grid = TerminalGrid::with_history_limit(1, 1, 1);
    let packed = pack_cell('a', StyleId(0));
    grid.write_packed_cell_if_newer(5, 0, 1, packed).unwrap();
    assert_eq!(grid.row_offset(), 5);
    assert_eq!(grid.write_packed_cell_if_newer(2, 0, 2, packed), Err(WriteError::CoordOutOfBounds));
}

#[test]
fn terminal_grid_fill_counts_cells() {
    let mut grid = TerminalGrid::new(2, 2);
    let a = pack_cell('a', StyleId(0));
    assert_eq!(grid.write_packed_cell_if_newer(0, 0, 9, a), Ok(WriteOutcome::Written));
    assert_eq!(grid.fill_rect_with_cell_if_newer(0, 0, 2, 2, 5, a), Ok((3, 1)));
    assert_eq!(grid.fill_rect_with_cell_if_newer(1, 0, 0, 2, 5, a), Ok((0, 0)));
}

#[test]
fn viewport_size_is_at_least_one() {
    let mut grid = TerminalGrid::new(0, 0);
    assert_eq!(grid.viewport_size(), (1, 1));
    grid.set_viewport_size(0, 7);
    assert_eq!(grid.viewport_size(), (1, 7));
}

#[test]
fn clear_viewport_starts_fresh_rows_and_records_a_trim() {
    let mut grid = TerminalGrid::new(3, 2);
    grid.set_viewport_size(2, 2);
    grid.clear_viewport();
    assert_eq!(grid.rows(), 2);
    assert_eq!(grid.first_row_id(), Some(3));
    assert_eq!(grid.row_offset(), 3);
    let events = grid.drain_trim_events();
    assert_eq!(events.len(), 1);
    assert_eq!((events[0].start, events[0].count), (0, 3));
}

#[test]
fn set_row_offset_renumbers_rows() {
    let mut grid = TerminalGrid::new(2, 1);
    grid.set_row_offset(10);
    assert_eq!(grid.row_id_at(0), Some(10));
    assert_eq!(grid.row_id_at(1), Some(11));
    assert_eq!(grid.row_id_at(2), None);
    assert_eq!(grid.next_row_id(), 12);
    let events = grid.drain_trim_events();
    assert_eq!((events[0].start, events[0].count), (0, 10));
}

#[test]
fn terminal_snapshot_needs_room_for_the_row() {
    let grid = TerminalGrid::new(1, 2);
    let mut out = [9u64; 3];
    assert_eq!(grid.snapshot_row_into(0, &mut out), Ok(()));
    assert_eq!(out[0], pack_cell(' ', StyleId(0)).raw());
    assert_eq!(out[2], 9);
    let mut short = [0u64; 1];
    assert_eq!(grid.snapshot_row_into(0, &mut short), Err(WriteError::CoordOutOfBounds));
    assert_eq!(grid.snapshot_row_into(1, &mut out), Err(WriteError::CoordOutOfBounds));
}
